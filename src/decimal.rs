//! Fixed-point decimal values held as a mantissa and a power-of-ten scale.
//! Arithmetic on them is carried out by `rust_decimal`.

use rust_decimal::Decimal;
use vstd::prelude::*;

verus! {

/// Largest mantissa magnitude a decimal can hold (96 bits).
pub const MAX_MANTISSA: i128 = 79228162514264337593543950335;

/// Largest number of fractional digits.
pub const MAX_SCALE: u32 = 28;

/// The number `mantissa / 10^scale`.
#[derive(Clone, Copy, Debug)]
pub struct Dec {
    pub mantissa: i128,
    pub scale: u32,
}

pub open spec fn pow10(n: nat) -> int
    decreases n,
{
    if n == 0 {
        1
    } else {
        10 * pow10((n - 1) as nat)
    }
}

pub proof fn lemma_pow10_positive(n: nat)
    ensures
        pow10(n) > 0,
    decreases n,
{
    if n > 0 {
        lemma_pow10_positive((n - 1) as nat);
    }
}

impl Dec {
    /// Mantissa and scale lie in the range a decimal can represent.
    pub open spec fn wf(self) -> bool {
        -MAX_MANTISSA <= self.mantissa <= MAX_MANTISSA && self.scale <= MAX_SCALE
    }

    /// The value multiplied by `10^28`: an exact integer for every well-formed decimal.
    pub open spec fn scaled(self) -> int {
        self.mantissa * pow10((MAX_SCALE - self.scale) as nat)
    }

    pub open spec fn spec_le(self, other: Dec) -> bool {
        self.scaled() <= other.scaled()
    }

    pub open spec fn spec_lt(self, other: Dec) -> bool {
        self.scaled() < other.scaled()
    }

    pub open spec fn is_zero(self) -> bool {
        self.scaled() == 0
    }

    /// Builds `mantissa / 10^scale`.
    pub fn new(mantissa: i128, scale: u32) -> (r: Dec)
        requires
            -MAX_MANTISSA <= mantissa <= MAX_MANTISSA,
            scale <= MAX_SCALE,
        ensures
            r.mantissa == mantissa,
            r.scale == scale,
            r.wf(),
    {
        Dec { mantissa, scale }
    }

    /// The whole number `v`.
    pub fn from_u64(v: u64) -> (r: Dec)
        ensures
            r.mantissa == v as int,
            r.scale == 0,
            r.wf(),
    {
        Dec { mantissa: v as i128, scale: 0 }
    }

    /// Zero.
    pub fn zero() -> (r: Dec)
        ensures
            r.mantissa == 0,
            r.scale == 0,
            r.wf(),
            r.scaled() == 0,
    {
        Dec { mantissa: 0, scale: 0 }
    }

    /// One.
    pub fn one() -> (r: Dec)
        ensures
            r.mantissa == 1,
            r.scale == 0,
            r.wf(),
    {
        Dec { mantissa: 1, scale: 0 }
    }

    /// `self <= other`, compared on the values.
    pub fn le(&self, other: &Dec) -> (r: bool)
        requires
            self.wf(),
            other.wf(),
        ensures
            r == self.spec_le(*other),
    {
        decimal_le(*self, *other)
    }

    /// `self < other`, compared on the values.
    pub fn lt(&self, other: &Dec) -> (r: bool)
        requires
            self.wf(),
            other.wf(),
        ensures
            r == self.spec_lt(*other),
    {
        !decimal_le(*other, *self)
    }

    /// Whether both hold the same value (`1.0` and `1.00` do).
    pub fn same_value(&self, other: &Dec) -> (r: bool)
        requires
            self.wf(),
            other.wf(),
        ensures
            r == (self.scaled() == other.scaled()),
    {
        decimal_le(*self, *other) && decimal_le(*other, *self)
    }

    /// The smaller of the two values; `self` where they are equal.
    pub fn min_of(self, other: Dec) -> (r: Dec)
        requires
            self.wf(),
            other.wf(),
        ensures
            r == (if self.spec_le(other) { self } else { other }),
    {
        if decimal_le(self, other) {
            self
        } else {
            other
        }
    }
}

/// What `rust_decimal` returns for `a + b` (`None` on overflow).
pub uninterp spec fn decimal_sum(a: Dec, b: Dec) -> Option<Dec>;

/// What `rust_decimal` returns for `a - b` (`None` on overflow).
pub uninterp spec fn decimal_difference(a: Dec, b: Dec) -> Option<Dec>;

/// What `rust_decimal` returns for `a * b` (`None` on overflow).
pub uninterp spec fn decimal_product(a: Dec, b: Dec) -> Option<Dec>;

/// What `rust_decimal` returns for `a / b` (`None` on overflow or a zero divisor).
pub uninterp spec fn decimal_quotient(a: Dec, b: Dec) -> Option<Dec>;

/// What `rust_decimal` parses from the text `s` (`None` where it refuses it).
pub uninterp spec fn decimal_parse(s: Seq<char>) -> Option<Dec>;

/// Relies on `Decimal::cmp` (through `<=`), which compares the numeric values exactly.
#[verifier::external_body]
fn decimal_le(a: Dec, b: Dec) -> (r: bool)
    requires
        a.wf(),
        b.wf(),
    ensures
        r == a.spec_le(b),
{
    Decimal::from_i128_with_scale(a.mantissa, a.scale)
        <= Decimal::from_i128_with_scale(b.mantissa, b.scale)
}

/// Relies on `Decimal::checked_add`: `None` on overflow, else a decimal within range.
#[verifier::external_body]
pub(crate) fn checked_add(a: Dec, b: Dec) -> (r: Option<Dec>)
    requires
        a.wf(),
        b.wf(),
    ensures
        r == decimal_sum(a, b),
        r matches Some(d) ==> d.wf(),
{
    Decimal::from_i128_with_scale(a.mantissa, a.scale)
        .checked_add(Decimal::from_i128_with_scale(b.mantissa, b.scale))
        .map(|d| Dec { mantissa: d.mantissa(), scale: d.scale() })
}

/// Relies on `Decimal::checked_sub`: `None` on overflow, else a decimal within range.
#[verifier::external_body]
pub(crate) fn checked_sub(a: Dec, b: Dec) -> (r: Option<Dec>)
    requires
        a.wf(),
        b.wf(),
    ensures
        r == decimal_difference(a, b),
        r matches Some(d) ==> d.wf(),
{
    Decimal::from_i128_with_scale(a.mantissa, a.scale)
        .checked_sub(Decimal::from_i128_with_scale(b.mantissa, b.scale))
        .map(|d| Dec { mantissa: d.mantissa(), scale: d.scale() })
}

/// Relies on `Decimal::checked_mul`: `None` on overflow, else a decimal within range.
#[verifier::external_body]
pub(crate) fn checked_mul(a: Dec, b: Dec) -> (r: Option<Dec>)
    requires
        a.wf(),
        b.wf(),
    ensures
        r == decimal_product(a, b),
        r matches Some(d) ==> d.wf(),
{
    Decimal::from_i128_with_scale(a.mantissa, a.scale)
        .checked_mul(Decimal::from_i128_with_scale(b.mantissa, b.scale))
        .map(|d| Dec { mantissa: d.mantissa(), scale: d.scale() })
}

/// Relies on `Decimal::checked_div`: `None` on overflow or a zero divisor, else a
/// decimal within range.
#[verifier::external_body]
pub(crate) fn checked_div(a: Dec, b: Dec) -> (r: Option<Dec>)
    requires
        a.wf(),
        b.wf(),
    ensures
        r == decimal_quotient(a, b),
        r matches Some(d) ==> d.wf(),
        b.is_zero() ==> r is None,
{
    Decimal::from_i128_with_scale(a.mantissa, a.scale)
        .checked_div(Decimal::from_i128_with_scale(b.mantissa, b.scale))
        .map(|d| Dec { mantissa: d.mantissa(), scale: d.scale() })
}

/// Relies on `Decimal::from_str`: the decimal it reads from `s`, `None` where it
/// refuses the text.
#[verifier::external_body]
pub(crate) fn parse_decimal(s: &str) -> (r: Option<Dec>)
    ensures
        r == decimal_parse(s@),
        r matches Some(d) ==> d.wf(),
{
    <Decimal as std::str::FromStr>::from_str(s)
        .ok()
        .map(|d| Dec { mantissa: d.mantissa(), scale: d.scale() })
}

} // verus!
