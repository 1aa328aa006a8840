//! The constant-product pool venue: its token table, and prices and synthetic
//! book levels read from the router's quoted output amounts.

use crate::decimal::{
    checked_div, checked_mul, decimal_parse, decimal_product, decimal_quotient, lemma_pow10_positive,
    parse_decimal, pow10, Dec,
};
use crate::exchanges::{TradingFees, VenueError};
use crate::models::{parse_trading_pair, split_pair, text_eq, upper_of, uppercase, Balance, OrderBookLevel, Price, TradingPair};
use vstd::prelude::*;

verus! {

/// Router address of the pool venue.
pub fn router_address() -> (r: &'static str)
    ensures
        r@ == "0x7a250d5630B4cF539739dF2C5dAcb4c659F2488D"@,
{
    "0x7a250d5630B4cF539739dF2C5dAcb4c659F2488D"
}

/// Size step of the synthetic book, in base units.
pub const LEVEL_STEP: u64 = 100;

/// The address of a known token, by upper-case symbol.
pub open spec fn token_address_of(sym: Seq<char>) -> Option<Seq<char>> {
    if sym == "USDC"@ {
        Some("0xA0b86a33E6441e5C46EE5F395f4c0C2D45C41B1A"@)
    } else if sym == "USDT"@ {
        Some("0xdAC17F958D2ee523a2206206994597C13D831ec7"@)
    } else if sym == "DAI"@ {
        Some("0x6B175474E89094C44Da98b954EedeAC495271d0F"@)
    } else if sym == "WETH"@ {
        Some("0xC02aaA39b223FE8D0A0e5C4F27eAD9083C756Cc2"@)
    } else if sym == "WBTC"@ {
        Some("0x2260FAC5E5542a773Aa44fBCfeDf7C193bc2C599"@)
    } else {
        None
    }
}

/// The token address of `symbol`, in any case.
pub fn get_token_address(symbol: &str) -> (r: Option<&'static str>)
    ensures
        r is Some <==> token_address_of(upper_of(symbol@)) is Some,
        r matches Some(a) ==> Some(a@) == token_address_of(upper_of(symbol@)),
{
    let up = uppercase(symbol);
    let s = up.as_str();
    if text_eq(s, "USDC") {
        Some("0xA0b86a33E6441e5C46EE5F395f4c0C2D45C41B1A")
    } else if text_eq(s, "USDT") {
        Some("0xdAC17F958D2ee523a2206206994597C13D831ec7")
    } else if text_eq(s, "DAI") {
        Some("0x6B175474E89094C44Da98b954EedeAC495271d0F")
    } else if text_eq(s, "WETH") {
        Some("0xC02aaA39b223FE8D0A0e5C4F27eAD9083C756Cc2")
    } else if text_eq(s, "WBTC") {
        Some("0x2260FAC5E5542a773Aa44fBCfeDf7C193bc2C599")
    } else {
        None
    }
}

/// Both tokens of the pair are in the table.
pub fn supports_pair(pair: &TradingPair) -> (r: bool)
    ensures
        r == (token_address_of(upper_of(pair.base@)) is Some && token_address_of(upper_of(pair.quote@)) is Some),
{
    get_token_address(pair.base.as_str()).is_some() && get_token_address(pair.quote.as_str()).is_some()
}

/// The configured pair texts that are well formed and whose tokens are known, as
/// pairs: each result comes from a listed text, and every such text gives one.
pub fn get_supported_pairs(trading_pairs: &Vec<String>) -> (r: Vec<TradingPair>)
    ensures
        r@.len() <= trading_pairs@.len(),
        forall|k: int| 0 <= k < r@.len() ==> crate::exchanges::binance::listed_symbol(
            trading_pairs@,
            (#[trigger] r@[k]).symbol@,
        ) && token_address_of(upper_of(r@[k].base@)) is Some && token_address_of(upper_of(r@[k].quote@)) is Some,
        forall|i: int| 0 <= i < trading_pairs@.len() && pool_pair(#[trigger] trading_pairs@[i]@)
            ==> crate::scan::has_symbol(r@, crate::config::parsed_symbol(trading_pairs@[i]@).unwrap()),
{
    let mut r: Vec<TradingPair> = Vec::new();
    let mut i: usize = 0;
    while i < trading_pairs.len()
        invariant
            i <= trading_pairs@.len(),
            r@.len() <= i,
            forall|k: int| 0 <= k < r@.len() ==> crate::exchanges::binance::listed_symbol(
                trading_pairs@,
                (#[trigger] r@[k]).symbol@,
            ) && token_address_of(upper_of(r@[k].base@)) is Some && token_address_of(upper_of(r@[k].quote@)) is Some,
            forall|x: int| 0 <= x < i && pool_pair(#[trigger] trading_pairs@[x]@)
                ==> crate::scan::has_symbol(r@, crate::config::parsed_symbol(trading_pairs@[x]@).unwrap()),
        decreases trading_pairs@.len() - i,
    {
        match parse_trading_pair(trading_pairs[i].as_str()) {
            None => {},
            Some(p) => {
                if supports_pair(&p) {
                    let ghost old_r = r@;
                    r.push(p);
                    proof {
                        assert forall|k: int| 0 <= k < r@.len() implies crate::exchanges::binance::listed_symbol(
                            trading_pairs@,
                            (#[trigger] r@[k]).symbol@,
                        ) && token_address_of(upper_of(r@[k].base@)) is Some
                            && token_address_of(upper_of(r@[k].quote@)) is Some by {
                            if k < old_r.len() {
                                assert(r@[k] == old_r[k]);
                            } else {
                                assert(crate::config::parsed_symbol(trading_pairs@[i as int]@) == Some(r@[k].symbol@));
                            }
                        }
                        assert forall|x: int| 0 <= x < i + 1 && pool_pair(#[trigger] trading_pairs@[x]@)
                            implies crate::scan::has_symbol(r@, crate::config::parsed_symbol(trading_pairs@[x]@).unwrap()) by {
                            if x < i {
                                let sym = crate::config::parsed_symbol(trading_pairs@[x]@).unwrap();
                                let k = choose|k: int| 0 <= k < old_r.len() && old_r[k].symbol@ == sym;
                                assert(r@[k] == old_r[k]);
                            } else {
                                assert(r@[old_r.len() as int] == p);
                            }
                        }
                    }
                }
                else {
                    proof {
                        assert forall|x: int| 0 <= x < i + 1 && pool_pair(#[trigger] trading_pairs@[x]@)
                            implies crate::scan::has_symbol(r@, crate::config::parsed_symbol(trading_pairs@[x]@).unwrap()) by {
                            if x == i {
                                assert(!pool_pair(trading_pairs@[x]@));
                            }
                        }
                    }
                }
            },
        }
        i = i + 1;
    }
    r
}

/// A configured text is a well-formed pair whose two tokens the pool knows.
pub open spec fn pool_pair(s: Seq<char>) -> bool {
    match split_pair(s) {
        Some((b, q)) => token_address_of(upper_of(upper_of(b))) is Some && token_address_of(upper_of(upper_of(q))) is Some,
        None => false,
    }
}

/// The pool venue's fees: thirty basis points as maker and as taker.
pub fn uniswap_fees() -> (r: TradingFees)
    ensures
        r.maker_fee == (Dec { mantissa: 3, scale: 3 }),
        r.taker_fee == (Dec { mantissa: 3, scale: 3 }),
        r.wf(),
{
    TradingFees { maker_fee: Dec::new(3, 3), taker_fee: Dec::new(3, 3) }
}

pub proof fn lemma_pow10_monotone(a: nat, b: nat)
    requires
        a <= b,
    ensures
        pow10(a) <= pow10(b),
    decreases b,
{
    if a < b {
        lemma_pow10_monotone(a, (b - 1) as nat);
        lemma_pow10_positive((b - 1) as nat);
    }
}

/// `10^n`, or `None` where it exceeds `u64`.
pub fn power_of_ten(n: u8) -> (r: Option<u64>)
    ensures
        r matches Some(v) ==> v == pow10(n as nat),
        r is None <==> pow10(n as nat) > u64::MAX,
{
    let mut v: u64 = 1;
    let mut k: u8 = 0;
    while k < n
        invariant
            k <= n,
            v == pow10(k as nat),
        decreases n - k,
    {
        match v.checked_mul(10) {
            None => {
                proof {
                    lemma_pow10_monotone((k + 1) as nat, n as nat);
                }
                return None;
            },
            Some(w) => {
                v = w;
            },
        }
        k = k + 1;
    }
    Some(v)
}

/// Ratio by which a pool's bid is derived from its ask (a 30 bps pool).
pub open spec fn bid_factor() -> Dec {
    Dec { mantissa: 997, scale: 3 }
}

/// `amount / 10^decimals`: a raw token amount read as a whole-token quantity.
pub open spec fn token_amount(raw: Seq<char>, decimals: u8) -> Result<Dec, VenueError> {
    match decimal_parse(raw) {
        None => Err(VenueError::BadPayload),
        Some(a) => if pow10(decimals as nat) > u64::MAX {
            Err(VenueError::Overflow)
        } else {
            match decimal_quotient(a, Dec { mantissa: pow10(decimals as nat) as i128, scale: 0 }) {
                None => Err(VenueError::Overflow),
                Some(q) => Ok(q),
            }
        },
    }
}

/// Reads a raw token amount (its integer text) as a quantity of whole tokens.
pub fn to_token_amount(raw: &str, decimals: u8) -> (r: Result<Dec, VenueError>)
    ensures
        r == token_amount(raw@, decimals),
        r matches Ok(d) ==> d.wf(),
{
    let a = match parse_decimal(raw) {
        None => {
            return Err(VenueError::BadPayload);
        },
        Some(a) => a,
    };
    let unit = match power_of_ten(decimals) {
        None => {
            return Err(VenueError::Overflow);
        },
        Some(u) => u,
    };
    match checked_div(a, Dec::from_u64(unit)) {
        None => Err(VenueError::Overflow),
        Some(q) => Ok(q),
    }
}

/// A pool quote: the ask is the output for one whole base token, read in quote
/// tokens; the bid is the ask times `0.997`.
pub fn amm_price(
    exchange: String,
    pair: TradingPair,
    amount_out: &str,
    quote_decimals: u8,
    now: i64,
) -> (r: Result<Price, VenueError>)
    ensures
        match token_amount(amount_out@, quote_decimals) {
            Err(e) => r == Err::<Price, VenueError>(e),
            Ok(ask) => match decimal_product(ask, bid_factor()) {
                None => r == Err::<Price, VenueError>(VenueError::Overflow),
                Some(bid) => r matches Ok(p) && p.ask == ask && p.bid == bid && p.exchange == exchange
                    && p.pair == pair && p.timestamp == now && p.volume_24h is None,
            },
        },
{
    let ask = match to_token_amount(amount_out, quote_decimals) {
        Err(e) => {
            return Err(e);
        },
        Ok(a) => a,
    };
    match checked_mul(ask, Dec::new(997, 3)) {
        None => Err(VenueError::Overflow),
        Some(bid) => Ok(Price { exchange, pair, bid, ask, timestamp: now, volume_24h: None }),
    }
}

/// The input of synthetic level `i` (from one) in the base token's smallest
/// units: `i * 100 * 10^decimals`; `None` where it exceeds `u128`.
pub fn level_input_units(i: u64, base_decimals: u8) -> (r: Option<u128>)
    ensures
        r matches Some(v) ==> v == i * 100 * pow10(base_decimals as nat),
        r is None <==> pow10(base_decimals as nat) > u64::MAX || i * 100 * pow10(base_decimals as nat) > u128::MAX,
{
    let unit = match power_of_ten(base_decimals) {
        None => {
            return None;
        },
        Some(u) => u,
    };
    let q = (i as u128) * 100;
    q.checked_mul(unit as u128)
}

/// The synthetic ask and bid of level `i` (from one), whose quantity is `i * 100`
/// base tokens and whose quoted output is `amount_out` raw quote units.
pub open spec fn synthetic_level(amount_out: Seq<char>, quote_decimals: u8, i: int) -> Result<
    (OrderBookLevel, OrderBookLevel),
    VenueError,
> {
    let q = Dec { mantissa: (i * 100) as i128, scale: 0 };
    match token_amount(amount_out, quote_decimals) {
        Err(e) => Err(e),
        Ok(out) => match decimal_quotient(out, q) {
            None => Err(VenueError::Overflow),
            Some(price) => match decimal_product(price, bid_factor()) {
                None => Err(VenueError::Overflow),
                Some(bid) => Ok(
                    (
                        OrderBookLevel { price, quantity: q },
                        OrderBookLevel { price: bid, quantity: q },
                    ),
                ),
            },
        },
    }
}

/// The levels built from the first `n` quotes, in quote order: one `(ask, bid)`
/// per present quote, skipping absent ones; the first unreadable quote is the
/// error.
pub open spec fn synthetic_sides(quotes: Seq<Option<String>>, quote_decimals: u8, n: int) -> Result<
    Seq<(OrderBookLevel, OrderBookLevel)>,
    VenueError,
>
    decreases n,
{
    if n <= 0 {
        Ok(Seq::empty())
    } else {
        match synthetic_sides(quotes, quote_decimals, n - 1) {
            Err(e) => Err(e),
            Ok(s) => match quotes[n - 1] {
                None => Ok(s),
                Some(t) => match synthetic_level(t@, quote_decimals, n) {
                    Err(e) => Err(e),
                    Ok(lv) => Ok(s.push(lv)),
                },
            },
        }
    }
}

/// Once a prefix of the quotes fails, every longer prefix fails the same way.
pub proof fn lemma_sides_error_persists(quotes: Seq<Option<String>>, quote_decimals: u8, n: int, m: int)
    requires
        0 <= n <= m,
        synthetic_sides(quotes, quote_decimals, n) is Err,
    ensures
        synthetic_sides(quotes, quote_decimals, m) == synthetic_sides(quotes, quote_decimals, n),
    decreases m - n,
{
    if n < m {
        lemma_sides_error_persists(quotes, quote_decimals, n, m - 1);
    }
}

/// Where every quote is present and readable, level `j` of the book is built
/// from quote `j` and there are as many levels as quotes.
pub proof fn lemma_full_book(quotes: Seq<Option<String>>, quote_decimals: u8, n: int)
    requires
        0 <= n <= quotes.len(),
        forall|j: int| 0 <= j < n ==> (#[trigger] quotes[j]) is Some
            && synthetic_level(quotes[j].unwrap()@, quote_decimals, j + 1) is Ok,
    ensures
        synthetic_sides(quotes, quote_decimals, n) matches Ok(s) && s.len() == n && forall|j: int| 0 <= j < n
            ==> Ok::<(OrderBookLevel, OrderBookLevel), VenueError>(#[trigger] s[j]) == synthetic_level(
                quotes[j].unwrap()@,
                quote_decimals,
                j + 1,
            ),
    decreases n,
{
    if n > 0 {
        lemma_full_book(quotes, quote_decimals, n - 1);
        assert(quotes[n - 1] is Some);
    }
}

/// The book a pool offers, built level by level from the router's quotes:
/// `quotes[k]` is the output quoted for level `k + 1` (`i * 100` base tokens),
/// `None` where the router call failed, and that level is then left out. Levels
/// keep the quote order; an error if a quote cannot be read.
pub fn synthetic_book(quotes: &Vec<Option<String>>, quote_decimals: u8) -> (r: Result<
    (Vec<OrderBookLevel>, Vec<OrderBookLevel>),
    VenueError,
>)
    requires
        quotes@.len() < 0x1000_0000_0000,
    ensures
        match synthetic_sides(quotes@, quote_decimals, quotes@.len() as int) {
            Err(e) => r == Err::<(Vec<OrderBookLevel>, Vec<OrderBookLevel>), VenueError>(e),
            Ok(s) => r matches Ok((asks, bids)) && asks@.len() == s.len() && bids@.len() == s.len()
                && forall|k: int| 0 <= k < s.len() ==> (asks@[k], bids@[k]) == #[trigger] s[k],
        },
        (forall|j: int| 0 <= j < quotes@.len() ==> (#[trigger] quotes@[j]) is Some
            && synthetic_level(quotes@[j].unwrap()@, quote_decimals, j + 1) is Ok) ==> (r matches Ok((asks, bids))
            && asks@.len() == quotes@.len() && bids@.len() == quotes@.len() && forall|j: int|
            0 <= j < quotes@.len() ==> synthetic_level(quotes@[j].unwrap()@, quote_decimals, j + 1) == Ok::<
                (OrderBookLevel, OrderBookLevel),
                VenueError,
            >((#[trigger] asks@[j], bids@[j]))),
{
    let mut asks: Vec<OrderBookLevel> = Vec::new();
    let mut bids: Vec<OrderBookLevel> = Vec::new();
    let mut j: usize = 0;
    while j < quotes.len()
        invariant
            j <= quotes@.len(),
            quotes@.len() < 0x1000_0000_0000,
            synthetic_sides(quotes@, quote_decimals, j as int) matches Ok(s) && asks@.len() == s.len()
                && bids@.len() == s.len() && forall|k: int| 0 <= k < s.len() ==> (asks@[k], bids@[k]) == #[trigger] s[k],
        decreases quotes@.len() - j,
    {
        let ghost s = synthetic_sides(quotes@, quote_decimals, j as int).unwrap();
        match &quotes[j] {
            None => {},
            Some(text) => {
                let q = Dec::new(((j as i128) + 1) * 100, 0);
                let out = match to_token_amount(text.as_str(), quote_decimals) {
                    Err(e) => {
                        proof {
                            lemma_sides_error_persists(quotes@, quote_decimals, j + 1, quotes@.len() as int);
                        }
                        return Err(e);
                    },
                    Ok(o) => o,
                };
                let price = match checked_div(out, q) {
                    None => {
                        proof {
                            lemma_sides_error_persists(quotes@, quote_decimals, j + 1, quotes@.len() as int);
                        }
                        return Err(VenueError::Overflow);
                    },
                    Some(p) => p,
                };
                let bid = match checked_mul(price, Dec::new(997, 3)) {
                    None => {
                        proof {
                            lemma_sides_error_persists(quotes@, quote_decimals, j + 1, quotes@.len() as int);
                        }
                        return Err(VenueError::Overflow);
                    },
                    Some(b) => b,
                };
                asks.push(OrderBookLevel { price, quantity: q });
                bids.push(OrderBookLevel { price: bid, quantity: q });
                proof {
                    let s2 = synthetic_sides(quotes@, quote_decimals, j + 1).unwrap();
                    assert(s2 == s.push((asks@[s.len() as int], bids@[s.len() as int])));
                    assert forall|k: int| 0 <= k < s2.len() implies (asks@[k], bids@[k]) == #[trigger] s2[k] by {
                        if k < s.len() {
                            assert(s2[k] == s[k]);
                        }
                    }
                }
            },
        }
        j = j + 1;
    }
    proof {
        if forall|x: int| 0 <= x < quotes@.len() ==> (#[trigger] quotes@[x]) is Some
            && synthetic_level(quotes@[x].unwrap()@, quote_decimals, x + 1) is Ok {
            lemma_full_book(quotes@, quote_decimals, quotes@.len() as int);
            let s = synthetic_sides(quotes@, quote_decimals, quotes@.len() as int).unwrap();
            assert forall|x: int| 0 <= x < quotes@.len() implies synthetic_level(
                quotes@[x].unwrap()@,
                quote_decimals,
                x + 1,
            ) == Ok::<(OrderBookLevel, OrderBookLevel), VenueError>((#[trigger] asks@[x], bids@[x])) by {
                assert((asks@[x], bids@[x]) == s[x]);
            }
        }
    }
    Ok((asks, bids))
}

/// A wallet holding of `asset` from its raw amount: `None` where it is zero or
/// less, else a balance with everything free.
pub fn token_holding(asset: String, raw: &str, decimals: u8) -> (r: Result<Option<Balance>, VenueError>)
    ensures
        match token_amount(raw@, decimals) {
            Err(e) => r == Err::<Option<Balance>, VenueError>(e),
            Ok(a) => if a.scaled() > 0 {
                r matches Ok(Some(b)) && b.asset == asset && b.free == a && b.total == a
                    && b.locked.scaled() == 0 && b.usd_value.scaled() == 0
            } else {
                r == Ok::<Option<Balance>, VenueError>(None)
            },
        },
{
    let a = match to_token_amount(raw, decimals) {
        Err(e) => {
            return Err(e);
        },
        Ok(a) => a,
    };
    if Dec::zero().lt(&a) {
        Ok(Some(Balance { asset, free: a, locked: Dec::zero(), total: a, usd_value: Dec::zero() }))
    } else {
        Ok(None)
    }
}

} // verus!
