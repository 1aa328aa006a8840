//! The order-book venue: symbol mapping, request signing and the reading of its
//! replies.

use crate::decimal::{checked_add, decimal_parse, decimal_sum, parse_decimal, Dec};
use crate::exchanges::{TradingFees, VenueError};
use crate::models::{
    parse_trading_pair, split_pair, text_eq, Balance, OrderBookLevel, Price, TradingPair,
};
use hmac::{Hmac, Mac};
use sha2::Sha256;
use vstd::prelude::*;

verus! {

/// The venue's symbol for a pair: base and quote joined without a separator.
pub fn convert_symbol(pair: &TradingPair) -> (r: String)
    ensures
        r@ == pair.base@ + pair.quote@,
{
    let mut s = pair.base.clone();
    s.append(pair.quote.as_str());
    s
}

/// What HMAC-SHA256 computes over the bytes of `msg` with the bytes of `key`.
pub uninterp spec fn hmac_sha256_of(key: Seq<char>, msg: Seq<char>) -> Seq<u8>;

/// Relies on `hmac::Hmac<sha2::Sha256>`: `new_from_slice` takes a key of any
/// length, and the finalised code is 32 bytes.
#[verifier::external_body]
fn hmac_sha256(key: &str, msg: &str) -> (r: Vec<u8>)
    ensures
        r@ == hmac_sha256_of(key@, msg@),
        r@.len() == 32,
{
    match Hmac::<Sha256>::new_from_slice(key.as_bytes()) {
        Ok(mut mac) => {
            mac.update(msg.as_bytes());
            mac.finalize().into_bytes().to_vec()
        },
        Err(_) => Vec::new(),
    }
}

/// Lower-case hexadecimal digit of `n` (below 16).
pub open spec fn hex_digit(n: int) -> char {
    "0123456789abcdef"@[n]
}

/// Two lower-case hex digits per byte, high nibble first.
pub open spec fn is_hex_of(s: Seq<char>, b: Seq<u8>) -> bool {
    &&& s.len() == 2 * b.len()
    &&& forall|i: int| 0 <= i < b.len() ==> s[2 * i] == hex_digit((#[trigger] b[i]) as int / 16)
        && s[2 * i + 1] == hex_digit(b[i] as int % 16)
}

/// Relies on `hex::encode`, which writes each byte as two lower-case digits.
#[verifier::external_body]
fn hex_encode(b: &Vec<u8>) -> (r: String)
    ensures
        is_hex_of(r@, b@),
{
    hex::encode(b)
}

/// The request signature: the hex-encoded HMAC-SHA256 of `query` under `secret`.
pub fn create_signature(secret: &str, query: &str) -> (r: String)
    ensures
        is_hex_of(r@, hmac_sha256_of(secret@, query@)),
        r@.len() == 64,
{
    let mac = hmac_sha256(secret, query);
    hex_encode(&mac)
}

/// The form-encoded text `serde_urlencoded` writes for a sequence of pairs.
pub uninterp spec fn urlencoded_of(pairs: Seq<(Seq<char>, Seq<char>)>) -> Option<Seq<char>>;

pub open spec fn pair_views(ps: Seq<(String, String)>) -> Seq<(Seq<char>, Seq<char>)> {
    ps.map_values(|p: (String, String)| (p.0@, p.1@))
}

/// Relies on `serde_urlencoded::to_string` on a sequence of key-value pairs.
#[verifier::external_body]
fn urlencode(pairs: &Vec<(String, String)>) -> (r: Option<String>)
    ensures
        match (r, urlencoded_of(pair_views(pairs@))) {
            (Some(s), Some(t)) => s@ == t,
            (None, None) => true,
            _ => false,
        },
{
    serde_urlencoded::to_string(pairs).ok()
}

/// The signed query of an account request: the parameters followed by the
/// timestamp, form-encoded, then `&signature=` and the signature of that text.
/// `None` where the encoder refuses the parameters.
pub fn signed_query(params: Vec<(String, String)>, timestamp: String, secret: &str) -> (r: Option<String>)
    ensures
        ({
            match urlencoded_of(pair_views(params@).push(("timestamp"@, timestamp@))) {
                None => r is None,
                Some(q) => r matches Some(s) && exists|sig: Seq<char>|
                    is_hex_of(sig, hmac_sha256_of(secret@, q)) && s@ == q + "&signature="@ + sig,
            }
        }),
{
    let mut all = params;
    let ghost before = all@;
    all.push((String::from_str("timestamp"), timestamp));
    assert(pair_views(all@) == pair_views(before).push(("timestamp"@, timestamp@)));
    let query = match urlencode(&all) {
        None => {
            return None;
        },
        Some(q) => q,
    };
    let signature = create_signature(secret, query.as_str());
    let mut s = query;
    s.append("&signature=");
    s.append(signature.as_str());
    Some(s)
}

/// The venue's fees: ten basis points as maker and as taker.
pub fn binance_fees() -> (r: TradingFees)
    ensures
        r.maker_fee == (Dec { mantissa: 1, scale: 3 }),
        r.taker_fee == (Dec { mantissa: 1, scale: 3 }),
        r.wf(),
{
    TradingFees { maker_fee: Dec::new(1, 3), taker_fee: Dec::new(1, 3) }
}

/// The best bid and ask of a ticker reply; an error if one of its three numbers
/// cannot be read.
pub fn price_from_ticker(
    exchange: String,
    pair: TradingPair,
    bid: &str,
    ask: &str,
    volume: &str,
    now: i64,
) -> (r: Result<Price, VenueError>)
    ensures
        r is Ok <==> decimal_parse(bid@) is Some && decimal_parse(ask@) is Some && decimal_parse(volume@) is Some,
        r matches Ok(p) ==> p.exchange == exchange && p.pair == pair && p.timestamp == now
            && Some(p.bid) == decimal_parse(bid@) && Some(p.ask) == decimal_parse(ask@)
            && p.volume_24h == decimal_parse(volume@),
{
    let b = parse_decimal(bid);
    let a = parse_decimal(ask);
    let v = parse_decimal(volume);
    match (b, a, v) {
        (Some(b), Some(a), Some(v)) => Ok(
            Price { exchange, pair, bid: b, ask: a, timestamp: now, volume_24h: Some(v) },
        ),
        _ => Err(VenueError::BadPayload),
    }
}

/// The number read from `s`, zero where it cannot be read.
pub open spec fn parsed_or_zero(s: Seq<char>) -> Dec {
    match decimal_parse(s) {
        Some(d) => d,
        None => Dec { mantissa: 0, scale: 0 },
    }
}

fn read_or_zero(s: &str) -> (r: Dec)
    ensures
        r == parsed_or_zero(s@),
        r.wf(),
{
    match parse_decimal(s) {
        Some(d) => d,
        None => Dec::zero(),
    }
}

/// Book levels from `[price, quantity]` texts, in the order given; a number that
/// cannot be read counts as zero.
pub fn parse_levels(raw: &Vec<(String, String)>) -> (r: Vec<OrderBookLevel>)
    ensures
        r@.len() == raw@.len(),
        forall|i: int| 0 <= i < r@.len() ==> (#[trigger] r@[i]).price == parsed_or_zero(raw@[i].0@)
            && r@[i].quantity == parsed_or_zero(raw@[i].1@) && r@[i].wf(),
{
    let mut r: Vec<OrderBookLevel> = Vec::new();
    let mut i: usize = 0;
    while i < raw.len()
        invariant
            i <= raw@.len(),
            r@.len() == i,
            forall|k: int| 0 <= k < i ==> (#[trigger] r@[k]).price == parsed_or_zero(raw@[k].0@)
                && r@[k].quantity == parsed_or_zero(raw@[k].1@) && r@[k].wf(),
        decreases raw@.len() - i,
    {
        let price = read_or_zero(raw[i].0.as_str());
        let quantity = read_or_zero(raw[i].1.as_str());
        r.push(OrderBookLevel { price, quantity });
        i = i + 1;
    }
    r
}

/// One account entry as reported: asset, free amount, locked amount.
pub struct AccountEntry {
    pub asset: String,
    pub free: String,
    pub locked: String,
}

/// The total an account entry holds, if the sum does not overflow.
pub open spec fn entry_total(e: AccountEntry) -> Option<Dec> {
    decimal_sum(parsed_or_zero(e.free@), parsed_or_zero(e.locked@))
}

/// An entry is kept when its total is known and positive.
pub open spec fn keeps_entry(e: AccountEntry) -> bool {
    entry_total(e) matches Some(t) && t.scaled() > 0
}

/// The balance recorded for a kept entry.
pub open spec fn balance_of_entry(e: AccountEntry) -> Balance {
    Balance {
        asset: e.asset,
        free: parsed_or_zero(e.free@),
        locked: parsed_or_zero(e.locked@),
        total: entry_total(e).unwrap(),
        usd_value: Dec { mantissa: 0, scale: 0 },
    }
}

/// The balances of an account reply: each entry whose `free + locked` is
/// positive, in order, with unreadable numbers taken as zero. `None` if a sum
/// overflows.
pub fn balances_from_account(entries: Vec<AccountEntry>) -> (r: Option<Vec<Balance>>)
    ensures
        (exists|i: int| 0 <= i < entries@.len() && entry_total(#[trigger] entries@[i]) is None) <==> r is None,
        r matches Some(bs) ==> bs@ == entries@.filter(|e: AccountEntry| keeps_entry(e)).map_values(
            |e: AccountEntry| balance_of_entry(e),
        ),
{
    let mut out: Vec<Balance> = Vec::new();
    let ghost orig = entries@;
    let mut rest = entries;
    let mut i: usize = 0;
    let total_len = rest.len();
    while rest.len() > 0
        invariant
            i + rest@.len() == orig.len(),
            orig == entries@,
            orig.len() == total_len,
            rest@ == orig.subrange(i as int, orig.len() as int),
            forall|k: int| 0 <= k < i ==> entry_total(#[trigger] orig[k]) is Some,
            out@ == orig.take(i as int).filter(|e: AccountEntry| keeps_entry(e)).map_values(
                |e: AccountEntry| balance_of_entry(e),
            ),
        decreases rest@.len(),
    {
        let e = rest.remove(0);
        assert(orig[i as int] == e);
        assert(rest@ == orig.subrange(i + 1, orig.len() as int));
        proof {
            assert(orig.take(i + 1) == orig.take(i as int).push(e));
            orig.take(i as int).lemma_filter_push(e, |e: AccountEntry| keeps_entry(e));
        }
        let free = read_or_zero(e.free.as_str());
        let locked = read_or_zero(e.locked.as_str());
        let total = match checked_add(free, locked) {
            None => {
                assert(entry_total(orig[i as int]) is None);
                return None;
            },
            Some(t) => t,
        };
        if Dec::zero().lt(&total) {
            let b = Balance { asset: e.asset, free, locked, total, usd_value: Dec::zero() };
            assert(b == balance_of_entry(e));
            out.push(b);
            proof {
                let f = |e: AccountEntry| keeps_entry(e);
                let m = |e: AccountEntry| balance_of_entry(e);
                assert(orig.take(i + 1).filter(f) == orig.take(i as int).filter(f).push(e));
                assert(out@ == orig.take(i + 1).filter(f).map_values(m));
            }
        }
        i = i + 1;
    }
    assert(orig.take(i as int) == orig);
    Some(out)
}

/// Whether the venue is configured to trade the pair's canonical symbol.
pub fn supports_pair(trading_pairs: &Vec<String>, pair: &TradingPair) -> (r: bool)
    ensures
        r == exists|i: int| 0 <= i < trading_pairs@.len() && trading_pairs@[i]@ == pair.symbol@,
{
    let mut i: usize = 0;
    while i < trading_pairs.len()
        invariant
            i <= trading_pairs@.len(),
            forall|k: int| 0 <= k < i ==> trading_pairs@[k]@ != pair.symbol@,
        decreases trading_pairs@.len() - i,
    {
        if text_eq(trading_pairs[i].as_str(), pair.symbol.as_str()) {
            return true;
        }
        i = i + 1;
    }
    false
}

/// Some text of `texts` is a well-formed pair with canonical symbol `sym`.
pub open spec fn listed_symbol(texts: Seq<String>, sym: Seq<char>) -> bool {
    exists|i: int| 0 <= i < texts.len() && crate::config::parsed_symbol(texts[i]@) == Some(sym)
}

/// The configured pair texts that are well formed, as pairs: each result comes
/// from a listed text, and every well-formed text gives one.
pub fn get_supported_pairs(trading_pairs: &Vec<String>) -> (r: Vec<TradingPair>)
    ensures
        r@.len() <= trading_pairs@.len(),
        forall|k: int| 0 <= k < r@.len() ==> listed_symbol(trading_pairs@, (#[trigger] r@[k]).symbol@),
        forall|i: int| 0 <= i < trading_pairs@.len() && (#[trigger] split_pair(trading_pairs@[i]@)) is Some
            ==> exists|k: int| 0 <= k < r@.len()
                && crate::config::parsed_symbol(trading_pairs@[i]@) == Some(r@[k].symbol@),
{
    let mut r: Vec<TradingPair> = Vec::new();
    let mut i: usize = 0;
    while i < trading_pairs.len()
        invariant
            i <= trading_pairs@.len(),
            r@.len() <= i,
            forall|k: int| 0 <= k < r@.len() ==> listed_symbol(trading_pairs@, (#[trigger] r@[k]).symbol@),
            forall|j: int| 0 <= j < i && (#[trigger] split_pair(trading_pairs@[j]@)) is Some
                ==> exists|k: int| 0 <= k < r@.len()
                    && crate::config::parsed_symbol(trading_pairs@[j]@) == Some(r@[k].symbol@),
        decreases trading_pairs@.len() - i,
    {
        match parse_trading_pair(trading_pairs[i].as_str()) {
            None => {},
            Some(p) => {
                let ghost old_r = r@;
                r.push(p);
                proof {
                    assert forall|k: int| 0 <= k < r@.len() implies listed_symbol(trading_pairs@, (#[trigger] r@[k]).symbol@) by {
                        if k < old_r.len() {
                            assert(r@[k] == old_r[k]);
                        } else {
                            assert(crate::config::parsed_symbol(trading_pairs@[i as int]@) == Some(r@[k].symbol@));
                        }
                    }
                    assert forall|j: int| 0 <= j < i + 1 && (#[trigger] split_pair(trading_pairs@[j]@)) is Some
                        implies exists|k: int| 0 <= k < r@.len()
                        && crate::config::parsed_symbol(trading_pairs@[j]@) == Some(r@[k].symbol@) by {
                        if j < i {
                            let k0 = choose|k: int| 0 <= k < old_r.len()
                                && crate::config::parsed_symbol(trading_pairs@[j]@) == Some(old_r[k].symbol@);
                            assert(r@[k0] == old_r[k0]);
                        } else {
                            assert(r@[old_r.len() as int] == p);
                        }
                    }
                }
            },
        }
        i = i + 1;
    }
    r
}

} // verus!
