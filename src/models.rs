//! The engine's records: pairs, quotes, books, opportunities, trades, balances.

use crate::decimal::Dec;
use std::collections::HashMap;
use vstd::prelude::*;

verus! {

/// What `str::to_uppercase` returns for `s`.
pub uninterp spec fn upper_of(s: Seq<char>) -> Seq<char>;

/// Relies on `str::to_uppercase`: the result depends on the characters alone, and
/// the empty string stays empty.
#[verifier::external_body]
pub(crate) fn uppercase(s: &str) -> (r: String)
    ensures
        r@ == upper_of(s@),
        s@.len() == 0 ==> r@.len() == 0,
{
    s.to_uppercase()
}

/// Whether two texts hold the same characters.
pub fn text_eq(a: &str, b: &str) -> (r: bool)
    ensures
        r == (a@ == b@),
{
    let n = a.unicode_len();
    if n != b.unicode_len() {
        return false;
    }
    let mut i: usize = 0;
    while i < n
        invariant
            n == a@.len(),
            n == b@.len(),
            i <= n,
            forall|k: int| 0 <= k < i ==> a@[k] == b@[k],
        decreases n - i,
    {
        if a.get_char(i) != b.get_char(i) {
            return false;
        }
        i = i + 1;
    }
    assert(a@ == b@);
    true
}

/// The canonical symbol `"BASE/QUOTE"` of two upper-cased assets.
pub open spec fn pair_symbol(base: Seq<char>, quote: Seq<char>) -> Seq<char> {
    base + "/"@ + quote
}

/// A directed pair of asset symbols, upper case, with its canonical symbol.
#[derive(Clone, Debug)]
pub struct TradingPair {
    pub base: String,
    pub quote: String,
    pub symbol: String,
}

impl TradingPair {
    /// Upper-cases both assets and joins them with `/` into the symbol.
    pub fn new(base: &str, quote: &str) -> (r: TradingPair)
        ensures
            r.base@ == upper_of(base@),
            r.quote@ == upper_of(quote@),
            r.symbol@ == pair_symbol(upper_of(base@), upper_of(quote@)),
    {
        let b = uppercase(base);
        let q = uppercase(quote);
        let mut symbol = b.clone();
        symbol.append("/");
        symbol.append(q.as_str());
        TradingPair { base: b, quote: q, symbol }
    }

    /// Pairs are equal when their canonical symbols are.
    pub fn same_pair(&self, other: &TradingPair) -> (r: bool)
        ensures
            r == (self.symbol@ == other.symbol@),
    {
        self.symbol == other.symbol
    }
}

/// Position of the one `/` in `s`, where `s` holds exactly one and it has text on
/// both sides.
pub open spec fn single_slash_at(s: Seq<char>, p: int) -> bool {
    &&& 0 < p < s.len() - 1
    &&& s[p] == '/'
    &&& forall|j: int| 0 <= j < s.len() && j != p ==> s[j] != '/'
}

/// The two sides of `"BASE/QUOTE"`: exactly one `/`, neither side empty.
pub open spec fn split_pair(s: Seq<char>) -> Option<(Seq<char>, Seq<char>)> {
    if exists|p: int| single_slash_at(s, p) {
        let p = choose|p: int| single_slash_at(s, p);
        Some((s.subrange(0, p), s.subrange(p + 1, s.len() as int)))
    } else {
        None
    }
}

/// Reads `"BASE/QUOTE"` in any case into a canonical pair; `None` unless the text
/// holds exactly one `/` with a non-empty part on each side.
pub fn parse_trading_pair(pair_str: &str) -> (r: Option<TradingPair>)
    ensures
        r is Some <==> split_pair(pair_str@) is Some,
        r matches Some(p) ==> {
            let (b, q) = split_pair(pair_str@).unwrap();
            &&& p.base@ == upper_of(b)
            &&& p.quote@ == upper_of(q)
            &&& p.symbol@ == pair_symbol(upper_of(b), upper_of(q))
        },
{
    let n = pair_str.unicode_len();
    let mut i: usize = 0;
    let mut count: usize = 0;
    let mut pos: usize = 0;
    while i < n
        invariant
            n == pair_str@.len(),
            i <= n,
            count <= i,
            count == 0 ==> forall|j: int| 0 <= j < i ==> pair_str@[j] != '/',
            count >= 1 ==> pos < i && pair_str@[pos as int] == '/',
            count == 1 ==> forall|j: int| 0 <= j < i && j != pos ==> pair_str@[j] != '/',
            count >= 2 ==> exists|a: int, b: int|
                0 <= a < b < i && pair_str@[a] == '/' && pair_str@[b] == '/',
        decreases n - i,
    {
        let c = pair_str.get_char(i);
        if c == '/' {
            if count == 0 {
                pos = i;
            } else if count == 1 {
                assert(pair_str@[pos as int] == '/' && pair_str@[i as int] == '/');
            }
            if count < 2 {
                count = count + 1;
            }
        }
        i = i + 1;
    }
    if count == 1 && pos > 0 && pos + 1 < n {
        assert(single_slash_at(pair_str@, pos as int));
        let base = pair_str.substring_char(0, pos);
        let quote = pair_str.substring_char(pos + 1, n);
        Some(TradingPair::new(base, quote))
    } else {
        assert(split_pair(pair_str@) is None) by {
            if exists|p: int| single_slash_at(pair_str@, p) {
                let p = choose|p: int| single_slash_at(pair_str@, p);
                if count >= 2 {
                    let (a, b) = choose|a: int, b: int|
                        0 <= a < b < n && pair_str@[a] == '/' && pair_str@[b] == '/';
                    assert(a == p || pair_str@[a] != '/');
                    assert(b == p || pair_str@[b] != '/');
                }
            }
        }
        None
    }
}

/// A venue's best bid and ask for a pair. Timestamps are milliseconds since the
/// Unix epoch.
#[derive(Clone, Debug)]
pub struct Price {
    pub exchange: String,
    pub pair: TradingPair,
    pub bid: Dec,
    pub ask: Dec,
    pub timestamp: i64,
    pub volume_24h: Option<Dec>,
}

/// One price level of a book.
#[derive(Clone, Copy, Debug)]
pub struct OrderBookLevel {
    pub price: Dec,
    pub quantity: Dec,
}

impl OrderBookLevel {
    pub open spec fn wf(self) -> bool {
        self.price.wf() && self.quantity.wf()
    }
}

/// Top levels of a venue's book: bids by descending price, asks by ascending price.
#[derive(Clone, Debug)]
pub struct OrderBook {
    pub exchange: String,
    pub pair: TradingPair,
    pub bids: Vec<OrderBookLevel>,
    pub asks: Vec<OrderBookLevel>,
    pub timestamp: i64,
}

impl OrderBook {
    pub open spec fn wf(self) -> bool {
        &&& forall|i: int| 0 <= i < self.bids@.len() ==> (#[trigger] self.bids@[i]).wf()
        &&& forall|i: int| 0 <= i < self.asks@.len() ==> (#[trigger] self.asks@[i]).wf()
    }
}

/// Lifecycle of an opportunity.
#[derive(Clone, Copy, Debug, PartialEq, Eq, Structural)]
pub enum OpportunityStatus {
    Active,
    Executed,
    Expired,
    Failed,
}

/// A proposal to buy at one venue and sell at another.
#[derive(Clone, Debug)]
pub struct ArbitrageOpportunity {
    pub id: u128,
    pub pair: TradingPair,
    pub buy_exchange: String,
    pub sell_exchange: String,
    pub buy_price: Dec,
    pub sell_price: Dec,
    pub profit_percentage: Dec,
    pub profit_amount: Dec,
    pub max_trade_size: Dec,
    pub timestamp: i64,
    pub status: OpportunityStatus,
}

#[derive(Clone, Copy, Debug, PartialEq, Eq, Structural)]
pub enum TradeSide {
    Buy,
    Sell,
}

#[derive(Clone, Copy, Debug, PartialEq, Eq, Structural)]
pub enum TradeStatus {
    Pending,
    Executed,
    Failed,
    Cancelled,
}

/// An order placed for an opportunity.
#[derive(Clone, Debug)]
pub struct Trade {
    pub id: u128,
    pub opportunity_id: u128,
    pub exchange: String,
    pub pair: TradingPair,
    pub side: TradeSide,
    pub amount: Dec,
    pub price: Dec,
    pub status: TradeStatus,
    pub created_at: i64,
    pub executed_at: Option<i64>,
    pub tx_hash: Option<String>,
}

/// Holdings of one asset: `total = free + locked`.
#[derive(Clone, Debug)]
pub struct Balance {
    pub asset: String,
    pub free: Dec,
    pub locked: Dec,
    pub total: Dec,
    pub usd_value: Dec,
}

#[derive(Clone, Debug)]
pub struct Portfolio {
    pub total_value_usd: Dec,
    pub balances: HashMap<String, Balance>,
    pub updated_at: i64,
}

/// `serde_json::Value`, carried through unread as a contract call's arguments.
#[verifier::external_type_specification]
#[verifier::external_body]
pub struct ExJsonValue(serde_json::Value);

/// A contract call with its arguments as JSON.
#[derive(Debug)]
pub struct SmartContractCall {
    pub contract_address: String,
    pub function_name: String,
    pub parameters: serde_json::Value,
    pub gas_limit: u64,
    pub gas_price: u64,
    pub chain_id: u64,
}

#[derive(Clone, Debug)]
pub struct CrossChainArbitrage {
    pub source_chain: String,
    pub target_chain: String,
    pub token_address: String,
    pub amount: Dec,
    pub profit_estimate: Dec,
    pub bridge_fees: Dec,
    pub estimated_time_minutes: u32,
}

} // verus!
