//! What the engine knows of a venue apart from its transport: fees, and the
//! pure parts of the two venue kinds.

use crate::decimal::Dec;
use crate::models::Price;
use vstd::prelude::*;

verus! {

/// A venue's fees, as fractions (`0.001` is ten basis points).
#[derive(Clone, Copy, Debug)]
pub struct TradingFees {
    pub maker_fee: Dec,
    pub taker_fee: Dec,
}

impl TradingFees {
    pub open spec fn wf(self) -> bool {
        self.maker_fee.wf() && self.taker_fee.wf()
    }
}

} // verus!

pub mod binance;
pub mod uniswap;

verus! {

/// Why a venue's reply could not be turned into engine records.
#[derive(Clone, Copy, Debug, PartialEq, Eq, Structural)]
pub enum VenueError {
    /// A number in the payload could not be read.
    BadPayload,
    /// A decimal operation overflowed.
    Overflow,
}


/// `a` is at most `b` in lexicographic order of code points.
pub open spec fn name_le(a: Seq<char>, b: Seq<char>) -> bool
    decreases a.len(),
{
    if a.len() == 0 {
        true
    } else if b.len() == 0 {
        false
    } else if (a[0] as u32) != (b[0] as u32) {
        (a[0] as u32) < (b[0] as u32)
    } else {
        name_le(a.drop_first(), b.drop_first())
    }
}

pub proof fn lemma_name_le_total(a: Seq<char>, b: Seq<char>)
    ensures
        name_le(a, b) || name_le(b, a),
    decreases a.len(),
{
    if a.len() > 0 && b.len() > 0 && (a[0] as u32) == (b[0] as u32) {
        lemma_name_le_total(a.drop_first(), b.drop_first());
    }
}

pub proof fn lemma_name_le_transitive(a: Seq<char>, b: Seq<char>, c: Seq<char>)
    requires
        name_le(a, b),
        name_le(b, c),
    ensures
        name_le(a, c),
    decreases a.len(),
{
    if a.len() > 0 && b.len() > 0 && c.len() > 0 && (a[0] as u32) == (b[0] as u32) && (b[0] as u32) == (c[0] as u32) {
        lemma_name_le_transitive(a.drop_first(), b.drop_first(), c.drop_first());
    }
}

/// Whether `a` comes no later than `b` in lexicographic order.
pub fn name_at_most(a: &str, b: &str) -> (r: bool)
    ensures
        r == name_le(a@, b@),
{
    let n = a.unicode_len();
    let m = b.unicode_len();
    let mut i: usize = 0;
    assert(a@.subrange(0, n as int) == a@);
    assert(b@.subrange(0, m as int) == b@);
    while i < n && i < m
        invariant
            n == a@.len(),
            m == b@.len(),
            i <= n,
            i <= m,
            name_le(a@, b@) == name_le(a@.subrange(i as int, n as int), b@.subrange(i as int, m as int)),
        decreases n - i,
    {
        let x = a.get_char(i);
        let y = b.get_char(i);
        let ghost sa = a@.subrange(i as int, n as int);
        let ghost sb = b@.subrange(i as int, m as int);
        assert(sa[0] == x && sb[0] == y);
        if (x as u32) != (y as u32) {
            return (x as u32) < (y as u32);
        }
        assert(sa.drop_first() == a@.subrange(i + 1, n as int));
        assert(sb.drop_first() == b@.subrange(i + 1, m as int));
        i = i + 1;
    }
    i == n
}

/// `a` is a buy quote at least as good as `b`: a lower ask, or an equal ask at a
/// venue whose name comes first.
pub open spec fn buys_before(a: Price, b: Price) -> bool {
    a.ask.scaled() < b.ask.scaled() || (a.ask.scaled() == b.ask.scaled() && name_le(a.exchange@, b.exchange@))
}

/// `a` is a sell quote at least as good as `b`: a higher bid, or an equal bid at
/// a venue whose name comes first.
pub open spec fn sells_before(a: Price, b: Price) -> bool {
    b.bid.scaled() < a.bid.scaled() || (a.bid.scaled() == b.bid.scaled() && name_le(a.exchange@, b.exchange@))
}

fn quote_before(a: &Price, b: &Price, buying: bool) -> (r: bool)
    requires
        a.ask.wf() && a.bid.wf() && b.ask.wf() && b.bid.wf(),
    ensures
        r == (if buying { buys_before(*a, *b) } else { sells_before(*a, *b) }),
{
    let (x, y) = if buying { (a.ask, b.ask) } else { (b.bid, a.bid) };
    if x.lt(&y) {
        true
    } else if x.same_value(&y) {
        name_at_most(a.exchange.as_str(), b.exchange.as_str())
    } else {
        false
    }
}

fn best_quote(prices: &Vec<Price>, buying: bool) -> (r: Option<usize>)
    requires
        forall|i: int| 0 <= i < prices@.len() ==> (#[trigger] prices@[i]).ask.wf() && prices@[i].bid.wf(),
    ensures
        r is None <==> prices@.len() == 0,
        r matches Some(i) ==> i < prices@.len() && forall|k: int| 0 <= k < prices@.len() ==> if buying {
            buys_before(prices@[i as int], #[trigger] prices@[k])
        } else {
            sells_before(prices@[i as int], prices@[k])
        },
{
    if prices.len() == 0 {
        return None;
    }
    let mut best: usize = 0;
    let mut j: usize = 1;
    assert(prices@[0].ask.wf());
    proof {
        lemma_name_le_total(prices@[0].exchange@, prices@[0].exchange@);
    }
    while j < prices.len()
        invariant
            forall|i: int| 0 <= i < prices@.len() ==> (#[trigger] prices@[i]).ask.wf() && prices@[i].bid.wf(),
            1 <= j <= prices@.len(),
            best < j,
            forall|k: int| 0 <= k < j ==> if buying {
                buys_before(prices@[best as int], #[trigger] prices@[k])
            } else {
                sells_before(prices@[best as int], prices@[k])
            },
        decreases prices@.len() - j,
    {
        if !quote_before(&prices[best], &prices[j], buying) {
            proof {
                let nb = prices@[j as int];
                let ob = prices@[best as int];
                lemma_name_le_total(ob.exchange@, nb.exchange@);
                assert forall|k: int| 0 <= k < j + 1 implies if buying {
                    buys_before(nb, #[trigger] prices@[k])
                } else {
                    sells_before(nb, prices@[k])
                } by {
                    let pk = prices@[k];
                    if k < j {
                        if name_le(nb.exchange@, ob.exchange@) && name_le(ob.exchange@, pk.exchange@) {
                            lemma_name_le_transitive(nb.exchange@, ob.exchange@, pk.exchange@);
                        }
                    } else {
                        lemma_name_le_total(nb.exchange@, nb.exchange@);
                    }
                }
            }
            best = j;
        }
        j = j + 1;
    }
    Some(best)
}

/// Position of the best quote to buy at: the lowest ask, ties going to the venue
/// whose name comes first; `None` for no quotes.
pub fn find_best_buy_price(prices: &Vec<Price>) -> (r: Option<usize>)
    requires
        forall|i: int| 0 <= i < prices@.len() ==> (#[trigger] prices@[i]).ask.wf() && prices@[i].bid.wf(),
    ensures
        r is None <==> prices@.len() == 0,
        r matches Some(i) ==> i < prices@.len() && forall|k: int| 0 <= k < prices@.len()
            ==> buys_before(prices@[i as int], #[trigger] prices@[k]),
{
    best_quote(prices, true)
}

/// Position of the best quote to sell at: the highest bid, ties going to the
/// venue whose name comes first; `None` for no quotes.
pub fn find_best_sell_price(prices: &Vec<Price>) -> (r: Option<usize>)
    requires
        forall|i: int| 0 <= i < prices@.len() ==> (#[trigger] prices@[i]).ask.wf() && prices@[i].bid.wf(),
    ensures
        r is None <==> prices@.len() == 0,
        r matches Some(i) ==> i < prices@.len() && forall|k: int| 0 <= k < prices@.len()
            ==> sells_before(prices@[i as int], #[trigger] prices@[k]),
{
    best_quote(prices, false)
}

} // verus!
