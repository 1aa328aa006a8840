//! Turns a buy quote and a sell quote, with fees and book depth, into a sized
//! opportunity.

use crate::config::TradingConfig;
use crate::decimal::{
    checked_add, checked_div, checked_mul, checked_sub, decimal_difference, decimal_product,
    decimal_quotient, decimal_sum, Dec,
};
use crate::exchanges::TradingFees;
use crate::models::{text_eq, Price, ArbitrageOpportunity, OpportunityStatus, OrderBook, OrderBookLevel, TradingPair};
use vstd::prelude::*;

verus! {

/// Why the calculator gives up on a pair of quotes.
#[derive(Clone, Copy, Debug, PartialEq, Eq, Structural)]
pub enum CalcError {
    /// A quoted price is zero or negative.
    InvalidQuote,
    /// A decimal operation overflowed.
    Overflow,
}

pub open spec fn hundred() -> Dec {
    Dec { mantissa: 100, scale: 0 }
}

pub open spec fn one() -> Dec {
    Dec { mantissa: 1, scale: 0 }
}

/// `(sell - buy) / buy * 100`.
pub open spec fn gross_profit_pct(buy: Dec, sell: Dec) -> Option<Dec> {
    match decimal_difference(sell, buy) {
        Some(d) => match decimal_quotient(d, buy) {
            Some(q) => decimal_product(q, hundred()),
            None => None,
        },
        None => None,
    }
}

/// `gross - (buy_fee + sell_fee) * 100`.
pub open spec fn net_profit_pct(gross: Dec, buy_fee: Dec, sell_fee: Dec) -> Option<Dec> {
    match decimal_sum(buy_fee, sell_fee) {
        Some(f) => match decimal_product(f, hundred()) {
            Some(fp) => decimal_difference(gross, fp),
            None => None,
        },
        None => None,
    }
}

/// `size * net / 100`.
pub open spec fn profit_amount_of(size: Dec, net: Dec) -> Option<Dec> {
    match decimal_product(size, net) {
        Some(p) => decimal_quotient(p, hundred()),
        None => None,
    }
}

/// A level lies inside the band: at most `limit` on the ask side, at least `limit`
/// on the bid side.
pub open spec fn in_band(level: OrderBookLevel, limit: Dec, bid_side: bool) -> bool {
    if bid_side {
        limit.spec_le(level.price)
    } else {
        level.price.spec_le(limit)
    }
}

/// `acc` plus the quantities of the leading levels inside the band, stopping at
/// the first level outside it; `None` if a sum overflows.
pub open spec fn band_sum(levels: Seq<OrderBookLevel>, limit: Dec, bid_side: bool, acc: Dec) -> Option<Dec>
    decreases levels.len(),
{
    if levels.len() == 0 || !in_band(levels[0], limit, bid_side) {
        Some(acc)
    } else {
        match decimal_sum(acc, levels[0].quantity) {
            Some(a) => band_sum(levels.drop_first(), limit, bid_side, a),
            None => None,
        }
    }
}

/// Executable size within the slippage budget: the buyable ask depth up to
/// `buy * (1 + slippage)`, the sellable bid depth down to `sell * (1 - slippage)`,
/// and the venue's cap, whichever is least.
pub open spec fn max_trade_size_spec(
    asks: Seq<OrderBookLevel>,
    bids: Seq<OrderBookLevel>,
    buy: Dec,
    sell: Dec,
    slippage: Dec,
    cap: Dec,
) -> Option<Dec> {
    match (decimal_sum(one(), slippage), decimal_difference(one(), slippage)) {
        (Some(up), Some(down)) => match (decimal_product(buy, up), decimal_product(sell, down)) {
            (Some(buy_limit), Some(sell_limit)) => match (
                band_sum(asks, buy_limit, false, Dec { mantissa: 0, scale: 0 }),
                band_sum(bids, sell_limit, true, Dec { mantissa: 0, scale: 0 }),
            ) {
                (Some(bl), Some(sl)) => {
                    let m = if bl.spec_le(sl) { bl } else { sl };
                    Some(if m.spec_le(cap) { m } else { cap })
                },
                _ => None,
            },
            _ => None,
        },
        _ => None,
    }
}

/// Sums the quantities of the leading levels that lie inside the band.
pub fn band_liquidity(levels: &Vec<OrderBookLevel>, limit: Dec, bid_side: bool) -> (r: Option<Dec>)
    requires
        limit.wf(),
        forall|i: int| 0 <= i < levels@.len() ==> (#[trigger] levels@[i]).wf(),
    ensures
        r == band_sum(levels@, limit, bid_side, Dec { mantissa: 0, scale: 0 }),
        r matches Some(d) ==> d.wf(),
{
    let mut acc = Dec::zero();
    let mut i: usize = 0;
    assert(levels@.subrange(0, levels@.len() as int) == levels@);
    while i < levels.len()
        invariant
            i <= levels@.len(),
            acc.wf(),
            limit.wf(),
            forall|k: int| 0 <= k < levels@.len() ==> (#[trigger] levels@[k]).wf(),
            band_sum(levels@, limit, bid_side, Dec { mantissa: 0, scale: 0 })
                == band_sum(levels@.subrange(i as int, levels@.len() as int), limit, bid_side, acc),
        decreases levels@.len() - i,
    {
        let level = levels[i];
        let ghost rest = levels@.subrange(i as int, levels@.len() as int);
        assert(rest[0] == level);
        assert(rest.drop_first() == levels@.subrange(i + 1, levels@.len() as int));
        let inside = if bid_side {
            limit.le(&level.price)
        } else {
            level.price.le(&limit)
        };
        if !inside {
            return Some(acc);
        }
        match checked_add(acc, level.quantity) {
            Some(a) => {
                acc = a;
            },
            None => {
                return None;
            },
        }
        i = i + 1;
    }
    assert(levels@.subrange(i as int, levels@.len() as int).len() == 0);
    Some(acc)
}

/// Depth-limited trade size for buying on `buy_book` at `buy_price` and selling on
/// `sell_book` at `sell_price`, capped by `cap`; `None` if a decimal operation
/// overflows.
pub fn calculate_max_trade_size(
    buy_book: &OrderBook,
    sell_book: &OrderBook,
    buy_price: Dec,
    sell_price: Dec,
    max_slippage: Dec,
    cap: Dec,
) -> (r: Option<Dec>)
    requires
        buy_book.wf(),
        sell_book.wf(),
        buy_price.wf(),
        sell_price.wf(),
        max_slippage.wf(),
        cap.wf(),
    ensures
        r == max_trade_size_spec(buy_book.asks@, sell_book.bids@, buy_price, sell_price, max_slippage, cap),
        r matches Some(d) ==> d.wf(),
{
    let up = checked_add(Dec::one(), max_slippage);
    let down = checked_sub(Dec::one(), max_slippage);
    let (up, down) = match (up, down) {
        (Some(u), Some(d)) => (u, d),
        _ => {
            return None;
        },
    };
    let buy_limit = checked_mul(buy_price, up);
    let sell_limit = checked_mul(sell_price, down);
    let (buy_limit, sell_limit) = match (buy_limit, sell_limit) {
        (Some(b), Some(s)) => (b, s),
        _ => {
            return None;
        },
    };
    let buy_liquidity = band_liquidity(&buy_book.asks, buy_limit, false);
    let sell_liquidity = band_liquidity(&sell_book.bids, sell_limit, true);
    match (buy_liquidity, sell_liquidity) {
        (Some(bl), Some(sl)) => Some(bl.min_of(sl).min_of(cap)),
        _ => None,
    }
}

/// What the calculator decides for a buy at `buy` and a sell at `sell`: an error,
/// no opportunity, or the opportunity's `(net %, size, profit)`.
pub open spec fn opportunity_figures(
    trading: TradingConfig,
    same_venue: bool,
    buy: Dec,
    sell: Dec,
    buy_fee: Dec,
    sell_fee: Dec,
    asks: Seq<OrderBookLevel>,
    bids: Seq<OrderBookLevel>,
    cap: Dec,
) -> Result<Option<(Dec, Dec, Dec)>, CalcError> {
    let thr = trading.min_profit_threshold;
    if buy.scaled() <= 0 || sell.scaled() <= 0 {
        Err(CalcError::InvalidQuote)
    } else if same_venue || sell.spec_le(buy) {
        Ok(None)
    } else {
        match gross_profit_pct(buy, sell) {
            None => Err(CalcError::Overflow),
            Some(gross) => if gross.spec_le(thr) {
                Ok(None)
            } else {
                match net_profit_pct(gross, buy_fee, sell_fee) {
                    None => Err(CalcError::Overflow),
                    Some(net) => if net.spec_le(thr) {
                        Ok(None)
                    } else {
                        match max_trade_size_spec(asks, bids, buy, sell, trading.max_slippage, cap) {
                            None => Err(CalcError::Overflow),
                            Some(size) => if size.scaled() <= 0 {
                                Ok(None)
                            } else {
                                match profit_amount_of(size, net) {
                                    None => Err(CalcError::Overflow),
                                    Some(p) => Ok(Some((net, size, p))),
                                }
                            },
                        }
                    },
                }
            },
        }
    }
}

/// Whether the gross margin of buying at `buy_price` and selling at `sell_price`
/// clears the threshold, so that fees and depth are worth fetching.
pub fn clears_gross_threshold(trading: &TradingConfig, buy_price: Dec, sell_price: Dec) -> (r: Result<bool, CalcError>)
    requires
        trading.wf(),
        buy_price.wf(),
        sell_price.wf(),
    ensures
        r == (if buy_price.scaled() <= 0 || sell_price.scaled() <= 0 {
            Err(CalcError::InvalidQuote)
        } else {
            match gross_profit_pct(buy_price, sell_price) {
                None => Err(CalcError::Overflow),
                Some(g) => Ok(trading.min_profit_threshold.spec_lt(g)),
            }
        }),
{
    let zero = Dec::zero();
    if buy_price.le(&zero) || sell_price.le(&zero) {
        return Err(CalcError::InvalidQuote);
    }
    match gross_pct(buy_price, sell_price) {
        None => Err(CalcError::Overflow),
        Some(g) => Ok(trading.min_profit_threshold.lt(&g)),
    }
}

/// The gross margin `(sell - buy) / buy * 100`, in percent; `None` where a
/// decimal operation overflows or `buy` is zero.
pub fn gross_margin_pct(buy: Dec, sell: Dec) -> (r: Option<Dec>)
    requires
        buy.wf(),
        sell.wf(),
    ensures
        r == gross_profit_pct(buy, sell),
        r matches Some(d) ==> d.wf(),
        buy.is_zero() ==> r is None,
{
    gross_pct(buy, sell)
}

/// A quote's spread `(ask - bid) / bid * 100`, in percent; `None` where a
/// decimal operation overflows or the bid is zero.
pub fn quote_spread_pct(price: &Price) -> (r: Option<Dec>)
    requires
        price.bid.wf(),
        price.ask.wf(),
    ensures
        r == gross_profit_pct(price.bid, price.ask),
        r matches Some(d) ==> d.wf(),
        price.bid.is_zero() ==> r is None,
{
    gross_pct(price.bid, price.ask)
}

fn gross_pct(buy: Dec, sell: Dec) -> (r: Option<Dec>)
    requires
        buy.wf(),
        sell.wf(),
    ensures
        r == gross_profit_pct(buy, sell),
        r matches Some(d) ==> d.wf(),
        buy.is_zero() ==> r is None,
{
    match checked_sub(sell, buy) {
        None => None,
        Some(d) => match checked_div(d, buy) {
            None => None,
            Some(q) => checked_mul(q, Dec::from_u64(100)),
        },
    }
}

fn net_pct(gross: Dec, buy_fee: Dec, sell_fee: Dec) -> (r: Option<Dec>)
    requires
        gross.wf(),
        buy_fee.wf(),
        sell_fee.wf(),
    ensures
        r == net_profit_pct(gross, buy_fee, sell_fee),
        r matches Some(d) ==> d.wf(),
{
    match checked_add(buy_fee, sell_fee) {
        None => None,
        Some(f) => match checked_mul(f, Dec::from_u64(100)) {
            None => None,
            Some(fp) => checked_sub(gross, fp),
        },
    }
}

/// Evaluates buying on `buy_exchange` at `buy_price` and selling on
/// `sell_exchange` at `sell_price`. The outcome is an error, no opportunity, or
/// one `Active` opportunity stamped `now` under `id`, whose net margin clears the
/// threshold, whose size is positive, and whose profit is `size * net / 100`.
pub fn calculate_arbitrage_opportunity(
    trading: &TradingConfig,
    pair: TradingPair,
    buy_exchange: String,
    sell_exchange: String,
    buy_price: Dec,
    sell_price: Dec,
    buy_fees: &TradingFees,
    sell_fees: &TradingFees,
    buy_book: &OrderBook,
    sell_book: &OrderBook,
    cap: Dec,
    id: u128,
    now: i64,
) -> (r: Result<Option<ArbitrageOpportunity>, CalcError>)
    requires
        trading.wf(),
        buy_price.wf(),
        sell_price.wf(),
        buy_fees.wf(),
        sell_fees.wf(),
        buy_book.wf(),
        sell_book.wf(),
        cap.wf(),
    ensures
        ({
            let f = opportunity_figures(
                *trading,
                buy_exchange@ == sell_exchange@,
                buy_price,
                sell_price,
                buy_fees.taker_fee,
                sell_fees.taker_fee,
                buy_book.asks@,
                sell_book.bids@,
                cap,
            );
            &&& r is Err <==> f is Err
            &&& r matches Err(e) ==> f == Err::<Option<(Dec, Dec, Dec)>, CalcError>(e)
            &&& (r == Ok::<Option<ArbitrageOpportunity>, CalcError>(None)) <==> (f == Ok::<Option<(Dec, Dec, Dec)>, CalcError>(None))
            &&& r matches Ok(Some(o)) ==> f == Ok::<Option<(Dec, Dec, Dec)>, CalcError>(
                Some((o.profit_percentage, o.max_trade_size, o.profit_amount)),
            )
        }),
        r matches Ok(Some(o)) ==> {
            &&& o.id == id
            &&& o.pair == pair
            &&& o.buy_exchange == buy_exchange
            &&& o.sell_exchange == sell_exchange
            &&& o.buy_exchange@ != o.sell_exchange@
            &&& o.buy_price == buy_price
            &&& o.sell_price == sell_price
            &&& o.buy_price.spec_lt(o.sell_price)
            &&& o.timestamp == now
            &&& o.status == OpportunityStatus::Active
            &&& trading.min_profit_threshold.spec_lt(o.profit_percentage)
            &&& o.max_trade_size.scaled() > 0
            &&& profit_amount_of(o.max_trade_size, o.profit_percentage) == Some(o.profit_amount)
            &&& o.profit_percentage.wf() && o.max_trade_size.wf() && o.profit_amount.wf()
        },
{
    let zero = Dec::zero();
    if buy_price.le(&zero) || sell_price.le(&zero) {
        return Err(CalcError::InvalidQuote);
    }
    if text_eq(buy_exchange.as_str(), sell_exchange.as_str()) || sell_price.le(&buy_price) {
        return Ok(None);
    }
    let thr = trading.min_profit_threshold;
    let gross = match gross_pct(buy_price, sell_price) {
        None => {
            return Err(CalcError::Overflow);
        },
        Some(g) => g,
    };
    if gross.le(&thr) {
        return Ok(None);
    }
    let net = match net_pct(gross, buy_fees.taker_fee, sell_fees.taker_fee) {
        None => {
            return Err(CalcError::Overflow);
        },
        Some(n) => n,
    };
    if net.le(&thr) {
        return Ok(None);
    }
    let size = match calculate_max_trade_size(
        buy_book,
        sell_book,
        buy_price,
        sell_price,
        trading.max_slippage,
        cap,
    ) {
        None => {
            return Err(CalcError::Overflow);
        },
        Some(s) => s,
    };
    if size.le(&zero) {
        return Ok(None);
    }
    let profit = match checked_mul(size, net) {
        None => {
            return Err(CalcError::Overflow);
        },
        Some(p) => match checked_div(p, Dec::from_u64(100)) {
            None => {
                return Err(CalcError::Overflow);
            },
            Some(q) => q,
        },
    };
    Ok(
        Some(
            ArbitrageOpportunity {
                id,
                pair,
                buy_exchange,
                sell_exchange,
                buy_price,
                sell_price,
                profit_percentage: net,
                profit_amount: profit,
                max_trade_size: size,
                timestamp: now,
                status: OpportunityStatus::Active,
            },
        ),
    )
}


/// Relies on `uuid::Uuid::new_v4`: a random identifier; nothing is known of its
/// value.
#[verifier::external_body]
fn fresh_id() -> (r: u128) {
    uuid::Uuid::new_v4().as_u128()
}

/// Relies on `chrono::Utc::now`: the current time in milliseconds since the Unix
/// epoch; nothing is known of its value.
#[verifier::external_body]
pub(crate) fn now_millis() -> (r: i64) {
    chrono::Utc::now().timestamp_millis()
}

/// `calculate_arbitrage_opportunity` under a fresh random id, stamped with the
/// current time: the outcome is the same for whatever id and time were drawn.
pub fn discover_opportunity(
    trading: &TradingConfig,
    pair: TradingPair,
    buy_exchange: String,
    sell_exchange: String,
    buy_price: Dec,
    sell_price: Dec,
    buy_fees: &TradingFees,
    sell_fees: &TradingFees,
    buy_book: &OrderBook,
    sell_book: &OrderBook,
    cap: Dec,
) -> (r: Result<Option<ArbitrageOpportunity>, CalcError>)
    requires
        trading.wf(),
        buy_price.wf(),
        sell_price.wf(),
        buy_fees.wf(),
        sell_fees.wf(),
        buy_book.wf(),
        sell_book.wf(),
        cap.wf(),
    ensures
        ({
            let f = opportunity_figures(
                *trading,
                buy_exchange@ == sell_exchange@,
                buy_price,
                sell_price,
                buy_fees.taker_fee,
                sell_fees.taker_fee,
                buy_book.asks@,
                sell_book.bids@,
                cap,
            );
            &&& r is Err <==> f is Err
            &&& r matches Err(e) ==> f == Err::<Option<(Dec, Dec, Dec)>, CalcError>(e)
            &&& (r == Ok::<Option<ArbitrageOpportunity>, CalcError>(None)) <==> (f == Ok::<
                Option<(Dec, Dec, Dec)>,
                CalcError,
            >(None))
            &&& r matches Ok(Some(o)) ==> f == Ok::<Option<(Dec, Dec, Dec)>, CalcError>(
                Some((o.profit_percentage, o.max_trade_size, o.profit_amount)),
            )
        }),
        r matches Ok(Some(o)) ==> {
            &&& o.pair == pair
            &&& o.buy_exchange == buy_exchange
            &&& o.sell_exchange == sell_exchange
            &&& o.buy_exchange@ != o.sell_exchange@
            &&& o.buy_price == buy_price
            &&& o.sell_price == sell_price
            &&& o.buy_price.spec_lt(o.sell_price)
            &&& o.status == OpportunityStatus::Active
            &&& trading.min_profit_threshold.spec_lt(o.profit_percentage)
            &&& o.max_trade_size.scaled() > 0
            &&& profit_amount_of(o.max_trade_size, o.profit_percentage) == Some(o.profit_amount)
            &&& o.profit_percentage.wf() && o.max_trade_size.wf() && o.profit_amount.wf()
        },
{
    let id = fresh_id();
    let now = now_millis();
    calculate_arbitrage_opportunity(
        trading,
        pair,
        buy_exchange,
        sell_exchange,
        buy_price,
        sell_price,
        buy_fees,
        sell_fees,
        buy_book,
        sell_book,
        cap,
        id,
        now,
    )
}

} // verus!
