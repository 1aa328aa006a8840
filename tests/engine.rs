use defi_arbitrage_bot::book::{OpportunityBook, UpsertOutcome, DEFAULT_EXPIRY_MS};
use defi_arbitrage_bot::calculator::{
    band_liquidity, calculate_arbitrage_opportunity, calculate_max_trade_size, clears_gross_threshold,
    discover_opportunity, gross_margin_pct, quote_spread_pct, CalcError,
};
use defi_arbitrage_bot::config::{
    BlockchainConfig, ChainConfig, Config, ConfigError, ExchangeConfig, RiskManagement, TradingConfig,
};
use defi_arbitrage_bot::decimal::Dec;
use defi_arbitrage_bot::exchanges::binance::binance_fees;
use defi_arbitrage_bot::executor::plan_execution;
use defi_arbitrage_bot::models::{
    parse_trading_pair, ArbitrageOpportunity, OpportunityStatus, OrderBook, OrderBookLevel, Price, TradingPair,
};
use defi_arbitrage_bot::scan::{candidate_directions, plan_scan};

fn d(m: i128, s: u32) -> Dec {
    Dec::new(m, s)
}

fn same(a: Dec, b: Dec) -> bool {
    a.same_value(&b)
}

fn trading() -> TradingConfig {
    TradingConfig {
        min_profit_threshold: d(5, 1),
        max_slippage: d(1, 2),
        check_interval_seconds: 10,
        max_concurrent_trades: 2,
        risk_management: RiskManagement {
            max_portfolio_exposure: d(1, 0),
            stop_loss_percentage: d(5, 0),
            position_size_limit: d(1000, 0),
        },
    }
}

fn lvl(p: i128, ps: u32, q: i128) -> OrderBookLevel {
    OrderBookLevel { price: d(p, ps), quantity: d(q, 0) }
}

fn book(exchange: &str, bids: Vec<OrderBookLevel>, asks: Vec<OrderBookLevel>) -> OrderBook {
    OrderBook { exchange: exchange.to_string(), pair: TradingPair::new("btc", "usdt"), bids, asks, timestamp: 0 }
}

fn opp(buy: &str, sell: &str, pct: Dec, ts: i64) -> ArbitrageOpportunity {
    ArbitrageOpportunity {
        id: 7,
        pair: TradingPair::new("btc", "usdt"),
        buy_exchange: buy.to_string(),
        sell_exchange: sell.to_string(),
        buy_price: d(100, 0),
        sell_price: d(101, 0),
        profit_percentage: pct,
        profit_amount: d(1, 0),
        max_trade_size: d(10, 0),
        timestamp: ts,
        status: OpportunityStatus::Active,
    }
}

fn chain(enabled: bool) -> ChainConfig {
    ChainConfig {
        rpc_url: "http://localhost".to_string(),
        chain_id: 1,
        private_key: String::new(),
        gas_price_gwei: 20,
        max_gas_limit: 300000,
        enabled,
    }
}

fn venue(name: &str, enabled: bool, pairs: &[&str]) -> (String, ExchangeConfig) {
    (
        name.to_string(),
        ExchangeConfig {
            name: name.to_string(),
            api_key: String::new(),
            api_secret: String::new(),
            api_url: "http://localhost".to_string(),
            websocket_url: None,
            enabled,
            trading_pairs: pairs.iter().map(|p| p.to_string()).collect(),
            min_trade_amount: d(10, 0),
            max_trade_amount: d(1000, 0),
        },
    )
}

fn config(exchanges: Vec<(String, ExchangeConfig)>, chains: bool, threshold: Dec) -> Config {
    let mut t = trading();
    t.min_profit_threshold = threshold;
    Config {
        database_url: "sqlite://x".to_string(),
        exchanges,
        blockchain: BlockchainConfig { ethereum: chain(chains), bsc: chain(false), polygon: chain(false) },
        trading: t,
        notifications: None,
    }
}

fn s2_books() -> (OrderBook, OrderBook) {
    let a = book("a", vec![], vec![lvl(10000, 2, 5), lvl(10050, 2, 50), lvl(10150, 2, 100)]);
    let b = book("b", vec![lvl(10100, 2, 30), lvl(10090, 2, 20), lvl(9900, 2, 200)], vec![]);
    (a, b)
}

#[test]
fn scenario_too_thin_gives_no_opportunity() {
    let t = trading();
    assert_eq!(clears_gross_threshold(&t, d(10000, 2), d(10040, 2)), Ok(false));
    let (a, b) = s2_books();
    let r = calculate_arbitrage_opportunity(
        &t,
        TradingPair::new("btc", "usdt"),
        "a".to_string(),
        "b".to_string(),
        d(10000, 2),
        d(10040, 2),
        &binance_fees(),
        &binance_fees(),
        &a,
        &b,
        d(1000, 0),
        1,
        0,
    );
    assert!(matches!(r, Ok(None)));
}

#[test]
fn scenario_opportunity_has_exact_fields() {
    let t = trading();
    assert_eq!(clears_gross_threshold(&t, d(10000, 2), d(10100, 2)), Ok(true));
    let (a, b) = s2_books();
    let r = calculate_arbitrage_opportunity(
        &t,
        TradingPair::new("btc", "usdt"),
        "a".to_string(),
        "b".to_string(),
        d(10000, 2),
        d(10100, 2),
        &binance_fees(),
        &binance_fees(),
        &a,
        &b,
        d(1000, 0),
        42,
        1_000,
    );
    let o = r.unwrap().unwrap();
    assert!(same(o.profit_percentage, d(80, 2)));
    assert!(same(o.max_trade_size, d(50, 0)));
    assert!(same(o.profit_amount, d(40, 2)));
    assert!(same(o.buy_price, d(100, 0)));
    assert!(same(o.sell_price, d(101, 0)));
    assert_eq!(o.buy_exchange, "a");
    assert_eq!(o.sell_exchange, "b");
    assert_eq!(o.pair.symbol, "BTC/USDT");
    assert_eq!(o.id, 42);
    assert_eq!(o.timestamp, 1_000);
    assert_eq!(o.status, OpportunityStatus::Active);
}

#[test]
fn depth_walk_stops_at_first_level_outside_band() {
    let (a, b) = s2_books();
    let buy = band_liquidity(&a.asks, d(101, 0), false).unwrap();
    assert!(same(buy, d(55, 0)));
    let sell = band_liquidity(&b.bids, d(9999, 2), true).unwrap();
    assert!(same(sell, d(50, 0)));
    let size = calculate_max_trade_size(&a, &b, d(100, 0), d(101, 0), d(1, 2), d(1000, 0)).unwrap();
    assert!(same(size, d(50, 0)));
    let capped = calculate_max_trade_size(&a, &b, d(100, 0), d(101, 0), d(1, 2), d(20, 0)).unwrap();
    assert!(same(capped, d(20, 0)));
}

#[test]
fn empty_books_give_no_opportunity() {
    let t = trading();
    let a = book("a", vec![], vec![]);
    let b = book("b", vec![], vec![]);
    let r = calculate_arbitrage_opportunity(
        &t,
        TradingPair::new("btc", "usdt"),
        "a".to_string(),
        "b".to_string(),
        d(100, 0),
        d(110, 0),
        &binance_fees(),
        &binance_fees(),
        &a,
        &b,
        d(1000, 0),
        1,
        0,
    );
    assert!(matches!(r, Ok(None)));
}

#[test]
fn calculator_refuses_non_positive_quote() {
    let t = trading();
    let (a, b) = s2_books();
    let r = calculate_arbitrage_opportunity(
        &t,
        TradingPair::new("btc", "usdt"),
        "a".to_string(),
        "b".to_string(),
        d(0, 0),
        d(101, 0),
        &binance_fees(),
        &binance_fees(),
        &a,
        &b,
        d(1000, 0),
        1,
        0,
    );
    assert_eq!(r.err(), Some(CalcError::InvalidQuote));
    assert_eq!(clears_gross_threshold(&t, d(-1, 0), d(101, 0)), Err(CalcError::InvalidQuote));
}

#[test]
fn calculator_reports_overflow() {
    let t = trading();
    let (a, b) = s2_books();
    let huge = d(79228162514264337593543950335, 0);
    let r = calculate_arbitrage_opportunity(
        &t,
        TradingPair::new("btc", "usdt"),
        "a".to_string(),
        "b".to_string(),
        d(1, 28),
        huge,
        &binance_fees(),
        &binance_fees(),
        &a,
        &b,
        d(1000, 0),
        1,
        0,
    );
    assert_eq!(r.err(), Some(CalcError::Overflow));
}

#[test]
fn same_venue_or_crossed_prices_give_nothing() {
    let t = trading();
    let (a, b) = s2_books();
    let same_venue = calculate_arbitrage_opportunity(
        &t,
        TradingPair::new("btc", "usdt"),
        "a".to_string(),
        "a".to_string(),
        d(100, 0),
        d(101, 0),
        &binance_fees(),
        &binance_fees(),
        &a,
        &b,
        d(1000, 0),
        1,
        0,
    );
    assert!(matches!(same_venue, Ok(None)));
    let crossed = calculate_arbitrage_opportunity(
        &t,
        TradingPair::new("btc", "usdt"),
        "a".to_string(),
        "b".to_string(),
        d(101, 0),
        d(100, 0),
        &binance_fees(),
        &binance_fees(),
        &a,
        &b,
        d(1000, 0),
        1,
        0,
    );
    assert!(matches!(crossed, Ok(None)));
}

#[test]
fn scenario_improvement_replaces() {
    let mut bk = OpportunityBook::new(DEFAULT_EXPIRY_MS);
    let mut saves = 0;
    for (pct, expected) in [
        (d(8, 1), UpsertOutcome::Inserted),
        (d(9, 1), UpsertOutcome::Replaced),
        (d(85, 2), UpsertOutcome::Ignored),
    ] {
        let r = bk.upsert(opp("a", "b", pct, 0));
        assert_eq!(r, expected);
        if r != UpsertOutcome::Ignored {
            saves += 1;
        }
    }
    assert_eq!(saves, 2);
    assert_eq!(bk.len(), 1);
    assert!(same(bk.get("BTC/USDT-a-b").unwrap().profit_percentage, d(9, 1)));
}

#[test]
fn equal_profit_is_ignored() {
    let mut bk = OpportunityBook::new(DEFAULT_EXPIRY_MS);
    assert_eq!(bk.upsert(opp("a", "b", d(8, 1), 0)), UpsertOutcome::Inserted);
    assert_eq!(bk.upsert(opp("a", "b", d(80, 2), 5)), UpsertOutcome::Ignored);
    assert_eq!(bk.get("BTC/USDT-a-b").unwrap().timestamp, 0);
}

#[test]
fn scenario_reverse_direction_is_separate_key() {
    let mut bk = OpportunityBook::new(DEFAULT_EXPIRY_MS);
    assert_eq!(bk.upsert(opp("a", "b", d(8, 1), 0)), UpsertOutcome::Inserted);
    assert_eq!(bk.upsert(opp("b", "a", d(6, 1), 0)), UpsertOutcome::Inserted);
    assert_eq!(bk.len(), 2);
    assert!(same(bk.get("BTC/USDT-a-b").unwrap().profit_percentage, d(8, 1)));
    assert!(same(bk.get("BTC/USDT-b-a").unwrap().profit_percentage, d(6, 1)));
}

#[test]
fn scenario_expiry() {
    let t: i64 = 1_700_000_000_000;
    let mut bk = OpportunityBook::new(DEFAULT_EXPIRY_MS);
    bk.upsert(opp("a", "b", d(8, 1), t));
    let kept = bk.expire(t + 4 * 60_000 + 59_000);
    assert!(kept.is_empty());
    assert_eq!(bk.len(), 1);
    let gone = bk.expire(t + 5 * 60_000 + 1_000);
    assert_eq!(gone.len(), 1);
    assert_eq!(gone[0].status, OpportunityStatus::Expired);
    assert_eq!(bk.len(), 0);
    assert!(bk.expire(t + 10 * 60_000).is_empty());
}

#[test]
fn expiry_boundary_is_strict() {
    let mut bk = OpportunityBook::new(DEFAULT_EXPIRY_MS);
    bk.upsert(opp("a", "b", d(8, 1), 0));
    bk.upsert(opp("b", "a", d(8, 1), 1));
    let gone = bk.expire(DEFAULT_EXPIRY_MS);
    assert!(gone.is_empty());
    let gone = bk.expire(DEFAULT_EXPIRY_MS + 1);
    assert_eq!(gone.len(), 1);
    assert_eq!(gone[0].buy_exchange, "a");
    assert_eq!(bk.len(), 1);
}

#[test]
fn scenario_dry_run_selects_two() {
    let mut bk = OpportunityBook::new(DEFAULT_EXPIRY_MS);
    bk.upsert(opp("a", "b", d(8, 1), 0));
    bk.upsert(opp("b", "c", d(7, 1), 0));
    bk.upsert(opp("c", "a", d(9, 1), 0));
    let plan = bk.execution_plan(2, true);
    assert_eq!(plan.simulated.len(), 2);
    assert!(plan.dispatched.is_empty());
    assert!(same(plan.simulated[0].profit_percentage, d(9, 1)));
    assert!(same(plan.simulated[1].profit_percentage, d(8, 1)));
    for o in bk.rank_active() {
        assert_eq!(o.status, OpportunityStatus::Active);
    }
}

#[test]
fn live_mode_dispatches_without_simulating() {
    let mut bk = OpportunityBook::new(DEFAULT_EXPIRY_MS);
    bk.upsert(opp("a", "b", d(8, 1), 0));
    let plan = bk.execution_plan(5, false);
    assert!(plan.simulated.is_empty());
    assert_eq!(plan.dispatched.len(), 1);
    let ranked = bk.rank_active();
    assert!(plan_execution(&ranked, 0, false).dispatched.is_empty());
}

#[test]
fn ranking_is_sorted_with_timestamp_tiebreak() {
    let mut bk = OpportunityBook::new(DEFAULT_EXPIRY_MS);
    bk.upsert(opp("a", "b", d(7, 1), 5));
    bk.upsert(opp("b", "c", d(9, 1), 9));
    bk.upsert(opp("c", "a", d(70, 2), 1));
    bk.upsert(opp("a", "c", d(9, 1), 3));
    let r = bk.rank_active();
    let seen: Vec<(String, i64)> = r.iter().map(|o| (o.buy_exchange.clone(), o.timestamp)).collect();
    assert_eq!(
        seen,
        vec![("a".to_string(), 3), ("b".to_string(), 9), ("c".to_string(), 1), ("a".to_string(), 5)]
    );
}

#[test]
fn marked_entries_leave_the_ranking_and_return_as_new() {
    let mut bk = OpportunityBook::new(DEFAULT_EXPIRY_MS);
    bk.upsert(opp("a", "b", d(9, 1), 0));
    bk.upsert(opp("b", "a", d(8, 1), 0));
    let m = bk.mark("BTC/USDT-a-b", OpportunityStatus::Executed).unwrap();
    assert_eq!(m.status, OpportunityStatus::Executed);
    assert!(bk.mark("BTC/USDT-a-b", OpportunityStatus::Failed).is_none());
    assert_eq!(bk.rank_active().len(), 1);
    assert_eq!(bk.upsert(opp("a", "b", d(1, 1), 0)), UpsertOutcome::Inserted);
}

#[test]
fn single_enabled_venue_means_no_scan() {
    let c = config(
        vec![venue("binance", true, &["BTC/USDT"]), venue("uniswap", false, &["WETH/USDC"])],
        true,
        d(5, 1),
    );
    assert!(plan_scan(&c).is_none());
    assert!(candidate_directions(1).is_empty());
}

#[test]
fn scan_pairs_are_the_union_by_symbol() {
    let c = config(
        vec![
            venue("binance", true, &["BTC/USDT", "eth/usdt", "bad"]),
            venue("uniswap", true, &["btc/usdt", "WETH/USDC"]),
            venue("other", false, &["XRP/USDT"]),
        ],
        true,
        d(5, 1),
    );
    let ps = plan_scan(&c).unwrap();
    let syms: Vec<String> = ps.iter().map(|p| p.symbol.clone()).collect();
    assert_eq!(syms, vec!["BTC/USDT".to_string(), "ETH/USDT".to_string(), "WETH/USDC".to_string()]);
}

#[test]
fn directions_cover_both_ways() {
    let r = candidate_directions(3);
    assert_eq!(r, vec![(0, 1), (1, 0), (0, 2), (2, 0), (1, 2), (2, 1)]);
}

#[test]
fn pair_parsing() {
    let p = parse_trading_pair("eth/usdc").unwrap();
    assert_eq!(p.base, "ETH");
    assert_eq!(p.quote, "USDC");
    assert_eq!(p.symbol, "ETH/USDC");
    assert!(parse_trading_pair("a/b/c").is_none());
    assert!(parse_trading_pair("/usdc").is_none());
    assert!(parse_trading_pair("eth/").is_none());
    assert!(parse_trading_pair("ethusdc").is_none());
    assert_eq!(TradingPair::new("btc", "Usdt").symbol, "BTC/USDT");
}

#[test]
fn config_validation() {
    let ok = config(vec![venue("binance", true, &[])], true, d(5, 1));
    assert_eq!(ok.validate(), Ok(()));
    let none = config(vec![venue("binance", false, &[])], true, d(5, 1));
    assert_eq!(none.validate(), Err(ConfigError::NoExchangeEnabled));
    let no_chain = config(vec![venue("binance", true, &[])], false, d(5, 1));
    assert_eq!(no_chain.validate(), Err(ConfigError::NoBlockchainEnabled));
    let zero = config(vec![venue("binance", true, &[])], true, d(0, 0));
    assert_eq!(zero.validate(), Err(ConfigError::NonPositiveProfitThreshold));
}

#[test]
fn enabled_venues_and_caps() {
    let mut c = config(vec![venue("binance", true, &[]), venue("uniswap", false, &[])], true, d(5, 1));
    c.exchanges[0].1.max_trade_amount = d(250, 0);
    let en = c.get_enabled_exchanges();
    assert_eq!(en.len(), 1);
    assert_eq!(en[0].0, "binance");
    assert!(same(c.max_trade_amount_for("binance"), d(250, 0)));
    assert!(same(c.max_trade_amount_for("kraken"), d(1000, 0)));
}

#[test]
fn decimal_comparisons() {
    assert!(d(100, 0).same_value(&d(10000, 2)));
    assert!(d(1, 1).lt(&d(11, 2)));
    assert!(d(-5, 0).le(&d(0, 0)));
    assert!(same(d(3, 0).min_of(d(29, 1)), d(29, 1)));
}

#[test]
fn gross_margin_and_spread() {
    assert!(same(gross_margin_pct(d(100, 0), d(101, 0)).unwrap(), d(1, 0)));
    assert!(same(gross_margin_pct(d(10000, 2), d(10040, 2)).unwrap(), d(4, 1)));
    assert!(gross_margin_pct(d(0, 0), d(1, 0)).is_none());
    let p = Price {
        exchange: "a".to_string(),
        pair: TradingPair::new("btc", "usdt"),
        bid: d(200, 0),
        ask: d(201, 0),
        timestamp: 0,
        volume_24h: None,
    };
    assert!(same(quote_spread_pct(&p).unwrap(), d(5, 1)));
}

#[test]
fn discovered_opportunity_matches_the_calculation() {
    let (a, b) = s2_books();
    let o = discover_opportunity(
        &trading(),
        TradingPair::new("btc", "usdt"),
        "a".to_string(),
        "b".to_string(),
        d(10000, 2),
        d(10100, 2),
        &binance_fees(),
        &binance_fees(),
        &a,
        &b,
        d(1000, 0),
    )
    .unwrap()
    .unwrap();
    assert!(same(o.profit_amount, d(40, 2)));
    assert_eq!(o.status, OpportunityStatus::Active);
}

#[test]
fn stale_entries_expire_against_the_clock() {
    let mut bk = OpportunityBook::new(DEFAULT_EXPIRY_MS);
    bk.upsert(opp("a", "b", d(8, 1), 0));
    let (gone, now) = bk.expire_stale();
    assert!(now > DEFAULT_EXPIRY_MS);
    assert_eq!(gone.len(), 1);
    assert_eq!(bk.len(), 0);
}

#[test]
fn executor_leaves_out_only_lower_ranked_entries() {
    let mut bk = OpportunityBook::new(DEFAULT_EXPIRY_MS);
    bk.upsert(opp("a", "b", d(7, 1), 0));
    bk.upsert(opp("b", "c", d(8, 1), 0));
    bk.upsert(opp("c", "a", d(9, 1), 0));
    let plan = bk.execution_plan(2, false);
    let chosen: Vec<String> = plan.dispatched.iter().map(|o| o.buy_exchange.clone()).collect();
    assert_eq!(chosen, vec!["c".to_string(), "b".to_string()]);
}

#[test]
fn directions_have_no_repeats() {
    let r = candidate_directions(4);
    assert_eq!(r.len(), 12);
    for (k, p) in r.iter().enumerate() {
        assert!(!r[k + 1..].contains(p));
    }
}
