use defi_arbitrage_bot::decimal::Dec;
use defi_arbitrage_bot::exchanges::binance::{
    balances_from_account, binance_fees, convert_symbol, create_signature, get_supported_pairs, parse_levels,
    price_from_ticker, signed_query, supports_pair, AccountEntry,
};
use defi_arbitrage_bot::exchanges::uniswap::{
    amm_price, get_token_address, level_input_units, power_of_ten, router_address, synthetic_book,
    token_holding, uniswap_fees,
};
use defi_arbitrage_bot::exchanges::{find_best_buy_price, find_best_sell_price, name_at_most, VenueError};
use defi_arbitrage_bot::models::{text_eq, Price, TradingPair};

fn d(m: i128, s: u32) -> Dec {
    Dec::new(m, s)
}

fn same(a: Dec, b: Dec) -> bool {
    a.same_value(&b)
}

fn quote(venue: &str, bid: i128, ask: i128) -> Price {
    Price {
        exchange: venue.to_string(),
        pair: TradingPair::new("btc", "usdt"),
        bid: d(bid, 0),
        ask: d(ask, 0),
        timestamp: 0,
        volume_24h: None,
    }
}

#[test]
fn binance_symbol_has_no_separator() {
    assert_eq!(convert_symbol(&TradingPair::new("btc", "usdt")), "BTCUSDT");
}

#[test]
fn signature_is_hex_hmac_sha256() {
    let sig = create_signature("key", "The quick brown fox jumps over the lazy dog");
    assert_eq!(sig, "f7bc83f430538424b13298e6aa6fb143ef4d59a14946175997479dbc2d1a3cd8");
}

#[test]
fn signed_query_appends_timestamp_and_signature() {
    let q = signed_query(
        vec![("symbol".to_string(), "BTCUSDT".to_string()), ("note".to_string(), "a b".to_string())],
        "1700000000000".to_string(),
        "secret",
    )
    .unwrap();
    let body = "symbol=BTCUSDT&note=a+b&timestamp=1700000000000";
    assert_eq!(q, format!("{}&signature={}", body, create_signature("secret", body)));
}

#[test]
fn ticker_is_read_exactly() {
    let p = price_from_ticker(
        "binance".to_string(),
        TradingPair::new("btc", "usdt"),
        "100.40",
        "100.50",
        "12.5",
        9,
    )
    .unwrap();
    assert!(same(p.bid, d(10040, 2)));
    assert!(same(p.ask, d(1005, 1)));
    assert!(same(p.volume_24h.unwrap(), d(125, 1)));
    assert_eq!(p.timestamp, 9);
    let bad = price_from_ticker("binance".to_string(), TradingPair::new("btc", "usdt"), "x", "1", "1", 0);
    assert_eq!(bad.err(), Some(VenueError::BadPayload));
}

#[test]
fn book_levels_default_unreadable_numbers_to_zero() {
    let raw = vec![("101.5".to_string(), "2".to_string()), ("x".to_string(), "3".to_string())];
    let levels = parse_levels(&raw);
    assert_eq!(levels.len(), 2);
    assert!(same(levels[0].price, d(1015, 1)));
    assert!(same(levels[0].quantity, d(2, 0)));
    assert!(same(levels[1].price, d(0, 0)));
    assert!(same(levels[1].quantity, d(3, 0)));
}

#[test]
fn account_balances_keep_positive_totals() {
    let entries = vec![
        AccountEntry { asset: "BTC".to_string(), free: "0.5".to_string(), locked: "0.25".to_string() },
        AccountEntry { asset: "ETH".to_string(), free: "0".to_string(), locked: "0.0".to_string() },
        AccountEntry { asset: "USDT".to_string(), free: "bad".to_string(), locked: "10".to_string() },
    ];
    let b = balances_from_account(entries).unwrap();
    assert_eq!(b.len(), 2);
    assert_eq!(b[0].asset, "BTC");
    assert!(same(b[0].total, d(75, 2)));
    assert_eq!(b[1].asset, "USDT");
    assert!(same(b[1].free, d(0, 0)));
    assert!(same(b[1].total, d(10, 0)));
}

#[test]
fn binance_pair_support_follows_configuration() {
    let pairs = vec!["BTC/USDT".to_string(), "eth/usdt".to_string(), "broken".to_string()];
    assert!(supports_pair(&pairs, &TradingPair::new("btc", "usdt")));
    assert!(!supports_pair(&pairs, &TradingPair::new("eth", "usdt")));
    let listed = get_supported_pairs(&pairs);
    let syms: Vec<String> = listed.iter().map(|p| p.symbol.clone()).collect();
    assert_eq!(syms, vec!["BTC/USDT".to_string(), "ETH/USDT".to_string()]);
}

#[test]
fn fees_are_fractions() {
    assert!(same(binance_fees().taker_fee, d(1, 3)));
    assert!(same(uniswap_fees().taker_fee, d(3, 3)));
}

#[test]
fn token_table_is_case_insensitive() {
    assert_eq!(get_token_address("weth"), Some("0xC02aaA39b223FE8D0A0e5C4F27eAD9083C756Cc2"));
    assert_eq!(get_token_address("Usdc"), Some("0xA0b86a33E6441e5C46EE5F395f4c0C2D45C41B1A"));
    assert_eq!(get_token_address("xyz"), None);
    assert!(defi_arbitrage_bot::exchanges::uniswap::supports_pair(&TradingPair::new("weth", "usdc")));
    assert!(!defi_arbitrage_bot::exchanges::uniswap::supports_pair(&TradingPair::new("btc", "usdc")));
    assert_eq!(router_address(), "0x7a250d5630B4cF539739dF2C5dAcb4c659F2488D");
}

#[test]
fn pool_quote_gives_ask_and_discounted_bid() {
    let p = amm_price("uniswap".to_string(), TradingPair::new("weth", "usdc"), "2000000000", 6, 3).unwrap();
    assert!(same(p.ask, d(2000, 0)));
    assert!(same(p.bid, d(1994, 0)));
    assert!(p.volume_24h.is_none());
    let bad = amm_price("uniswap".to_string(), TradingPair::new("weth", "usdc"), "n/a", 6, 3);
    assert_eq!(bad.err(), Some(VenueError::BadPayload));
    let wide = amm_price("uniswap".to_string(), TradingPair::new("weth", "usdc"), "1", 20, 3);
    assert_eq!(wide.err(), Some(VenueError::Overflow));
}

#[test]
fn synthetic_book_skips_failed_levels() {
    let quotes = vec![Some("1990000000".to_string()), None, Some("5850000000".to_string())];
    let (asks, bids) = synthetic_book(&quotes, 6).unwrap();
    assert_eq!(asks.len(), 2);
    assert_eq!(bids.len(), 2);
    assert!(same(asks[0].price, d(199, 1)));
    assert!(same(asks[0].quantity, d(100, 0)));
    assert!(same(bids[0].price, d(198403, 4)));
    assert!(same(asks[1].price, d(195, 1)));
    assert!(same(asks[1].quantity, d(300, 0)));
    let bad = synthetic_book(&vec![Some("oops".to_string())], 6);
    assert_eq!(bad.err(), Some(VenueError::BadPayload));
}

#[test]
fn level_inputs_and_powers() {
    assert_eq!(level_input_units(2, 18), Some(200_000_000_000_000_000_000));
    assert_eq!(level_input_units(1, 6), Some(100_000_000));
    assert_eq!(power_of_ten(19), Some(10_000_000_000_000_000_000));
    assert_eq!(power_of_ten(20), None);
    assert_eq!(power_of_ten(0), Some(1));
}

#[test]
fn token_holdings() {
    let b = token_holding("DAI".to_string(), "1500000000000000000", 18).unwrap().unwrap();
    assert!(same(b.free, d(15, 1)));
    assert!(same(b.total, d(15, 1)));
    assert!(same(b.locked, d(0, 0)));
    assert!(token_holding("DAI".to_string(), "0", 18).unwrap().is_none());
    assert_eq!(token_holding("DAI".to_string(), "abc", 18).err(), Some(VenueError::BadPayload));
}

#[test]
fn best_quotes_break_ties_by_name() {
    let prices = vec![quote("kraken", 99, 101), quote("uniswap", 100, 100), quote("binance", 100, 100)];
    assert_eq!(find_best_buy_price(&prices), Some(2));
    assert_eq!(find_best_sell_price(&prices), Some(2));
    let single = vec![quote("kraken", 98, 99)];
    assert_eq!(find_best_buy_price(&single), Some(0));
    assert_eq!(find_best_buy_price(&Vec::new()), None);
    assert!(name_at_most("binance", "uniswap"));
    assert!(!name_at_most("uniswap", "binance"));
    assert!(name_at_most("bin", "binance"));
    assert!(text_eq("abc", "abc"));
    assert!(!text_eq("abc", "abd"));
}

#[test]
fn synthetic_book_keeps_one_level_per_quote_in_order() {
    let quotes = vec![
        Some("1990000000".to_string()),
        Some("3960000000".to_string()),
        Some("5850000000".to_string()),
    ];
    let (asks, bids) = synthetic_book(&quotes, 6).unwrap();
    assert_eq!(asks.len(), 3);
    assert_eq!(bids.len(), 3);
    assert!(same(asks[0].price, d(199, 1)));
    assert!(same(asks[1].price, d(198, 1)));
    assert!(same(asks[2].price, d(195, 1)));
    for (k, q) in [100, 200, 300].iter().enumerate() {
        assert!(same(asks[k].quantity, d(*q, 0)));
        assert!(same(bids[k].quantity, d(*q, 0)));
    }
    assert!(same(bids[1].price, d(197406, 4)));
}
