//! The validated configuration record the engine runs on.

use crate::decimal::Dec;
use crate::models::{pair_symbol, split_pair, text_eq, upper_of};
use vstd::prelude::*;

verus! {

/// Settings of one venue.
#[derive(Clone, Debug)]
pub struct ExchangeConfig {
    pub name: String,
    pub api_key: String,
    pub api_secret: String,
    pub api_url: String,
    pub websocket_url: Option<String>,
    pub enabled: bool,
    pub trading_pairs: Vec<String>,
    pub min_trade_amount: Dec,
    pub max_trade_amount: Dec,
}

#[derive(Clone, Debug)]
pub struct ChainConfig {
    pub rpc_url: String,
    pub chain_id: u64,
    pub private_key: String,
    pub gas_price_gwei: u64,
    pub max_gas_limit: u64,
    pub enabled: bool,
}

#[derive(Clone, Debug)]
pub struct BlockchainConfig {
    pub ethereum: ChainConfig,
    pub bsc: ChainConfig,
    pub polygon: ChainConfig,
}

#[derive(Clone, Copy, Debug)]
pub struct RiskManagement {
    pub max_portfolio_exposure: Dec,
    pub stop_loss_percentage: Dec,
    pub position_size_limit: Dec,
}

/// Thresholds of the calculator and the executor. `min_profit_threshold` is a
/// percentage; `max_slippage` a fraction.
#[derive(Clone, Copy, Debug)]
pub struct TradingConfig {
    pub min_profit_threshold: Dec,
    pub max_slippage: Dec,
    pub check_interval_seconds: u64,
    pub max_concurrent_trades: usize,
    pub risk_management: RiskManagement,
}

impl TradingConfig {
    pub open spec fn wf(self) -> bool {
        self.min_profit_threshold.wf() && self.max_slippage.wf()
    }
}

#[derive(Clone, Debug)]
pub struct TelegramConfig {
    pub bot_token: String,
    pub chat_id: String,
}

#[derive(Clone, Debug)]
pub struct DiscordConfig {
    pub webhook_url: String,
}

#[derive(Clone, Debug)]
pub struct NotificationConfig {
    pub telegram: Option<TelegramConfig>,
    pub discord: Option<DiscordConfig>,
}

/// The whole configuration. `exchanges` pairs each venue's key with its
/// settings; a configuration read from a file has distinct keys
/// (`has_distinct_keys`).
#[derive(Clone, Debug)]
pub struct Config {
    pub database_url: String,
    pub exchanges: Vec<(String, ExchangeConfig)>,
    pub blockchain: BlockchainConfig,
    pub trading: TradingConfig,
    pub notifications: Option<NotificationConfig>,
}

/// Why a configuration is refused.
#[derive(Clone, Copy, Debug, PartialEq, Eq, Structural)]
pub enum ConfigError {
    NoExchangeEnabled,
    NoBlockchainEnabled,
    NonPositiveProfitThreshold,
}

/// Trade cap used for a venue that has no entry of its own.
pub const DEFAULT_MAX_TRADE_AMOUNT: u64 = 1000;

pub open spec fn is_enabled(e: (String, ExchangeConfig)) -> bool {
    e.1.enabled
}

pub open spec fn enabled_prefix(entries: Seq<(String, ExchangeConfig)>, n: int) -> Seq<(String, ExchangeConfig)> {
    entries.take(n).filter(|e: (String, ExchangeConfig)| is_enabled(e))
}

/// The canonical symbol that a configured pair text stands for, if it is well formed.
pub open spec fn parsed_symbol(s: Seq<char>) -> Option<Seq<char>> {
    match split_pair(s) {
        Some((b, q)) => Some(pair_symbol(upper_of(b), upper_of(q))),
        None => None,
    }
}

impl Config {
    /// No two venue entries share a key.
    pub open spec fn has_distinct_keys(self) -> bool {
        forall|i: int, j: int|
            0 <= i < self.exchanges@.len() && 0 <= j < self.exchanges@.len() && i != j
                ==> self.exchanges@[i].0@ != self.exchanges@[j].0@
    }

    pub open spec fn any_exchange_enabled(self) -> bool {
        exists|i: int| 0 <= i < self.exchanges@.len() && self.exchanges@[i].1.enabled
    }

    pub open spec fn any_chain_enabled(self) -> bool {
        self.blockchain.ethereum.enabled || self.blockchain.bsc.enabled
            || self.blockchain.polygon.enabled
    }

    pub open spec fn enabled_entries(self) -> Seq<(String, ExchangeConfig)> {
        self.exchanges@.filter(|e: (String, ExchangeConfig)| is_enabled(e))
    }

    /// The settings stored under the first key equal to `name`.
    pub open spec fn entry_for(self, name: Seq<char>) -> Option<ExchangeConfig> {
        if exists|i: int| 0 <= i < self.exchanges@.len() && self.exchanges@[i].0@ == name {
            let i = choose|i: int|
                0 <= i < self.exchanges@.len() && self.exchanges@[i].0@ == name
                    && forall|k: int| 0 <= k < i ==> self.exchanges@[k].0@ != name;
            Some(self.exchanges@[i].1)
        } else {
            None
        }
    }

    /// Accepts a configuration with an enabled venue, an enabled chain and a
    /// positive profit threshold; the first rule broken is reported.
    pub fn validate(&self) -> (r: Result<(), ConfigError>)
        requires
            self.trading.wf(),
        ensures
            r == Err::<(), ConfigError>(ConfigError::NoExchangeEnabled) <==> !self.any_exchange_enabled(),
            r == Err::<(), ConfigError>(ConfigError::NoBlockchainEnabled) <==> self.any_exchange_enabled()
                && !self.any_chain_enabled(),
            r == Err::<(), ConfigError>(ConfigError::NonPositiveProfitThreshold) <==> self.any_exchange_enabled()
                && self.any_chain_enabled() && self.trading.min_profit_threshold.scaled() <= 0,
            r is Ok <==> self.any_exchange_enabled() && self.any_chain_enabled()
                && self.trading.min_profit_threshold.scaled() > 0,
    {
        let mut i: usize = 0;
        let mut found = false;
        while i < self.exchanges.len()
            invariant
                i <= self.exchanges@.len(),
                found <==> exists|k: int| 0 <= k < i && self.exchanges@[k].1.enabled,
            decreases self.exchanges@.len() - i,
        {
            if self.exchanges[i].1.enabled {
                found = true;
            }
            i = i + 1;
        }
        if !found {
            return Err(ConfigError::NoExchangeEnabled);
        }
        if !(self.blockchain.ethereum.enabled || self.blockchain.bsc.enabled
            || self.blockchain.polygon.enabled) {
            return Err(ConfigError::NoBlockchainEnabled);
        }
        if self.trading.min_profit_threshold.le(&Dec::zero()) {
            return Err(ConfigError::NonPositiveProfitThreshold);
        }
        Ok(())
    }

    /// The enabled venues, in configuration order.
    pub fn get_enabled_exchanges(&self) -> (r: Vec<&(String, ExchangeConfig)>)
        ensures
            r@.len() == self.enabled_entries().len(),
            forall|k: int| 0 <= k < r@.len() ==> #[trigger] r@[k] == self.enabled_entries()[k],
    {
        let mut r: Vec<&(String, ExchangeConfig)> = Vec::new();
        let mut i: usize = 0;
        while i < self.exchanges.len()
            invariant
                i <= self.exchanges@.len(),
                r@.len() == enabled_prefix(self.exchanges@, i as int).len(),
                forall|k: int| 0 <= k < r@.len() ==> #[trigger] r@[k] == enabled_prefix(self.exchanges@, i as int)[k],
            decreases self.exchanges@.len() - i,
        {
            let e = &self.exchanges[i];
            proof {
                assert(self.exchanges@.take(i + 1) == self.exchanges@.take(i as int).push(*e));
                self.exchanges@.take(i as int).lemma_filter_push(
                    *e,
                    |e: (String, ExchangeConfig)| is_enabled(e),
                );
            }
            if e.1.enabled {
                r.push(e);
            }
            i = i + 1;
        }
        assert(self.exchanges@.take(i as int) == self.exchanges@);
        assert(enabled_prefix(self.exchanges@, i as int) == self.enabled_entries());
        r
    }

    /// The trade cap configured for venue `name`, or the default cap where it has
    /// no entry.
    pub fn max_trade_amount_for(&self, name: &str) -> (r: Dec)
        ensures
            self.has_distinct_keys() ==> forall|i: int| 0 <= i < self.exchanges@.len()
                && (#[trigger] self.exchanges@[i]).0@ == name@ ==> r == self.exchanges@[i].1.max_trade_amount,
            r == (match self.entry_for(name@) {
                Some(e) => e.max_trade_amount,
                None => Dec { mantissa: DEFAULT_MAX_TRADE_AMOUNT as i128, scale: 0 },
            }),
    {
        let mut i: usize = 0;
        while i < self.exchanges.len()
            invariant
                i <= self.exchanges@.len(),
                forall|k: int| 0 <= k < i ==> self.exchanges@[k].0@ != name@,
            decreases self.exchanges@.len() - i,
        {
            if text_eq(self.exchanges[i].0.as_str(), name) {
                proof {
                    let j = choose|j: int|
                        0 <= j < self.exchanges@.len() && self.exchanges@[j].0@ == name@
                            && forall|k: int| 0 <= k < j ==> self.exchanges@[k].0@ != name@;
                    assert(j == i) by {
                        if j < i {
                        } else if j > i {
                        }
                    }
                }
                return self.exchanges[i].1.max_trade_amount;
            }
            i = i + 1;
        }
        Dec::from_u64(DEFAULT_MAX_TRADE_AMOUNT)
    }
}

} // verus!
