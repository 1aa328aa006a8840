//! Cross-venue arbitrage engine: quote comparison, depth-aware opportunity
//! sizing, a deduplicating opportunity book and the executor.

pub mod decimal;
pub mod models;
pub mod config;
pub mod exchanges;
pub mod calculator;
pub mod book;
pub mod executor;
pub mod scan;
