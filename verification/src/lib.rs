//! A bar-driven backtesting engine: order queue, next-open fill simulation,
//! position ledger and equity tracking, all in integer fixed-point money.

pub mod account;
pub mod engine;
pub mod fills;
pub mod ledger;
pub mod market;
pub mod model;
pub mod money;
pub mod position;
pub mod types;
