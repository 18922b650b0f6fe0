//! A price-oracle proxy: one uniform price interface over plain assets,
//! quoted by an upstream feed, and liquidity-pool share tokens, whose fair
//! value is synthesized from the pool's reserves and the legs' own prices.
//!
//! The admin-gated configuration (admin identity, upstream oracle reference,
//! pool registry) lives in [`store::ConfigStore`]; current upstream data is
//! handed in as plain snapshots ([`feeds::OracleSnapshot`],
//! [`feeds::PoolDirectory`]), which the hosting environment fills from the
//! actual remote feeds.

pub mod contract;
pub mod feeds;
pub mod store;
pub mod types;
pub mod wide;
