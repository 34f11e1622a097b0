//! The administrative and solvency core of a collateralized lending protocol.
//!
//! A group gathers banks under one administrator. A bank is the market of one asset: it has a
//! configuration, three custody vaults whose addresses are derived from the bank's own key,
//! and books that interest accrual, fee collection and bankruptcy resolution move.
//!
//! - [`address`], [`pda`], [`vault`]: addresses and their derivation.
//! - [`config`], [`oracle`], [`interest`]: the rules a bank is configured and priced by.
//! - [`bank`], [`group`], [`ledger`]: the records and the operations on them.
//! - [`record`]: the persisted form of a bank.
//! - [`fixture`]: handles that run the operations on behalf of a ledger's payer.
//! - [`laws`]: what holds of the operations on every input.
pub mod address;
pub mod bank;
pub mod config;
pub mod error;
pub mod fixture;
pub mod group;
pub mod interest;
pub mod laws;
pub mod ledger;
pub mod oracle;
pub mod pda;
pub mod record;
pub mod vault;
