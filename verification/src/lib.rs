//! Verified core of the Tavily Hikari proxy: recharge pricing, reconciliation
//! outcome classification, alert projection bookkeeping and the small
//! decision procedures that the service's I/O layer drives.

pub mod alert_projection;
pub mod billing_repair;
pub mod calendar;
pub mod engine;
pub mod ha;
pub mod json;
pub mod error;
pub mod lines;
pub mod markers;
pub mod pressure;
pub mod proxy;
pub mod recharge;
pub mod reservation;
pub mod sqlite_tx;
pub mod summary_gate;
pub mod text;
