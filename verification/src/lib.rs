//! Deferred-call scheduling and periodic capacity sales for a block-driven runtime.
//!
//! The crate holds two state machines and the pieces they share:
//!
//! * [`weight`]: a two-dimensional cost and the meter that budgets it;
//! * [`scheduler`]: agendas of prioritised, optionally named and periodic tasks, and the
//!   per-block pass that executes, postpones or cancels them;
//! * [`broker`]: the sale rotation engine and the per-core workload scheduler;
//! * [`sorting`] and [`store`]: a stable sort by rank and a keyed table, used by both;
//! * [`uniques`], [`dex`] and [`rpc`]: the listings of a registry of unique items, the
//!   price arithmetic of a pool of two assets, and the answer of a subscription.
//!
//! Every function carries a contract over a mathematical model of the state.

pub mod broker;
pub mod dex;
pub mod rpc;
pub mod scheduler;
pub mod sorting;
pub mod store;
pub mod uniques;
pub mod weight;
