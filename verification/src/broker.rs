//! Periodic sales of core time: the rotation of sale periods, the shared pool's
//! accounting and the per-core workload schedule.

pub mod mask;
pub mod price;
pub mod ratio;
pub mod regions;
pub mod rotation;
pub mod tick;
pub mod types;
pub mod workload;
