//! Deferred calls: tasks wait in the agenda of a block until the block's pass executes
//! them, postpones them or cancels them.

pub mod agenda;
pub mod course;
pub mod laws;
pub mod name_laws;
pub mod names;
pub mod ops;
pub mod pass;
pub mod pass_laws;
pub mod pass_names;
pub mod state;
pub mod types;
