//! The core of a terminal client for a download daemon: a transfer table kept in step
//! with what the daemon reports (merge rule, tombstones for removed transfers, bounded
//! rate histories, aggregate statistics), the local side of add / remove / retry / purge,
//! the input state machine, and the formatting and parsing of sizes, rates and limits.
//!
//! Every function here is verified; network, process, environment and file work is left
//! to the caller.

use vstd::prelude::*;

pub mod aria2;
pub mod daemon;
pub mod download_manager;
pub mod input;
pub mod models;
pub mod text;
pub mod ui;

verus! {

} // verus!
