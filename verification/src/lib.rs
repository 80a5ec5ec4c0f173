//! Verified logic of the mascot render server: request validation, server
//! status records, the skin cache, variation and workspace paths, the update
//! script, favorite shuffling, character resolution and the control protocol.
use vstd::prelude::*;

pub mod text;
pub mod command;
pub mod status;
pub mod skin_cache;
pub mod path_text;
pub mod variation;
pub mod workspace;
pub mod favorite_shuffle;
pub mod character;
pub mod control;
pub mod perf_trace;
pub mod server_log;
pub mod reload;
pub mod skin_state;
pub mod shortcuts;
pub mod cli;
pub mod target;
pub mod ensemble_entries;
pub mod gallery;
pub mod scale_persist;

verus! {
} // verus!
