//! The execution core of a blockchain node: runs a deploy against a snapshot
//! of global state and commits the effects it is later handed.

pub mod engine;
pub mod executor;
pub mod guard;
pub mod history;
pub mod in_memory;
pub mod key;
pub mod key_map;
pub mod preprocessor;
pub mod state;
pub mod tracking_copy;
pub mod transform;
