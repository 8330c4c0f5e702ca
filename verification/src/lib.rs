//! Block production: the executor's decisions, the batches it appends and the state it reads.
pub mod adapter;
pub mod admission;
pub mod append_batch;
pub mod assoc_map;
pub mod block;
pub mod cache;
pub mod execution;
pub mod executor;
pub mod felt;
pub mod handle;
pub mod history;
pub mod keys;
pub mod numeral;
mod outside;
pub mod state;
pub mod thread;
pub mod transaction;
pub mod waiting;
