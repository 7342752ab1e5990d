//! A collaborative, replicated document store: typed rows with sparse
//! per-field cells projected onto a conflict-free replicated document,
//! with single-writer transaction arbitration and durable persistence
//! as a snapshot plus an append-only log of update records.

use vstd::prelude::*;

pub mod assoc;
pub mod document;
pub mod encode;
pub mod persistence;
pub mod retry;
pub mod row_map;
pub mod rows;

verus! {

/// Errors surfaced by the store's own operations.
#[derive(Debug)]
pub enum CollabError {
    /// A bounded write-transaction acquisition exceeded its deadline.
    AcquiredWriteTxnFail,
}

impl CollabError {
    /// A human-readable description of the error.
    pub fn description(&self) -> (r: &'static str)
        ensures
            self is AcquiredWriteTxnFail ==> r@ == "failed to acquire write transaction"@,
    {
        match self {
            CollabError::AcquiredWriteTxnFail => "failed to acquire write transaction",
        }
    }
}

} // verus!
