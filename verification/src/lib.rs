//! Control logic of a two-dimensional spring-network simulation.
//!
//! A network is an ordered list of circular cells joined by springs of two
//! rest lengths. Every quantity is a binary64 number, carried here by its bit
//! pattern (see [`scalar`]). This crate holds what the simulation decides:
//! which law joins two cells, when a contribution is dropped, which outside
//! force drives a cell and whether the cell is pinned, when an adaptive step
//! is accepted and how the next one is bounded, what a trajectory records, and
//! the bookkeeping of the stress and strain passes. The sums and products
//! between those decisions are the caller's.

use vstd::prelude::*;

pub mod analysis;
pub mod cell;
pub mod forces;
pub mod frame;
pub mod integrate;
pub mod scalar;
pub mod schemes;
pub mod settings;
pub mod simulation;
pub mod update;

verus! {

/// An error with its message.
#[derive(Debug)]
pub struct RustfilmError {
    pub error: String,
}

impl RustfilmError {
    /// An error that carries `text`.
    pub fn new(text: &str) -> (e: RustfilmError)
        ensures
            e.error@ == text@,
    {
        RustfilmError { error: text.to_owned() }
    }

    /// The message, as the error would print it.
    pub fn message(&self) -> (text: String)
        ensures
            text@ == self.error@,
    {
        self.error.clone()
    }
}

} // verus!
