//! Permission timelines for a single analyzed function body.
//!
//! Given a low-level instruction graph (program points with per-place facts
//! from an external ownership solver) and the function's syntax tree, this
//! library derives the read/write/drop capabilities of every tracked place at
//! every program point, lifts those point-granular results onto source-level
//! statements, and reports, statement by statement, how permissions change as
//! execution proceeds.
//!
//! The library only consumes precomputed facts and produces structured
//! permission timelines; building the instruction graph, solving for loans and
//! moves, and rendering output belong to the surrounding tooling.

use vstd::prelude::*;

pub mod boundaries;
pub mod facts;
pub mod permission_stepper;
pub mod permissions;
pub mod tree;

verus! {

/// A resolved source range, as produced by the external span resolver.
#[derive(Debug, PartialEq, Eq, Hash)]
pub struct Range {
    pub char_start: usize,
    pub char_end: usize,
    pub byte_start: usize,
    pub byte_end: usize,
    pub filename: String,
}

impl Clone for Range {
    fn clone(&self) -> (res: Self)
        ensures
            res == *self,
    {
        Range {
            char_start: self.char_start,
            char_end: self.char_end,
            byte_start: self.byte_start,
            byte_end: self.byte_end,
            filename: self.filename.clone(),
        }
    }
}

/// Outcome of one analysis request that could not be served.
///
/// `BuildError` reports that an earlier external stage failed before the
/// analysis could run at all; `AnalysisError` reports that the analysis ran
/// but hit an internal inconsistency in the facts it was handed.
#[derive(Debug, PartialEq, Eq)]
pub enum AquascopeError {
    BuildError,
    AnalysisError(String),
}

/// Result type shared by the analysis entry points.
pub type AquascopeResult<T> = Result<T, AquascopeError>;

} // verus!
