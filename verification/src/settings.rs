//! Configuration that the engine consumes.

use vstd::prelude::*;

verus! {

/// How much progress output the caller asked for.
#[derive(Clone, Copy, Debug, PartialEq, Eq, Structural)]
pub enum Verbosity {
    Quiet,
    Normal,
    Verbose,
}

/// The settings of one encoding project that the engine reads.
#[derive(Debug, PartialEq, Eq)]
pub struct EncodeArgs {
    /// Size of the worker pool.
    pub workers: usize,
    /// Number of encode passes each chunk goes through.
    pub passes: usize,
    /// Directory that holds the checkpoint file.
    pub temp: String,
    /// Selects which progress display is finished when the pool is done.
    pub verbosity: Verbosity,
}

} // verus!
