//! Wrapping CLI commands with animations.
//!
//! Running the command and driving the terminal happen outside the library;
//! what is verified here are the wrappers' decisions: which animation theme
//! and which loading timeout a git subcommand gets, and how a pseudo-random
//! pick is derived from a clock reading.

pub mod git;

use crate::executor::ExecError;
use vstd::prelude::*;

verus! {

/// Wraps an arbitrary CLI command with default animations.
pub struct CliWrapper;

impl CliWrapper {
    /// Create a new CLI wrapper; creation itself never fails.
    pub fn new() -> (r: Result<CliWrapper, ExecError>)
        ensures
            r is Ok,
    {
        Ok(CliWrapper)
    }
}

} // verus!
