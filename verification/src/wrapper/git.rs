//! The git wrapper's decisions.
//!
//! The wrapper runs a git command in the background and shows a themed
//! loading animation while it runs, then a themed celebration when the
//! command succeeds. Spawning, the terminal and the clock live outside the
//! library; the subcommand classification, the per-class loading timeout
//! and the pseudo-random pick among celebration animations are verified
//! here.

use super::CliWrapper;
use crate::executor::ExecError;
use crate::text::str_eq;
use vstd::prelude::*;

verus! {

/// The animation theme a git subcommand gets.
#[derive(Clone, Copy, Debug, PartialEq, Eq, Structural)]
pub enum GitCommandClass {
    /// `commit`: a celebration after a successful commit.
    Commit,
    /// `push`: an epic victory celebration.
    Push,
    /// `pull`: a download or rabbit animation.
    Pull,
    /// `merge`: branches coming together.
    Merge,
    /// `status`, `diff` or `log`: a quick look.
    Status,
    /// Anything else: the default animations.
    Other,
}

/// Which theme a git subcommand belongs to.
pub open spec fn spec_classify_subcommand(sub: Seq<char>) -> GitCommandClass {
    if sub == "commit"@ {
        GitCommandClass::Commit
    } else if sub == "push"@ {
        GitCommandClass::Push
    } else if sub == "pull"@ {
        GitCommandClass::Pull
    } else if sub == "merge"@ {
        GitCommandClass::Merge
    } else if sub == "status"@ || sub == "diff"@ || sub == "log"@ {
        GitCommandClass::Status
    } else {
        GitCommandClass::Other
    }
}

/// How long the loading animation of a themed subcommand races against the
/// command before giving the terminal back, in milliseconds. The default
/// flow for unthemed commands does not race and has no timeout.
pub open spec fn spec_loading_timeout_ms(c: GitCommandClass) -> Option<u64> {
    match c {
        GitCommandClass::Commit => Some(10000u64),
        GitCommandClass::Push => Some(15000u64),
        GitCommandClass::Pull => Some(12000u64),
        GitCommandClass::Merge => Some(10000u64),
        GitCommandClass::Status => Some(5000u64),
        GitCommandClass::Other => None,
    }
}

/// Git command wrapper with themed animations.
pub struct GitWrapper {
    wrapper: CliWrapper,
}

impl GitWrapper {
    /// Create a new git wrapper; creation itself never fails.
    pub fn new() -> (r: Result<GitWrapper, ExecError>)
        ensures
            r is Ok,
    {
        match CliWrapper::new() {
            Ok(wrapper) => Ok(GitWrapper { wrapper }),
            Err(e) => Err(e),
        }
    }

    /// Which theme a git subcommand belongs to.
    pub fn classify_subcommand(sub: &str) -> (c: GitCommandClass)
        ensures
            c == spec_classify_subcommand(sub@),
    {
        if str_eq(sub, "commit") {
            GitCommandClass::Commit
        } else if str_eq(sub, "push") {
            GitCommandClass::Push
        } else if str_eq(sub, "pull") {
            GitCommandClass::Pull
        } else if str_eq(sub, "merge") {
            GitCommandClass::Merge
        } else if str_eq(sub, "status") || str_eq(sub, "diff") || str_eq(sub, "log") {
            GitCommandClass::Status
        } else {
            GitCommandClass::Other
        }
    }

    /// The loading-animation timeout for a themed subcommand.
    pub fn loading_timeout_ms(c: GitCommandClass) -> (t: Option<u64>)
        ensures
            t == spec_loading_timeout_ms(c),
    {
        match c {
            GitCommandClass::Commit => Some(10000),
            GitCommandClass::Push => Some(15000),
            GitCommandClass::Pull => Some(12000),
            GitCommandClass::Merge => Some(10000),
            GitCommandClass::Status => Some(5000),
            GitCommandClass::Other => None,
        }
    }

    /// A pseudo-random choice below `max`, derived from a clock reading in
    /// nanoseconds that the caller supplies.
    pub fn random_choice(now_nanos: u128, max: usize) -> (c: usize)
        requires
            max > 0,
        ensures
            c == now_nanos as int % max as int,
            c < max,
    {
        (now_nanos % (max as u128)) as usize
    }
}

} // verus!
