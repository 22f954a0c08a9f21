//! External-command bookkeeping.
//!
//! Spawning a process and the worker thread that reaps it live outside the
//! library; what is verified here is everything the render loop relies on:
//! the shape of a finished command's result, and the one-shot completion
//! handshake through which the worker's outcome crosses to the polling
//! side. The worker records its outcome exactly once; polls never block;
//! reading the outcome after completion always yields the same stored
//! value.

use vstd::prelude::*;
use vstd::string::StringExecFns;

verus! {

/// Why no command result could be produced.
#[derive(Clone, Copy, Debug, PartialEq, Eq, Structural)]
pub enum ExecError {
    /// The command could not be started at all.
    SpawnFailed,
    /// The worker thread running the command died before recording a
    /// result; surfaced instead of hanging the waiter.
    WorkerPanicked,
}

/// What one finished external command reported.
#[derive(Clone, Debug)]
pub struct CommandResult {
    /// The process's exit code.
    pub exit_code: i32,
    /// Whether the command succeeded, which means exit code zero.
    pub success: bool,
    /// Captured standard output.
    pub stdout: String,
    /// Captured standard error.
    pub stderr: String,
}

impl CommandResult {
    /// The success flag agrees with the exit code.
    pub open spec fn wf(&self) -> bool {
        self.success == (self.exit_code == 0)
    }

    /// Package what a finished process reported; success is exit code zero,
    /// and nothing else.
    pub fn from_parts(exit_code: i32, stdout: String, stderr: String) -> (r: CommandResult)
        ensures
            r.wf(),
            r.exit_code == exit_code,
            r.success == (exit_code == 0),
            r.stdout@ == stdout@,
            r.stderr@ == stderr@,
    {
        CommandResult { exit_code, success: exit_code == 0, stdout, stderr }
    }

    /// The captured output as one text: stdout followed by stderr.
    pub fn combined_output(&self) -> (out: String)
        ensures
            out@ == self.stdout@ + self.stderr@,
    {
        let mut s = self.stdout.clone();
        s.append(self.stderr.as_str());
        s
    }
}

/// The request to run one external command: a program name and its
/// arguments. The library never interprets the command's semantics.
pub struct CommandExecutor {
    /// The program to run.
    pub program: String,
    /// Its argument list.
    pub args: Vec<String>,
}

impl CommandExecutor {
    /// Describe a command to run.
    pub fn new(program: String, args: Vec<String>) -> (e: CommandExecutor)
        ensures
            e.program@ == program@,
            e.args@ == args@,
    {
        CommandExecutor { program, args }
    }
}

/// The consumer side of the completion handshake for one in-flight external
/// command. The worker thread that actually reaps the process lives outside
/// the library; when the command finishes, the outside code records the
/// outcome here exactly once. The render loop polls `is_done` every frame
/// without blocking, and reads the outcome only once the poll says so.
pub struct ProcessHandleState {
    outcome: Option<Result<CommandResult, ExecError>>,
}

impl ProcessHandleState {
    /// The recorded outcome, if the command has finished.
    pub closed spec fn spec_outcome(&self) -> Option<Result<CommandResult, ExecError>> {
        self.outcome
    }

    /// Whether the completion flag has flipped.
    pub open spec fn spec_done(&self) -> bool {
        self.spec_outcome() is Some
    }

    /// The handle for a command that was just launched: not yet done.
    pub fn new() -> (h: ProcessHandleState)
        ensures
            !h.spec_done(),
    {
        ProcessHandleState { outcome: None }
    }

    /// Non-blocking completion poll: true exactly once an outcome has been
    /// recorded.
    pub fn is_done(&self) -> (d: bool)
        ensures
            d == self.spec_done(),
    {
        self.outcome.is_some()
    }

    /// Record the worker's outcome. The completion flag flips exactly once:
    /// an outcome can only be recorded while none is there, and from then on
    /// the handle stays done with that outcome.
    pub fn complete(&mut self, outcome: Result<CommandResult, ExecError>)
        requires
            !old(self).spec_done(),
        ensures
            final(self).spec_done(),
            final(self).spec_outcome() == Some(outcome),
    {
        self.outcome = Some(outcome);
    }

    /// The recorded outcome. Idempotent: the handle is not changed, so every
    /// read after completion yields the identical stored result.
    pub fn wait(&self) -> (r: &Result<CommandResult, ExecError>)
        requires
            self.spec_done(),
        ensures
            *r == self.spec_outcome().unwrap(),
    {
        match &self.outcome {
            Some(r) => r,
            None => vstd::pervasive::unreached(),
        }
    }
}

} // verus!
