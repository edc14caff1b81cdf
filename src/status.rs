//! How a judged submission ended, as the engine's users report it.

use vstd::prelude::*;

verus! {

/// The kind of a status.
#[derive(Debug, Clone, Copy, PartialEq, Eq, Structural)]
pub enum StatusKind {
    Queue,
    /// Wrong answer, time limit exceeded, rejected by a teacher, and so on.
    Rejected,
    /// For example, a coding style violation.
    CompilationError,
    Accepted,
    NotSet,
    InternalError,
}

/// A status: its kind and a code that details it.
pub struct Status {
    pub kind: StatusKind,
    pub code: String,
}

/// An error that is only a message.
pub struct StringError(pub String);

pub const TOOLCHAIN_SEARCH_ERROR: &'static str = "TOOLCHAIN_SEARCH_ERROR";

pub const BUILT: &'static str = "BUILT";

pub const COMPILATION_TIMED_OUT: &'static str = "COMPILATION_TIMED_OUT";

pub const COMPILER_FAILED: &'static str = "COMPILER_FAILED";

pub const TIME_LIMIT_EXCEEDED: &'static str = "TIME_LIMIT_EXCEEDED";

pub const RUNTIME_ERROR: &'static str = "RUNTIME_ERROR";

pub const TEST_PASSED: &'static str = "TEST_PASSED";

} // verus!
