//! Errors of the sandboxing engine.

use vstd::prelude::*;

verus! {

/// What went wrong in an operation of the engine.
#[derive(Debug, Clone, Copy, PartialEq, Eq, Structural)]
pub enum Error {
    /// A filesystem or cgroup file operation failed.
    Io,
    /// The job server refused or failed to perform a request.
    Sandbox,
    /// A raw operating-system error code.
    System { code: i32 },
    /// The channel to the job server is closed: the domain is unusable.
    ChannelBroken,
}

} // verus!
