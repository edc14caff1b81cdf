//! What to set up for each stdio stream of a job: which descriptor the
//! child gets and which end, if any, the parent keeps.
//!
//! The caller carries a plan out (creates the pipe or the memory-backed
//! file, opens the null device, duplicates the child's descriptor) and
//! closes the child's descriptor once the job server has received it.

use crate::error::Error;
use crate::jail_common::Handle;
use crate::options::{InputSpecification, OutputSpecification};
use vstd::prelude::*;

verus! {

/// `EINVAL`: the code that `ftruncate` fails with on a negative length.
pub const EINVAL: i32 = 22;

/// How to set up one stdio stream of a job.
#[derive(Debug, Clone, Copy, PartialEq, Eq, Structural)]
pub enum StdioPlan {
    /// The child gets no descriptor (`-1`), the parent keeps nothing.
    Closed,
    /// The child gets this descriptor as it is, the parent keeps nothing.
    Inherit(Handle),
    /// The child gets the null device, opened for writing when `writable`
    /// and for reading otherwise; the parent keeps nothing.
    NullDevice { writable: bool },
    /// A new pipe: the parent keeps the writing end when
    /// `parent_keeps_write`, the reading end otherwise, and the child gets a
    /// duplicate of the other end.
    Pipe { parent_keeps_write: bool },
    /// A new anonymous memory-backed file, which the parent keeps and the
    /// child gets a duplicate of. With a size, sealing is allowed and the
    /// file is truncated to the size and sealed against growing.
    MemFd { size: Option<i64> },
}

/// The plan for a job's stdin.
pub open spec fn input_plan_of(spec: InputSpecification) -> StdioPlan {
    match spec {
        InputSpecification::Pipe => StdioPlan::Pipe { parent_keeps_write: true },
        InputSpecification::Handle(h) => StdioPlan::Inherit(h as Handle),
        InputSpecification::Empty => StdioPlan::NullDevice { writable: false },
        InputSpecification::Null => StdioPlan::Closed,
    }
}

/// The plan for a job's stdout or stderr; `None` when a buffer size does
/// not fit a file length.
pub open spec fn output_plan_of(spec: OutputSpecification) -> Option<StdioPlan> {
    match spec {
        OutputSpecification::Null => Some(StdioPlan::Closed),
        OutputSpecification::Handle(h) => Some(StdioPlan::Inherit(h as Handle)),
        OutputSpecification::Pipe => Some(StdioPlan::Pipe { parent_keeps_write: false }),
        OutputSpecification::Ignore => Some(StdioPlan::NullDevice { writable: true }),
        OutputSpecification::Buffer(None) => Some(StdioPlan::MemFd { size: None }),
        OutputSpecification::Buffer(Some(sz)) => if sz <= i64::MAX {
            Some(StdioPlan::MemFd { size: Some(sz as i64) })
        } else {
            None
        },
    }
}

/// How to set up a job's stdin. A caller's descriptor is taken as its low
/// 32 bits, as a C `int`.
pub fn input_plan(spec: InputSpecification) -> (r: StdioPlan)
    ensures
        r == input_plan_of(spec),
{
    match spec {
        InputSpecification::Pipe => StdioPlan::Pipe { parent_keeps_write: true },
        InputSpecification::Handle(h) => StdioPlan::Inherit(h as Handle),
        InputSpecification::Empty => StdioPlan::NullDevice { writable: false },
        InputSpecification::Null => StdioPlan::Closed,
    }
}

/// How to set up a job's stdout or stderr. A buffer larger than a file
/// length can be fails as `ftruncate` would, with `EINVAL`.
pub fn output_plan(spec: OutputSpecification) -> (r: Result<StdioPlan, Error>)
    ensures
        match output_plan_of(spec) {
            Some(p) => r == Ok::<StdioPlan, Error>(p),
            None => r == Err::<StdioPlan, Error>(Error::System { code: EINVAL }),
        },
{
    match spec {
        OutputSpecification::Null => Ok(StdioPlan::Closed),
        OutputSpecification::Handle(h) => Ok(StdioPlan::Inherit(h as Handle)),
        OutputSpecification::Pipe => Ok(StdioPlan::Pipe { parent_keeps_write: false }),
        OutputSpecification::Ignore => Ok(StdioPlan::NullDevice { writable: true }),
        OutputSpecification::Buffer(None) => Ok(StdioPlan::MemFd { size: None }),
        OutputSpecification::Buffer(Some(sz)) => {
            if sz <= i64::MAX as u64 {
                Ok(StdioPlan::MemFd { size: Some(sz as i64) })
            } else {
                Err(Error::System { code: EINVAL })
            }
        },
    }
}

/// Whether carrying `plan` out leaves the parent an end of the stream: a
/// pipe's other end, or the memory-backed file.
pub open spec fn leaves_parent_end(plan: StdioPlan) -> bool {
    plan is Pipe || plan is MemFd
}

/// Whether carrying `plan` out leaves the parent an end of the stream.
pub fn parent_keeps_end(plan: StdioPlan) -> (r: bool)
    ensures
        r == leaves_parent_end(plan),
{
    match plan {
        StdioPlan::Pipe { .. } => true,
        StdioPlan::MemFd { .. } => true,
        _ => false,
    }
}

/// The parent keeps an end of stdin exactly for a pipe, and an end of
/// stdout or stderr exactly for a pipe or a buffer.
pub proof fn lemma_parent_ends(input: InputSpecification, output: OutputSpecification)
    ensures
        leaves_parent_end(input_plan_of(input)) <==> input is Pipe,
        output_plan_of(output) matches Some(p) ==> (leaves_parent_end(p) <==> (output is Pipe
            || output is Buffer)),
{
}

/// The end of a new pipe that the parent keeps and the end the child gets
/// a duplicate of, from the pipe's reading and writing ends.
pub fn pipe_ends(parent_keeps_write: bool, read: Handle, write: Handle) -> (r: (Handle, Handle))
    ensures
        parent_keeps_write ==> r == (write, read),
        !parent_keeps_write ==> r == (read, write),
{
    if parent_keeps_write {
        (write, read)
    } else {
        (read, write)
    }
}

} // verus!
