//! The plain values of the C-linkage surface and their conversion into the
//! engine's options. The pointers themselves are read by the binding.

use crate::options::{
    env_names, pairs_view, unique_names, DesiredAccess, DominionOptions, Environment, InputSpecification,
    OutputSpecification, PathExpositionOptions, StdioSpecification,
};
use vstd::prelude::*;

verus! {

/// The result of an operation of the C-linkage surface.
#[derive(Debug, Clone, Copy, PartialEq, Eq, Structural)]
pub enum ErrorCode {
    /// The operation completed successfully.
    Success,
    /// The arguments failed a basic check: a string that should be
    /// null-terminated UTF-8 was not, a name that should be unique was not.
    /// Such errors point at a bug in the caller.
    InvalidInput,
    /// Any other error.
    Unknown,
}

impl ErrorCode {
    /// `Ok(ErrorCode::Success)` on success, the code itself as the error
    /// otherwise.
    pub fn into_result(self) -> (r: Result<ErrorCode, ErrorCode>)
        ensures
            self == ErrorCode::Success ==> r == Ok::<ErrorCode, ErrorCode>(ErrorCode::Success),
            self != ErrorCode::Success ==> r == Err::<ErrorCode, ErrorCode>(self),
    {
        match self {
            ErrorCode::Success => Ok(ErrorCode::Success),
            oth => Err(oth),
        }
    }
}

/// A span of time, as seconds and nanoseconds.
#[derive(Debug, Clone, Copy, PartialEq, Eq, Structural)]
pub struct TimeSpec {
    pub seconds: u32,
    pub nanoseconds: u32,
}

impl TimeSpec {
    pub open spec fn spec_nanos(self) -> int {
        self.seconds * 1_000_000_000 + self.nanoseconds
    }

    /// The span in nanoseconds; nanoseconds past a second carry over.
    pub fn to_nanos(self) -> (r: u64)
        ensures
            r == self.spec_nanos(),
    {
        assert(self.seconds * 1_000_000_000 <= 4_294_967_295 * 1_000_000_000) by (nonlinear_arith)
            requires
                self.seconds <= 4_294_967_295,
        ;
        self.seconds as u64 * 1_000_000_000 + self.nanoseconds as u64
    }
}

/// One of the three stdio streams.
#[derive(Debug, Clone, Copy, PartialEq, Eq, Structural)]
pub enum StdioMember {
    Stdin,
    Stdout,
    Stderr,
}

/// The caller's descriptors for the three stdio streams of a job.
#[derive(Debug, Clone, Copy, PartialEq, Eq, Structural)]
pub struct StdioHandleSet {
    pub stdin: u64,
    pub stdout: u64,
    pub stderr: u64,
}

impl StdioHandleSet {
    /// Stdio that hands the job these descriptors as they are.
    pub fn to_specification(self) -> (r: StdioSpecification)
        ensures
            r == (StdioSpecification {
                stdin: InputSpecification::Handle(self.stdin),
                stdout: OutputSpecification::Handle(self.stdout),
                stderr: OutputSpecification::Handle(self.stderr),
            }),
    {
        StdioSpecification {
            stdin: InputSpecification::handle(self.stdin),
            stdout: OutputSpecification::handle(self.stdout),
            stderr: OutputSpecification::handle(self.stderr),
        }
    }

    /// The descriptor given for `member`.
    pub fn get(self, member: StdioMember) -> (r: u64)
        ensures
            r == match member {
                StdioMember::Stdin => self.stdin,
                StdioMember::Stdout => self.stdout,
                StdioMember::Stderr => self.stderr,
            },
    {
        match member {
            StdioMember::Stdin => self.stdin,
            StdioMember::Stdout => self.stdout,
            StdioMember::Stderr => self.stderr,
        }
    }
}

/// How a shared directory is visible inside a domain.
#[derive(Debug, Clone, Copy, PartialEq, Eq, Structural)]
pub enum SharedDirectoryAccessKind {
    Full,
    Readonly,
}

pub open spec fn access_of(kind: SharedDirectoryAccessKind) -> DesiredAccess {
    match kind {
        SharedDirectoryAccessKind::Full => DesiredAccess::Full,
        SharedDirectoryAccessKind::Readonly => DesiredAccess::Readonly,
    }
}

/// The exposition of the host directory `host_path` at `sandbox_path`.
pub fn shared_directory(kind: SharedDirectoryAccessKind, host_path: Vec<u8>, sandbox_path: Vec<
    u8,
>) -> (r: PathExpositionOptions)
    ensures
        r.src@ == host_path@,
        r.dest@ == sandbox_path@,
        r.access == access_of(kind),
{
    let access = match kind {
        SharedDirectoryAccessKind::Full => DesiredAccess::Full,
        SharedDirectoryAccessKind::Readonly => DesiredAccess::Readonly,
    };
    PathExpositionOptions { src: host_path, dest: sandbox_path, access }
}

/// The options of a domain as the C-linkage surface gives them.
pub fn dominion_options(
    time_limit: TimeSpec,
    process_limit: u32,
    memory_limit: u32,
    isolation_root: Vec<u8>,
    exposed_paths: Vec<PathExpositionOptions>,
) -> (r: DominionOptions)
    ensures
        r.max_alive_process_count == process_limit,
        r.memory_limit == memory_limit,
        r.time_limit == time_limit.spec_nanos(),
        r.isolation_root@ == isolation_root@,
        r.exposed_paths@ == exposed_paths@,
{
    DominionOptions {
        max_alive_process_count: process_limit,
        memory_limit: memory_limit as u64,
        time_limit: time_limit.to_nanos(),
        isolation_root,
        exposed_paths,
    }
}

/// The environment made of `items`, in order; `InvalidInput` when a name
/// occurs twice.
pub fn environment_from_items(items: Vec<(Vec<u8>, Vec<u8>)>) -> (r: Result<
    Environment,
    ErrorCode,
>)
    ensures
        unique_names(pairs_view(items@)) ==> r is Ok
            && r->Ok_0.wf() && r->Ok_0@ == pairs_view(items@),
        !unique_names(pairs_view(items@)) ==> r == Err::<
            Environment,
            ErrorCode,
        >(ErrorCode::InvalidInput),
{
    let ghost want = pairs_view(items@);
    let mut env = Environment::new();
    let mut rest = items;
    let ghost all = rest@;
    let mut i: usize = 0;
    let n = rest.len();
    while i < n
        invariant
            n == all.len() == rest@.len() + i,
            want == pairs_view(all),
            want == pairs_view(items@),
            rest@ == all.skip(i as int),
            env.wf(),
            env@ == want.take(i as int),
        decreases n - i,
    {
        let (name, value) = rest.remove(0);
        assert(rest@ =~= all.skip(i as int + 1));
        let ghost before = env@;
        assert(name@ == want[i as int].0 && value@ == want[i as int].1);
        if !env.try_insert(name, value) {
            proof {
                let j = choose|j: int| 0 <= j < env_names(before).len() && env_names(before)[j] == want[i as int].0;
                assert(before[j] == want[j]);
                assert(want[j].0 == want[i as int].0);
                assert(!unique_names(want));
            }
            return Err(ErrorCode::InvalidInput);
        }
        assert(env@ =~= want.take(i as int + 1));
        i = i + 1;
    }
    assert(want.take(n as int) =~= want);
    assert(unique_names(want));
    Ok(env)
}

} // verus!
