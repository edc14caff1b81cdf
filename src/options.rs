//! What a caller asks for: the limits and filesystem view of a domain, and
//! the program, arguments, environment and stdio of a job.
//!
//! Paths, arguments and environment entries are byte strings, as the kernel
//! takes them.

use vstd::prelude::*;

verus! {

/// How an exposed host directory is visible inside a domain.
#[derive(Debug, Clone, Copy, PartialEq, Eq, Structural)]
pub enum DesiredAccess {
    /// Read and write.
    Full,
    /// Read only.
    Readonly,
}

/// A host directory made visible inside a domain.
pub struct PathExpositionOptions {
    /// The directory on the host.
    pub src: Vec<u8>,
    /// Where it appears inside the domain's root.
    pub dest: Vec<u8>,
    pub access: DesiredAccess,
}

/// The limits and filesystem view of a domain.
pub struct DominionOptions {
    pub max_alive_process_count: u32,
    /// In bytes.
    pub memory_limit: u64,
    /// CPU time of the whole domain, in nanoseconds.
    pub time_limit: u64,
    /// The new filesystem root.
    pub isolation_root: Vec<u8>,
    pub exposed_paths: Vec<PathExpositionOptions>,
}

/// The wall-clock limit that goes with a CPU time limit: three times as
/// long, to tolerate scheduling latency, capped at the largest value.
pub open spec fn wall_time_for(time_limit: u64) -> u64 {
    if 3 * time_limit <= u64::MAX {
        (3 * time_limit) as u64
    } else {
        u64::MAX
    }
}

/// The wall-clock limit of a domain whose CPU time limit is `time_limit`.
pub fn wall_time_limit(time_limit: u64) -> (r: u64)
    ensures
        r == wall_time_for(time_limit),
{
    if time_limit <= u64::MAX / 3 {
        time_limit * 3
    } else {
        u64::MAX
    }
}

/// A domain's options once normalized, with the domain's id. They do not
/// change for the domain's lifetime.
pub struct JailOptions {
    pub max_alive_process_count: u32,
    pub memory_limit: u64,
    /// CPU time of the whole domain, in nanoseconds.
    pub time_limit: u64,
    /// Wall-clock time of the whole domain, in nanoseconds.
    pub wall_time_limit: u64,
    pub isolation_root: Vec<u8>,
    pub exposed_paths: Vec<PathExpositionOptions>,
    pub jail_id: String,
}

impl DominionOptions {
    /// Normalizes the options for the domain `jail_id`: fills in the derived
    /// wall-clock limit and keeps everything else.
    pub fn postprocess(self, jail_id: String) -> (r: JailOptions)
        ensures
            r.max_alive_process_count == self.max_alive_process_count,
            r.memory_limit == self.memory_limit,
            r.time_limit == self.time_limit,
            r.wall_time_limit == wall_time_for(self.time_limit),
            r.isolation_root@ == self.isolation_root@,
            r.exposed_paths@ == self.exposed_paths@,
            r.jail_id@ == jail_id@,
    {
        let wall = wall_time_limit(self.time_limit);
        JailOptions {
            max_alive_process_count: self.max_alive_process_count,
            memory_limit: self.memory_limit,
            time_limit: self.time_limit,
            wall_time_limit: wall,
            isolation_root: self.isolation_root,
            exposed_paths: self.exposed_paths,
            jail_id,
        }
    }
}

/// Whether two byte strings are equal.
pub fn bytes_eq(a: &[u8], b: &[u8]) -> (r: bool)
    ensures
        r == (a@ == b@),
{
    if a.len() != b.len() {
        return false;
    }
    let mut i: usize = 0;
    while i < a.len()
        invariant
            i <= a@.len() == b@.len(),
            a@.take(i as int) == b@.take(i as int),
        decreases a@.len() - i,
    {
        if a[i] != b[i] {
            assert(a@[i as int] != b@[i as int]);
            return false;
        }
        assert(a@.take(i as int + 1) =~= a@.take(i as int).push(a@[i as int]));
        assert(b@.take(i as int + 1) =~= b@.take(i as int).push(b@[i as int]));
        i = i + 1;
    }
    assert(a@.take(i as int) =~= a@);
    assert(b@.take(i as int) =~= b@);
    true
}

/// Names of the entries of an environment view.
pub open spec fn env_names(items: Seq<(Seq<u8>, Seq<u8>)>) -> Seq<Seq<u8>> {
    items.map_values(|e: (Seq<u8>, Seq<u8>)| e.0)
}

/// No name occurs twice.
pub open spec fn unique_names(items: Seq<(Seq<u8>, Seq<u8>)>) -> bool {
    forall|i: int, j: int|
        0 <= i < j < items.len() ==> (#[trigger] items[i]).0 != (#[trigger] items[j]).0
}

/// The view of name and value pairs of byte strings.
pub open spec fn pairs_view(items: Seq<(Vec<u8>, Vec<u8>)>) -> Seq<(Seq<u8>, Seq<u8>)> {
    items.map_values(|e: (Vec<u8>, Vec<u8>)| (e.0@, e.1@))
}

/// The environment of a job: name and value pairs in the order given, with
/// unique names.
pub struct Environment {
    items: Vec<(Vec<u8>, Vec<u8>)>,
}

impl View for Environment {
    type V = Seq<(Seq<u8>, Seq<u8>)>;

    closed spec fn view(&self) -> Seq<(Seq<u8>, Seq<u8>)> {
        pairs_view(self.items@)
    }
}

impl Environment {
    pub open spec fn wf(&self) -> bool {
        unique_names(self@)
    }

    /// The empty environment.
    pub fn new() -> (r: Environment)
        ensures
            r.wf(),
            r@ == Seq::<(Seq<u8>, Seq<u8>)>::empty(),
    {
        let r = Environment { items: Vec::new() };
        assert(r@ =~= Seq::<(Seq<u8>, Seq<u8>)>::empty());
        r
    }

    pub fn len(&self) -> (r: usize)
        ensures
            r == self@.len(),
    {
        self.items.len()
    }

    /// Whether some entry is named `name`.
    pub fn contains(&self, name: &[u8]) -> (r: bool)
        ensures
            r == env_names(self@).contains(name@),
    {
        let mut i: usize = 0;
        while i < self.items.len()
            invariant
                i <= self.items@.len(),
                forall|k: int| 0 <= k < i ==> (#[trigger] self@[k]).0 != name@,
            decreases self.items@.len() - i,
        {
            if bytes_eq(self.items[i].0.as_slice(), name) {
                assert(env_names(self@)[i as int] == name@);
                return true;
            }
            i = i + 1;
        }
        assert forall|k: int| 0 <= k < env_names(self@).len() implies #[trigger] env_names(
            self@,
        )[k] != name@ by {
            assert(self@[k].0 != name@);
        }
        false
    }

    /// Adds the entry `name`=`value` at the end; `false`, and no change, when
    /// an entry of that name is already there.
    pub fn try_insert(&mut self, name: Vec<u8>, value: Vec<u8>) -> (r: bool)
        requires
            old(self).wf(),
        ensures
            final(self).wf(),
            r == !env_names(old(self)@).contains(name@),
            r ==> final(self)@ == old(self)@.push((name@, value@)),
            !r ==> final(self)@ == old(self)@,
    {
        if self.contains(name.as_slice()) {
            return false;
        }
        let ghost before = self@;
        self.items.push((name, value));
        proof {
            assert(self@ =~= before.push((name@, value@)));
            assert forall|i: int, j: int| 0 <= i < j < self@.len() implies (
            #[trigger] self@[i]).0 != (#[trigger] self@[j]).0 by {
                if j == before.len() {
                    assert(env_names(before)[i] == before[i].0);
                }
            }
        }
        true
    }

    /// The entries, in order.
    pub fn into_items(self) -> (r: Vec<(Vec<u8>, Vec<u8>)>)
        ensures
            r@.len() == self@.len(),
            forall|i: int|
                0 <= i < r@.len() ==> (#[trigger] r@[i]).0@ == self@[i].0 && r@[i].1@ == self@[i].1,
    {
        self.items
    }
}

/// Where a job's stdin comes from.
#[derive(Debug, Clone, Copy, PartialEq, Eq, Structural)]
pub enum InputSpecification {
    /// A new pipe; the parent keeps the writing end.
    Pipe,
    /// A descriptor of the caller's, used as it is.
    Handle(u64),
    /// The null device.
    Empty,
    /// Closed.
    Null,
}

/// Where a job's stdout or stderr goes.
#[derive(Debug, Clone, Copy, PartialEq, Eq, Structural)]
pub enum OutputSpecification {
    /// Closed.
    Null,
    /// A descriptor of the caller's, used as it is.
    Handle(u64),
    /// A new pipe; the parent keeps the reading end.
    Pipe,
    /// Discarded into the null device.
    Ignore,
    /// Captured in an anonymous memory-backed file, sealed at the given
    /// size when there is one.
    Buffer(Option<u64>),
}

impl InputSpecification {
    pub fn handle(h: u64) -> (r: InputSpecification)
        ensures
            r == InputSpecification::Handle(h),
    {
        InputSpecification::Handle(h)
    }
}

impl OutputSpecification {
    pub fn handle(h: u64) -> (r: OutputSpecification)
        ensures
            r == OutputSpecification::Handle(h),
    {
        OutputSpecification::Handle(h)
    }
}

/// The three stdio streams of a job.
#[derive(Debug, Clone, Copy, PartialEq, Eq, Structural)]
pub struct StdioSpecification {
    pub stdin: InputSpecification,
    pub stdout: OutputSpecification,
    pub stderr: OutputSpecification,
}

/// A job to spawn in a domain.
pub struct ChildProcessOptions {
    /// The executable, as seen inside the domain.
    pub path: Vec<u8>,
    pub arguments: Vec<Vec<u8>>,
    pub environment: Environment,
    pub stdio: StdioSpecification,
    /// The working directory, as seen inside the domain.
    pub pwd: Vec<u8>,
}

} // verus!
