//! An isolation domain as the controller sees it, its job protocol, and the
//! backend that creates domains and prepares jobs for them.
//!
//! The protocol with the job server is synchronous, one request at a time:
//! the domain builds a request, the caller sends it over the domain's
//! channel and hands the reply back. A channel that fails breaks the domain
//! for good.

use crate::error::Error;
use crate::jail_common::{gen_jail_id, get_path_for_subsystem, is_jail_id, subsystem_path, Handle, Pid};
use crate::options::{
    ChildProcessOptions, DominionOptions, JailOptions, StdioSpecification, wall_time_for,
};
use vstd::prelude::*;

verus! {

/// The name that the encoding of a byte string in standard, padded base64
/// is known by here.
pub uninterp spec fn base64_of(input: Seq<u8>) -> Seq<char>;

/// Relies on `base64::encode` (standard alphabet, padded): the result
/// depends on the input alone and has four characters for every started
/// group of three bytes. It panics when that length overflows `usize`.
#[verifier::external_body]
fn base64_encode(input: &[u8]) -> (r: String)
    requires
        4 * ((input@.len() + 2) / 3) <= usize::MAX,
    ensures
        r@ == base64_of(input@),
        r@.len() == 4 * ((input@.len() + 2) / 3),
{
    base64::encode(input)
}

/// A job as the job server runs it. Environment names travel encoded in
/// base64, so that any byte string can be a name.
pub struct JobQuery {
    pub image_path: Vec<u8>,
    pub argv: Vec<Vec<u8>>,
    pub environment: Vec<(String, Vec<u8>)>,
    pub pwd: Vec<u8>,
}

/// A job together with the descriptors its child gets as stdio.
pub struct ExtendedJobQuery {
    pub job_query: JobQuery,
    pub stdin: Handle,
    pub stdout: Handle,
    pub stderr: Handle,
}

/// A request to wait for the job `pid` for at most `timeout` nanoseconds.
#[derive(Debug, Clone, Copy, PartialEq, Eq, Structural)]
pub struct PollQuery {
    pub pid: Pid,
    pub timeout: u64,
}

/// The job server's answer to a spawn.
#[derive(Debug, Clone, Copy, PartialEq, Eq, Structural)]
pub struct JobStartupInfo {
    pub pid: Pid,
}

/// A request to the job server.
pub enum Query {
    /// Leave the serving loop.
    Exit,
    /// Spawn a job; its answer is a `JobStartupInfo`.
    Spawn(JobQuery),
    /// Wait for a job; its answer is the exit code, or nothing on timeout.
    Poll(PollQuery),
}

/// The abstract state of a domain.
pub struct DominionView {
    pub jail_id: Seq<char>,
    /// The channel to the job server failed: nothing more can be done.
    pub broken: bool,
}

impl DominionView {
    /// The state after a reply to a request came back, or, with `false`,
    /// after the channel failed.
    pub open spec fn after_reply(self, channel_ok: bool) -> DominionView {
        DominionView { broken: self.broken || !channel_ok, ..self }
    }

    /// The state after a run of replies.
    pub open spec fn after_replies(self, replies: Seq<bool>) -> DominionView
        decreases replies.len(),
    {
        if replies.len() == 0 {
            self
        } else {
            self.after_replies(replies.drop_last()).after_reply(replies.last())
        }
    }
}

/// An isolation domain: its options and the state of its channel.
pub struct LinuxDominion {
    options: JailOptions,
    broken: bool,
}

impl View for LinuxDominion {
    type V = DominionView;

    closed spec fn view(&self) -> DominionView {
        DominionView { jail_id: self.options.jail_id@, broken: self.broken }
    }
}

impl LinuxDominion {
    /// A domain with the normalized `options`, whose job server has yet to
    /// answer.
    pub fn new(options: JailOptions) -> (r: LinuxDominion)
        ensures
            r@ == (DominionView { jail_id: options.jail_id@, broken: false }),
            r.options() == options,
    {
        LinuxDominion { options, broken: false }
    }

    pub closed spec fn options(&self) -> JailOptions {
        self.options
    }

    /// The domain's options.
    pub fn get_options(&self) -> (r: &JailOptions)
        ensures
            *r == self.options(),
            r.jail_id@ == self@.jail_id,
    {
        &self.options
    }

    pub fn is_broken(&self) -> (r: bool)
        ensures
            r == self@.broken,
    {
        self.broken
    }

    /// The domain's cgroup directory for the subsystem `subsys_name`.
    pub fn cgroup_path(&self, subsys_name: &str) -> (r: String)
        ensures
            r@ == subsystem_path(subsys_name@, self@.jail_id),
    {
        get_path_for_subsystem(subsys_name, self.options.jail_id.as_str())
    }

    /// The request that spawns `query`; `ChannelBroken` on a broken domain.
    pub fn spawn_request(&self, query: JobQuery) -> (r: Result<Query, Error>)
        ensures
            self@.broken ==> r == Err::<Query, Error>(Error::ChannelBroken),
            !self@.broken ==> r == Ok::<Query, Error>(Query::Spawn(query)),
    {
        if self.broken {
            Err(Error::ChannelBroken)
        } else {
            Ok(Query::Spawn(query))
        }
    }

    /// Takes the job server's answer to a spawn: `None` when the channel
    /// failed, which breaks the domain; `Some(None)` when the job server
    /// refused or failed to spawn.
    pub fn spawn_reply(&mut self, reply: Option<Option<JobStartupInfo>>) -> (r: Result<
        JobStartupInfo,
        Error,
    >)
        ensures
            final(self)@ == old(self)@.after_reply(reply is Some),
            final(self).options() == old(self).options(),
            r == match reply {
                None => Err(Error::ChannelBroken),
                Some(None) => Err(Error::Sandbox),
                Some(Some(info)) => Ok::<JobStartupInfo, Error>(info),
            },
    {
        match reply {
            None => {
                self.broken = true;
                Err(Error::ChannelBroken)
            },
            Some(None) => Err(Error::Sandbox),
            Some(Some(info)) => Ok(info),
        }
    }

    /// The request that waits for the job `pid` for at most `timeout`
    /// nanoseconds; `ChannelBroken` on a broken domain.
    pub fn poll_request(&self, pid: Pid, timeout: u64) -> (r: Result<Query, Error>)
        ensures
            self@.broken ==> r == Err::<Query, Error>(Error::ChannelBroken),
            !self@.broken ==> r == Ok::<Query, Error>(Query::Poll(PollQuery { pid, timeout })),
    {
        if self.broken {
            Err(Error::ChannelBroken)
        } else {
            Ok(Query::Poll(PollQuery { pid, timeout }))
        }
    }

    /// Takes the job server's answer to a poll: `None` when the channel
    /// failed, which breaks the domain; otherwise the exit code, or `None`
    /// when the job was still running at the timeout.
    pub fn poll_reply(&mut self, reply: Option<Option<i32>>) -> (r: Result<Option<i32>, Error>)
        ensures
            final(self)@ == old(self)@.after_reply(reply is Some),
            final(self).options() == old(self).options(),
            r == match reply {
                None => Err(Error::ChannelBroken),
                Some(code) => Ok::<Option<i32>, Error>(code),
            },
    {
        match reply {
            None => {
                self.broken = true;
                Err(Error::ChannelBroken)
            },
            Some(code) => Ok(code),
        }
    }
}

/// A broken domain stays broken: after the channel failed once, whatever
/// replies follow, every spawn or poll request fails with `ChannelBroken`.
pub proof fn lemma_broken_is_final(v: DominionView, replies: Seq<bool>)
    requires
        v.broken,
    ensures
        v.after_replies(replies).broken,
        v.after_replies(replies).jail_id == v.jail_id,
    decreases replies.len(),
{
    if replies.len() > 0 {
        lemma_broken_is_final(v, replies.drop_last());
    }
}

/// `q` is the environment `env` with each name replaced by its base64
/// encoding.
pub open spec fn encodes_environment(env: Seq<(Seq<u8>, Seq<u8>)>, q: Seq<(String, Vec<u8>)>) -> bool {
    &&& q.len() == env.len()
    &&& forall|i: int|
        0 <= i < q.len() ==> (#[trigger] q[i]).0@ == base64_of(env[i].0) && q[i].1@ == env[i].1
}

/// Names short enough that their base64 encoding's length fits `usize`.
pub open spec fn encodable_names(env: Seq<(Seq<u8>, Seq<u8>)>) -> bool {
    forall|i: int| 0 <= i < env.len() ==> 4 * (((#[trigger] env[i]).0.len() + 2) / 3) <= usize::MAX
}

/// The backend that creates isolation domains on Linux and prepares jobs
/// for them.
#[derive(Debug)]
pub struct LinuxBackend {}

impl LinuxBackend {
    /// A new domain with a fresh random id and the normalized `options`.
    pub fn new_dominion(&self, options: DominionOptions) -> (r: LinuxDominion)
        ensures
            is_jail_id(r@.jail_id),
            !r@.broken,
            r.options().max_alive_process_count == options.max_alive_process_count,
            r.options().memory_limit == options.memory_limit,
            r.options().time_limit == options.time_limit,
            r.options().wall_time_limit == wall_time_for(options.time_limit),
            r.options().isolation_root@ == options.isolation_root@,
            r.options().exposed_paths@ == options.exposed_paths@,
    {
        let jail_id = gen_jail_id();
        LinuxDominion::new(options.postprocess(jail_id))
    }

    /// The job query and the stdio of the job `options`.
    pub fn job_query(&self, options: ChildProcessOptions) -> (r: (JobQuery, StdioSpecification))
        requires
            encodable_names(options.environment@),
        ensures
            r.0.image_path@ == options.path@,
            r.0.argv@ == options.arguments@,
            encodes_environment(options.environment@, r.0.environment@),
            r.0.pwd@ == options.pwd@,
            r.1 == options.stdio,
    {
        let ghost env = options.environment@;
        let items = options.environment.into_items();
        let mut environment: Vec<(String, Vec<u8>)> = Vec::new();
        let mut i: usize = 0;
        while i < items.len()
            invariant
                i <= items@.len() == env.len(),
                encodable_names(env),
                forall|k: int|
                    0 <= k < items@.len() ==> (#[trigger] items@[k]).0@ == env[k].0 && items@[k].1@
                        == env[k].1,
                environment@.len() == i,
                forall|k: int|
                    0 <= k < i ==> (#[trigger] environment@[k]).0@ == base64_of(env[k].0)
                        && environment@[k].1@ == env[k].1,
            decreases items@.len() - i,
        {
            let name = base64_encode(items[i].0.as_slice());
            let value = items[i].1.clone();
            proof {
                assert(value@ =~= items@[i as int].1@);
            }
            environment.push((name, value));
            i = i + 1;
        }
        let q = JobQuery {
            image_path: options.path,
            argv: options.arguments,
            environment,
            pwd: options.pwd,
        };
        (q, options.stdio)
    }
}

/// Prepares the backend of this process. The caller first has the
/// process keep `SIGCHLD` delivered to an empty handler, so that the job
/// server's waits are interrupted rather than the signal dropped.
pub fn setup_execution_manager() -> (r: LinuxBackend)
    ensures
        r == (LinuxBackend {}),
{
    LinuxBackend {}
}

} // verus!
