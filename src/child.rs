//! The state of one spawned job: its pid, its exit code once known, and the
//! parent's ends of its stdio, each of which can be taken once.
//!
//! Polling goes through the domain's job server, which the caller owns: the
//! process asks for a poll with [`LinuxChildProcess::wait_step`], and the
//! caller hands the job server's answer to [`LinuxChildProcess::record_poll`].

use crate::dominion::JobStartupInfo;
use crate::jail_common::{Handle, Pid};
use crate::options::{InputSpecification, OutputSpecification};
use crate::stdio::{input_plan_of, leaves_parent_end, output_plan_of, StdioPlan};
use vstd::prelude::*;

verus! {

/// Stored as the exit code while the process is not known to have exited.
/// Real exit codes fit in an `i32`, so it is never one of them.
pub const EXIT_CODE_STILL_RUNNING: i64 = -9223372036854775808;

/// How a wait for a process ended.
#[derive(Debug, Clone, Copy, PartialEq, Eq, Structural)]
pub enum WaitOutcome {
    /// The process exited during the wait.
    Exited,
    /// The process had exited before; the job server was not asked.
    AlreadyFinished,
    /// The process was still running when the wait ended.
    Timeout,
}

/// What a wait has to do next.
#[derive(Debug, Clone, Copy, PartialEq, Eq, Structural)]
pub enum WaitStep {
    /// Nothing: the process is known to have exited.
    AlreadyFinished,
    /// Ask the job server to poll this pid.
    Poll { pid: Pid },
}

/// The abstract state of a child process.
pub struct ProcessView {
    pub pid: Pid,
    /// The exit code, once a poll has seen the process exit.
    pub exit_code: Option<i64>,
    pub stdin: Option<Handle>,
    pub stdout: Option<Handle>,
    pub stderr: Option<Handle>,
}

impl ProcessView {
    pub open spec fn finished(self) -> bool {
        self.exit_code is Some
    }

    /// The step a wait takes in this state.
    pub open spec fn wait_step(self) -> WaitStep {
        if self.finished() {
            WaitStep::AlreadyFinished
        } else {
            WaitStep::Poll { pid: self.pid }
        }
    }

    /// The state after the job server answered a poll with `polled`
    /// (`None`: still running).
    pub open spec fn after_poll(self, polled: Option<i32>) -> ProcessView {
        if self.finished() {
            self
        } else {
            match polled {
                None => self,
                Some(c) => ProcessView { exit_code: Some(c as i64), ..self },
            }
        }
    }

    /// What a wait reports when the job server answered `polled`.
    pub open spec fn poll_outcome(self, polled: Option<i32>) -> WaitOutcome {
        if self.finished() {
            WaitOutcome::AlreadyFinished
        } else {
            match polled {
                None => WaitOutcome::Timeout,
                Some(_) => WaitOutcome::Exited,
            }
        }
    }

    /// The state after a run of polls, answered in order.
    pub open spec fn after_polls(self, polls: Seq<Option<i32>>) -> ProcessView
        decreases polls.len(),
    {
        if polls.len() == 0 {
            self
        } else {
            self.after_polls(polls.drop_last()).after_poll(polls.last())
        }
    }

    /// The pid to send `SIGKILL` to on a kill: none once the process exited.
    pub open spec fn kill_target(self) -> Option<Pid> {
        if self.finished() {
            None
        } else {
            Some(self.pid)
        }
    }

    pub open spec fn without_stdin(self) -> ProcessView {
        ProcessView { stdin: None, ..self }
    }

    pub open spec fn without_stdout(self) -> ProcessView {
        ProcessView { stdout: None, ..self }
    }

    pub open spec fn without_stderr(self) -> ProcessView {
        ProcessView { stderr: None, ..self }
    }
}

/// A job spawned in an isolation domain.
pub struct LinuxChildProcess {
    exit_code: i64,
    stdin: Option<Handle>,
    stdout: Option<Handle>,
    stderr: Option<Handle>,
    pid: Pid,
}

/// An exit code as a process reports it: it fits an `i32`.
pub open spec fn fits_i32(c: i64) -> bool {
    i32::MIN <= c <= i32::MAX
}

/// A stored exit code is the sentinel or an `i32`.
pub open spec fn valid_exit_code(code: Option<i64>) -> bool {
    code matches Some(c) ==> fits_i32(c)
}

impl View for LinuxChildProcess {
    type V = ProcessView;

    closed spec fn view(&self) -> ProcessView {
        ProcessView {
            pid: self.pid,
            exit_code: if self.exit_code == EXIT_CODE_STILL_RUNNING {
                None
            } else {
                Some(self.exit_code)
            },
            stdin: self.stdin,
            stdout: self.stdout,
            stderr: self.stderr,
        }
    }
}

impl LinuxChildProcess {
    #[verifier::type_invariant]
    spec fn inv(self) -> bool {
        self.exit_code == EXIT_CODE_STILL_RUNNING || (i32::MIN <= self.exit_code
            && self.exit_code <= i32::MAX)
    }

    /// The job the job server reported with `info`, with the parent's ends
    /// that carrying out the stdio plans left: an end is there exactly when
    /// its plan leaves the parent one.
    pub fn spawned(
        info: JobStartupInfo,
        stdin_plan: StdioPlan,
        stdin: Option<Handle>,
        stdout_plan: StdioPlan,
        stdout: Option<Handle>,
        stderr_plan: StdioPlan,
        stderr: Option<Handle>,
    ) -> (r: LinuxChildProcess)
        requires
            stdin is Some <==> leaves_parent_end(stdin_plan),
            stdout is Some <==> leaves_parent_end(stdout_plan),
            stderr is Some <==> leaves_parent_end(stderr_plan),
        ensures
            r@ == (ProcessView { pid: info.pid, exit_code: None, stdin, stdout, stderr }),
    {
        LinuxChildProcess::new(info.pid, stdin, stdout, stderr)
    }

    /// A running process `pid`, with the parent's ends of its stdio.
    pub fn new(pid: Pid, stdin: Option<Handle>, stdout: Option<Handle>, stderr: Option<Handle>) -> (r:
        LinuxChildProcess)
        ensures
            r@ == (ProcessView { pid, exit_code: None, stdin, stdout, stderr }),
    {
        LinuxChildProcess { exit_code: EXIT_CODE_STILL_RUNNING, stdin, stdout, stderr, pid }
    }

    pub fn pid(&self) -> (r: Pid)
        ensures
            r == self@.pid,
    {
        self.pid
    }

    /// The exit code, or `None` while no poll has seen the process exit.
    pub fn get_exit_code(&self) -> (r: Option<i64>)
        ensures
            r == self@.exit_code,
            valid_exit_code(r),
    {
        proof {
            use_type_invariant(self);
        }
        if self.exit_code == EXIT_CODE_STILL_RUNNING {
            None
        } else {
            Some(self.exit_code)
        }
    }

    pub fn is_finished(&self) -> (r: bool)
        ensures
            r == self@.finished(),
    {
        self.exit_code != EXIT_CODE_STILL_RUNNING
    }

    /// What a wait does now: a finished process needs no poll, so a wait on
    /// it reports `AlreadyFinished` without contacting the job server.
    pub fn wait_step(&self) -> (r: WaitStep)
        ensures
            r == self@.wait_step(),
            self@.finished() ==> r == WaitStep::AlreadyFinished,
    {
        if self.exit_code != EXIT_CODE_STILL_RUNNING {
            WaitStep::AlreadyFinished
        } else {
            WaitStep::Poll { pid: self.pid }
        }
    }

    /// Records the job server's answer to a poll (`None`: still running) and
    /// returns how the wait ended. A known exit code is never replaced.
    pub fn record_poll(&mut self, polled: Option<i32>) -> (r: WaitOutcome)
        ensures
            final(self)@ == old(self)@.after_poll(polled),
            r == old(self)@.poll_outcome(polled),
    {
        if self.exit_code != EXIT_CODE_STILL_RUNNING {
            return WaitOutcome::AlreadyFinished;
        }
        match polled {
            None => WaitOutcome::Timeout,
            Some(c) => {
                self.exit_code = c as i64;
                WaitOutcome::Exited
            },
        }
    }

    /// The pid to send `SIGKILL` to, after a poll, on a kill: `None` once
    /// the process is known to have exited, so that a kill of a finished
    /// process sends nothing and succeeds.
    pub fn kill_target(&self) -> (r: Option<Pid>)
        ensures
            r == self@.kill_target(),
    {
        if self.exit_code != EXIT_CODE_STILL_RUNNING {
            None
        } else {
            Some(self.pid)
        }
    }

    /// Hands out the parent's end of stdin, once.
    pub fn stdin(&mut self) -> (r: Option<Handle>)
        ensures
            r == old(self)@.stdin,
            final(self)@ == old(self)@.without_stdin(),
    {
        proof {
            use_type_invariant(&*self);
        }
        let r = self.stdin;
        self.stdin = None;
        r
    }

    /// Hands out the parent's end of stdout, once.
    pub fn stdout(&mut self) -> (r: Option<Handle>)
        ensures
            r == old(self)@.stdout,
            final(self)@ == old(self)@.without_stdout(),
    {
        proof {
            use_type_invariant(&*self);
        }
        let r = self.stdout;
        self.stdout = None;
        r
    }

    /// Hands out the parent's end of stderr, once.
    pub fn stderr(&mut self) -> (r: Option<Handle>)
        ensures
            r == old(self)@.stderr,
            final(self)@ == old(self)@.without_stderr(),
    {
        proof {
            use_type_invariant(&*self);
        }
        let r = self.stderr;
        self.stderr = None;
        r
    }
}

/// A stored exit code is always the sentinel or an `i32`: so it is for a new
/// process, and so it stays through any run of polls.
pub proof fn lemma_exit_code_valid(v: ProcessView, polls: Seq<Option<i32>>)
    requires
        valid_exit_code(v.exit_code),
    ensures
        valid_exit_code(v.after_polls(polls).exit_code),
    decreases polls.len(),
{
    if polls.len() > 0 {
        lemma_exit_code_valid(v, polls.drop_last());
    }
}

/// A job spawned with stdout going to a pipe or a buffer holds the parent's
/// end of it, and its first take hands that end over; the same for stdin
/// going to a pipe.
pub proof fn lemma_spawned_ends_present(
    input: InputSpecification,
    output: OutputSpecification,
    output_plan: StdioPlan,
    stdin: Option<Handle>,
    stdout: Option<Handle>,
    v: ProcessView,
)
    requires
        output_plan_of(output) == Some(output_plan),
        stdin is Some <==> leaves_parent_end(input_plan_of(input)),
        stdout is Some <==> leaves_parent_end(output_plan),
        v.stdin == stdin && v.stdout == stdout,
    ensures
        input is Pipe ==> v.stdin is Some,
        output is Pipe || output is Buffer ==> v.stdout is Some,
{
    crate::stdio::lemma_parent_ends(input, output);
}

/// Once a poll has seen the process exit with `c`, its exit code stays `c`
/// whatever later polls answer.
pub proof fn lemma_exit_code_stable(v: ProcessView, c: i32, later: Seq<Option<i32>>)
    requires
        !v.finished(),
    ensures
        v.after_poll(Some(c)).exit_code == Some(c as i64),
        v.after_poll(Some(c)).after_polls(later).exit_code == Some(c as i64),
        v.after_poll(Some(c)).after_polls(later) == v.after_poll(Some(c)),
{
    lemma_finished_is_final(v.after_poll(Some(c)), later);
}

/// A finished process stays as it is through any run of polls: each wait
/// on it takes no poll step and reports `AlreadyFinished`, and a kill of it
/// signals nothing.
pub proof fn lemma_finished_is_final(v: ProcessView, later: Seq<Option<i32>>)
    requires
        v.finished(),
    ensures
        v.after_polls(later) == v,
        v.wait_step() == WaitStep::AlreadyFinished,
        forall|p: Option<i32>| #[trigger] v.poll_outcome(p) == WaitOutcome::AlreadyFinished,
        v.kill_target() is None,
    decreases later.len(),
{
    if later.len() > 0 {
        lemma_finished_is_final(v, later.drop_last());
    }
}

/// Killing is idempotent: once a poll after the first kill has seen the
/// process exit, no later kill signals it again, however many polls follow.
pub proof fn lemma_kill_idempotent(v: ProcessView, c: i32, later: Seq<Option<i32>>)
    requires
        !v.finished(),
    ensures
        v.kill_target() == Some(v.pid),
        v.after_poll(Some(c)).after_polls(later).kill_target() is None,
{
    lemma_exit_code_stable(v, c, later);
    lemma_finished_is_final(v.after_poll(Some(c)), later);
}

/// Each stdio end is handed out once: the first take returns what the
/// process held, the second returns nothing.
pub proof fn lemma_stdio_taken_once(v: ProcessView)
    ensures
        v.without_stdout().stdout is None,
        v.without_stdout().without_stdout() == v.without_stdout(),
        v.without_stdin().stdin is None,
        v.without_stderr().stderr is None,
        v.without_stdout().stdin == v.stdin && v.without_stdout().stderr == v.stderr,
{
}

} // verus!
