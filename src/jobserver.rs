//! Decisions of the job server, the helper that forks and execs jobs from
//! inside a domain: how a wait status becomes an exit code, and when a poll
//! is answered.

use crate::teardown::{all_digits, digits_value, lemma_digits_value_grows, trim, trim_bounds};
use vstd::prelude::*;

verus! {

/// The low seven bits of a wait status: the signal that ended the process,
/// `0` after a normal exit, `0x7f` for a stopped process.
pub open spec fn term_signal(status: i32) -> i32 {
    status & 0x7f
}

/// The exit code of a process that ended with the wait status `status`:
/// its exit status (`0..=255`) after a normal exit, the negated signal
/// number when a signal ended it, and `None` when the status reports no end
/// (a stopped or continued process).
pub open spec fn exit_code_of(status: i32) -> Option<i32> {
    if term_signal(status) == 0 {
        Some((status >> 8) & 0xff)
    } else if term_signal(status) != 0x7f {
        Some((-term_signal(status)) as i32)
    } else {
        None
    }
}

/// Reads a wait status as `waitpid` reports it; see [`exit_code_of`].
pub fn decode_wait_status(status: i32) -> (r: Option<i32>)
    ensures
        r == exit_code_of(status),
        r matches Some(c) ==> -127 <= c <= 255,
{
    let sig = status & 0x7f;
    assert(0 <= sig <= 127) by (bit_vector)
        requires
            sig == status & 0x7f,
    ;
    if sig == 0 {
        let code = (status >> 8) & 0xff;
        assert(0 <= code <= 255) by (bit_vector)
            requires
                code == (status >> 8) & 0xff,
        ;
        Some(code)
    } else if sig != 0x7f {
        Some(-sig)
    } else {
        None
    }
}

/// What the job server does next while it serves a poll.
#[derive(Debug, Clone, Copy, PartialEq, Eq, Structural)]
pub enum PollStep {
    /// Answer the poll: the exit code, or `None` for still running.
    Reply(Option<i32>),
    /// The domain is over its CPU or wall-clock time: kill the job, then
    /// look again.
    Kill,
    /// Wait a little and look again.
    Wait,
}

/// Whether a domain that has used `cpu_used` nanoseconds of CPU time
/// (`None`: unknown) and has existed for `domain_elapsed` nanoseconds is over
/// its limits.
pub open spec fn over_limits(cpu_used: Option<u64>, time_limit: u64, domain_elapsed: u64, wall_time_limit: u64) -> bool {
    (cpu_used matches Some(c) && c >= time_limit) || domain_elapsed >= wall_time_limit
}

/// The job server's step in a poll, after looking at the job without
/// blocking: `status` is what the look found (`None`: the job still runs);
/// `elapsed` and `timeout` are the poll's, in nanoseconds; `cpu_used`,
/// `domain_elapsed` and the limits are the domain's. A job that ended is
/// reported at once; a running one is killed while the domain is over its
/// limits, and reported as running once the timeout has passed.
pub fn poll_step(
    status: Option<i32>,
    elapsed: u64,
    timeout: u64,
    cpu_used: Option<u64>,
    time_limit: u64,
    domain_elapsed: u64,
    wall_time_limit: u64,
) -> (r: PollStep)
    ensures
        match status {
            Some(s) if exit_code_of(s) is Some => r == PollStep::Reply(exit_code_of(s)),
            _ => if over_limits(cpu_used, time_limit, domain_elapsed, wall_time_limit) {
                r == PollStep::Kill
            } else if elapsed >= timeout {
                r == PollStep::Reply(None)
            } else {
                r == PollStep::Wait
            },
        },
{
    if let Some(s) = status {
        let code = decode_wait_status(s);
        if code.is_some() {
            return PollStep::Reply(code);
        }
    }
    let over_cpu = match cpu_used {
        Some(c) => c >= time_limit,
        None => false,
    };
    if over_cpu || domain_elapsed >= wall_time_limit {
        PollStep::Kill
    } else if elapsed >= timeout {
        PollStep::Reply(None)
    } else {
        PollStep::Wait
    }
}

/// The CPU time limit of each process of a domain, in whole seconds as
/// `RLIMIT_CPU` takes it: the domain's limit in nanoseconds, rounded up.
pub fn cpu_limit_seconds(time_limit: u64) -> (r: u64)
    ensures
        r == (time_limit + 999_999_999) / 1_000_000_000,
{
    let whole = time_limit / 1_000_000_000;
    if time_limit % 1_000_000_000 != 0 {
        whole + 1
    } else {
        whole
    }
}

/// The value of a cgroup counter file such as `cpuacct.usage`: one decimal
/// number, with whitespace around it.
pub open spec fn counter_value(content: Seq<u8>) -> Option<u64> {
    let t = trim(content);
    if t.len() > 0 && all_digits(t) && digits_value(t) <= u64::MAX {
        Some(digits_value(t) as u64)
    } else {
        None
    }
}

/// Reads a cgroup counter file; `None` when it holds anything but one
/// decimal number that fits a `u64`.
pub fn parse_counter(content: &[u8]) -> (r: Option<u64>)
    ensures
        r == counter_value(content@),
{
    let (a, b) = trim_bounds(content, 0, content.len());
    assert(content@.subrange(0, content@.len() as int) =~= content@);
    let ghost t = content@.subrange(a as int, b as int);
    assert(t == trim(content@));
    if a == b {
        return None;
    }
    let mut acc: u64 = 0;
    let mut i = a;
    while i < b
        invariant
            a <= i <= b <= content@.len(),
            t == content@.subrange(a as int, b as int),
            t == trim(content@),
            t.len() > 0,
            all_digits(content@.subrange(a as int, i as int)),
            acc == digits_value(content@.subrange(a as int, i as int)),
        decreases b - i,
    {
        let c = content[i];
        if c < 48 || c > 57 {
            assert(!crate::teardown::is_digit(t[i - a]));
            return None;
        }
        let d = (c - 48) as u64;
        let ghost prefix = content@.subrange(a as int, i as int + 1);
        assert(prefix.drop_last() =~= content@.subrange(a as int, i as int));
        assert(all_digits(prefix)) by {
            assert forall|k: int| 0 <= k < prefix.len() implies crate::teardown::is_digit(
                #[trigger] prefix[k],
            ) by {
                if k < prefix.len() - 1 {
                    assert(prefix[k] == content@.subrange(a as int, i as int)[k]);
                }
            }
        }
        if acc > (u64::MAX - d) / 10 {
            proof {
                assert(digits_value(prefix) > u64::MAX) by (nonlinear_arith)
                    requires
                        digits_value(prefix) == acc * 10 + d,
                        acc > (u64::MAX - d) / 10,
                        d <= 9,
                ;
                if all_digits(t) {
                    assert(prefix =~= t.take(i - a + 1));
                    lemma_digits_value_grows(t, i - a + 1);
                }
            }
            return None;
        }
        assert(acc * 10 + d <= u64::MAX) by (nonlinear_arith)
            requires
                acc <= (u64::MAX - d) / 10,
                d <= 9,
        ;
        acc = acc * 10 + d;
        i = i + 1;
    }
    assert(content@.subrange(a as int, i as int) =~= t);
    Some(acc)
}

} // verus!
