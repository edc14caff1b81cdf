//! Teardown of an isolation domain: which cgroup files to touch and which
//! processes to kill, computed from the cgroup's member list.
//!
//! The caller first writes `0` to the `pids.max` file, so that no member can
//! fork any more, then reads the member file and sends `SIGKILL` and
//! `SIGTERM` to each pid that [`cgroup_kill_targets`] returns, going on past
//! pids that are already gone. A line of the member file that is no pid is
//! skipped, not fatal: it is reported once every member has been signalled.

use crate::jail_common::{get_path_for_subsystem, subsystem_path, Pid};
use vstd::prelude::*;

verus! {

/// ASCII whitespace, as `str::trim` removes it.
pub open spec fn is_space(b: u8) -> bool {
    b == 32 || (9 <= b && b <= 13)
}

pub open spec fn is_digit(b: u8) -> bool {
    48 <= b && b <= 57
}

pub open spec fn trim_start(s: Seq<u8>) -> Seq<u8>
    decreases s.len(),
{
    if s.len() > 0 && is_space(s[0]) {
        trim_start(s.drop_first())
    } else {
        s
    }
}

pub open spec fn trim_end(s: Seq<u8>) -> Seq<u8>
    decreases s.len(),
{
    if s.len() > 0 && is_space(s.last()) {
        trim_end(s.drop_last())
    } else {
        s
    }
}

/// `s` without leading and trailing whitespace.
pub open spec fn trim(s: Seq<u8>) -> Seq<u8> {
    trim_end(trim_start(s))
}

/// The number that a string of decimal digits denotes.
pub open spec fn digits_value(s: Seq<u8>) -> int
    decreases s.len(),
{
    if s.len() == 0 {
        0
    } else {
        digits_value(s.drop_last()) * 10 + (s.last() - 48)
    }
}

pub open spec fn all_digits(s: Seq<u8>) -> bool {
    forall|i: int| 0 <= i < s.len() ==> is_digit(#[trigger] s[i])
}

/// A decimal `i32` as Rust's `str::parse` reads it: an optional sign, then
/// at least one digit, and a value within range.
pub open spec fn parse_i32(s: Seq<u8>) -> Option<i32> {
    let signed = s.len() > 0 && (s[0] == 45 || s[0] == 43);
    let negative = s.len() > 0 && s[0] == 45;
    let body = if signed { s.drop_first() } else { s };
    if body.len() == 0 || !all_digits(body) {
        None
    } else {
        let v = if negative { -digits_value(body) } else { digits_value(body) };
        if i32::MIN <= v && v <= i32::MAX {
            Some(v as i32)
        } else {
            None
        }
    }
}

/// `s` cut at each newline: one more piece than there are newlines.
pub open spec fn split_lines(s: Seq<u8>) -> Seq<Seq<u8>>
    decreases s.len(),
{
    if s.len() == 0 {
        seq![Seq::empty()]
    } else {
        let prev = split_lines(s.drop_last());
        if s.last() == 10 {
            prev.push(Seq::empty())
        } else {
            prev.update(prev.len() - 1, prev.last().push(s.last()))
        }
    }
}

/// The pid that a line of a member list names; `None` for a blank line and
/// for a line that is no pid.
pub open spec fn listed_pid(line: Seq<u8>) -> Option<i32> {
    parse_i32(trim(line))
}

/// A line that is neither blank nor a pid.
pub open spec fn is_malformed(line: Seq<u8>) -> bool {
    trim(line).len() > 0 && listed_pid(line) is None
}

/// `acc` extended by the pid on `line`: blank lines, malformed lines and the
/// ignored pid add nothing.
pub open spec fn add_member(acc: Seq<Pid>, line: Seq<u8>, ignore: Option<Pid>) -> Seq<Pid> {
    match listed_pid(line) {
        Some(p) => if ignore == Some(p) {
            acc
        } else {
            acc.push(p)
        },
        None => acc,
    }
}

/// The pids named by `lines`, in order, without `ignore`.
pub open spec fn member_pids(lines: Seq<Seq<u8>>, ignore: Option<Pid>) -> Seq<Pid>
    decreases lines.len(),
{
    if lines.len() == 0 {
        Seq::empty()
    } else {
        add_member(member_pids(lines.drop_last(), ignore), lines.last(), ignore)
    }
}

/// Whether one of `lines` is malformed.
pub open spec fn any_malformed(lines: Seq<Seq<u8>>) -> bool
    decreases lines.len(),
{
    if lines.len() == 0 {
        false
    } else {
        any_malformed(lines.drop_last()) || is_malformed(lines.last())
    }
}

/// The processes to kill, given the contents of a cgroup member file.
pub open spec fn kill_targets(content: Seq<u8>, ignore: Option<Pid>) -> Seq<Pid> {
    member_pids(split_lines(content), ignore)
}

/// Whether a cgroup member file holds a line that is neither blank nor a pid.
pub open spec fn has_malformed_line(content: Seq<u8>) -> bool {
    any_malformed(split_lines(content))
}

pub(crate) proof fn lemma_digits_value_grows(s: Seq<u8>, j: int)
    requires
        all_digits(s),
        0 <= j <= s.len(),
    ensures
        0 <= digits_value(s.take(j)) <= digits_value(s),
    decreases s.len() - j,
{
    if j < s.len() {
        lemma_digits_value_grows(s, j + 1);
        assert(s.take(j + 1).drop_last() =~= s.take(j));
        assert(is_digit(s[j]));
    } else {
        assert(s.take(j) =~= s);
        lemma_digits_value_nonneg(s);
    }
}

proof fn lemma_digits_value_nonneg(s: Seq<u8>)
    requires
        all_digits(s),
    ensures
        digits_value(s) >= 0,
    decreases s.len(),
{
    if s.len() > 0 {
        assert(all_digits(s.drop_last())) by {
            assert forall|i: int| 0 <= i < s.drop_last().len() implies is_digit(
                #[trigger] s.drop_last()[i],
            ) by {
                assert(s.drop_last()[i] == s[i]);
            }
        }
        lemma_digits_value_nonneg(s.drop_last());
        assert(is_digit(s[s.len() - 1]));
    }
}

/// Reads a decimal `i32` from `content[start..end]`.
fn parse_pid(content: &[u8], start: usize, end: usize) -> (r: Option<Pid>)
    requires
        start <= end <= content@.len(),
    ensures
        r == parse_i32(content@.subrange(start as int, end as int)),
{
    let ghost s = content@.subrange(start as int, end as int);
    let mut i = start;
    let mut negative = false;
    if i < end && (content[i] == 45 || content[i] == 43) {
        negative = content[i] == 45;
        i = i + 1;
    }
    let ghost body = content@.subrange(i as int, end as int);
    let ghost signed_body = if s.len() > 0 && (s[0] == 45 || s[0] == 43) {
        s.drop_first()
    } else {
        s
    };
    assert(body =~= signed_body);
    assert(negative == (s.len() > 0 && s[0] == 45));
    if i == end {
        return None;
    }
    let body_start = i;
    let mut acc: i64 = 0;
    while i < end
        invariant
            body_start <= i <= end <= content@.len(),
            body == content@.subrange(body_start as int, end as int),
            body == signed_body,
            body.len() > 0,
            s == content@.subrange(start as int, end as int),
            signed_body == (if s.len() > 0 && (s[0] == 45 || s[0] == 43) {
                s.drop_first()
            } else {
                s
            }),
            negative == (s.len() > 0 && s[0] == 45),
            all_digits(content@.subrange(body_start as int, i as int)),
            acc == digits_value(content@.subrange(body_start as int, i as int)),
            0 <= acc <= 2147483648,
        decreases end - i,
    {
        let b = content[i];
        if b < 48 || b > 57 {
            assert(!is_digit(body[i - body_start]));
            return None;
        }
        let ghost prefix = content@.subrange(body_start as int, i as int + 1);
        assert(prefix.drop_last() =~= content@.subrange(body_start as int, i as int));
        acc = acc * 10 + (b - 48) as i64;
        i = i + 1;
        assert(all_digits(prefix)) by {
            assert forall|k: int| 0 <= k < prefix.len() implies is_digit(#[trigger] prefix[k]) by {
                if k < prefix.len() - 1 {
                    assert(prefix[k] == content@.subrange(body_start as int, i - 1)[k]);
                }
            }
        }
        if acc > 2147483648 {
            proof {
                if all_digits(body) {
                    assert(prefix =~= body.take(i - body_start));
                    lemma_digits_value_grows(body, i - body_start);
                }
            }
            return None;
        }
    }
    assert(content@.subrange(body_start as int, i as int) =~= body);
    if negative {
        Some((-acc) as i32)
    } else if acc <= 2147483647 {
        Some(acc as i32)
    } else {
        None
    }
}

/// The bounds of `content[start..end]` without its leading and trailing
/// whitespace.
pub(crate) fn trim_bounds(content: &[u8], start: usize, end: usize) -> (r: (usize, usize))
    requires
        start <= end <= content@.len(),
    ensures
        start <= r.0 <= r.1 <= end,
        content@.subrange(r.0 as int, r.1 as int) == trim(
            content@.subrange(start as int, end as int),
        ),
{
    let mut a = start;
    while a < end && (content[a] == 32 || (9 <= content[a] && content[a] <= 13))
        invariant
            start <= a <= end <= content@.len(),
            trim_start(content@.subrange(start as int, end as int)) == trim_start(
                content@.subrange(a as int, end as int),
            ),
        decreases end - a,
    {
        assert(content@.subrange(a as int, end as int).drop_first() =~= content@.subrange(
            a as int + 1,
            end as int,
        ));
        a = a + 1;
    }
    let mut b = end;
    while b > a && (content[b - 1] == 32 || (9 <= content[b - 1] && content[b - 1] <= 13))
        invariant
            start <= a <= b <= end <= content@.len(),
            trim_start(content@.subrange(start as int, end as int)) == content@.subrange(
                a as int,
                end as int,
            ),
            trim_end(content@.subrange(a as int, end as int)) == trim_end(
                content@.subrange(a as int, b as int),
            ),
        decreases b - a,
    {
        assert(content@.subrange(a as int, b as int).drop_last() =~= content@.subrange(
            a as int,
            b as int - 1,
        ));
        b = b - 1;
    }
    (a, b)
}

/// Adds the pid on the line `content[start..end]` to `acc`; returns whether
/// the line is malformed.
fn add_line(acc: &mut Vec<Pid>, content: &[u8], start: usize, end: usize, ignore: Option<Pid>) -> (r:
    bool)
    requires
        start <= end <= content@.len(),
    ensures
        final(acc)@ == add_member(old(acc)@, content@.subrange(start as int, end as int), ignore),
        r == is_malformed(content@.subrange(start as int, end as int)),
{
    let (a, b) = trim_bounds(content, start, end);
    let ghost line = content@.subrange(start as int, end as int);
    if a == b {
        assert(parse_i32(trim(line)) is None);
        return false;
    }
    match parse_pid(content, a, b) {
        None => true,
        Some(p) => {
            let skip = match ignore {
                Some(q) => q == p,
                None => false,
            };
            if !skip {
                acc.push(p);
            }
            false
        },
    }
}

/// The processes to kill when a domain is torn down.
pub struct KillTargets {
    /// The pids to signal, in the order of the member file.
    pub pids: Vec<Pid>,
    /// Some line of the member file was neither blank nor a pid.
    pub malformed: bool,
}

/// The pids to kill when a domain is torn down, from the contents of its
/// cgroup member file: the pid of every line that names one, in the order
/// of the file, without `pid_to_ignore`. Blank lines and lines that are no
/// pid are skipped, so that one bad line spares no member; whether there
/// was such a line is reported beside the pids.
pub fn cgroup_kill_targets(content: &[u8], pid_to_ignore: Option<Pid>) -> (r: KillTargets)
    ensures
        r.pids@ == kill_targets(content@, pid_to_ignore),
        r.malformed == has_malformed_line(content@),
{
    let mut acc: Vec<Pid> = Vec::new();
    let mut malformed = false;
    let mut start: usize = 0;
    let mut i: usize = 0;
    proof {
        assert(content@.take(0) =~= Seq::<u8>::empty());
        assert(content@.subrange(0, 0) =~= Seq::<u8>::empty());
    }
    while i < content.len()
        invariant
            start <= i <= content@.len(),
            split_lines(content@.take(i as int)).len() >= 1,
            split_lines(content@.take(i as int)).last() == content@.subrange(
                start as int,
                i as int,
            ),
            acc@ == member_pids(split_lines(content@.take(i as int)).drop_last(), pid_to_ignore),
            malformed == any_malformed(split_lines(content@.take(i as int)).drop_last()),
        decreases content@.len() - i,
    {
        let ghost prev = split_lines(content@.take(i as int));
        assert(content@.take(i as int + 1).drop_last() =~= content@.take(i as int));
        if content[i] == 10 {
            let bad = add_line(&mut acc, content, start, i, pid_to_ignore);
            malformed = malformed || bad;
            proof {
                let next = split_lines(content@.take(i as int + 1));
                assert(next == prev.push(Seq::empty()));
                assert(next.drop_last() =~= prev);
                assert(prev.drop_last().push(prev.last()) =~= prev);
                assert(content@.subrange(i as int + 1, i as int + 1) =~= Seq::<u8>::empty());
            }
            start = i + 1;
        } else {
            proof {
                let next = split_lines(content@.take(i as int + 1));
                assert(next.drop_last() =~= prev.drop_last());
                assert(content@.subrange(start as int, i as int + 1) =~= content@.subrange(
                    start as int,
                    i as int,
                ).push(content@[i as int]));
            }
        }
        i = i + 1;
    }
    proof {
        let lines = split_lines(content@);
        assert(content@.take(content@.len() as int) =~= content@);
        assert(lines.drop_last().push(lines.last()) =~= lines);
    }
    let bad = add_line(&mut acc, content, start, content.len(), pid_to_ignore);
    KillTargets { pids: acc, malformed: malformed || bad }
}

/// The id of the auxiliary cgroup used to tear the domain `jail_id` down.
pub open spec fn util_cgroup_id(jail_id: Seq<char>) -> Seq<char> {
    jail_id + "-ex"@
}

/// The directory of the auxiliary `pids` cgroup of the domain `jail_id`,
/// which holds its job server.
pub fn util_cgroup_path(jail_id: &str) -> (r: String)
    ensures
        r@ == subsystem_path("pids"@, util_cgroup_id(jail_id@)),
{
    let mut util_id = String::from_str(jail_id);
    util_id.append("-ex");
    get_path_for_subsystem("pids", util_id.as_str())
}

/// The `pids.max` file and the member file of the `pids` cgroup whose
/// directory is `cgroup_dir`.
pub fn cgroup_files(cgroup_dir: &str) -> (r: (String, String))
    ensures
        r.0@ == cgroup_dir@ + "/pids.max"@,
        r.1@ == cgroup_dir@ + "/tasks"@,
{
    let mut pids_max = String::from_str(cgroup_dir);
    pids_max.append("/pids.max");
    let mut members = String::from_str(cgroup_dir);
    members.append("/tasks");
    (pids_max, members)
}

/// The `pids.max` file and the member file of the teardown cgroup of the
/// domain `jail_id`.
pub fn teardown_paths(jail_id: &str) -> (r: (String, String))
    ensures
        r.0@ == subsystem_path("pids"@, util_cgroup_id(jail_id@)) + "/pids.max"@,
        r.1@ == subsystem_path("pids"@, util_cgroup_id(jail_id@)) + "/tasks"@,
{
    let dir = util_cgroup_path(jail_id);
    cgroup_files(dir.as_str())
}

/// Teardown misses no one: the kill list holds the pid of every line of the
/// member file that names one, but the ignored pid, whatever else the file
/// holds, and nothing else.
pub proof fn lemma_kill_targets_complete(content: Seq<u8>, ignore: Option<Pid>)
    ensures
        forall|j: int|
            0 <= j < split_lines(content).len() && #[trigger] listed_pid(split_lines(content)[j])
                is Some && listed_pid(split_lines(content)[j]) != ignore ==> kill_targets(
                content,
                ignore,
            ).contains(listed_pid(split_lines(content)[j])->Some_0),
        forall|k: int|
            0 <= k < kill_targets(content, ignore).len() ==> Some(
                #[trigger] kill_targets(content, ignore)[k],
            ) != ignore && exists|j: int|
                0 <= j < split_lines(content).len() && listed_pid(split_lines(content)[j]) == Some(
                    kill_targets(content, ignore)[k],
                ),
{
    lemma_member_pids_complete(split_lines(content), ignore);
}

proof fn lemma_member_pids_complete(lines: Seq<Seq<u8>>, ignore: Option<Pid>)
    ensures
        forall|j: int|
            0 <= j < lines.len() && #[trigger] listed_pid(lines[j]) is Some && listed_pid(lines[j])
                != ignore ==> member_pids(lines, ignore).contains(listed_pid(lines[j])->Some_0),
        forall|k: int|
            0 <= k < member_pids(lines, ignore).len() ==> Some(
                #[trigger] member_pids(lines, ignore)[k],
            ) != ignore && exists|j: int|
                0 <= j < lines.len() && listed_pid(lines[j]) == Some(member_pids(lines, ignore)[k]),
    decreases lines.len(),
{
    if lines.len() > 0 {
        let init = lines.drop_last();
        lemma_member_pids_complete(init, ignore);
        let acc = member_pids(init, ignore);
        let t = member_pids(lines, ignore);
        let last = lines.last();
        assert forall|j: int|
            0 <= j < lines.len() && #[trigger] listed_pid(lines[j]) is Some && listed_pid(lines[j])
                != ignore implies t.contains(listed_pid(lines[j])->Some_0) by {
            let p = listed_pid(lines[j])->Some_0;
            if j < lines.len() - 1 {
                assert(lines[j] == init[j]);
                assert(listed_pid(init[j]) is Some);
                let k = choose|k: int| 0 <= k < acc.len() && acc[k] == p;
                if t != acc {
                    assert(t == acc.push(listed_pid(last)->Some_0));
                    assert(t[k] == p);
                }
                assert(t[k] == p);
            } else {
                assert(t == acc.push(p));
                assert(t[acc.len() as int] == p);
            }
        }
        assert forall|k: int| 0 <= k < t.len() implies Some(#[trigger] t[k]) != ignore && exists|
            j: int,
        | 0 <= j < lines.len() && listed_pid(lines[j]) == Some(t[k]) by {
            if k < acc.len() {
                if t != acc {
                    assert(t == acc.push(listed_pid(last)->Some_0));
                }
                assert(t[k] == acc[k]);
                let j = choose|j: int| 0 <= j < init.len() && listed_pid(init[j]) == Some(acc[k]);
                assert(lines[j] == init[j]);
            } else {
                assert(t == acc.push(listed_pid(last)->Some_0));
                assert(listed_pid(lines[lines.len() - 1]) == Some(t[k]));
            }
        }
    }
}

} // verus!
