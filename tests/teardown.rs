use minion::teardown::{cgroup_files, cgroup_kill_targets, teardown_paths, util_cgroup_path};

fn targets(content: &[u8], ignore: Option<i32>) -> (Vec<i32>, bool) {
    let t = cgroup_kill_targets(content, ignore);
    (t.pids, t.malformed)
}

#[test]
fn member_list_lines_are_pids() {
    assert_eq!(targets(b"12\n345\n6\n", None), (vec![12, 345, 6], false));
}

#[test]
fn member_list_without_final_newline() {
    assert_eq!(targets(b"12\n345", None), (vec![12, 345], false));
}

#[test]
fn empty_member_list() {
    assert_eq!(targets(b"", None), (vec![], false));
    assert_eq!(targets(b"\n\n", None), (vec![], false));
}

#[test]
fn ignored_pid_is_skipped() {
    assert_eq!(targets(b"1\n2\n3\n2\n", Some(2)), (vec![1, 3], false));
    assert_eq!(targets(b"1\n2\n", Some(9)), (vec![1, 2], false));
}

#[test]
fn whitespace_around_pids_is_trimmed() {
    assert_eq!(targets(b"  17 \r\n\t8\n   \n", None), (vec![17, 8], false));
}

#[test]
fn signs_are_read_as_parse_reads_them() {
    assert_eq!(targets(b"+5\n-3\n", None), (vec![5, -3], false));
    assert_eq!(targets(b"-\n", None), (vec![], true));
    assert_eq!(targets(b"+\n4\n", None), (vec![4], true));
}

#[test]
fn pid_range_is_i32() {
    assert_eq!(targets(b"2147483647\n", None), (vec![2147483647], false));
    assert_eq!(targets(b"-2147483648\n", None), (vec![-2147483648], false));
    assert_eq!(targets(b"2147483648\n7\n", None), (vec![7], true));
    assert_eq!(targets(b"99999999999999999999\n", None), (vec![], true));
}

#[test]
fn malformed_line_spares_no_member() {
    assert_eq!(targets(b"x", None), (vec![], true));
    assert_eq!(targets(b"12\nabc\n34\n", None), (vec![12, 34], true));
    assert_eq!(targets(b"1 2\n5\n", None), (vec![5], true));
    assert_eq!(targets(b"12\n34x", None), (vec![12], true));
}

#[test]
fn teardown_paths_use_the_auxiliary_group() {
    let (pids_max, members) = teardown_paths("abcd1234");
    assert_eq!(pids_max, "/sys/fs/cgroup/pids/jjs/g-abcd1234-ex/pids.max");
    assert_eq!(members, "/sys/fs/cgroup/pids/jjs/g-abcd1234-ex/tasks");
    assert_eq!(util_cgroup_path("abcd1234"), "/sys/fs/cgroup/pids/jjs/g-abcd1234-ex");
}

#[test]
fn control_files_of_a_group() {
    assert_eq!(
        cgroup_files("/sys/fs/cgroup/pids/jjs/g-q"),
        (
            "/sys/fs/cgroup/pids/jjs/g-q/pids.max".to_string(),
            "/sys/fs/cgroup/pids/jjs/g-q/tasks".to_string()
        )
    );
}
