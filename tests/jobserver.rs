use minion::jobserver::{cpu_limit_seconds, decode_wait_status, parse_counter, poll_step, PollStep};

#[test]
fn normal_exit_gives_exit_status() {
    assert_eq!(decode_wait_status(0), Some(0));
    assert_eq!(decode_wait_status(3 << 8), Some(3));
    assert_eq!(decode_wait_status(255 << 8), Some(255));
}

#[test]
fn signal_gives_negated_signal_number() {
    assert_eq!(decode_wait_status(9), Some(-9));
    assert_eq!(decode_wait_status(15), Some(-15));
    // core dumped flag
    assert_eq!(decode_wait_status(0x80 | 11), Some(-11));
}

#[test]
fn stopped_or_continued_is_no_exit() {
    assert_eq!(decode_wait_status(0x137f), None);
    assert_eq!(decode_wait_status(0xffff), None);
}

#[test]
fn poll_steps() {
    let big = u64::MAX;
    assert_eq!(poll_step(Some(0), 0, 100, None, big, 0, big), PollStep::Reply(Some(0)));
    assert_eq!(poll_step(Some(9), 500, 100, Some(big), 1, big, 1), PollStep::Reply(Some(-9)));
    assert_eq!(poll_step(None, 50, 100, Some(10), big, 0, big), PollStep::Wait);
    assert_eq!(poll_step(None, 100, 100, None, big, 0, big), PollStep::Reply(None));
    assert_eq!(poll_step(Some(0x137f), 10, 100, None, big, 0, big), PollStep::Wait);
    assert_eq!(poll_step(Some(0x137f), 200, 100, None, big, 0, big), PollStep::Reply(None));
}

#[test]
fn job_over_domain_limits_is_killed() {
    let big = u64::MAX;
    // CPU time used up: a 100ms domain spinning for 150ms
    assert_eq!(poll_step(None, 10, 2_000_000_000, Some(150_000_000), 100_000_000, 0, big), PollStep::Kill);
    // wall-clock time used up
    assert_eq!(poll_step(None, 10, 2_000_000_000, None, big, 300, 300), PollStep::Kill);
    // below both limits
    assert_eq!(poll_step(None, 10, 2_000_000_000, Some(99), 100, 299, 300), PollStep::Wait);
}

#[test]
fn cpu_limit_rounds_up_to_seconds() {
    assert_eq!(cpu_limit_seconds(0), 0);
    assert_eq!(cpu_limit_seconds(100_000_000), 1);
    assert_eq!(cpu_limit_seconds(1_000_000_000), 1);
    assert_eq!(cpu_limit_seconds(1_000_000_001), 2);
    assert_eq!(cpu_limit_seconds(u64::MAX), 18_446_744_074);
}

#[test]
fn counter_files() {
    assert_eq!(parse_counter(b"123456789\n"), Some(123456789));
    assert_eq!(parse_counter(b"0"), Some(0));
    assert_eq!(parse_counter(b"18446744073709551615\n"), Some(u64::MAX));
    assert_eq!(parse_counter(b"18446744073709551616\n"), None);
    assert_eq!(parse_counter(b""), None);
    assert_eq!(parse_counter(b"  \n"), None);
    assert_eq!(parse_counter(b"12 34"), None);
    assert_eq!(parse_counter(b"-5"), None);
}
