use minion::child::{LinuxChildProcess, WaitOutcome, WaitStep};
use minion::dominion::JobStartupInfo;
use minion::options::{InputSpecification, OutputSpecification};
use minion::stdio::{input_plan, output_plan};

/// Runs one wait the way the runtime does, counting the polls it sends.
fn wait(cp: &mut LinuxChildProcess, answer: Option<i32>, polls: &mut u32) -> WaitOutcome {
    match cp.wait_step() {
        WaitStep::AlreadyFinished => WaitOutcome::AlreadyFinished,
        WaitStep::Poll { pid } => {
            assert_eq!(pid, cp.pid());
            *polls += 1;
            cp.record_poll(answer)
        }
    }
}

#[test]
fn new_process_is_running() {
    let cp = LinuxChildProcess::new(42, Some(3), Some(4), None);
    assert_eq!(cp.pid(), 42);
    assert_eq!(cp.get_exit_code(), None);
    assert!(!cp.is_finished());
    assert_eq!(cp.wait_step(), WaitStep::Poll { pid: 42 });
    assert_eq!(cp.kill_target(), Some(42));
}

#[test]
fn exit_code_of_true_is_zero_and_stable() {
    let mut cp = LinuxChildProcess::new(7, None, None, None);
    let mut polls = 0;
    assert_eq!(wait(&mut cp, None, &mut polls), WaitOutcome::Timeout);
    assert_eq!(cp.get_exit_code(), None);
    assert_eq!(wait(&mut cp, Some(0), &mut polls), WaitOutcome::Exited);
    assert_eq!(cp.get_exit_code(), Some(0));
    assert_eq!(cp.get_exit_code(), Some(0));
    assert_eq!(polls, 2);
}

#[test]
fn exit_code_is_never_replaced() {
    let mut cp = LinuxChildProcess::new(7, None, None, None);
    assert_eq!(cp.record_poll(Some(3)), WaitOutcome::Exited);
    assert_eq!(cp.record_poll(Some(5)), WaitOutcome::AlreadyFinished);
    assert_eq!(cp.record_poll(None), WaitOutcome::AlreadyFinished);
    assert_eq!(cp.get_exit_code(), Some(3));
}

#[test]
fn exit_codes_keep_their_value() {
    for code in [0, 1, 255, -9, 137, i32::MAX, i32::MIN] {
        let mut cp = LinuxChildProcess::new(1, None, None, None);
        cp.record_poll(Some(code));
        assert_eq!(cp.get_exit_code(), Some(code as i64));
        assert!(cp.is_finished());
    }
}

#[test]
fn wait_on_finished_process_does_not_poll() {
    let mut cp = LinuxChildProcess::new(9, None, None, None);
    let mut polls = 0;
    assert_eq!(wait(&mut cp, Some(1), &mut polls), WaitOutcome::Exited);
    assert_eq!(polls, 1);
    assert_eq!(cp.wait_step(), WaitStep::AlreadyFinished);
    assert_eq!(wait(&mut cp, Some(2), &mut polls), WaitOutcome::AlreadyFinished);
    assert_eq!(wait(&mut cp, None, &mut polls), WaitOutcome::AlreadyFinished);
    assert_eq!(polls, 1);
    assert_eq!(cp.get_exit_code(), Some(1));
}

#[test]
fn kill_twice_signals_once() {
    let mut cp = LinuxChildProcess::new(11, None, None, None);
    let mut signals = 0;
    // first kill: the process still runs
    if cp.kill_target().is_some() {
        signals += 1;
    }
    // the process died of SIGKILL; the next poll sees it
    cp.record_poll(Some(-9));
    if cp.kill_target().is_some() {
        signals += 1;
    }
    assert_eq!(signals, 1);
    assert_eq!(cp.kill_target(), None);
}

#[test]
fn stdout_is_taken_once() {
    let mut cp = LinuxChildProcess::new(5, Some(10), Some(11), Some(12));
    assert_eq!(cp.stdout(), Some(11));
    assert_eq!(cp.stdout(), None);
    assert_eq!(cp.stdin(), Some(10));
    assert_eq!(cp.stdin(), None);
    assert_eq!(cp.stderr(), Some(12));
    assert_eq!(cp.stderr(), None);
}

#[test]
fn missing_stream_gives_nothing() {
    let mut cp = LinuxChildProcess::new(5, None, None, None);
    assert_eq!(cp.stdout(), None);
    assert_eq!(cp.stdin(), None);
    assert_eq!(cp.stderr(), None);
}

#[test]
fn spawned_job_holds_its_pipe_ends_once() {
    let stdin_plan = input_plan(InputSpecification::Pipe);
    let stdout_plan = output_plan(OutputSpecification::Buffer(Some(4))).unwrap();
    let stderr_plan = output_plan(OutputSpecification::Ignore).unwrap();
    let mut cp = LinuxChildProcess::spawned(
        JobStartupInfo { pid: 31 },
        stdin_plan,
        Some(5),
        stdout_plan,
        Some(6),
        stderr_plan,
        None,
    );
    assert_eq!(cp.pid(), 31);
    assert_eq!(cp.get_exit_code(), None);
    assert_eq!(cp.stdout(), Some(6));
    assert_eq!(cp.stdout(), None);
    assert_eq!(cp.stdin(), Some(5));
    assert_eq!(cp.stderr(), None);
}
