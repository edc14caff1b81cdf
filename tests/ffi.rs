use minion::config::Env;
use minion::ffi::{
    dominion_options, environment_from_items, shared_directory, ErrorCode, SharedDirectoryAccessKind,
    StdioHandleSet, StdioMember, TimeSpec,
};
use minion::options::{DesiredAccess, InputSpecification, OutputSpecification};

#[test]
fn duplicate_environment_name_is_invalid_input() {
    let r = environment_from_items(vec![
        (b"A".to_vec(), b"1".to_vec()),
        (b"B".to_vec(), b"2".to_vec()),
        (b"A".to_vec(), b"3".to_vec()),
    ]);
    assert!(matches!(r, Err(ErrorCode::InvalidInput)));
}

#[test]
fn unique_environment_keeps_order() {
    let env = environment_from_items(vec![
        (b"B".to_vec(), b"2".to_vec()),
        (b"A".to_vec(), b"1".to_vec()),
    ])
    .ok()
    .unwrap();
    assert_eq!(env.len(), 2);
    assert!(env.contains(b"A"));
    assert!(!env.contains(b"C"));
    assert_eq!(
        env.into_items(),
        vec![(b"B".to_vec(), b"2".to_vec()), (b"A".to_vec(), b"1".to_vec())]
    );
}

#[test]
fn error_code_into_result() {
    assert_eq!(ErrorCode::Success.into_result(), Ok(ErrorCode::Success));
    assert_eq!(ErrorCode::InvalidInput.into_result(), Err(ErrorCode::InvalidInput));
    assert_eq!(ErrorCode::Unknown.into_result(), Err(ErrorCode::Unknown));
}

#[test]
fn time_spec_in_nanoseconds() {
    assert_eq!(TimeSpec { seconds: 0, nanoseconds: 100_000_000 }.to_nanos(), 100_000_000);
    assert_eq!(TimeSpec { seconds: 2, nanoseconds: 5 }.to_nanos(), 2_000_000_005);
    assert_eq!(TimeSpec { seconds: 1, nanoseconds: 1_500_000_000 }.to_nanos(), 2_500_000_000);
    assert_eq!(
        TimeSpec { seconds: u32::MAX, nanoseconds: u32::MAX }.to_nanos(),
        u32::MAX as u64 * 1_000_000_000 + u32::MAX as u64
    );
}

#[test]
fn dominion_options_from_c_values() {
    let dirs = vec![
        shared_directory(SharedDirectoryAccessKind::Full, b"/a".to_vec(), b"/b".to_vec()),
        shared_directory(SharedDirectoryAccessKind::Readonly, b"/c".to_vec(), b"/d".to_vec()),
    ];
    let o = dominion_options(
        TimeSpec { seconds: 1, nanoseconds: 0 },
        16,
        1 << 20,
        b"/root".to_vec(),
        dirs,
    );
    assert_eq!(o.max_alive_process_count, 16);
    assert_eq!(o.memory_limit, 1 << 20);
    assert_eq!(o.time_limit, 1_000_000_000);
    assert_eq!(o.isolation_root, b"/root".to_vec());
    assert_eq!(o.exposed_paths[0].access, DesiredAccess::Full);
    assert_eq!(o.exposed_paths[1].access, DesiredAccess::Readonly);
    assert_eq!(o.exposed_paths[1].src, b"/c".to_vec());
    assert_eq!(o.exposed_paths[1].dest, b"/d".to_vec());
}

#[test]
fn stdio_handle_set() {
    let set = StdioHandleSet { stdin: 0, stdout: 1, stderr: 2 };
    let spec = set.to_specification();
    assert_eq!(spec.stdin, InputSpecification::Handle(0));
    assert_eq!(spec.stdout, OutputSpecification::Handle(1));
    assert_eq!(spec.stderr, OutputSpecification::Handle(2));
    assert_eq!(set.get(StdioMember::Stderr), 2);
    assert_eq!(set.get(StdioMember::Stdin), 0);
}

#[test]
fn env_is_dev() {
    assert!(Env::Dev.is_dev());
    assert!(!Env::Prod.is_dev());
}
