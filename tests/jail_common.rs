use minion::jail_common::{gen_jail_id, get_path_for_subsystem, ID_SIZE};

#[test]
fn subsystem_path_layout() {
    assert_eq!(get_path_for_subsystem("pids", "q1w2e3r4"), "/sys/fs/cgroup/pids/jjs/g-q1w2e3r4");
    assert_eq!(get_path_for_subsystem("memory", "x"), "/sys/fs/cgroup/memory/jjs/g-x");
}

#[test]
fn jail_id_shape() {
    for _ in 0..50 {
        let id = gen_jail_id();
        assert_eq!(id.len(), ID_SIZE);
        assert!(id.chars().all(|c| c.is_ascii_lowercase() || c.is_ascii_digit()));
    }
}

#[test]
fn jail_ids_differ() {
    let a = gen_jail_id();
    let b = gen_jail_id();
    let c = gen_jail_id();
    assert!(a != b || b != c);
}
