use aoska::follower::{
    spawn_failure_msg, tail_args, tail_step, FollowStart, FollowerRegistry, TailAction,
    TailEvent,
};

#[test]
fn starting_twice_records_one_follower() {
    let mut reg: FollowerRegistry<u32> = FollowerRegistry::new();
    let first = reg.start_following("unit-a", 1);
    assert!(matches!(first, FollowStart::Started { .. }));
    assert_eq!(reg.start_following("unit-a", 2), FollowStart::AlreadyFollowing);
    assert_eq!(reg.entries_for("unit-a"), 1);
    assert_eq!(reg.stop_following("unit-a"), Some(1));
}

#[test]
fn stopping_unknown_unit_is_a_no_op() {
    let mut reg: FollowerRegistry<u32> = FollowerRegistry::new();
    let _ = reg.start_following("unit-a", 7);
    assert_eq!(reg.stop_following("unit-b"), None);
    assert!(reg.is_following("unit-a"));
    assert_eq!(reg.entries_for("unit-b"), 0);
}

#[test]
fn stop_hands_back_the_cancel_handle() {
    let mut reg: FollowerRegistry<&str> = FollowerRegistry::new();
    let _ = reg.start_following("u", "cancel-u");
    assert_eq!(reg.stop_following("u"), Some("cancel-u"));
    assert!(!reg.is_following("u"));
}

#[test]
fn worker_end_removes_entry_and_allows_restart() {
    let mut reg: FollowerRegistry<u32> = FollowerRegistry::new();
    let token = match reg.start_following("u", 1) {
        FollowStart::Started { token } => token,
        FollowStart::AlreadyFollowing => panic!("fresh registry"),
    };
    assert!(reg.finish("u", token));
    assert!(!reg.is_following("u"));
    assert!(matches!(reg.start_following("u", 2), FollowStart::Started { .. }));
    assert_eq!(reg.entries_for("u"), 1);
}

#[test]
fn stale_worker_leaves_newer_entry() {
    let mut reg: FollowerRegistry<u32> = FollowerRegistry::new();
    let old = match reg.start_following("u", 1) {
        FollowStart::Started { token } => token,
        FollowStart::AlreadyFollowing => panic!("fresh registry"),
    };
    assert_eq!(reg.stop_following("u"), Some(1));
    let new = match reg.start_following("u", 2) {
        FollowStart::Started { token } => token,
        FollowStart::AlreadyFollowing => panic!("stopped"),
    };
    assert_ne!(old, new);
    assert!(!reg.finish("u", old));
    assert!(reg.is_following("u"));
    assert!(reg.finish("u", new));
    assert!(!reg.is_following("u"));
}

#[test]
fn distinct_units_follow_independently() {
    let mut reg: FollowerRegistry<u32> = FollowerRegistry::new();
    assert!(matches!(reg.start_following("a", 1), FollowStart::Started { .. }));
    assert!(matches!(reg.start_following("b", 2), FollowStart::Started { .. }));
    assert_eq!(reg.stop_following("a"), Some(1));
    assert!(reg.is_following("b"));
}

#[test]
fn line_is_published_unless_cancelled() {
    match tail_step("u", false, TailEvent::Line("hello".to_string())) {
        TailAction::Publish(m) => {
            assert_eq!(m.unit, "u");
            assert_eq!(m.line, "hello");
        }
        TailAction::Stop => panic!("line dropped"),
    }
    assert!(matches!(tail_step("u", true, TailEvent::Line("x".to_string())), TailAction::Stop));
    assert!(matches!(tail_step("u", false, TailEvent::ReadFailed), TailAction::Stop));
    assert!(matches!(tail_step("u", false, TailEvent::Ended), TailAction::Stop));
}

#[test]
fn spawn_failure_notice() {
    let m = spawn_failure_msg("u");
    assert_eq!(m.unit, "u");
    assert_eq!(m.line, "<failed to spwan journalctl>");
}

#[test]
fn tail_command_line() {
    assert_eq!(tail_args("job"), vec!["-u", "job", "-f", "-o", "cat"]);
}
