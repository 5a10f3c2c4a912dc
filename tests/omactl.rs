use aoska::omactl::{
    command_outcome, extract_unit, install_args, is_busy, list_units_args, query_args,
    remove_args, run_args, upgrade_args, BusyState, OmaBusyError, UnitQuery,
};

fn strings(v: &[&str]) -> Vec<String> {
    v.iter().map(|s| s.to_string()).collect()
}

#[test]
fn unit_line_gives_identifier() {
    assert_eq!(extract_unit("foo\nunit=abc123\nbar"), "abc123");
}

#[test]
fn no_unit_line_gives_trimmed_output() {
    assert_eq!(extract_unit("  oma-task-20240101-x1 \n"), "oma-task-20240101-x1");
    assert_eq!(extract_unit("xunit=abc\n"), "xunit=abc");
    assert_eq!(extract_unit(""), "");
}

#[test]
fn unit_value_is_trimmed() {
    assert_eq!(extract_unit("started\r\nunit=  oma-task-1 \r\ndone\r\n"), "oma-task-1");
}

#[test]
fn empty_unit_value_falls_back_to_output() {
    assert_eq!(extract_unit(" unit=\nxyz\n"), "unit=\nxyz");
}

#[test]
fn first_unit_line_wins() {
    assert_eq!(extract_unit("unit=first\nunit=second"), "first");
}

#[test]
fn run_command_line() {
    let args = strings(&["upgrade", "--yes"]);
    assert_eq!(run_args(&args, false, false, None), strings(&["run", "--", "upgrade", "--yes"]));
    assert_eq!(
        run_args(&args, true, true, Some("job")),
        strings(&["run", "--wait", "--follow", "--unit=job", "--", "upgrade", "--yes"])
    );
    assert_eq!(run_args(&vec![], true, false, None), strings(&["run", "--wait", "--"]));
}

#[test]
fn upgrade_arguments() {
    assert_eq!(upgrade_args(None), strings(&["upgrade", "--yes", "--no-progress"]));
    assert_eq!(upgrade_args(Some(false)), strings(&["upgrade", "--no-progress"]));
}

#[test]
fn install_arguments() {
    let pkgs = strings(&["firefox", "gimp"]);
    assert_eq!(
        install_args(&pkgs, None).unwrap(),
        strings(&["install", "--yes", "--no-progress", "firefox", "gimp"])
    );
    assert_eq!(
        install_args(&pkgs, Some(false)).unwrap(),
        strings(&["install", "--no-progress", "firefox", "gimp"])
    );
    assert_eq!(install_args(&vec![], None), Err("packages is empty".to_string()));
}

#[test]
fn remove_arguments() {
    let pkgs = strings(&["gimp"]);
    assert_eq!(
        remove_args(&pkgs, None, None).unwrap(),
        strings(&["remove", "--yes", "--remove_config", "--no-progress", "gimp"])
    );
    assert_eq!(
        remove_args(&pkgs, Some(false), Some(false)).unwrap(),
        strings(&["remove", "--no-progress", "gimp"])
    );
    assert_eq!(remove_args(&vec![], None, None), Err("packages is empty".to_string()));
}

#[test]
fn query_arguments() {
    assert_eq!(query_args(UnitQuery::Status, "u1"), strings(&["status", "u1"]));
    assert_eq!(query_args(UnitQuery::Logs, "u1"), strings(&["logs", "u1"]));
    assert_eq!(query_args(UnitQuery::Result, "u1"), strings(&["result", "u1"]));
    assert_eq!(query_args(UnitQuery::Cancel, "u1"), strings(&["cancel", "u1"]));
    assert_eq!(list_units_args(), strings(&["list"]));
}

#[test]
fn busy_error_message() {
    assert_eq!(OmaBusyError::new(Some("job")).message(), "oma is busy  (unit=job)");
    assert_eq!(OmaBusyError::new(None).message(), "oma is busy ");
}

#[test]
fn second_run_is_refused_while_first_is_in_flight() {
    let mut state = BusyState::new();
    assert!(!is_busy(&state));
    assert!(state.try_acquire(Some("a")).is_ok());
    assert!(is_busy(&state));
    let refused = state.try_acquire(Some("b")).unwrap_err();
    assert_eq!(refused.message(), "oma is busy  (unit=b)");
    assert!(is_busy(&state));
    state.release();
    assert!(!is_busy(&state));
    assert!(state.try_acquire(None).is_ok());
    assert!(is_busy(&state));
}

#[test]
fn successful_command_gives_stdout() {
    assert_eq!(command_outcome(true, Some(0), b"unit=x\n", b"warn").unwrap(), "unit=x\n");
    assert_eq!(command_outcome(true, Some(0), &[0x61, 0xff], b"").unwrap(), "a\u{FFFD}");
}

#[test]
fn failed_command_keeps_both_outputs() {
    let f = command_outcome(false, Some(2), b"out", b"err").unwrap_err();
    assert_eq!(f.code, Some(2));
    assert_eq!(f.stdout, "out");
    assert_eq!(f.stderr, "err");
}
