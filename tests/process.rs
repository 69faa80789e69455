use lupa::event::{EventKind, FileEvent};
use lupa::process::{ExitOutcome, Lupa, Process, ProcessState, ProcessStateDetail};
use lupa::table::{Applied, OpenFileTable};

fn record(pid: u64, kind: EventKind, fd: i64, path: &[u8]) -> FileEvent {
    let mut ev = FileEvent::for_pid(pid);
    ev.kind = kind;
    ev.fd = fd;
    ev.path[..path.len()].copy_from_slice(path);
    ev
}

#[test]
fn lifecycle_goes_forward_only() {
    let mut p = Process::new(vec!["/bin/true".to_string(), "-x".to_string()]);
    assert_eq!(p.get_state(), ProcessState::NotStarted);
    assert_eq!(p.launch_command(), &vec!["/bin/true".to_string(), "-x".to_string()]);
    assert_eq!(p.child_pid(), None);
    assert!(!p.record_poll(Some(ExitOutcome { code: Some(0) })));
    assert_eq!(p.get_state(), ProcessState::NotStarted);
    p.mark_running(4321);
    assert_eq!(p.get_state(), ProcessState::Running);
    assert_eq!(p.child_pid(), Some(4321));
    assert!(!p.record_poll(None));
    assert_eq!(p.get_state(), ProcessState::Running);
    assert!(p.record_poll(Some(ExitOutcome { code: Some(3) })));
    assert_eq!(p.get_state(), ProcessState::Ended);
    assert!(p.record_poll(Some(ExitOutcome { code: Some(0) })));
    assert_eq!(p.get_state(), ProcessState::Ended);
}

#[test]
fn state_of_detail() {
    let d = ProcessStateDetail::Running { command: vec![], child_pid: 1 };
    assert_eq!(ProcessState::from(&d), ProcessState::Running);
    let e = ProcessStateDetail::Ended(ExitOutcome { code: None });
    assert_eq!(ProcessState::from(&e), ProcessState::Ended);
    assert_eq!(ProcessState::from(&ProcessStateDetail::NotStarted(vec![])), ProcessState::NotStarted);
}

#[test]
fn exit_outcome_success() {
    assert!(ExitOutcome { code: Some(0) }.success());
    assert!(!ExitOutcome { code: Some(1) }.success());
    assert!(!ExitOutcome { code: None }.success());
}

#[test]
fn handle_event_filters_own_and_foreign_pids() {
    let mut files = OpenFileTable::new();
    let own = 10;
    let child = 20;
    assert!(Process::handle_event(own, child, &mut files, &record(own, EventKind::Open, 3, b"/self")).is_none());
    assert!(Process::handle_event(own, child, &mut files, &record(30, EventKind::Open, 3, b"/other")).is_none());
    assert_eq!(files.len(), 0);
    let r = Process::handle_event(own, child, &mut files, &record(child, EventKind::Open, 3, b"/mine"));
    assert!(matches!(r, Some(Applied::Inserted)));
    let r = Process::handle_event(own, child, &mut files, &record(child, EventKind::Open, -13, b"/denied"));
    assert!(matches!(r, Some(Applied::OpenFailed)));
    assert_eq!(files.len(), 1);
    assert_eq!(files.get(3).map(|f| f.path), Some("/mine".to_string()));
    let r = Process::handle_event(own, child, &mut files, &record(child, EventKind::Close, 3, b""));
    assert!(matches!(r, Some(Applied::Removed(_))));
    assert_eq!(files.len(), 0);
}

#[test]
fn handle_event_through_process_files() {
    let mut p = Process::new(vec!["/bin/cat".to_string()]);
    p.mark_running(55);
    let child = p.child_pid().unwrap();
    Process::handle_event(1, child, &mut p.files, &record(55, EventKind::Open, 6, b"/etc/hosts"));
    assert_eq!(p.files.get(6).map(|f| f.path), Some("/etc/hosts".to_string()));
}

#[test]
fn lupa_supervises_code() {
    let l = Lupa::new();
    assert_eq!(l.process.get_state(), ProcessState::NotStarted);
    assert_eq!(l.process.launch_command(), &vec!["/usr/bin/code".to_string()]);
    assert_eq!(l.process.files.len(), 0);
}

#[test]
fn apply_record_uses_the_running_child() {
    let mut p = Process::new(vec!["/bin/cat".to_string()]);
    assert!(p.apply_record(1, &record(55, EventKind::Open, 6, b"/early")).is_none());
    p.mark_running(55);
    assert!(matches!(p.apply_record(1, &record(55, EventKind::Open, 6, b"/etc/hosts")), Some(Applied::Inserted)));
    assert!(p.apply_record(1, &record(56, EventKind::Open, 7, b"/other")).is_none());
    assert!(p.apply_record(55, &record(55, EventKind::Open, 8, b"/self")).is_none());
    assert_eq!(p.files.len(), 1);
    assert!(matches!(p.apply_record(1, &record(55, EventKind::Close, 6, b"")), Some(Applied::Removed(_))));
    assert_eq!(p.files.len(), 0);
    p.record_poll(Some(ExitOutcome { code: Some(0) }));
    assert!(p.apply_record(1, &record(55, EventKind::Open, 6, b"/late")).is_none());
    assert_eq!(p.files.len(), 0);
}

#[test]
fn transport_failure_is_kept() {
    let mut p = Process::new(vec!["/bin/cat".to_string()]);
    assert!(p.failure().is_none());
    p.mark_running(9);
    p.record_failure("probe died".to_string());
    assert_eq!(p.failure(), Some(&"probe died".to_string()));
    assert_eq!(p.get_state(), ProcessState::Running);
}
