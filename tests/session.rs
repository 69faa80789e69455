use lupa::session::TraceSession;
use lupa::tracer::Event;

#[test]
fn session_keeps_a_table_per_pid() {
    let mut s = TraceSession::new();
    assert!(s.record(Event::FileOpen { pid: 1, fd: 3, path: "/a".to_string() }).is_ok());
    assert!(s.record(Event::FileOpen { pid: 2, fd: 3, path: "/b".to_string() }).is_ok());
    assert!(s.record(Event::FileOpenFail { pid: 2, errno: 2, path: "/c".to_string() }).is_ok());
    assert!(s.record(Event::FileClose { pid: 1, fd: 3 }).is_ok());
    assert!(s.record(Event::FileClose { pid: 9, fd: 1 }).is_ok());
    assert_eq!(s.history_len(), 5);
    assert_eq!(s.table(1).map(|t| t.len()), Some(0));
    assert_eq!(s.table(2).and_then(|t| t.get(3)).map(|f| f.path), Some("/b".to_string()));
    assert!(s.table(9).is_none());
}

#[test]
fn session_stops_on_failure() {
    let mut s = TraceSession::new();
    s.record(Event::FileOpen { pid: 1, fd: 3, path: "/a".to_string() }).unwrap();
    let r = s.record(Event::ProcessFailed { error: "probe died".to_string() });
    assert_eq!(r, Err("probe died".to_string()));
    assert_eq!(s.history_len(), 1);
    assert_eq!(s.table(1).map(|t| t.len()), Some(1));
}
