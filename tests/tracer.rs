use lupa::event::{EventKind, FileEvent, PATH_MAX};
use lupa::tracer::{Event, ProbeAction, ProbeInput, ProbeReader, Received, Tracer};

fn record(pid: u64, kind: EventKind, fd: i64, path: &[u8]) -> FileEvent {
    let mut ev = FileEvent::for_pid(pid);
    ev.kind = kind;
    ev.fd = fd;
    ev.path[..path.len()].copy_from_slice(path);
    ev
}

#[test]
fn record_becomes_domain_event() {
    match Event::from_raw(&record(7, EventKind::Open, 3, b"/tmp/a")) {
        Event::FileOpen { pid, fd, path } => {
            assert_eq!((pid, fd), (7, 3));
            assert_eq!(path, "/tmp/a");
        }
        other => panic!("unexpected {:?}", other),
    }
    match Event::from_raw(&record(7, EventKind::Open, -2, b"/nope")) {
        Event::FileOpenFail { pid, errno, path } => {
            assert_eq!((pid, errno), (7, 2));
            assert_eq!(path, "/nope");
        }
        other => panic!("unexpected {:?}", other),
    }
    match Event::from_raw(&record(7, EventKind::Close, 3, b"")) {
        Event::FileClose { pid, fd } => assert_eq!((pid, fd), (7, 3)),
        other => panic!("unexpected {:?}", other),
    }
}

#[test]
fn path_keeps_inner_nul_and_drops_padding() {
    match Event::from_raw(&record(1, EventKind::Open, 0, b"a\0b")) {
        Event::FileOpen { fd, path, .. } => {
            assert_eq!(fd, 0);
            assert_eq!(path, "a\0b");
        }
        other => panic!("unexpected {:?}", other),
    }
    let full = [b'x'; PATH_MAX];
    match Event::from_raw(&record(1, EventKind::Open, 4, &full)) {
        Event::FileOpen { path, .. } => assert_eq!(path.len(), PATH_MAX),
        other => panic!("unexpected {:?}", other),
    }
}

#[test]
fn invalid_utf8_path_is_a_transport_failure() {
    match Event::from_raw(&record(1, EventKind::Open, 3, &[0x66, 0xff, 0x6f])) {
        Event::ProcessFailed { error } => {
            assert_eq!(error, "record of pid 1, fd 3: path is not valid UTF-8")
        }
        other => panic!("unexpected {:?}", other),
    }
}

#[test]
fn tracer_yields_events_until_closed() {
    let mut t = Tracer::new(9);
    assert_eq!(t.pid(), 9);
    let e = t.next(Received::Record(record(9, EventKind::Open, 5, b"/x")));
    assert!(matches!(e, Some(Event::FileOpen { fd: 5, .. })));
    assert!(!t.finished());
    assert!(t.next(Received::Closed).is_none());
    assert!(t.finished());
    assert!(t.next(Received::Record(record(9, EventKind::Close, 5, b""))).is_none());
}

#[test]
fn tracer_ends_after_invalid_path() {
    let mut t = Tracer::new(9);
    let e = t.next(Received::Record(record(9, EventKind::Open, 5, &[0xc3])));
    assert!(matches!(e, Some(Event::ProcessFailed { .. })));
    assert!(t.finished());
    assert!(t.next(Received::Record(record(9, EventKind::Open, 6, b"/ok"))).is_none());
}

#[test]
fn undecodable_line_ends_the_trace() {
    let mut reader = ProbeReader::new();
    let ok = reader.step(ProbeInput::Line {
        text: "first".to_string(),
        decoded: Ok(record(3, EventKind::Open, 4, b"/a")),
    });
    assert!(matches!(ok, ProbeAction::Forward(_)));
    let bad = reader.step(ProbeInput::Line {
        text: "{not json".to_string(),
        decoded: Err("expected value".to_string()),
    });
    let message = match bad {
        ProbeAction::Fail(m) => m,
        other => panic!("unexpected {:?}", other),
    };
    assert_eq!(message, "cannot decode file event (expected value): {not json");
    assert!(reader.stopped());
    let later = reader.step(ProbeInput::Line {
        text: "second".to_string(),
        decoded: Ok(record(3, EventKind::Close, 4, b"")),
    });
    assert!(matches!(later, ProbeAction::Stop));

    let mut t = Tracer::new(3);
    let e = t.next(Received::Failure(message.clone()));
    match e {
        Some(Event::ProcessFailed { error }) => assert_eq!(error, message),
        other => panic!("unexpected {:?}", other),
    }
    assert!(t.next(Received::Record(record(3, EventKind::Close, 4, b""))).is_none());
    assert!(t.next(Received::Closed).is_none());
}

#[test]
fn empty_lines_are_skipped() {
    let mut reader = ProbeReader::new();
    let a = reader.step(ProbeInput::Line { text: String::new(), decoded: Err("EOF".to_string()) });
    assert!(matches!(a, ProbeAction::Skip));
    assert!(!reader.stopped());
}

#[test]
fn failed_producer_reports_trimmed_diagnostics() {
    let mut reader = ProbeReader::new();
    let a = reader.step(ProbeInput::Exited {
        success: false,
        diagnostics: "  lupa-probe must be run as root.\n".to_string(),
    });
    match a {
        ProbeAction::Fail(m) => assert_eq!(m, "lupa-probe must be run as root."),
        other => panic!("unexpected {:?}", other),
    }
    assert!(reader.stopped());
}

#[test]
fn clean_producer_exit_stops() {
    let mut reader = ProbeReader::new();
    let a = reader.step(ProbeInput::Exited { success: true, diagnostics: "bye".to_string() });
    assert!(matches!(a, ProbeAction::Stop));
    assert!(reader.stopped());
}

#[test]
fn failed_open_carries_positive_errno() {
    match Event::from_raw(&record(12, EventKind::Open, -13, b"/root/secret")) {
        Event::FileOpenFail { pid, errno, path } => {
            assert_eq!((pid, errno), (12, 13));
            assert_eq!(path, "/root/secret");
        }
        other => panic!("unexpected {:?}", other),
    }
    match Event::from_raw(&record(12, EventKind::Open, i64::MAX, b"/big")) {
        Event::FileOpen { fd, .. } => assert_eq!(fd, i64::MAX as u64),
        other => panic!("unexpected {:?}", other),
    }
}

#[test]
fn most_negative_descriptor_is_a_transport_failure() {
    match Event::from_raw(&record(4, EventKind::Open, i64::MIN, b"/x")) {
        Event::ProcessFailed { error } => {
            assert_eq!(error, "record of pid 4, fd -9223372036854775808: no errno is that large")
        }
        other => panic!("unexpected {:?}", other),
    }
}

#[test]
fn invalid_path_error_names_the_record() {
    match Event::from_raw(&record(18446744073709551615, EventKind::Close, -1, &[0xe2, 0x82])) {
        Event::ProcessFailed { error } => assert_eq!(
            error,
            "record of pid 18446744073709551615, fd -1: path is not valid UTF-8"
        ),
        other => panic!("unexpected {:?}", other),
    }
    match Event::from_raw(&record(0, EventKind::Open, 10, &[0x80])) {
        Event::ProcessFailed { error } => {
            assert_eq!(error, "record of pid 0, fd 10: path is not valid UTF-8")
        }
        other => panic!("unexpected {:?}", other),
    }
}

#[test]
fn decode_failure_after_good_lines() {
    let mut reader = ProbeReader::new();
    let mut t = Tracer::new(3);
    let inputs = vec![
        ProbeInput::Line { text: "a".to_string(), decoded: Ok(record(3, EventKind::Open, 4, b"/a")) },
        ProbeInput::Line { text: "bad".to_string(), decoded: Err("eof".to_string()) },
        ProbeInput::Line { text: "b".to_string(), decoded: Ok(record(3, EventKind::Close, 4, b"")) },
    ];
    let mut yielded = Vec::new();
    for input in inputs {
        let received = match reader.step(input) {
            ProbeAction::Forward(ev) => Received::Record(ev),
            ProbeAction::Fail(m) => Received::Failure(m),
            ProbeAction::Skip => continue,
            ProbeAction::Stop => Received::Closed,
        };
        yielded.push(t.next(received));
    }
    assert!(matches!(yielded[0], Some(Event::FileOpen { fd: 4, .. })));
    match &yielded[1] {
        Some(Event::ProcessFailed { error }) => assert_eq!(error, "cannot decode file event (eof): bad"),
        other => panic!("unexpected {:?}", other),
    }
    assert!(yielded[2].is_none());
}

#[test]
fn unicode_white_space_is_trimmed() {
    let mut reader = ProbeReader::new();
    let a = reader.step(ProbeInput::Exited {
        success: false,
        diagnostics: "\u{3000}\u{a0}denied\t\u{2028}".to_string(),
    });
    match a {
        ProbeAction::Fail(m) => assert_eq!(m, "denied"),
        other => panic!("unexpected {:?}", other),
    }
}
