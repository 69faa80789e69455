use lupa::event::{EventKind, FileEvent, RECORD_LEN};
use lupa::wire::{EventKindSerDe, FileEventSerDe, FileProbeIPC};

#[test]
fn wire_form_round_trips_bytes() {
    let mut ev = FileEvent::for_pid(12);
    ev.kind = EventKind::Open;
    ev.fd = -13;
    ev.path[..4].copy_from_slice(b"/a\0b");
    ev.path[255] = 0x7f;
    let w = FileEventSerDe::from(ev);
    assert_eq!(w.pid, 12);
    let back = FileEvent::from(w);
    assert_eq!(back.pid, 12);
    assert_eq!(back.kind, EventKind::Open);
    assert_eq!(back.fd, -13);
    assert_eq!(back.path, ev.path);
    let ipc = FileProbeIPC(back);
    assert_eq!(ipc.0.path, ev.path);
    assert_eq!(EventKind::from(EventKindSerDe::from(EventKind::Close)), EventKind::Close);
    assert_eq!(EventKindSerDe::from(EventKind::Open), EventKindSerDe::Open);
}

fn raw(pid: u64, kind: u64, fd: i64, path: &[u8]) -> Vec<u8> {
    let mut b = Vec::new();
    b.extend_from_slice(&pid.to_le_bytes());
    b.extend_from_slice(&kind.to_le_bytes());
    b.extend_from_slice(&fd.to_le_bytes());
    let mut p = [0u8; 256];
    p[..path.len()].copy_from_slice(path);
    b.extend_from_slice(&p);
    b
}

#[test]
fn binary_record_is_read_after_length_check() {
    let b = raw(0x0102030405060708, 0, -2, b"/x");
    assert_eq!(b.len(), RECORD_LEN);
    let ev = FileEvent::from_bytes(&b).unwrap();
    assert_eq!(ev.pid, 0x0102030405060708);
    assert_eq!(ev.kind, EventKind::Open);
    assert_eq!(ev.fd, -2);
    assert_eq!(&ev.path[..3], b"/x\0");
    let close = FileEvent::from_bytes(&raw(9, 1, 4, b"")).unwrap();
    assert_eq!(close.kind, EventKind::Close);
    assert_eq!(close.fd, 4);
    assert!(FileEvent::from_bytes(&b[..RECORD_LEN - 1]).is_none());
    assert!(FileEvent::from_bytes(&[]).is_none());
    assert!(FileEvent::from_bytes(&raw(9, 2, 4, b"")).is_none());
    let mut longer = raw(9, 1, 4, b"");
    longer.extend_from_slice(&[0, 0, 0, 0]);
    assert!(FileEvent::from_bytes(&longer).is_some());
}
