//! The wire form of file events, which the producer subprocess writes one per
//! line and the consumer reads back.
use vstd::prelude::*;
use crate::event::{EventKind, FileEvent, PATH_MAX};

verus! {

/// The wire form of an event kind.
#[derive(Clone, Copy, Debug, PartialEq, Eq, Structural)]
pub enum EventKindSerDe {
    Open,
    Close,
}

/// The wire form of a file event: the same fields, the whole path buffer
/// included, so that the record comes back byte for byte.
#[derive(Clone, Copy, Debug)]
pub struct FileEventSerDe {
    pub pid: u64,
    pub kind: EventKind,
    pub fd: i64,
    pub path: [u8; PATH_MAX],
}

/// One line of the producer's output: a file event in wire form.
#[derive(Clone, Copy, Debug)]
pub struct FileProbeIPC(pub FileEvent);

pub open spec fn kind_to_wire(k: EventKind) -> EventKindSerDe {
    match k {
        EventKind::Open => EventKindSerDe::Open,
        EventKind::Close => EventKindSerDe::Close,
    }
}

pub open spec fn kind_from_wire(k: EventKindSerDe) -> EventKind {
    match k {
        EventKindSerDe::Open => EventKind::Open,
        EventKindSerDe::Close => EventKind::Close,
    }
}

pub open spec fn event_to_wire(e: FileEvent) -> FileEventSerDe {
    FileEventSerDe { pid: e.pid, kind: e.kind, fd: e.fd, path: e.path }
}

pub open spec fn event_from_wire(w: FileEventSerDe) -> FileEvent {
    FileEvent { pid: w.pid, kind: w.kind, fd: w.fd, path: w.path }
}

impl From<EventKind> for EventKindSerDe {
    fn from(k: EventKind) -> (r: EventKindSerDe) {
        match k {
            EventKind::Open => EventKindSerDe::Open,
            EventKind::Close => EventKindSerDe::Close,
        }
    }
}

impl vstd::std_specs::convert::FromSpecImpl<EventKind> for EventKindSerDe {
    open spec fn obeys_from_spec() -> bool {
        true
    }

    open spec fn from_spec(k: EventKind) -> EventKindSerDe {
        kind_to_wire(k)
    }
}

impl From<EventKindSerDe> for EventKind {
    fn from(k: EventKindSerDe) -> (r: EventKind) {
        match k {
            EventKindSerDe::Open => EventKind::Open,
            EventKindSerDe::Close => EventKind::Close,
        }
    }
}

impl vstd::std_specs::convert::FromSpecImpl<EventKindSerDe> for EventKind {
    open spec fn obeys_from_spec() -> bool {
        true
    }

    open spec fn from_spec(k: EventKindSerDe) -> EventKind {
        kind_from_wire(k)
    }
}

impl From<FileEventSerDe> for FileEvent {
    fn from(event: FileEventSerDe) -> (r: FileEvent) {
        FileEvent { pid: event.pid, kind: event.kind, fd: event.fd, path: event.path }
    }
}

impl vstd::std_specs::convert::FromSpecImpl<FileEventSerDe> for FileEvent {
    open spec fn obeys_from_spec() -> bool {
        true
    }

    open spec fn from_spec(w: FileEventSerDe) -> FileEvent {
        event_from_wire(w)
    }
}

impl From<FileEvent> for FileEventSerDe {
    fn from(event: FileEvent) -> (r: FileEventSerDe) {
        FileEventSerDe { pid: event.pid, kind: event.kind, fd: event.fd, path: event.path }
    }
}

impl vstd::std_specs::convert::FromSpecImpl<FileEvent> for FileEventSerDe {
    open spec fn obeys_from_spec() -> bool {
        true
    }

    open spec fn from_spec(e: FileEvent) -> FileEventSerDe {
        event_to_wire(e)
    }
}

/// Taking an event to its wire form and back gives the same pid, kind,
/// descriptor and path bytes, NUL padding included; and the same holds of a
/// kind alone.
pub proof fn lemma_wire_round_trip(e: FileEvent, k: EventKind)
    ensures
        event_from_wire(event_to_wire(e)) == e,
        event_from_wire(event_to_wire(e)).path@ == e.path@,
        kind_from_wire(kind_to_wire(k)) == k,
{
}

} // verus!
