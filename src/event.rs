//! Records produced by the kernel instrumentation.
use vstd::prelude::*;

verus! {

/// Size of the fixed path buffer of a file event, terminating NUL included.
pub const PATH_MAX: usize = 256;

/// Whether a record reports an opening or a closing (of a file or a process).
#[derive(Clone, Copy, Debug, PartialEq, Eq, Structural)]
pub enum EventKind {
    Open,
    Close,
}

/// A file event as the instrumentation records it: `fd` is the descriptor, or
/// a negated errno for a failed open; `path` is NUL padded.
#[derive(Clone, Copy, Debug)]
pub struct FileEvent {
    pub pid: u64,
    pub kind: EventKind,
    pub fd: i64,
    pub path: [u8; PATH_MAX],
}

/// A process started (`Open`) or exited (`Close`).
#[derive(Clone, Copy, Debug, PartialEq, Eq, Structural)]
pub struct ProcessEvent {
    pub pid: u64,
    pub kind: EventKind,
}

/// True when every byte of `b` is zero.
pub open spec fn all_zero(b: Seq<u8>) -> bool {
    forall|i: int| 0 <= i < b.len() ==> b[i] == 0
}

/// Size of the binary record of a file event: pid, kind and descriptor as
/// eight little-endian bytes each, then the path buffer.
pub const RECORD_LEN: usize = 280;

/// The unsigned integer in the eight little-endian bytes of `b` at `at`.
pub open spec fn le_u64(b: Seq<u8>, at: int) -> int {
    b[at] + 0x100 * b[at + 1] + 0x10000 * b[at + 2] + 0x1000000 * b[at + 3] + 0x100000000 * b[at + 4]
        + 0x10000000000 * b[at + 5] + 0x1000000000000 * b[at + 6] + 0x100000000000000 * b[at + 7]
}

/// The event kind that a record encodes as `v`.
pub open spec fn kind_of_code(v: int) -> Option<EventKind> {
    if v == 0 {
        Some(EventKind::Open)
    } else if v == 1 {
        Some(EventKind::Close)
    } else {
        None
    }
}

/// Reads eight little-endian bytes at `at`.
fn read_u64_le(b: &[u8], at: usize) -> (r: u64)
    requires
        at + 8 <= b@.len(),
    ensures
        r as int == le_u64(b@, at as int),
{
    (b[at] as u64) + 0x100 * (b[at + 1] as u64) + 0x10000 * (b[at + 2] as u64) + 0x1000000 * (b[at
        + 3] as u64) + 0x100000000 * (b[at + 4] as u64) + 0x10000000000 * (b[at + 5] as u64)
        + 0x1000000000000 * (b[at + 6] as u64) + 0x100000000000000 * (b[at + 7] as u64)
}

impl FileEvent {
    /// The event in a binary record as the instrumentation emits it. The
    /// length is checked before anything is read: a short buffer, or a kind
    /// code that is neither open (0) nor close (1), gives `None`.
    pub fn from_bytes(b: &[u8]) -> (r: Option<FileEvent>)
        ensures
            r is Some <==> b@.len() >= RECORD_LEN && kind_of_code(le_u64(b@, 8)) is Some,
            r is Some ==> {
                let ev = r->Some_0;
                &&& ev.pid as int == le_u64(b@, 0)
                &&& Some(ev.kind) == kind_of_code(le_u64(b@, 8))
                &&& ev.fd == (le_u64(b@, 16) as u64) as i64
                &&& ev.path@ == b@.subrange(24, RECORD_LEN as int)
            },
    {
        if b.len() < RECORD_LEN {
            return None;
        }
        let pid = read_u64_le(b, 0);
        let code = read_u64_le(b, 8);
        let kind = if code == 0 {
            EventKind::Open
        } else if code == 1 {
            EventKind::Close
        } else {
            return None;
        };
        let fd = read_u64_le(b, 16);
        let mut ev = FileEvent::for_pid(pid);
        ev.kind = kind;
        ev.fd = fd as i64;
        let mut i: usize = 0;
        while i < PATH_MAX
            invariant
                b@.len() >= RECORD_LEN,
                ev.pid as int == le_u64(b@, 0),
                Some(ev.kind) == kind_of_code(le_u64(b@, 8)),
                ev.fd == (le_u64(b@, 16) as u64) as i64,
                ev.path@.len() == PATH_MAX,
                forall|j: int| 0 <= j < i ==> ev.path@[j] == b@[24 + j],
            decreases PATH_MAX - i,
        {
            ev.path[i] = b[24 + i];
            i = i + 1;
        }
        assert(ev.path@ =~= b@.subrange(24, RECORD_LEN as int));
        Some(ev)
    }

    /// A close event for `pid` with descriptor 0 and an empty path.
    pub fn for_pid(pid: u64) -> (r: FileEvent)
        ensures
            r.pid == pid,
            r.kind == EventKind::Close,
            r.fd == 0,
            r.path@.len() == PATH_MAX,
            all_zero(r.path@),
    {
        FileEvent { pid, fd: 0, kind: EventKind::Close, path: [0u8; PATH_MAX] }
    }
}

/// The fields that every tracepoint record starts with.
#[derive(Clone, Copy, Debug)]
pub struct TracepointCommonArgs {
    pub ctype: u16,
    pub flags: u8,
    pub preempt_count: u8,
    pub pid: i32,
}

/// The record of the `sys_enter_close` tracepoint.
#[derive(Clone, Copy, Debug)]
pub struct SysEnterCloseArgs {
    pub common: TracepointCommonArgs,
    pub sys_nr: i32,
    pub pad: u32,
    pub fd: u64,
}

} // verus!
