//! The decisions that the kernel-side instrumentation makes on each hooked
//! event, over the traced-pid registry.
use vstd::prelude::*;
use crate::event::{all_zero, EventKind, FileEvent, ProcessEvent, SysEnterCloseArgs, PATH_MAX};
use crate::registry::{RegistryModel, TracedSet, MAX_CHILDREN};

verus! {

/// Number of bytes of `s` before its first zero byte (all of them if none).
pub open spec fn c_str_len(s: Seq<u8>) -> nat
    decreases s.len(),
{
    if s.len() == 0 || s[0] == 0 {
        0
    } else {
        1 + c_str_len(s.drop_first())
    }
}

pub proof fn lemma_c_str_len(s: Seq<u8>)
    ensures
        c_str_len(s) <= s.len(),
        forall|j: int| 0 <= j < c_str_len(s) ==> s[j] != 0,
        c_str_len(s) < s.len() ==> s[c_str_len(s) as int] == 0,
    decreases s.len(),
{
    if s.len() > 0 && s[0] != 0 {
        let t = s.drop_first();
        lemma_c_str_len(t);
        assert forall|j: int| 0 <= j < c_str_len(s) implies s[j] != 0 by {
            if j > 0 {
                assert(s[j] == t[j - 1]);
            }
        }
        if c_str_len(s) < s.len() {
            assert(s[c_str_len(s) as int] == t[c_str_len(t) as int]);
        }
    }
}

/// Length of the path that the instrumentation keeps of the user string `s`:
/// up to its NUL, and at most `PATH_MAX - 1` bytes, so that a NUL follows.
pub open spec fn kept_path_len(s: Seq<u8>) -> nat {
    if c_str_len(s) < PATH_MAX - 1 {
        c_str_len(s)
    } else {
        (PATH_MAX - 1) as nat
    }
}

/// The path buffer of an open event for the user string `s`: the kept bytes,
/// then zeros.
pub open spec fn path_buffer(s: Seq<u8>) -> Seq<u8> {
    Seq::new(PATH_MAX as nat, |i: int| if i < kept_path_len(s) { s[i] } else { 0u8 })
}

/// The tracepoint category that an instrumentation point belongs to.
#[derive(Clone, Copy, Debug, PartialEq, Eq, Structural)]
pub enum TracepointCategory {
    Sched,
    Syscalls,
}

impl TracepointCategory {
    /// The category's name, as the kernel's tracing interface spells it.
    pub fn name(&self) -> (r: &'static str)
        ensures
            r@ == match self {
                TracepointCategory::Sched => "sched"@,
                TracepointCategory::Syscalls => "syscalls"@,
            },
    {
        match self {
            TracepointCategory::Sched => "sched",
            TracepointCategory::Syscalls => "syscalls",
        }
    }
}

/// `s` starts with `p`.
pub open spec fn has_prefix(s: Seq<u8>, p: Seq<u8>) -> bool {
    p.len() <= s.len() && s.subrange(0, p.len() as int) == p
}

/// The bytes of `sched_`.
pub open spec fn sched_prefix() -> Seq<u8> {
    seq![115u8, 99, 104, 101, 100, 95]
}

/// The bytes of `sys_`.
pub open spec fn sys_prefix() -> Seq<u8> {
    seq![115u8, 121, 115, 95]
}

fn starts_with(s: &[u8], p: &[u8]) -> (r: bool)
    ensures
        r == has_prefix(s@, p@),
{
    if p.len() > s.len() {
        return false;
    }
    let mut i: usize = 0;
    while i < p.len()
        invariant
            p@.len() <= s@.len(),
            i <= p@.len(),
            forall|j: int| 0 <= j < i ==> s@[j] == p@[j],
        decreases p@.len() - i,
    {
        if s[i] != p[i] {
            assert(s@.subrange(0, p@.len() as int)[i as int] != p@[i as int]);
            return false;
        }
        i = i + 1;
    }
    assert(s@.subrange(0, p@.len() as int) =~= p@);
    true
}

/// The category of the tracepoint named `name`: `sched_` names are
/// scheduler events, `sys_` names are syscall events; others have none.
pub fn tracepoint_category(name: &[u8]) -> (r: Option<TracepointCategory>)
    ensures
        r == if has_prefix(name@, sched_prefix()) {
            Some(TracepointCategory::Sched)
        } else if has_prefix(name@, sys_prefix()) {
            Some(TracepointCategory::Syscalls)
        } else {
            None
        },
{
    let sched: [u8; 6] = [115, 99, 104, 101, 100, 95];
    let sys: [u8; 4] = [115, 121, 115, 95];
    assert(sched@ =~= sched_prefix());
    assert(sys@ =~= sys_prefix());
    if starts_with(name, sched.as_slice()) {
        Some(TracepointCategory::Sched)
    } else if starts_with(name, sys.as_slice()) {
        Some(TracepointCategory::Syscalls)
    } else {
        None
    }
}

/// The kernel instrumentation: the registry that decides which pids are traced,
/// and the hooks that consult it.
pub struct Instrumentation {
    pub traced: TracedSet,
}

impl Instrumentation {
    /// Instrumentation with an empty registry of `MAX_CHILDREN` child slots.
    pub fn new() -> (r: Instrumentation)
        ensures
            r.traced@ == RegistryModel::empty(MAX_CHILDREN as nat),
    {
        Instrumentation { traced: TracedSet::new(MAX_CHILDREN) }
    }

    /// Whether events of `pid` are traced.
    pub fn should_trace(&self, pid: u64) -> (r: bool)
        ensures
            r == self.traced@.is_traced(pid),
    {
        self.traced.is_traced(pid)
    }

    /// Return of a process-creating call made by `pid`, which returned `ret`
    /// (the new pid, or a negative errno). A traced parent's new child becomes
    /// traced, and a process-start event for the parent is emitted.
    pub fn kernel_clone(&mut self, pid: u64, ret: i64) -> (r: Option<ProcessEvent>)
        ensures
            old(self).traced@.is_traced(pid) && ret > 0 ==> {
                &&& final(self).traced@ == old(self).traced@.add_child(ret as u64)
                &&& r == Some(ProcessEvent { pid, kind: EventKind::Open })
            },
            !(old(self).traced@.is_traced(pid) && ret > 0) ==> {
                &&& final(self).traced@ == old(self).traced@
                &&& r is None
            },
    {
        if ret > 0 && self.should_trace(pid) {
            self.traced.add_child(ret as u64);
            Some(ProcessEvent { pid, kind: EventKind::Open })
        } else {
            None
        }
    }

    /// Stops tracing `pid` if it is traced; returns whether it was.
    pub fn maybe_remove_trace(&mut self, pid: u64) -> (r: bool)
        ensures
            final(self).traced@ == old(self).traced@.remove(pid),
            r == old(self).traced@.is_traced(pid),
    {
        self.traced.remove(pid)
    }

    /// Exit of process `pid`: a traced process stops being traced, and a
    /// process-exit event is emitted for it.
    pub fn sched_process_exit(&mut self, pid: u64) -> (r: Option<ProcessEvent>)
        ensures
            final(self).traced@ == old(self).traced@.remove(pid),
            r == if old(self).traced@.is_traced(pid) {
                Some(ProcessEvent { pid, kind: EventKind::Close })
            } else {
                None
            },
    {
        if self.maybe_remove_trace(pid) {
            Some(ProcessEvent { pid, kind: EventKind::Close })
        } else {
            None
        }
    }

    /// Return of an open call made by `pid`, which returned `ret` (the new
    /// descriptor, or a negative errno), for the path `user_path` (`None`
    /// when user memory could not be read). A traced call whose path was read
    /// yields an open event; the path is silently cut to fit the buffer.
    pub fn do_sys_openat2(&self, pid: u64, ret: i64, user_path: Option<&[u8]>) -> (r: Option<FileEvent>)
        ensures
            self.traced@.is_traced(pid) && user_path is Some <==> r is Some,
            r is Some ==> {
                let ev = r->Some_0;
                &&& ev.pid == pid
                &&& ev.kind == EventKind::Open
                &&& ev.fd == ret
                &&& ev.path@ == path_buffer(user_path->Some_0@)
            },
    {
        if !self.should_trace(pid) {
            return None;
        }
        let s = match user_path {
            Some(s) => s,
            None => {
                return None;
            },
        };
        let mut event = FileEvent::for_pid(pid);
        event.fd = ret;
        event.kind = EventKind::Open;
        proof {
            lemma_c_str_len(s@);
        }
        let mut i: usize = 0;
        while i < s.len() && i < PATH_MAX - 1 && s[i] != 0
            invariant
                i <= s@.len(),
                i <= PATH_MAX - 1,
                i <= c_str_len(s@),
                c_str_len(s@) <= s@.len(),
                forall|j: int| 0 <= j < c_str_len(s@) ==> s@[j] != 0,
                c_str_len(s@) < s@.len() ==> s@[c_str_len(s@) as int] == 0,
                event.pid == pid,
                event.kind == EventKind::Open,
                event.fd == ret,
                event.path@.len() == PATH_MAX,
                forall|j: int| 0 <= j < i ==> event.path@[j] == s@[j],
                forall|j: int| i <= j < PATH_MAX ==> event.path@[j] == 0,
            decreases s@.len() - i,
        {
            event.path[i] = s[i];
            i = i + 1;
        }
        assert(i == kept_path_len(s@));
        assert(event.path@ =~= path_buffer(s@));
        Some(event)
    }

    /// Entry of a close call by `pid`: a traced call yields a close event with
    /// the descriptor from the tracepoint's arguments and an empty path.
    pub fn sys_enter_close(&self, pid: u64, args: &SysEnterCloseArgs) -> (r: Option<FileEvent>)
        ensures
            self.traced@.is_traced(pid) <==> r is Some,
            r is Some ==> {
                let ev = r->Some_0;
                &&& ev.pid == pid
                &&& ev.kind == EventKind::Close
                &&& ev.fd == args.fd as i64
                &&& ev.path@.len() == PATH_MAX
                &&& all_zero(ev.path@)
            },
    {
        if !self.should_trace(pid) {
            return None;
        }
        let mut event = FileEvent::for_pid(pid);
        event.fd = args.fd as i64;
        Some(event)
    }
}

} // verus!
