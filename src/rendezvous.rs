//! The startup rendezvous: the target waits under a suspension wrapper until
//! its pid is in the registry and the instrumentation is attached, and is then
//! released exactly once.
use vstd::prelude::*;
use crate::event::{all_zero, EventKind, FileEvent, PATH_MAX};
use crate::instrument::{path_buffer, Instrumentation};

verus! {

/// Where the startup handshake stands.
#[derive(Clone, Copy, Debug, PartialEq, Eq, Structural)]
pub enum Phase {
    /// The wrapper is launched and waits.
    Spawned,
    /// The wrapper's pid is the registry's root.
    RootWritten,
    /// Every instrumentation point is attached.
    Attached,
    /// The wrapper was signalled and runs the target.
    Released,
}

/// The handshake between the supervisor, the producer and the wrapper.
pub struct Rendezvous {
    root: u64,
    phase: Phase,
}

impl Rendezvous {
    pub closed spec fn spec_root(&self) -> u64 {
        self.root
    }

    pub closed spec fn spec_phase(&self) -> Phase {
        self.phase
    }

    /// The handshake for a wrapper launched as `root`.
    pub fn new(root: u64) -> (r: Rendezvous)
        ensures
            r.spec_root() == root,
            r.spec_phase() == Phase::Spawned,
    {
        Rendezvous { root, phase: Phase::Spawned }
    }

    pub fn phase(&self) -> (r: Phase)
        ensures
            r == self.spec_phase(),
    {
        self.phase
    }

    /// Writes the wrapper's pid as the root of `probes`' registry; only once,
    /// first.
    pub fn write_root(&mut self) -> (done: bool)
        ensures
            final(self).spec_root() == old(self).spec_root(),
            done == (old(self).spec_phase() == Phase::Spawned),
            done ==> final(self).spec_phase() == Phase::RootWritten,
            !done ==> final(self).spec_phase() == old(self).spec_phase(),
    {
        if self.phase == Phase::Spawned {
            self.phase = Phase::RootWritten;
            true
        } else {
            false
        }
    }

    /// Records that every instrumentation point is attached; only after the
    /// root is written.
    pub fn attached(&mut self) -> (done: bool)
        ensures
            final(self).spec_root() == old(self).spec_root(),
            done == (old(self).spec_phase() == Phase::RootWritten),
            done ==> final(self).spec_phase() == Phase::Attached,
            !done ==> final(self).spec_phase() == old(self).spec_phase(),
    {
        if self.phase == Phase::RootWritten {
            self.phase = Phase::Attached;
            true
        } else {
            false
        }
    }

    /// Whether to send the release signal to the wrapper now: exactly once,
    /// and only once everything is attached.
    pub fn release(&mut self) -> (send: bool)
        ensures
            final(self).spec_root() == old(self).spec_root(),
            send == (old(self).spec_phase() == Phase::Attached),
            send ==> final(self).spec_phase() == Phase::Released,
            !send ==> final(self).spec_phase() == old(self).spec_phase(),
    {
        if self.phase == Phase::Attached {
            self.phase = Phase::Released;
            true
        } else {
            false
        }
    }

    /// Whether the target may run: the wrapper replaces itself with it only
    /// once released.
    pub fn may_run(&self) -> (r: bool)
        ensures
            r == (self.spec_phase() == Phase::Released),
    {
        self.phase == Phase::Released
    }
}

/// What the wrapper does on one look at its release flag.
#[derive(Clone, Copy, Debug, PartialEq, Eq, Structural)]
pub enum WrapperAction {
    /// Not released: sleep and look again.
    Wait,
    /// Released: replace this process with the target command.
    Exec,
}

/// The wrapper's decision on its flag, which the release signal sets to 1.
pub fn wrapper_step(flag: usize) -> (r: WrapperAction)
    ensures
        r == if flag == 0 {
            WrapperAction::Wait
        } else {
            WrapperAction::Exec
        },
{
    if flag == 0 {
        WrapperAction::Wait
    } else {
        WrapperAction::Exec
    }
}

/// One step of a deterministic run of the handshake against the instrumentation.
pub enum RunStep {
    WriteRoot,
    Attach,
    Release,
    /// The target opens `path`; the call returns `ret`.
    TargetOpen { ret: i64, path: Vec<u8> },
    /// The target closes `fd`.
    TargetClose { fd: u64 },
}

/// What a deterministic run observed: each event with its sequence number
/// (the index of the step that produced it), and the step at which the
/// attachment completed.
pub struct RunTrace {
    pub events: Vec<(u64, FileEvent)>,
    pub attached_at: Option<u64>,
}

pub open spec fn phase_rank(p: Phase) -> nat {
    match p {
        Phase::Spawned => 0,
        Phase::RootWritten => 1,
        Phase::Attached => 2,
        Phase::Released => 3,
    }
}

/// Some step before `end` writes the root.
pub open spec fn root_written_before(steps: Seq<RunStep>, end: int) -> bool {
    exists|w: int| 0 <= w < end && #[trigger] steps[w] is WriteRoot
}

/// Some step before `end` attaches, after a step that writes the root.
pub open spec fn attached_before(steps: Seq<RunStep>, end: int) -> bool {
    exists|a: int| 0 <= a < end && #[trigger] steps[a] is Attach && root_written_before(steps, a)
}

/// Some step before `end` releases, after an attachment.
pub open spec fn released_before(steps: Seq<RunStep>, end: int) -> bool {
    exists|l: int| 0 <= l < end && #[trigger] steps[l] is Release && attached_before(steps, l)
}

/// `ev` is the event that the instrumentation records for the target's call
/// `step`, the target being `root`.
pub open spec fn records_step(step: RunStep, ev: FileEvent, root: u64) -> bool {
    match step {
        RunStep::TargetOpen { ret, path } => {
            &&& ev.pid == root
            &&& ev.kind == EventKind::Open
            &&& ev.fd == ret
            &&& ev.path@ == path_buffer(path@)
        },
        RunStep::TargetClose { fd } => {
            &&& ev.pid == root
            &&& ev.kind == EventKind::Close
            &&& ev.fd == fd as i64
            &&& ev.path@.len() == PATH_MAX
            &&& all_zero(ev.path@)
        },
        _ => false,
    }
}

/// Runs `steps` in order for a target launched as `root`: the handshake steps
/// go to the rendezvous, and the target's calls are made only once it may run,
/// through the instrumentation. No event of the root is ever observed before
/// the step that completed the attachment.
pub fn run_rendezvous(root: u64, steps: &Vec<RunStep>) -> (r: RunTrace)
    requires
        root != 0,
    ensures
        forall|i: int|
            0 <= i < r.events@.len() && (#[trigger] r.events@[i]).1.pid == root ==> {
                &&& r.attached_at is Some
                &&& r.events@[i].0 > r.attached_at->Some_0
            },
        forall|i: int| 0 <= i < r.events@.len() ==> (#[trigger] r.events@[i]).0 < steps@.len(),
        forall|k: int|
            0 <= k < steps@.len() && (#[trigger] steps@[k] is TargetOpen || steps@[k] is TargetClose)
                && released_before(steps@, k) ==> exists|i: int|
                0 <= i < r.events@.len() && (#[trigger] r.events@[i]).0 == k && r.events@[i].1.pid == root,
        forall|i: int|
            0 <= i < r.events@.len() ==> records_step(steps@[(#[trigger] r.events@[i]).0 as int], r.events@[i].1, root),
        forall|i: int, j: int| 0 <= i < j < r.events@.len() ==> r.events@[i].0 < r.events@[j].0,
{
    let mut probes = Instrumentation::new();
    let mut gate = Rendezvous::new(root);
    let mut events: Vec<(u64, FileEvent)> = Vec::new();
    let mut attached_at: Option<u64> = None;
    let mut i: usize = 0;
    while i < steps.len()
        invariant
            i <= steps@.len(),
            gate.spec_root() == root,
            root != 0,
            gate.spec_phase() == Phase::Spawned || gate.spec_phase() == Phase::RootWritten <==> attached_at is None,
            attached_at is Some ==> attached_at->Some_0 < i,
            gate.spec_phase() != Phase::Released ==> events@.len() == 0,
            gate.spec_phase() != Phase::Spawned ==> probes.traced@.root == root,
            root_written_before(steps@, i as int) ==> phase_rank(gate.spec_phase()) >= 1,
            attached_before(steps@, i as int) ==> phase_rank(gate.spec_phase()) >= 2,
            released_before(steps@, i as int) ==> gate.spec_phase() == Phase::Released,
            forall|k: int|
                0 <= k < i && (#[trigger] steps@[k] is TargetOpen || steps@[k] is TargetClose)
                    && released_before(steps@, k) ==> exists|e: int|
                    0 <= e < events@.len() && (#[trigger] events@[e]).0 == k && events@[e].1.pid == root,
            forall|k: int|
                0 <= k < events@.len() ==> (#[trigger] events@[k]).0 < i && attached_at is Some
                    && events@[k].0 > attached_at->Some_0,
            forall|k: int|
                0 <= k < events@.len() ==> records_step(steps@[(#[trigger] events@[k]).0 as int], events@[k].1, root),
            forall|a: int, b: int| 0 <= a < b < events@.len() ==> events@[a].0 < events@[b].0,
        decreases steps@.len() - i,
    {
        let ghost old_events = events@;
        let ghost was_released = gate.spec_phase() == Phase::Released;
        match &steps[i] {
            RunStep::WriteRoot => {
                if gate.write_root() {
                    probes.traced.set_root(root);
                }
            },
            RunStep::Attach => {
                if gate.attached() {
                    attached_at = Some(i as u64);
                }
            },
            RunStep::Release => {
                gate.release();
            },
            RunStep::TargetOpen { ret, path } => {
                if gate.may_run() {
                    if let Some(ev) = probes.do_sys_openat2(root, *ret, Some(path.as_slice())) {
                        events.push((i as u64, ev));
                    }
                    assert(events@.len() == old_events.len() + 1 && events@.last().0 == i
                        && events@.last().1.pid == root);
                }
            },
            RunStep::TargetClose { fd } => {
                if gate.may_run() {
                    let args = crate::event::SysEnterCloseArgs {
                        common: crate::event::TracepointCommonArgs {
                            ctype: 0,
                            flags: 0,
                            preempt_count: 0,
                            pid: 0,
                        },
                        sys_nr: 0,
                        pad: 0,
                        fd: *fd,
                    };
                    if let Some(ev) = probes.sys_enter_close(root, &args) {
                        events.push((i as u64, ev));
                    }
                    assert(events@.len() == old_events.len() + 1 && events@.last().0 == i
                        && events@.last().1.pid == root);
                }
            },
        }
        proof {
            let ni = i + 1;
            assert(events@.len() >= old_events.len());
            assert(forall|e: int| 0 <= e < old_events.len() ==> events@[e] == old_events[e]);
            assert forall|k: int|
                0 <= k < ni && (#[trigger] steps@[k] is TargetOpen || steps@[k] is TargetClose)
                    && released_before(steps@, k) implies exists|e: int|
                    0 <= e < events@.len() && (#[trigger] events@[e]).0 == k && events@[e].1.pid == root by {
                if k < i {
                    let e = choose|e: int| 0 <= e < old_events.len() && (#[trigger] old_events[e]).0 == k
                        && old_events[e].1.pid == root;
                    assert(events@[e] == old_events[e]);
                } else {
                    assert(was_released);
                    let e = events@.len() - 1;
                    assert(events@[e].0 == k);
                }
            }
            if root_written_before(steps@, ni) {
                let w = choose|w: int| 0 <= w < ni && #[trigger] steps@[w] is WriteRoot;
                if w < i {
                    assert(root_written_before(steps@, i as int));
                }
            }
            if attached_before(steps@, ni) {
                let a = choose|a: int| 0 <= a < ni && #[trigger] steps@[a] is Attach && root_written_before(steps@, a);
                if a < i {
                    assert(attached_before(steps@, i as int));
                } else {
                    let w = choose|w: int| 0 <= w < a && #[trigger] steps@[w] is WriteRoot;
                    assert(root_written_before(steps@, i as int));
                }
            }
            if released_before(steps@, ni) {
                let l = choose|l: int| 0 <= l < ni && #[trigger] steps@[l] is Release && attached_before(steps@, l);
                if l < i {
                    assert(released_before(steps@, i as int));
                } else {
                    let a = choose|a: int| 0 <= a < l && #[trigger] steps@[a] is Attach && root_written_before(steps@, a);
                    assert(attached_before(steps@, i as int));
                }
            }
        }
        i = i + 1;
    }
    RunTrace { events, attached_at }
}

} // verus!
