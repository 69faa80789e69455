//! The supervised target process: its lifecycle and its table of open files.
use vstd::prelude::*;
use crate::event::FileEvent;
use crate::table::{apply_view, reports, Applied, OpenFileTable};
use crate::tracer::{raw_event_view, Event};

verus! {

/// How a process ended: its exit code, or none when a signal ended it.
#[derive(Clone, Copy, Debug, PartialEq, Eq, Structural)]
pub struct ExitOutcome {
    pub code: Option<i32>,
}

impl ExitOutcome {
    /// Whether the process exited with code 0.
    pub fn success(&self) -> (r: bool)
        ensures
            r == (self.code == Some(0i32)),
    {
        match self.code {
            Some(c) => c == 0,
            None => false,
        }
    }
}

/// The state of the supervised process, with what each state knows.
#[derive(Debug)]
pub enum ProcessStateDetail {
    /// Not launched yet; holds the command line to launch.
    NotStarted(Vec<String>),
    /// Launched under the suspension wrapper, whose pid is the traced pid.
    Running { command: Vec<String>, child_pid: u64 },
    /// Exited.
    Ended(ExitOutcome),
}

/// The state of the supervised process, without detail.
#[derive(Clone, Copy, Debug, PartialEq, Eq, Structural)]
pub enum ProcessState {
    NotStarted,
    Running,
    Ended,
}

pub open spec fn state_of(d: ProcessStateDetail) -> ProcessState {
    match d {
        ProcessStateDetail::NotStarted(_) => ProcessState::NotStarted,
        ProcessStateDetail::Running { .. } => ProcessState::Running,
        ProcessStateDetail::Ended(_) => ProcessState::Ended,
    }
}

/// Position of a state in the lifecycle; it never goes down.
pub open spec fn rank(s: ProcessState) -> nat {
    match s {
        ProcessState::NotStarted => 0,
        ProcessState::Running => 1,
        ProcessState::Ended => 2,
    }
}

impl<'a> From<&'a ProcessStateDetail> for ProcessState {
    fn from(detail: &'a ProcessStateDetail) -> (r: ProcessState) {
        match detail {
            ProcessStateDetail::NotStarted(_) => ProcessState::NotStarted,
            ProcessStateDetail::Running { .. } => ProcessState::Running,
            ProcessStateDetail::Ended(_) => ProcessState::Ended,
        }
    }
}

impl<'a> vstd::std_specs::convert::FromSpecImpl<&'a ProcessStateDetail> for ProcessState {
    open spec fn obeys_from_spec() -> bool {
        true
    }

    open spec fn from_spec(detail: &'a ProcessStateDetail) -> ProcessState {
        state_of(*detail)
    }
}

/// A supervised process and the files it holds open.
pub struct Process {
    pub files: OpenFileTable,
    state: ProcessStateDetail,
    failure: Option<String>,
}

impl Process {
    pub closed spec fn detail(&self) -> ProcessStateDetail {
        self.state
    }

    /// The open files of the process, by descriptor.
    pub closed spec fn table(&self) -> Map<u64, Seq<char>> {
        self.files@
    }

    /// The error that ended the event transport, if it broke.
    pub closed spec fn failure_view(&self) -> Option<Seq<char>> {
        match self.failure {
            Some(e) => Some(e@),
            None => None,
        }
    }

    /// The process holds finitely many files.
    pub proof fn lemma_table_finite(&self)
        ensures
            self.table().dom().finite(),
    {
        self.files.lemma_finite();
    }

    /// A process that will run `command` once spawned.
    pub fn new(command: Vec<String>) -> (r: Process)
        ensures
            r.detail() == ProcessStateDetail::NotStarted(command),
            r.table() == Map::<u64, Seq<char>>::empty(),
            r.failure_view() is None,
    {
        Process { state: ProcessStateDetail::NotStarted(command), files: OpenFileTable::new(), failure: None }
    }

    /// Records that the event transport broke with `error`; the trace of
    /// this process gets no more events.
    pub fn record_failure(&mut self, error: String)
        ensures
            final(self).failure_view() == Some(error@),
            final(self).detail() == old(self).detail(),
            final(self).table() == old(self).table(),
    {
        self.failure = Some(error);
    }

    /// The error that ended the event transport, if it broke.
    pub fn failure(&self) -> (r: Option<&String>)
        ensures
            match r {
                Some(e) => self.failure_view() == Some(e@),
                None => self.failure_view() is None,
            },
    {
        self.failure.as_ref()
    }

    /// Applies a record of the instrumentation to this process's own table,
    /// while it runs. Records of this tracer's own process (`own_pid`), of
    /// other processes, and any record before or after the run, are
    /// discarded (`None`).
    pub fn apply_record(&mut self, own_pid: u64, event: &FileEvent) -> (r: Option<Applied>)
        ensures
            final(self).detail() == old(self).detail(),
            final(self).failure_view() == old(self).failure_view(),
            final(self).table().dom().finite(),
            match old(self).detail() {
                ProcessStateDetail::Running { child_pid, .. } => if event.pid != own_pid && event.pid
                    == child_pid {
                    &&& r is Some
                    &&& final(self).table() == apply_view(old(self).table(), raw_event_view(*event))
                    &&& reports(old(self).table(), raw_event_view(*event), r->Some_0)
                } else {
                    r is None && final(self).table() == old(self).table()
                },
                _ => r is None && final(self).table() == old(self).table(),
            },
    {
        let child_pid = match &self.state {
            ProcessStateDetail::Running { child_pid, .. } => *child_pid,
            _ => {
                proof {
                    self.files.lemma_finite();
                }
                return None;
            },
        };
        Process::handle_event(own_pid, child_pid, &mut self.files, event)
    }

    /// The current state.
    pub fn get_state(&self) -> (r: ProcessState)
        ensures
            r == state_of(self.detail()),
    {
        ProcessState::from(&self.state)
    }

    /// The command line to launch; only before the process is spawned.
    pub fn launch_command(&self) -> (r: &Vec<String>)
        requires
            self.detail() is NotStarted,
        ensures
            *r == self.detail()->NotStarted_0,
    {
        match &self.state {
            ProcessStateDetail::NotStarted(command) => command,
            ProcessStateDetail::Running { command, .. } => command,
            ProcessStateDetail::Ended(_) => vstd::pervasive::unreached(),
        }
    }

    /// The pid of the launched process, while it runs.
    pub fn child_pid(&self) -> (r: Option<u64>)
        ensures
            r == match self.detail() {
                ProcessStateDetail::Running { child_pid, .. } => Some(child_pid),
                _ => None,
            },
    {
        match &self.state {
            ProcessStateDetail::Running { child_pid, .. } => Some(*child_pid),
            _ => None,
        }
    }

    /// Records that the command was launched as `child_pid`. Spawning is only
    /// valid once, from `NotStarted`.
    pub fn mark_running(&mut self, child_pid: u64)
        requires
            old(self).detail() is NotStarted,
        ensures
            final(self).detail() == (ProcessStateDetail::Running {
                command: old(self).detail()->NotStarted_0,
                child_pid,
            }),
            final(self).table() == old(self).table(),
            final(self).failure_view() == old(self).failure_view(),
    {
        let mut taken = ProcessStateDetail::Ended(ExitOutcome { code: None });
        std::mem::swap(&mut self.state, &mut taken);
        match taken {
            ProcessStateDetail::NotStarted(command) => {
                self.state = ProcessStateDetail::Running { command, child_pid };
            },
            other => {
                self.state = other;
            },
        }
    }

    /// Records one poll of the running process's exit status (`None`: still
    /// running). Returns whether the process has ended, so polling stops.
    pub fn record_poll(&mut self, polled: Option<ExitOutcome>) -> (ended: bool)
        ensures
            final(self).table() == old(self).table(),
            final(self).failure_view() == old(self).failure_view(),
            rank(state_of(old(self).detail())) <= rank(state_of(final(self).detail())),
            match (old(self).detail(), polled) {
                (ProcessStateDetail::Running { .. }, Some(o)) => final(self).detail()
                    == ProcessStateDetail::Ended(o),
                _ => final(self).detail() == old(self).detail(),
            },
            ended == (final(self).detail() is Ended),
    {
        match (&self.state, polled) {
            (ProcessStateDetail::Running { .. }, Some(o)) => {
                self.state = ProcessStateDetail::Ended(o);
                true
            },
            (ProcessStateDetail::Ended(_), _) => true,
            _ => false,
        }
    }

    /// Applies a record of the instrumentation to the table of the process
    /// `child_pid`. Records of this tracer's own process (`own_pid`) and of
    /// other processes are discarded (`None`).
    pub fn handle_event(own_pid: u64, child_pid: u64, files: &mut OpenFileTable, event: &FileEvent) -> (r:
        Option<Applied>)
        ensures
            event.pid == own_pid || event.pid != child_pid ==> r is None && final(files)@ == old(files)@,
            final(files)@.dom().finite(),
            event.pid != own_pid && event.pid == child_pid ==> {
                &&& r is Some
                &&& final(files)@ == apply_view(old(files)@, raw_event_view(*event))
                &&& reports(old(files)@, raw_event_view(*event), r->Some_0)
            },
    {
        if event.pid == own_pid || event.pid != child_pid {
            proof {
                files.lemma_finite();
            }
            return None;
        }
        let e = Event::from_raw(event);
        Some(files.apply(&e))
    }
}

/// The application state: the one process it supervises.
pub struct Lupa {
    pub process: Process,
}

impl Lupa {
    /// Supervises `/usr/bin/code`, not started yet.
    pub fn new() -> (r: Lupa)
        ensures
            r.process.detail() is NotStarted,
            r.process.detail()->NotStarted_0@.len() == 1,
            r.process.detail()->NotStarted_0@[0]@ == "/usr/bin/code"@,
            r.process.table() == Map::<u64, Seq<char>>::empty(),
    {
        let command = vec!["/usr/bin/code".to_owned()];
        Lupa { process: Process::new(command) }
    }
}

} // verus!
