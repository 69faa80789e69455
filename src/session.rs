//! A trace of several processes at once: one table of open files per pid, and
//! the history of the events seen.
use vstd::prelude::*;
use std::collections::HashMap;
use crate::table::{apply_view, OpenFileTable};
use crate::tracer::{Event, EventView};

verus! {

broadcast use vstd::std_specs::hash::group_hash_axioms;

/// The tables after one event: a file event goes to the table of its pid (a
/// first open makes that table); other events change nothing.
pub open spec fn session_apply(
    s: Map<u64, Map<u64, Seq<char>>>,
    e: EventView,
) -> Map<u64, Map<u64, Seq<char>>> {
    match e {
        EventView::FileOpen { pid, .. } => {
            let t = if s.contains_key(pid) {
                s[pid]
            } else {
                Map::empty()
            };
            s.insert(pid, apply_view(t, e))
        },
        EventView::FileClose { pid, .. } => if s.contains_key(pid) {
            s.insert(pid, apply_view(s[pid], e))
        } else {
            s
        },
        _ => s,
    }
}

/// The open files of every traced process, and the events recorded so far.
pub struct TraceSession {
    tables: HashMap<u64, OpenFileTable>,
    history: Vec<Event>,
}

impl TraceSession {
    /// The tables, by pid.
    pub closed spec fn tables(&self) -> Map<u64, Map<u64, Seq<char>>> {
        self.tables@.map_values(|t: OpenFileTable| t@)
    }

    /// The recorded events, oldest first.
    pub closed spec fn history(&self) -> Seq<EventView> {
        self.history@.map_values(|e: Event| e@)
    }

    /// A session with no table and no history.
    pub fn new() -> (r: TraceSession)
        ensures
            r.tables() == Map::<u64, Map<u64, Seq<char>>>::empty(),
            r.history() == Seq::<EventView>::empty(),
    {
        let r = TraceSession { tables: HashMap::new(), history: Vec::new() };
        assert(r.tables() =~= Map::<u64, Map<u64, Seq<char>>>::empty());
        assert(r.history() =~= Seq::<EventView>::empty());
        r
    }

    /// Records one event of the trace. A `ProcessFailed` event ends the trace
    /// with its error, and is neither applied nor recorded; any other event is
    /// applied to the tables and appended to the history.
    pub fn record(&mut self, event: Event) -> (r: Result<(), String>)
        ensures
            event is ProcessFailed ==> {
                &&& r is Err
                &&& r->Err_0@ == event->ProcessFailed_error@
                &&& final(self).tables() == old(self).tables()
                &&& final(self).history() == old(self).history()
            },
            !(event is ProcessFailed) ==> {
                &&& r is Ok
                &&& final(self).tables() == session_apply(old(self).tables(), event@)
                &&& final(self).history() == old(self).history().push(event@)
            },
    {
        let pid = match &event {
            Event::ProcessFailed { error } => {
                return Err(error.clone());
            },
            Event::FileOpen { pid, .. } => Some(*pid),
            Event::FileClose { pid, .. } => Some(*pid),
            Event::FileOpenFail { .. } => None,
        };
        let ghost before = self.tables();
        if let Some(pid) = pid {
            let existing = self.tables.remove(&pid);
            let is_open = matches!(event, Event::FileOpen { .. });
            match existing {
                Some(mut t) => {
                    t.apply(&event);
                    self.tables.insert(pid, t);
                },
                None => {
                    if is_open {
                        let mut t = OpenFileTable::new();
                        t.apply(&event);
                        self.tables.insert(pid, t);
                    }
                },
            }
        }
        assert(self.tables() =~= session_apply(before, event@));
        self.history.push(event);
        assert(self.history() =~= old(self).history().push(event@));
        Ok(())
    }

    /// The open files of `pid`, as descriptor and path, if that process
    /// opened any.
    pub fn table(&self, pid: u64) -> (r: Option<&OpenFileTable>)
        ensures
            r is Some <==> self.tables().contains_key(pid),
            r is Some ==> r->Some_0@ == self.tables()[pid],
    {
        self.tables.get(&pid)
    }

    /// Number of recorded events.
    pub fn history_len(&self) -> (r: usize)
        ensures
            r == self.history().len(),
    {
        self.history.len()
    }
}

} // verus!
