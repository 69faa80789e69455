//! The table of files that one traced process holds open, kept up to date from
//! its domain events.
use vstd::prelude::*;
use std::collections::HashMap;
use crate::tracer::{Event, EventView};
use vstd::std_specs::iter::IteratorSpec;

verus! {

broadcast use vstd::std_specs::hash::group_hash_axioms;

/// An open file: its descriptor and its path.
#[derive(Clone, Debug)]
pub struct File {
    pub fd: u64,
    pub path: String,
}

/// The table after one event: an open (re)binds its descriptor to its path, a
/// close unbinds its descriptor; other events change nothing.
pub open spec fn apply_view(t: Map<u64, Seq<char>>, e: EventView) -> Map<u64, Seq<char>> {
    match e {
        EventView::FileOpen { fd, path, .. } => t.insert(fd, path),
        EventView::FileClose { fd, .. } => t.remove(fd),
        _ => t,
    }
}

/// The table after each of `events` in order, starting from `t`.
pub open spec fn apply_all_view(t: Map<u64, Seq<char>>, events: Seq<EventView>) -> Map<u64, Seq<char>>
    decreases events.len(),
{
    if events.len() == 0 {
        t
    } else {
        apply_view(apply_all_view(t, events.drop_last()), events.last())
    }
}

/// `e` opens `fd`.
pub open spec fn opens(e: EventView, fd: u64) -> bool {
    e is FileOpen && e->FileOpen_fd == fd
}

/// `e` closes `fd`.
pub open spec fn closes(e: EventView, fd: u64) -> bool {
    e is FileClose && e->FileClose_fd == fd
}

/// What applying an event reports.
#[derive(Debug)]
pub enum Applied {
    /// An open of a descriptor that was not in the table.
    Inserted,
    /// An open of a descriptor that was already in the table, with the entry
    /// it replaced: a close raced with an open of the same number.
    Replaced(File),
    /// A close, with the entry it removed.
    Removed(File),
    /// A close of a descriptor that was not in the table.
    UnknownClose,
    /// A failed open; the table is not touched.
    OpenFailed,
    /// A transport failure; the table is not touched.
    NotAFileEvent,
}

/// `r` is what applying `e` to `t` reports.
pub open spec fn reports(t: Map<u64, Seq<char>>, e: EventView, r: Applied) -> bool {
    match e {
        EventView::FileOpen { fd, .. } => match r {
            Applied::Inserted => !t.contains_key(fd),
            Applied::Replaced(f) => t.contains_key(fd) && f.fd == fd && f.path@ == t[fd],
            _ => false,
        },
        EventView::FileClose { fd, .. } => match r {
            Applied::Removed(f) => t.contains_key(fd) && f.fd == fd && f.path@ == t[fd],
            Applied::UnknownClose => !t.contains_key(fd),
            _ => false,
        },
        EventView::FileOpenFail { .. } => r is OpenFailed,
        EventView::ProcessFailed { .. } => r is NotAFileEvent,
    }
}

/// The open files of one process, by descriptor.
pub struct OpenFileTable {
    files: HashMap<u64, String>,
}

impl View for OpenFileTable {
    type V = Map<u64, Seq<char>>;

    closed spec fn view(&self) -> Map<u64, Seq<char>> {
        self.files@.map_values(|p: String| p@)
    }
}

impl OpenFileTable {
    /// An empty table.
    pub fn new() -> (r: OpenFileTable)
        ensures
            r@ == Map::<u64, Seq<char>>::empty(),
            r@.dom().finite(),
    {
        let r = OpenFileTable { files: HashMap::new() };
        assert(r@ =~= Map::<u64, Seq<char>>::empty());
        proof {
            r.lemma_finite();
        }
        r
    }

    /// A table holds finitely many files.
    pub proof fn lemma_finite(&self)
        ensures
            self@.dom().finite(),
    {
        assert(self@.dom() =~= self.files@.dom());
    }

    /// Number of open files.
    pub fn len(&self) -> (r: usize)
        ensures
            r == self@.len(),
    {
        assert(self@.dom() =~= self.files@.dom());
        self.files.len()
    }

    /// The open file with descriptor `fd`, if any.
    pub fn get(&self, fd: u64) -> (r: Option<File>)
        ensures
            r is Some <==> self@.contains_key(fd),
            r is Some ==> r->Some_0.fd == fd && r->Some_0.path@ == self@[fd],
    {
        match self.files.get(&fd) {
            Some(p) => Some(File { fd, path: p.clone() }),
            None => None,
        }
    }

    /// A copy of every open file, each descriptor once, in no set order.
    pub fn snapshot(&self) -> (r: Vec<File>)
        ensures
            r@.len() == self@.len(),
            forall|i: int| 0 <= i < r@.len() ==> self@.contains_key(#[trigger] r@[i].fd) && r@[i].path@ == self@[r@[i].fd],
            forall|fd: u64| #[trigger] self@.contains_key(fd) ==> exists|i: int| 0 <= i < r@.len() && #[trigger] r@[i].fd == fd,
            forall|i: int, j: int| 0 <= i < j < r@.len() ==> r@[i].fd != r@[j].fd,
    {
        let mut out: Vec<File> = Vec::new();
        let ghost items = vstd::std_specs::hash::spec_hash_map_iter(&self.files).remaining();
        for item in it: self.files.iter()
            invariant
                it.seq() == items,
                out@.len() == it.index(),
                it.seq().len() == self.files@.dom().len(),
                it.seq().no_duplicates(),
                forall|i: int| 0 <= i < it.seq().len() ==> self.files@.contains_key(*(#[trigger] it.seq()[i]).0) && self.files@[*it.seq()[i].0] == *it.seq()[i].1,
                forall|k: u64| #[trigger] self.files@.contains_key(k) ==> it.seq().contains((&k, &self.files@[k])),
                forall|i: int| 0 <= i < out@.len() ==> (#[trigger] out@[i]).fd == *it.seq()[i].0 && out@[i].path@ == (*it.seq()[i].1)@,
        {
            let (fd, path) = item;
            out.push(File { fd: *fd, path: path.clone() });
        }
        assert(self@.dom() =~= self.files@.dom());
        assert forall|fd: u64| #[trigger] self@.contains_key(fd) implies exists|i: int| 0 <= i < out@.len() && #[trigger] out@[i].fd == fd by {
            assert(self.files@.contains_key(fd));
            let i = choose|i: int| 0 <= i < items.len() && items[i] == (&fd, &self.files@[fd]);
            assert(out@[i].fd == fd);
        }
        assert forall|i: int, j: int| 0 <= i < j < out@.len() implies out@[i].fd != out@[j].fd by {
            if out@[i].fd == out@[j].fd {
                assert(items[i] == items[j]);
            }
        }
        out
    }

    /// Applies one domain event, and reports what it did.
    pub fn apply(&mut self, e: &Event) -> (r: Applied)
        ensures
            final(self)@ == apply_view(old(self)@, e@),
            final(self)@.dom().finite(),
            reports(old(self)@, e@, r),
    {
        match e {
            Event::FileOpen { fd, path, .. } => {
                let prev = self.files.insert(*fd, path.clone());
                assert(self@ =~= apply_view(old(self)@, e@));
                proof {
                    self.lemma_finite();
                }
                match prev {
                    Some(p) => Applied::Replaced(File { fd: *fd, path: p }),
                    None => Applied::Inserted,
                }
            },
            Event::FileClose { fd, .. } => {
                let prev = self.files.remove(fd);
                assert(self@ =~= apply_view(old(self)@, e@));
                proof {
                    self.lemma_finite();
                }
                match prev {
                    Some(p) => Applied::Removed(File { fd: *fd, path: p }),
                    None => Applied::UnknownClose,
                }
            },
            Event::FileOpenFail { .. } => {
                proof {
                    self.lemma_finite();
                }
                Applied::OpenFailed
            },
            Event::ProcessFailed { .. } => {
                proof {
                    self.lemma_finite();
                }
                Applied::NotAFileEvent
            },
        }
    }

    /// Applies each of `events` in order.
    pub fn apply_all(&mut self, events: &Vec<Event>)
        ensures
            final(self)@ == apply_all_view(old(self)@, events@.map_values(|e: Event| e@)),
            final(self)@.dom().finite(),
    {
        let ghost start = self@;
        let ghost views = events@.map_values(|e: Event| e@);
        let mut i: usize = 0;
        while i < events.len()
            invariant
                i <= events.len(),
                views == events@.map_values(|e: Event| e@),
                self@ == apply_all_view(start, views.subrange(0, i as int)),
            decreases events.len() - i,
        {
            self.apply(&events[i]);
            assert(views.subrange(0, i + 1).drop_last() =~= views.subrange(0, i as int));
            i = i + 1;
        }
        assert(views.subrange(0, i as int) =~= views);
        proof {
            self.lemma_finite();
        }
    }
}

/// Applying a close of a descriptor that is not in the table changes nothing,
/// its size included.
pub proof fn lemma_unknown_close_is_noop(t: Map<u64, Seq<char>>, pid: u64, fd: u64)
    requires
        !t.contains_key(fd),
    ensures
        apply_view(t, EventView::FileClose { pid, fd }) == t,
        apply_view(t, EventView::FileClose { pid, fd }).len() == t.len(),
{
    assert(t.remove(fd) =~= t);
}

/// Applying an open of a descriptor already in the table replaces its path:
/// the descriptors, and so the size, stay the same, and other entries are kept.
pub proof fn lemma_reopen_overwrites(t: Map<u64, Seq<char>>, pid: u64, fd: u64, path: Seq<char>)
    requires
        t.dom().finite(),
        t.contains_key(fd),
    ensures
        ({
            let r = apply_view(t, EventView::FileOpen { pid, fd, path });
            &&& r.dom() == t.dom()
            &&& r.len() == t.len()
            &&& r[fd] == path
            &&& forall|k: u64| k != fd && t.contains_key(k) ==> r[k] == t[k]
        }),
{
    let r = t.insert(fd, path);
    assert(r.dom() =~= t.dom());
}

/// The event at `i` opened `fd` and no later event of `events` closes it.
pub open spec fn open_since(events: Seq<EventView>, i: int, fd: u64) -> bool {
    &&& 0 <= i < events.len()
    &&& opens(events[i], fd)
    &&& forall|j: int| i < j < events.len() ==> !closes(#[trigger] events[j], fd)
}

/// The event at `i` opened `fd` and no later event of `events` opens or
/// closes it.
pub open spec fn last_open(events: Seq<EventView>, i: int, fd: u64) -> bool {
    &&& 0 <= i < events.len()
    &&& opens(events[i], fd)
    &&& forall|j: int| i < j < events.len() ==> !closes(#[trigger] events[j], fd) && !opens(events[j], fd)
}

proof fn lemma_open_since_step(events: Seq<EventView>, i: int, fd: u64)
    requires
        events.len() > 0,
        0 <= i < events.len() - 1,
    ensures
        open_since(events, i, fd) <==> open_since(events.drop_last(), i, fd) && !closes(events.last(), fd),
        last_open(events, i, fd) <==> last_open(events.drop_last(), i, fd) && !closes(events.last(), fd)
            && !opens(events.last(), fd),
{
    let prev = events.drop_last();
    assert(prev[i] == events[i]);
    if open_since(events, i, fd) {
        assert forall|j: int| i < j < prev.len() implies !closes(#[trigger] prev[j], fd) by {
            assert(prev[j] == events[j]);
        }
        assert(!closes(events[events.len() - 1], fd));
    }
    if open_since(prev, i, fd) && !closes(events.last(), fd) {
        assert forall|j: int| i < j < events.len() implies !closes(#[trigger] events[j], fd) by {
            if j < prev.len() {
                assert(prev[j] == events[j]);
            }
        }
    }
    if last_open(events, i, fd) {
        assert forall|j: int| i < j < prev.len() implies !closes(#[trigger] prev[j], fd) && !opens(prev[j], fd) by {
            assert(prev[j] == events[j]);
        }
        assert(!closes(events[events.len() - 1], fd) && !opens(events[events.len() - 1], fd));
    }
    if last_open(prev, i, fd) && !closes(events.last(), fd) && !opens(events.last(), fd) {
        assert forall|j: int| i < j < events.len() implies !closes(#[trigger] events[j], fd) && !opens(events[j], fd) by {
            if j < prev.len() {
                assert(prev[j] == events[j]);
            }
        }
    }
}

/// From any sequence of events applied to an empty table, a descriptor is in
/// the table exactly when some event opened it and none closed it afterwards;
/// its path is that of the last open of it.
pub proof fn lemma_table_holds_open_files(events: Seq<EventView>, fd: u64)
    ensures
        apply_all_view(Map::empty(), events).contains_key(fd) <==> exists|i: int| open_since(events, i, fd),
        forall|i: int| last_open(events, i, fd) ==> apply_all_view(Map::empty(), events)[fd]
            == events[i]->FileOpen_path,
    decreases events.len(),
{
    if events.len() > 0 {
        let prev = events.drop_last();
        let n = prev.len() as int;
        let last = events.last();
        let t = apply_all_view(Map::empty(), prev);
        let u = apply_all_view(Map::empty(), events);
        lemma_table_holds_open_files(prev, fd);
        assert(last == events[n]);
        assert forall|i: int| 0 <= i < n implies (open_since(events, i, fd) <==> open_since(prev, i, fd)
            && !closes(last, fd)) && (last_open(events, i, fd) <==> last_open(prev, i, fd) && !closes(last, fd)
            && !opens(last, fd)) by {
            lemma_open_since_step(events, i, fd);
        }
        if opens(last, fd) {
            assert(open_since(events, n, fd));
            assert forall|i: int| last_open(events, i, fd) implies u[fd] == events[i]->FileOpen_path by {
                if i < n {
                    assert(opens(events[n], fd));
                }
            }
        } else if closes(last, fd) {
            assert(!u.contains_key(fd));
            assert forall|i: int| !open_since(events, i, fd) by {
                if 0 <= i < n {
                    lemma_open_since_step(events, i, fd);
                }
            }
        } else {
            assert(u.contains_key(fd) == t.contains_key(fd));
            assert(t.contains_key(fd) ==> u[fd] == t[fd]);
            if t.contains_key(fd) {
                let i = choose|i: int| open_since(prev, i, fd);
                assert(open_since(events, i, fd));
            }
            if exists|i: int| open_since(events, i, fd) {
                let i = choose|i: int| open_since(events, i, fd);
                assert(i != n);
                assert(open_since(prev, i, fd));
            }
            assert forall|i: int| last_open(events, i, fd) implies u[fd] == events[i]->FileOpen_path by {
                assert(i != n);
                assert(last_open(prev, i, fd));
            }
        }
    }
}

} // verus!
