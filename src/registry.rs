//! The bounded registry of traced process ids.
//!
//! The registry holds one root pid, written by the host before the traced
//! process is released, and a fixed number of child slots filled as traced
//! processes spawn others. An empty slot holds 0, which is never a real pid.
use vstd::prelude::*;

verus! {

/// Number of child slots of the registry that the instrumentation uses.
pub const MAX_CHILDREN: usize = 1024;

/// Index of the first occurrence of `v` in `s`, or -1 when there is none.
pub open spec fn first_match(s: Seq<u64>, v: u64) -> int
    decreases s.len(),
{
    if s.len() == 0 {
        -1
    } else if s[0] == v {
        0
    } else {
        let r = first_match(s.drop_first(), v);
        if r < 0 {
            -1
        } else {
            r + 1
        }
    }
}

pub proof fn lemma_first_match(s: Seq<u64>, v: u64)
    ensures
        -1 <= first_match(s, v) < s.len(),
        first_match(s, v) >= 0 ==> s[first_match(s, v)] == v,
        forall|j: int| 0 <= j < first_match(s, v) ==> s[j] != v,
        first_match(s, v) < 0 <==> !s.contains(v),
    decreases s.len(),
{
    if s.len() > 0 && s[0] != v {
        let t = s.drop_first();
        lemma_first_match(t, v);
        assert forall|j: int| 0 <= j < first_match(s, v) implies s[j] != v by {
            if j > 0 {
                assert(s[j] == t[j - 1]);
            }
        }
        if first_match(t, v) < 0 {
            assert forall|j: int| 0 <= j < s.len() implies s[j] != v by {
                if j > 0 {
                    assert(s[j] == t[j - 1]);
                    assert(!t.contains(v));
                }
            }
        } else {
            assert(s[first_match(s, v)] == t[first_match(t, v)]);
        }
    }
}

/// What a registry holds: the root pid and the child slots, in order.
pub struct RegistryModel {
    pub root: u64,
    pub slots: Seq<u64>,
}

impl RegistryModel {
    /// A registry with no root and `capacity` empty child slots.
    pub open spec fn empty(capacity: nat) -> RegistryModel {
        RegistryModel { root: 0, slots: Seq::new(capacity, |i: int| 0u64) }
    }

    /// `pid` is the root or stands in a child slot; 0 is never traced.
    pub open spec fn is_traced(self, pid: u64) -> bool {
        pid != 0 && (pid == self.root || self.slots.contains(pid))
    }

    /// Some child slot is empty.
    pub open spec fn has_room(self) -> bool {
        self.slots.contains(0)
    }

    /// `pid` written into the first empty child slot; unchanged when `pid` is
    /// 0 or no slot is empty.
    pub open spec fn add_child(self, pid: u64) -> RegistryModel {
        if pid != 0 && self.has_room() {
            RegistryModel { root: self.root, slots: self.slots.update(first_match(self.slots, 0), pid) }
        } else {
            self
        }
    }

    /// The root cleared if it is `pid`, else the first child slot holding
    /// `pid` cleared; unchanged when `pid` is not traced.
    pub open spec fn remove(self, pid: u64) -> RegistryModel {
        if pid == 0 {
            self
        } else if self.root == pid {
            RegistryModel { root: 0, slots: self.slots }
        } else if self.slots.contains(pid) {
            RegistryModel { root: self.root, slots: self.slots.update(first_match(self.slots, pid), 0) }
        } else {
            self
        }
    }

    /// The registry after `add_child` of each of `pids`, in order.
    pub open spec fn add_all(self, pids: Seq<u64>) -> RegistryModel
        decreases pids.len(),
    {
        if pids.len() == 0 {
            self
        } else {
            self.add_all(pids.drop_last()).add_child(pids.last())
        }
    }
}

/// Adding nonzero pids one by one to a registry whose slots are all empty fills
/// the slots in order and leaves the rest empty.
pub proof fn lemma_add_all_fills(root: u64, capacity: nat, p: Seq<u64>)
    requires
        p.len() <= capacity,
        forall|i: int| 0 <= i < p.len() ==> p[i] != 0,
    ensures
        ({
            let m = (RegistryModel { root, slots: Seq::new(capacity, |i: int| 0u64) }).add_all(p);
            &&& m.root == root
            &&& m.slots.len() == capacity
            &&& forall|i: int| 0 <= i < p.len() ==> m.slots[i] == p[i]
            &&& forall|i: int| p.len() <= i < capacity ==> m.slots[i] == 0
        }),
    decreases p.len(),
{
    let start = RegistryModel { root, slots: Seq::new(capacity, |i: int| 0u64) };
    if p.len() > 0 {
        let q = p.drop_last();
        lemma_add_all_fills(root, capacity, q);
        let prev = start.add_all(q);
        let n = q.len() as int;
        lemma_first_match(prev.slots, 0);
        assert(prev.slots[n] == 0);
        assert(prev.slots.contains(0));
        assert(first_match(prev.slots, 0) == n) by {
            let fm = first_match(prev.slots, 0);
            if fm < n {
                assert(prev.slots[fm] == q[fm]);
            }
        }
        let m = start.add_all(p);
        assert(p.last() != 0);
        assert(m == prev.add_child(p.last()));
        assert(m.slots == prev.slots.update(n, p.last()));
        assert forall|i: int| 0 <= i < p.len() implies m.slots[i] == p[i] by {
            if i < n {
                assert(q[i] == p[i]);
            }
        }
    }
}

/// Filling a registry of capacity C with C distinct pids traces each of them;
/// removing any one of them stops tracing it, and a following `add_child`
/// takes the slot it held.
pub proof fn lemma_fill_remove_reuse(root: u64, pids: Seq<u64>, k: int, next: u64)
    requires
        pids.no_duplicates(),
        forall|i: int| 0 <= i < pids.len() ==> pids[i] != 0 && pids[i] != root,
        0 <= k < pids.len(),
        next != 0,
    ensures
        ({
            let full = (RegistryModel { root, slots: Seq::new(pids.len(), |i: int| 0u64) }).add_all(pids);
            let after = full.remove(pids[k]);
            &&& forall|i: int| 0 <= i < pids.len() ==> full.is_traced(pids[i])
            &&& !after.is_traced(pids[k])
            &&& after.has_room()
            &&& after.add_child(next).slots == full.slots.update(k, next)
            &&& after.add_child(next).is_traced(next)
        }),
{
    let cap = pids.len();
    lemma_add_all_fills(root, cap, pids);
    let full = (RegistryModel { root, slots: Seq::new(cap, |i: int| 0u64) }).add_all(pids);
    assert(full.slots =~= pids);
    assert forall|i: int| 0 <= i < pids.len() implies full.is_traced(pids[i]) by {
        assert(full.slots[i] == pids[i]);
    }
    let pk = pids[k];
    assert(full.slots.contains(pk)) by {
        assert(full.slots[k] == pk);
    }
    lemma_first_match(full.slots, pk);
    assert(first_match(full.slots, pk) == k) by {
        let fm = first_match(full.slots, pk);
        if fm != k {
            assert(pids[fm] == pids[k]);
        }
    }
    let after = full.remove(pk);
    assert(after.slots == pids.update(k, 0));
    assert(!after.slots.contains(pk)) by {
        if after.slots.contains(pk) {
            let j = choose|j: int| 0 <= j < after.slots.len() && after.slots[j] == pk;
            assert(j != k);
            assert(pids[j] == pids[k]);
        }
    }
    assert(after.slots[k] == 0);
    assert(after.has_room());
    lemma_first_match(after.slots, 0);
    assert(first_match(after.slots, 0) == k) by {
        let fm = first_match(after.slots, 0);
        if fm != k {
            assert(after.slots[fm] == pids[fm]);
        }
    }
    assert(after.add_child(next).slots =~= full.slots.update(k, next));
    assert(after.add_child(next).slots[k] == next);
}

/// The traced-pid registry: a root pid and a fixed array of child slots.
pub struct TracedSet {
    root: u64,
    children: Vec<u64>,
}

impl View for TracedSet {
    type V = RegistryModel;

    closed spec fn view(&self) -> RegistryModel {
        RegistryModel { root: self.root, slots: self.children@ }
    }
}

impl TracedSet {
    /// An empty registry with `capacity` child slots.
    pub fn new(capacity: usize) -> (r: TracedSet)
        ensures
            r@ == RegistryModel::empty(capacity as nat),
    {
        let r = TracedSet { root: 0, children: vec![0u64; capacity] };
        assert(r@.slots =~= RegistryModel::empty(capacity as nat).slots);
        r
    }

    /// Number of child slots.
    pub fn capacity(&self) -> (r: usize)
        ensures
            r == self@.slots.len(),
    {
        self.children.len()
    }

    /// Writes the root pid.
    pub fn set_root(&mut self, pid: u64)
        ensures
            final(self)@ == (RegistryModel { root: pid, slots: old(self)@.slots }),
    {
        self.root = pid;
    }

    /// Whether `pid` is the root or one of the children.
    pub fn is_traced(&self, pid: u64) -> (r: bool)
        ensures
            r == self@.is_traced(pid),
    {
        if pid == 0 {
            return false;
        }
        let mut i: usize = 0;
        while i < self.children.len()
            invariant
                pid != 0,
                i <= self.children.len(),
                forall|j: int| 0 <= j < i ==> self.children@[j] != pid,
            decreases self.children.len() - i,
        {
            if self.children[i] == pid {
                assert(self@.slots[i as int] == pid);
                assert(self@.slots.contains(pid));
                return true;
            }
            i = i + 1;
        }
        pid == self.root
    }

    /// Index of the first child slot holding `v`.
    fn find_slot(&self, v: u64) -> (r: Option<usize>)
        ensures
            match r {
                Some(i) => i as int == first_match(self@.slots, v),
                None => first_match(self@.slots, v) < 0,
            },
    {
        proof {
            lemma_first_match(self@.slots, v);
        }
        let mut i: usize = 0;
        while i < self.children.len()
            invariant
                i <= self.children.len(),
                self@.slots == self.children@,
                forall|j: int| 0 <= j < i ==> self.children@[j] != v,
                -1 <= first_match(self@.slots, v) < self@.slots.len(),
                first_match(self@.slots, v) >= 0 ==> self@.slots[first_match(self@.slots, v)] == v,
                forall|j: int| 0 <= j < first_match(self@.slots, v) ==> self@.slots[j] != v,
                first_match(self@.slots, v) < 0 <==> !self@.slots.contains(v),
            decreases self.children.len() - i,
        {
            if self.children[i] == v {
                return Some(i);
            }
            i = i + 1;
        }
        proof {
            if first_match(self@.slots, v) >= 0 {
                assert(self.children@[first_match(self@.slots, v)] == v);
            }
        }
        None
    }

    /// Records a child of a traced process in the first empty slot. Returns
    /// false, changing nothing, when `pid` is 0 or every slot is taken.
    pub fn add_child(&mut self, pid: u64) -> (r: bool)
        ensures
            final(self)@ == old(self)@.add_child(pid),
            r == (pid != 0 && old(self)@.has_room()),
    {
        proof {
            lemma_first_match(self@.slots, 0);
        }
        if pid == 0 {
            return false;
        }
        match self.find_slot(0) {
            Some(i) => {
                self.children[i] = pid;
                true
            },
            None => false,
        }
    }

    /// Stops tracing `pid`: clears the root if it matches, else the first
    /// child slot holding it. Returns whether anything was cleared.
    pub fn remove(&mut self, pid: u64) -> (r: bool)
        ensures
            final(self)@ == old(self)@.remove(pid),
            r == old(self)@.is_traced(pid),
    {
        proof {
            lemma_first_match(self@.slots, pid);
        }
        if pid == 0 {
            return false;
        }
        if self.root == pid {
            self.root = 0;
            return true;
        }
        match self.find_slot(pid) {
            Some(i) => {
                self.children[i] = 0;
                true
            },
            None => false,
        }
    }
}

} // verus!
