//! The pending-request table: which completion slot waits for which id.
use vstd::prelude::*;

verus! {

/// Ids strictly increase along the table.
pub open spec fn ids_sorted<S>(e: Seq<(u64, S)>) -> bool {
    forall|i: int, j: int| 0 <= i < j < e.len() ==> e[i].0 < e[j].0
}

/// Some entry has id `k`.
pub open spec fn holds_id<S>(e: Seq<(u64, S)>, k: u64) -> bool {
    exists|i: int| 0 <= i < e.len() && e[i].0 == k
}

/// The entries read as a map from id to slot.
pub open spec fn table_of<S>(e: Seq<(u64, S)>) -> Map<u64, S> {
    Map::new(
        |k: u64| holds_id(e, k),
        |k: u64| e[choose|i: int| 0 <= i < e.len() && e[i].0 == k].1,
    )
}

pub proof fn lemma_table_at<S>(e: Seq<(u64, S)>, i: int)
    requires
        ids_sorted(e),
        0 <= i < e.len(),
    ensures
        table_of(e).contains_key(e[i].0),
        table_of(e)[e[i].0] == e[i].1,
{
    let k = e[i].0;
    assert(holds_id(e, k));
    let j = choose|j: int| 0 <= j < e.len() && e[j].0 == k;
    if j < i {
        assert(e[j].0 < e[i].0);
    } else if i < j {
        assert(e[i].0 < e[j].0);
    }
}

proof fn lemma_table_push<S>(e: Seq<(u64, S)>, k: u64, s: S)
    requires
        ids_sorted(e),
        forall|i: int| 0 <= i < e.len() ==> e[i].0 < k,
    ensures
        ids_sorted(e.push((k, s))),
        table_of(e.push((k, s))) =~= table_of(e).insert(k, s),
{
    let f = e.push((k, s));
    assert(ids_sorted(f));
    assert forall|x: u64| #[trigger] table_of(f).contains_key(x) <==> table_of(e).insert(k, s).contains_key(x) by {
        if holds_id(f, x) && x != k {
            let i = choose|i: int| 0 <= i < f.len() && f[i].0 == x;
            assert(i < e.len());
            assert(e[i].0 == x);
        }
        if holds_id(e, x) {
            let i = choose|i: int| 0 <= i < e.len() && e[i].0 == x;
            assert(f[i].0 == x);
        }
        if x == k {
            assert(f[e.len() as int].0 == k);
        }
    }
    assert forall|x: u64| #[trigger] table_of(f).contains_key(x) implies table_of(f)[x] == table_of(e).insert(k, s)[x] by {
        if x == k {
            lemma_table_at(f, e.len() as int);
        } else {
            let i = choose|i: int| 0 <= i < f.len() && f[i].0 == x;
            assert(i < e.len());
            lemma_table_at(f, i);
            lemma_table_at(e, i);
        }
    }
}

proof fn lemma_table_remove<S>(e: Seq<(u64, S)>, i: int)
    requires
        ids_sorted(e),
        0 <= i < e.len(),
    ensures
        ids_sorted(e.remove(i)),
        table_of(e.remove(i)) =~= table_of(e).remove(e[i].0),
{
    let f = e.remove(i);
    let k = e[i].0;
    assert(ids_sorted(f)) by {
        assert forall|a: int, b: int| 0 <= a < b < f.len() implies f[a].0 < f[b].0 by {
            let a2 = if a < i { a } else { a + 1 };
            let b2 = if b < i { b } else { b + 1 };
            assert(f[a] == e[a2]);
            assert(f[b] == e[b2]);
        }
    }
    assert forall|x: u64| #[trigger] table_of(f).contains_key(x) <==> table_of(e).remove(k).contains_key(x) by {
        if holds_id(f, x) {
            let j = choose|j: int| 0 <= j < f.len() && f[j].0 == x;
            let j2 = if j < i { j } else { j + 1 };
            assert(f[j] == e[j2]);
            assert(j2 != i);
            if x == k {
                if j2 < i {
                    assert(e[j2].0 < e[i].0);
                } else {
                    assert(e[i].0 < e[j2].0);
                }
            }
        }
        if holds_id(e, x) && x != k {
            let j = choose|j: int| 0 <= j < e.len() && e[j].0 == x;
            assert(j != i);
            let j2 = if j < i { j } else { j - 1 };
            assert(f[j2] == e[j]);
        }
    }
    assert forall|x: u64| #[trigger] table_of(f).contains_key(x) implies table_of(f)[x] == table_of(e).remove(k)[x] by {
        let j = choose|j: int| 0 <= j < f.len() && f[j].0 == x;
        let j2 = if j < i { j } else { j + 1 };
        assert(f[j] == e[j2]);
        lemma_table_at(f, j);
        lemma_table_at(e, j2);
    }
}

/// Completion slots of the commands in flight, each under the id it was sent with.
pub struct PendingTable<S> {
    next_id: u64,
    entries: Vec<(u64, S)>,
}

impl<S> PendingTable<S> {
    /// The id that the next registration receives.
    pub closed spec fn next_id(&self) -> u64 {
        self.next_id
    }

    /// The slots in flight, by id.
    pub closed spec fn slots(&self) -> Map<u64, S> {
        table_of(self.entries@)
    }

    pub closed spec fn wf(&self) -> bool {
        &&& self.next_id >= 1
        &&& ids_sorted(self.entries@)
        &&& forall|i: int| 0 <= i < self.entries@.len() ==> 1 <= #[trigger] self.entries@[i].0 < self.next_id
    }

    /// Every id in flight was issued before: it is at least 1 and below the next one.
    pub proof fn lemma_ids_below_next(&self, k: u64)
        requires
            self.wf(),
            self.slots().contains_key(k),
        ensures
            1 <= k < self.next_id(),
    {
        let i = choose|i: int| 0 <= i < self.entries@.len() && self.entries@[i].0 == k;
        assert(1 <= self.entries@[i].0 < self.next_id);
    }

    /// An empty table; the first id issued is 1.
    pub fn new() -> (r: Self)
        ensures
            r.wf(),
            r.next_id() == 1,
            r.slots() == Map::<u64, S>::empty(),
    {
        let r = PendingTable { next_id: 1, entries: Vec::new() };
        assert(r.slots() =~= Map::<u64, S>::empty());
        r
    }

    /// The id that the next registration receives.
    pub fn peek_next_id(&self) -> (r: u64)
        ensures
            r == self.next_id(),
    {
        self.next_id
    }

    /// Whether every id has been issued.
    pub fn exhausted(&self) -> (r: bool)
        ensures
            r == (self.next_id() == u64::MAX),
    {
        self.next_id == u64::MAX
    }

    /// The number of slots in flight.
    pub fn len(&self) -> (r: usize)
        requires
            self.wf(),
        ensures
            r == self.slots().len(),
    {
        proof { self.lemma_len(); }
        self.entries.len()
    }

    proof fn lemma_len(&self)
        requires
            self.wf(),
        ensures
            self.slots().dom().finite(),
            self.slots().len() == self.entries@.len(),
        decreases self.entries@.len(),
    {
        lemma_table_len(self.entries@);
    }

    /// Files `slot` under a fresh id and returns that id.
    pub fn register(&mut self, slot: S) -> (id: u64)
        requires
            old(self).wf(),
            old(self).next_id() < u64::MAX,
        ensures
            final(self).wf(),
            id == old(self).next_id(),
            final(self).next_id() == id + 1,
            !old(self).slots().contains_key(id),
            final(self).slots() == old(self).slots().insert(id, slot),
    {
        let id = self.next_id;
        proof {
            lemma_table_push(self.entries@, id, slot);
            if self.slots().contains_key(id) {
                self.lemma_ids_below_next(id);
            }
        }
        self.entries.push((id, slot));
        self.next_id = id + 1;
        id
    }

    /// Removes the slot filed under `id`, if any, and hands it out.
    pub fn take(&mut self, id: u64) -> (r: Option<S>)
        requires
            old(self).wf(),
        ensures
            final(self).wf(),
            final(self).next_id() == old(self).next_id(),
            match r {
                Some(s) => old(self).slots().contains_key(id) && s == old(self).slots()[id],
                None => !old(self).slots().contains_key(id),
            },
            final(self).slots() == old(self).slots().remove(id),
    {
        let mut i: usize = 0;
        while i < self.entries.len()
            invariant
                self.wf(),
                self == old(self),
                0 <= i <= self.entries@.len(),
                forall|j: int| 0 <= j < i ==> self.entries@[j].0 != id,
            decreases self.entries@.len() - i,
        {
            if self.entries[i].0 == id {
                proof {
                    lemma_table_remove(self.entries@, i as int);
                    lemma_table_at(self.entries@, i as int);
                }
                let (_, slot) = self.entries.remove(i);
                return Some(slot);
            }
            i += 1;
        }
        proof {
            assert(!holds_id(self.entries@, id));
            assert(self.slots().remove(id) =~= self.slots());
        }
        None
    }

    /// Empties the table, handing out every slot with its id.
    pub fn drain(&mut self) -> (r: Vec<(u64, S)>)
        requires
            old(self).wf(),
        ensures
            final(self).wf(),
            final(self).next_id() == old(self).next_id(),
            final(self).slots() == Map::<u64, S>::empty(),
            table_of(r@) == old(self).slots(),
            ids_sorted(r@),
            r@.len() == old(self).slots().len(),
    {
        proof { self.lemma_len(); }
        let mut out: Vec<(u64, S)> = Vec::new();
        std::mem::swap(&mut out, &mut self.entries);
        assert(self.slots() =~= Map::<u64, S>::empty());
        out
    }
}

proof fn lemma_table_len<S>(e: Seq<(u64, S)>)
    requires
        ids_sorted(e),
    ensures
        table_of(e).dom().finite(),
        table_of(e).len() == e.len(),
    decreases e.len(),
{
    if e.len() == 0 {
        assert(table_of(e) =~= Map::<u64, S>::empty());
    } else {
        let f = e.drop_last();
        assert(ids_sorted(f));
        lemma_table_len(f);
        assert(e == f.push(e.last()));
        lemma_table_push(f, e.last().0, e.last().1);
        if table_of(f).contains_key(e.last().0) {
            let i = choose|i: int| 0 <= i < f.len() && f[i].0 == e.last().0;
            assert(e[i].0 < e[e.len() - 1].0);
        }
    }
}

} // verus!
