//! Multi-version store: per key, the speculative records written by the slots
//! of a block, ordered by slot.

use std::collections::HashMap;
use vstd::prelude::*;
use crate::state::{last_entry, lemma_last_entry_push};
use crate::types::{Incarnation, TxnIndex};

verus! {

broadcast use vstd::std_specs::hash::group_hash_axioms;

/// What one slot holds for one key: the incarnation that wrote it and the
/// payload, or no payload when the record is an estimate (a write that is
/// expected but not resolved).
pub struct Cell<V> {
    pub incarnation: Incarnation,
    pub payload: Option<V>,
}

/// A record of a per-key history.
pub struct Entry<V> {
    pub txn_idx: TxnIndex,
    pub incarnation: Incarnation,
    pub payload: Option<V>,
}

/// Result of looking a key up on behalf of a reader slot.
#[derive(Debug)]
pub enum Lookup<V> {
    /// The closest lower slot holding the key wrote this payload.
    Versioned { txn_idx: TxnIndex, incarnation: Incarnation, payload: V },
    /// The closest lower slot holding the key has an unresolved write.
    Dependency { txn_idx: TxnIndex },
    /// No lower slot holds the key.
    Uninitialized,
}

/// Entries are ordered by strictly increasing slot.
pub open spec fn ordered<V>(s: Seq<Entry<V>>) -> bool {
    forall|i: int, j: int| 0 <= i < j < s.len() ==> s[i].txn_idx < s[j].txn_idx
}

/// The record of slot `idx` in a history, if there is one.
pub open spec fn find<V>(s: Seq<Entry<V>>, idx: TxnIndex) -> Option<Cell<V>> {
    if exists|p: int| 0 <= p < s.len() && s[p].txn_idx == idx {
        let p = choose|p: int| 0 <= p < s.len() && s[p].txn_idx == idx;
        Some(Cell { incarnation: s[p].incarnation, payload: s[p].payload })
    } else {
        None
    }
}

pub proof fn lemma_find_at<V>(s: Seq<Entry<V>>, p: int)
    requires
        ordered(s),
        0 <= p < s.len(),
    ensures
        find(s, s[p].txn_idx) == Some(cell_of(s[p])),
{
    let idx = s[p].txn_idx;
    let q = choose|q: int| 0 <= q < s.len() && s[q].txn_idx == idx;
    assert(q == p) by {
        if q < p {
            assert(s[q].txn_idx < s[p].txn_idx);
        } else if p < q {
            assert(s[p].txn_idx < s[q].txn_idx);
        }
    }
}

/// The cell that an entry stands for.
pub open spec fn cell_of<V>(e: Entry<V>) -> Cell<V> {
    Cell { incarnation: e.incarnation, payload: e.payload }
}

proof fn lemma_find_replace<V>(s: Seq<Entry<V>>, p: int, e: Entry<V>)
    requires
        ordered(s),
        0 <= p < s.len(),
        e.txn_idx == s[p].txn_idx,
    ensures
        ordered(s.update(p, e)),
        forall|i: TxnIndex|
            find(s.update(p, e), i) == if i == e.txn_idx {
                Some(cell_of(e))
            } else {
                find(s, i)
            },
{
    let t = s.update(p, e);
    assert(ordered(t)) by {
        assert forall|i: int, j: int| 0 <= i < j < t.len() implies t[i].txn_idx
            < t[j].txn_idx by {
            assert(s[i].txn_idx < s[j].txn_idx);
        }
    }
    assert forall|i: TxnIndex|
        find(t, i) == if i == e.txn_idx {
            Some(cell_of(e))
        } else {
            find(s, i)
        } by {
        if i == e.txn_idx {
            lemma_find_at(t, p);
        } else if exists|q: int| 0 <= q < s.len() && s[q].txn_idx == i {
            let q = choose|q: int| 0 <= q < s.len() && s[q].txn_idx == i;
            assert(t[q] == s[q]);
            lemma_find_at(s, q);
            lemma_find_at(t, q);
        } else {
            if exists|q: int| 0 <= q < t.len() && t[q].txn_idx == i {
                let q = choose|q: int| 0 <= q < t.len() && t[q].txn_idx == i;
                assert(s[q].txn_idx == i);
            }
        }
    }
}

proof fn lemma_find_insert<V>(s: Seq<Entry<V>>, p: int, e: Entry<V>)
    requires
        ordered(s),
        0 <= p <= s.len(),
        forall|q: int| 0 <= q < p ==> s[q].txn_idx < e.txn_idx,
        forall|q: int| p <= q < s.len() ==> s[q].txn_idx > e.txn_idx,
    ensures
        ordered(s.insert(p, e)),
        forall|i: TxnIndex|
            find(s.insert(p, e), i) == if i == e.txn_idx {
                Some(cell_of(e))
            } else {
                find(s, i)
            },
{
    let t = s.insert(p, e);
    assert(ordered(t)) by {
        assert forall|i: int, j: int| 0 <= i < j < t.len() implies t[i].txn_idx
            < t[j].txn_idx by {
            if j < p {
                assert(s[i].txn_idx < s[j].txn_idx);
            } else if j == p {
            } else if i < p {
                assert(t[j] == s[j - 1]);
            } else if i == p {
                assert(t[j] == s[j - 1]);
            } else {
                assert(s[i - 1].txn_idx < s[j - 1].txn_idx);
            }
        }
    }
    assert forall|i: TxnIndex|
        find(t, i) == if i == e.txn_idx {
            Some(cell_of(e))
        } else {
            find(s, i)
        } by {
        if i == e.txn_idx {
            lemma_find_at(t, p);
        } else if exists|q: int| 0 <= q < s.len() && s[q].txn_idx == i {
            let q = choose|q: int| 0 <= q < s.len() && s[q].txn_idx == i;
            let q2 = if q < p { q } else { q + 1 };
            assert(t[q2] == s[q]);
            lemma_find_at(s, q);
            lemma_find_at(t, q2);
        } else {
            if exists|q: int| 0 <= q < t.len() && t[q].txn_idx == i {
                let q = choose|q: int| 0 <= q < t.len() && t[q].txn_idx == i;
                if q < p {
                    assert(s[q].txn_idx == i);
                } else {
                    assert(s[q - 1].txn_idx == i);
                }
            }
        }
    }
}

proof fn lemma_find_remove<V>(s: Seq<Entry<V>>, p: int)
    requires
        ordered(s),
        0 <= p < s.len(),
    ensures
        ordered(s.remove(p)),
        forall|i: TxnIndex|
            find(s.remove(p), i) == if i == s[p].txn_idx {
                None
            } else {
                find(s, i)
            },
{
    let t = s.remove(p);
    assert(ordered(t)) by {
        assert forall|i: int, j: int| 0 <= i < j < t.len() implies t[i].txn_idx
            < t[j].txn_idx by {
            let i2 = if i < p { i } else { i + 1 };
            let j2 = if j < p { j } else { j + 1 };
            assert(s[i2].txn_idx < s[j2].txn_idx);
        }
    }
    assert forall|i: TxnIndex|
        find(t, i) == if i == s[p].txn_idx {
            None
        } else {
            find(s, i)
        } by {
        if i == s[p].txn_idx {
            if exists|q: int| 0 <= q < t.len() && t[q].txn_idx == i {
                let q = choose|q: int| 0 <= q < t.len() && t[q].txn_idx == i;
                let q2 = if q < p { q } else { q + 1 };
                assert(t[q] == s[q2]);
                if q2 < p {
                    assert(s[q2].txn_idx < s[p].txn_idx);
                } else {
                    assert(s[p].txn_idx < s[q2].txn_idx);
                }
            }
        } else if exists|q: int| 0 <= q < s.len() && s[q].txn_idx == i {
            let q = choose|q: int| 0 <= q < s.len() && s[q].txn_idx == i;
            let q2 = if q < p { q } else { q - 1 };
            assert(t[q2] == s[q]);
            lemma_find_at(s, q);
            lemma_find_at(t, q2);
        } else {
            if exists|q: int| 0 <= q < t.len() && t[q].txn_idx == i {
                let q = choose|q: int| 0 <= q < t.len() && t[q].txn_idx == i;
                let q2 = if q < p { q } else { q + 1 };
                assert(s[q2].txn_idx == i);
            }
        }
    }
}

proof fn lemma_find_absent<V>(s: Seq<Entry<V>>, p: int, idx: TxnIndex)
    requires
        ordered(s),
        0 <= p <= s.len(),
        forall|q: int| 0 <= q < p ==> s[q].txn_idx < idx,
        forall|q: int| p <= q < s.len() ==> s[q].txn_idx > idx,
    ensures
        find(s, idx).is_none(),
{
}

/// Position of the first entry whose slot is not below `idx`.
pub fn position<V: Copy>(list: &Vec<Entry<V>>, idx: TxnIndex) -> (p: usize)
    requires
        ordered(list@),
    ensures
        p <= list.len(),
        forall|q: int| 0 <= q < p ==> list[q].txn_idx < idx,
        forall|q: int| p <= q < list.len() ==> list[q].txn_idx >= idx,
{
    let mut p: usize = 0;
    while p < list.len() && list[p].txn_idx < idx
        invariant
            p <= list.len(),
            ordered(list@),
            forall|q: int| 0 <= q < p ==> list[q].txn_idx < idx,
        decreases list.len() - p,
    {
        p = p + 1;
    }
    assert forall|q: int| p <= q < list.len() implies list[q].txn_idx >= idx by {
        if p < q {
            assert(list[p as int].txn_idx < list[q].txn_idx);
        }
    }
    p
}

/// The multi-version store. `V` is the payload that a slot writes for a key.
pub struct VersionedStore<V> {
    table: HashMap<u64, Vec<Entry<V>>>,
}

impl<V: Copy> VersionedStore<V> {
    /// Every per-key history is ordered by slot.
    pub closed spec fn wf(&self) -> bool {
        forall|k: u64| #[trigger] self.table@.contains_key(k) ==> ordered(self.table@[k]@)
    }

    /// The record that slot `idx` holds for `key`.
    pub closed spec fn cell(&self, key: u64, idx: TxnIndex) -> Option<Cell<V>> {
        if self.table@.contains_key(key) {
            find(self.table@[key]@, idx)
        } else {
            None
        }
    }

    /// Slot `idx` is the highest slot below `reader` that holds `key`.
    pub open spec fn is_latest_below(&self, key: u64, reader: TxnIndex, idx: TxnIndex) -> bool {
        &&& idx < reader
        &&& self.cell(key, idx).is_some()
        &&& forall|j: TxnIndex| idx < j < reader ==> self.cell(key, j).is_none()
    }

    /// No slot below `reader` holds `key`.
    pub open spec fn none_below(&self, key: u64, reader: TxnIndex) -> bool {
        forall|j: TxnIndex| j < reader ==> self.cell(key, j).is_none()
    }

    /// What a reader slot sees for a key.
    pub open spec fn lookup_matches(&self, key: u64, reader: TxnIndex, r: Lookup<V>) -> bool {
        match r {
            Lookup::Versioned { txn_idx, incarnation, payload } => {
                &&& self.is_latest_below(key, reader, txn_idx)
                &&& self.cell(key, txn_idx) == Some(Cell { incarnation, payload: Some(payload) })
            },
            Lookup::Dependency { txn_idx } => {
                &&& self.is_latest_below(key, reader, txn_idx)
                &&& self.cell(key, txn_idx).unwrap().payload.is_none()
            },
            Lookup::Uninitialized => self.none_below(key, reader),
        }
    }

    /// What slot `reader` sees for `key`: the record of the highest slot
    /// strictly below it that holds the key.
    pub open spec fn latest(&self, key: u64, reader: TxnIndex) -> Lookup<V>
        decreases reader,
    {
        if reader == 0 {
            Lookup::Uninitialized
        } else {
            let below = (reader - 1) as TxnIndex;
            match self.cell(key, below) {
                Some(c) => match c.payload {
                    Some(payload) => Lookup::Versioned {
                        txn_idx: below,
                        incarnation: c.incarnation,
                        payload,
                    },
                    None => Lookup::Dependency { txn_idx: below },
                },
                None => self.latest(key, below),
            }
        }
    }

    /// A lookup result that fits the store is the one that `latest` gives.
    pub proof fn lemma_latest_characterized(&self, key: u64, reader: TxnIndex, r: Lookup<V>)
        requires
            self.lookup_matches(key, reader, r),
        ensures
            r == self.latest(key, reader),
        decreases reader,
    {
        if reader > 0 {
            let below = (reader - 1) as TxnIndex;
            if self.cell(key, below).is_none() {
                self.lemma_latest_characterized(key, below, r);
            }
        }
    }

    /// What a reader sees was written by a slot below it.
    pub proof fn lemma_latest_is_below(&self, key: u64, reader: TxnIndex)
        ensures
            match self.latest(key, reader) {
                Lookup::Versioned { txn_idx, .. } => txn_idx < reader,
                Lookup::Dependency { txn_idx } => txn_idx < reader,
                Lookup::Uninitialized => true,
            },
        decreases reader,
    {
        if reader > 0 {
            self.lemma_latest_is_below(key, (reader - 1) as TxnIndex);
        }
    }

    /// A payload that a reader sees is what the slot holds that it is read from.
    pub proof fn lemma_latest_is_held(&self, key: u64, reader: TxnIndex)
        ensures
            match self.latest(key, reader) {
                Lookup::Versioned { txn_idx, incarnation, payload } => self.cell(key, txn_idx)
                    == Some(Cell { incarnation, payload: Some(payload) }),
                Lookup::Dependency { txn_idx } => self.cell(key, txn_idx).is_some() && self.cell(
                    key,
                    txn_idx,
                ).unwrap().payload.is_none(),
                Lookup::Uninitialized => true,
            },
        decreases reader,
    {
        if reader > 0 {
            self.lemma_latest_is_held(key, (reader - 1) as TxnIndex);
        }
    }

    /// A reader below which no slot holds the key sees nothing.
    pub proof fn lemma_latest_of_absent(&self, key: u64, reader: TxnIndex)
        requires
            self.none_below(key, reader),
        ensures
            self.latest(key, reader) == Lookup::<V>::Uninitialized,
        decreases reader,
    {
        if reader > 0 {
            self.lemma_latest_of_absent(key, (reader - 1) as TxnIndex);
        }
    }

    /// Two stores that agree on every cell of `key` below `reader` show the
    /// reader the same.
    pub proof fn lemma_latest_depends_on_cells_below(
        &self,
        other: &VersionedStore<V>,
        key: u64,
        reader: TxnIndex,
    )
        requires
            forall|j: TxnIndex| j < reader ==> self.cell(key, j) == other.cell(key, j),
        ensures
            self.latest(key, reader) == other.latest(key, reader),
        decreases reader,
    {
        if reader > 0 {
            self.lemma_latest_depends_on_cells_below(other, key, (reader - 1) as TxnIndex);
        }
    }

    /// An empty store.
    pub fn new() -> (s: Self)
        ensures
            s.wf(),
            forall|k: u64, i: TxnIndex| s.cell(k, i).is_none(),
    {
        VersionedStore { table: HashMap::new() }
    }

    /// The whole history of `key`, ordered by slot.
    pub fn history(&self, key: u64) -> (r: Option<&Vec<Entry<V>>>)
        requires
            self.wf(),
        ensures
            match r {
                Some(list) => ordered(list@) && forall|i: TxnIndex|
                    self.cell(key, i) == find(list@, i),
                None => forall|i: TxnIndex| self.cell(key, i).is_none(),
            },
    {
        self.table.get(&key)
    }

    /// Looks `key` up on behalf of slot `reader`: the record of the highest
    /// slot strictly below `reader` that holds the key decides.
    pub fn read(&self, key: u64, reader: TxnIndex) -> (r: Lookup<V>)
        requires
            self.wf(),
        ensures
            r == self.latest(key, reader),
    {
        let r = self.find_latest(key, reader);
        proof {
            self.lemma_latest_characterized(key, reader, r);
        }
        r
    }

    fn find_latest(&self, key: u64, reader: TxnIndex) -> (r: Lookup<V>)
        requires
            self.wf(),
        ensures
            self.lookup_matches(key, reader, r),
    {
        match self.table.get(&key) {
            None => Lookup::Uninitialized,
            Some(list) => {
                let p = position(list, reader);
                if p == 0 {
                    assert forall|j: TxnIndex| j < reader implies self.cell(key, j).is_none() by {
                        if find(list@, j).is_some() {
                            let q = choose|q: int| 0 <= q < list@.len() && list@[q].txn_idx == j;
                            assert(list@[q].txn_idx >= reader);
                        }
                    }
                    Lookup::Uninitialized
                } else {
                    let e = &list[p - 1];
                    proof {
                        lemma_find_at(list@, p - 1);
                        assert forall|j: TxnIndex| e.txn_idx < j < reader implies self.cell(
                            key,
                            j,
                        ).is_none() by {
                            if find(list@, j).is_some() {
                                let q = choose|q: int|
                                    0 <= q < list@.len() && list@[q].txn_idx == j;
                                if q < p - 1 {
                                    assert(list@[q].txn_idx < list@[p - 1].txn_idx);
                                }
                            }
                        }
                    }
                    match e.payload {
                        Some(payload) => Lookup::Versioned {
                            txn_idx: e.txn_idx,
                            incarnation: e.incarnation,
                            payload,
                        },
                        None => Lookup::Dependency { txn_idx: e.txn_idx },
                    }
                }
            },
        }
    }

    /// Takes the history of `key` out of the table, leaving every other key as it was.
    fn take_history(&mut self, key: u64) -> (list: Vec<Entry<V>>)
        requires
            old(self).wf(),
        ensures
            ordered(list@),
            forall|i: TxnIndex| find(list@, i) == old(self).cell(key, i),
            !final(self).table@.contains_key(key),
            final(self).table@ == old(self).table@.remove(key),
    {
        match self.table.remove(&key) {
            Some(list) => list,
            None => Vec::new(),
        }
    }

    /// Puts a history back under `key`.
    fn put_history(&mut self, key: u64, list: Vec<Entry<V>>)
        requires
            ordered(list@),
            forall|k: u64| #[trigger]
                old(self).table@.contains_key(k) && k != key ==> ordered(old(self).table@[k]@),
        ensures
            final(self).wf(),
            final(self).table@ == old(self).table@.insert(key, list),
            forall|i: TxnIndex| final(self).cell(key, i) == find(list@, i),
    {
        self.table.insert(key, list);
    }

    /// Installs the payload that incarnation `incarnation` of slot `txn_idx`
    /// wrote for `key`, in place of whatever the slot held for the key before.
    pub fn write(&mut self, key: u64, txn_idx: TxnIndex, incarnation: Incarnation, payload: V)
        requires
            old(self).wf(),
        ensures
            final(self).wf(),
            final(self).cell(key, txn_idx) == Some(
                Cell { incarnation, payload: Some(payload) },
            ),
            forall|k: u64, i: TxnIndex|
                k != key || i != txn_idx ==> final(self).cell(k, i) == old(self).cell(k, i),
    {
        let ghost before = *self;
        let mut list = self.take_history(key);
        let ghost taken = list@;
        let p = position(&list, txn_idx);
        let e = Entry { txn_idx, incarnation, payload: Some(payload) };
        if p < list.len() && list[p].txn_idx == txn_idx {
            proof {
                lemma_find_replace(taken, p as int, e);
            }
            list.set(p, e);
        } else {
            proof {
                lemma_find_insert(taken, p as int, e);
            }
            list.insert(p, e);
        }
        self.put_history(key, list);
        assert forall|k: u64, i: TxnIndex| k != key || i != txn_idx implies self.cell(k, i)
            == before.cell(k, i) by {
            if k != key {
                assert(self.table@.contains_key(k) == before.table@.contains_key(k));
            }
        }
    }

    /// Turns the record of slot `txn_idx` for `key` into an estimate, so that
    /// readers above it are told to wait instead of seeing a stale payload.
    /// A slot that holds nothing for the key is left alone.
    pub fn mark_estimate(&mut self, key: u64, txn_idx: TxnIndex)
        requires
            old(self).wf(),
        ensures
            final(self).wf(),
            final(self).cell(key, txn_idx) == match old(self).cell(key, txn_idx) {
                Some(c) => Some(Cell::<V> { incarnation: c.incarnation, payload: None }),
                None => None,
            },
            forall|k: u64, i: TxnIndex|
                k != key || i != txn_idx ==> final(self).cell(k, i) == old(self).cell(k, i),
    {
        let ghost before = *self;
        let mut list = self.take_history(key);
        let ghost taken = list@;
        let p = position(&list, txn_idx);
        if p < list.len() && list[p].txn_idx == txn_idx {
            let e = Entry { txn_idx, incarnation: list[p].incarnation, payload: None };
            proof {
                lemma_find_at(taken, p as int);
                lemma_find_replace(taken, p as int, e);
            }
            list.set(p, e);
        } else {
            proof {
                lemma_find_absent(taken, p as int, txn_idx);
            }
        }
        self.put_history(key, list);
        assert forall|k: u64, i: TxnIndex| k != key || i != txn_idx implies self.cell(k, i)
            == before.cell(k, i) by {
            if k != key {
                assert(self.table@.contains_key(k) == before.table@.contains_key(k));
            }
        }
    }

    /// Drops the record of slot `txn_idx` for `key`.
    pub fn remove(&mut self, key: u64, txn_idx: TxnIndex)
        requires
            old(self).wf(),
        ensures
            final(self).wf(),
            final(self).cell(key, txn_idx).is_none(),
            forall|k: u64, i: TxnIndex|
                k != key || i != txn_idx ==> final(self).cell(k, i) == old(self).cell(k, i),
    {
        let ghost before = *self;
        let mut list = self.take_history(key);
        let ghost taken = list@;
        let p = position(&list, txn_idx);
        if p < list.len() && list[p].txn_idx == txn_idx {
            proof {
                lemma_find_remove(taken, p as int);
            }
            list.remove(p);
        } else {
            proof {
                lemma_find_absent(taken, p as int, txn_idx);
            }
        }
        self.put_history(key, list);
        assert forall|k: u64, i: TxnIndex| k != key || i != txn_idx implies self.cell(k, i)
            == before.cell(k, i) by {
            if k != key {
                assert(self.table@.contains_key(k) == before.table@.contains_key(k));
            }
        }
    }

    /// The record as an estimate: the same incarnation, without its payload.
    pub open spec fn estimate_of(c: Option<Cell<V>>) -> Option<Cell<V>> {
        match c {
            Some(cell) => Some(Cell::<V> { incarnation: cell.incarnation, payload: None }),
            None => None,
        }
    }

    /// Installs everything that one incarnation of a slot wrote. Where a key
    /// occurs more than once in `entries`, the last entry counts.
    pub fn write_all(
        &mut self,
        txn_idx: TxnIndex,
        incarnation: Incarnation,
        entries: &Vec<(u64, V)>,
    )
        requires
            old(self).wf(),
        ensures
            final(self).wf(),
            forall|k: u64|
                final(self).cell(k, txn_idx) == match #[trigger] last_entry(entries@, k) {
                    Some(v) => Some(Cell { incarnation, payload: Some(v) }),
                    None => old(self).cell(k, txn_idx),
                },
            forall|k: u64, i: TxnIndex|
                i != txn_idx ==> final(self).cell(k, i) == old(self).cell(k, i),
    {
        let mut p: usize = 0;
        while p < entries.len()
            invariant
                p <= entries.len(),
                self.wf(),
                forall|k: u64|
                    self.cell(k, txn_idx) == match #[trigger] last_entry(
                        entries@.take(p as int),
                        k,
                    ) {
                        Some(v) => Some(Cell { incarnation, payload: Some(v) }),
                        None => old(self).cell(k, txn_idx),
                    },
                forall|k: u64, i: TxnIndex|
                    i != txn_idx ==> self.cell(k, i) == old(self).cell(k, i),
            decreases entries.len() - p,
        {
            let key = entries[p].0;
            let payload = entries[p].1;
            let ghost prev = *self;
            self.write(key, txn_idx, incarnation, payload);
            proof {
                assert(entries@.take(p + 1) =~= entries@.take(p as int).push(entries@[p as int]));
                assert forall|k: u64|
                    self.cell(k, txn_idx) == match #[trigger] last_entry(entries@.take(p + 1), k) {
                        Some(v) => Some(Cell { incarnation, payload: Some(v) }),
                        None => old(self).cell(k, txn_idx),
                    } by {
                    lemma_last_entry_push(entries@.take(p as int), entries@[p as int], k);
                    assert(prev.cell(k, txn_idx) == match last_entry(entries@.take(p as int), k) {
                        Some(v) => Some(Cell { incarnation, payload: Some(v) }),
                        None => old(self).cell(k, txn_idx),
                    });
                }
            }
            p = p + 1;
        }
        assert(entries@.take(entries.len() as int) =~= entries@);
    }

    /// Turns what a slot holds for the keys of `entries` into estimates.
    pub fn mark_estimates(&mut self, txn_idx: TxnIndex, entries: &Vec<(u64, V)>)
        requires
            old(self).wf(),
        ensures
            final(self).wf(),
            forall|k: u64|
                final(self).cell(k, txn_idx) == if (#[trigger] last_entry(entries@, k)).is_some() {
                    Self::estimate_of(old(self).cell(k, txn_idx))
                } else {
                    old(self).cell(k, txn_idx)
                },
            forall|k: u64, i: TxnIndex|
                i != txn_idx ==> final(self).cell(k, i) == old(self).cell(k, i),
    {
        let mut p: usize = 0;
        while p < entries.len()
            invariant
                p <= entries.len(),
                self.wf(),
                forall|k: u64|
                    self.cell(k, txn_idx) == if (#[trigger] last_entry(
                        entries@.take(p as int),
                        k,
                    )).is_some() {
                        Self::estimate_of(old(self).cell(k, txn_idx))
                    } else {
                        old(self).cell(k, txn_idx)
                    },
                forall|k: u64, i: TxnIndex|
                    i != txn_idx ==> self.cell(k, i) == old(self).cell(k, i),
            decreases entries.len() - p,
        {
            let key = entries[p].0;
            let ghost prev = *self;
            self.mark_estimate(key, txn_idx);
            proof {
                assert(entries@.take(p + 1) =~= entries@.take(p as int).push(entries@[p as int]));
                assert forall|k: u64|
                    self.cell(k, txn_idx) == if (#[trigger] last_entry(
                        entries@.take(p + 1),
                        k,
                    )).is_some() {
                        Self::estimate_of(old(self).cell(k, txn_idx))
                    } else {
                        old(self).cell(k, txn_idx)
                    } by {
                    lemma_last_entry_push(entries@.take(p as int), entries@[p as int], k);
                    assert(prev.cell(k, txn_idx) == if last_entry(
                        entries@.take(p as int),
                        k,
                    ).is_some() {
                        Self::estimate_of(old(self).cell(k, txn_idx))
                    } else {
                        old(self).cell(k, txn_idx)
                    });
                }
            }
            p = p + 1;
        }
        assert(entries@.take(entries.len() as int) =~= entries@);
    }

    /// Drops what a slot holds for the keys of `entries`.
    pub fn remove_all(&mut self, txn_idx: TxnIndex, entries: &Vec<(u64, V)>)
        requires
            old(self).wf(),
        ensures
            final(self).wf(),
            forall|k: u64|
                final(self).cell(k, txn_idx) == if (#[trigger] last_entry(entries@, k)).is_some() {
                    None
                } else {
                    old(self).cell(k, txn_idx)
                },
            forall|k: u64, i: TxnIndex|
                i != txn_idx ==> final(self).cell(k, i) == old(self).cell(k, i),
    {
        let mut p: usize = 0;
        while p < entries.len()
            invariant
                p <= entries.len(),
                self.wf(),
                forall|k: u64|
                    self.cell(k, txn_idx) == if (#[trigger] last_entry(
                        entries@.take(p as int),
                        k,
                    )).is_some() {
                        None
                    } else {
                        old(self).cell(k, txn_idx)
                    },
                forall|k: u64, i: TxnIndex|
                    i != txn_idx ==> self.cell(k, i) == old(self).cell(k, i),
            decreases entries.len() - p,
        {
            let key = entries[p].0;
            let ghost prev = *self;
            self.remove(key, txn_idx);
            proof {
                assert(entries@.take(p + 1) =~= entries@.take(p as int).push(entries@[p as int]));
                assert forall|k: u64|
                    self.cell(k, txn_idx) == if (#[trigger] last_entry(
                        entries@.take(p + 1),
                        k,
                    )).is_some() {
                        None
                    } else {
                        old(self).cell(k, txn_idx)
                    } by {
                    lemma_last_entry_push(entries@.take(p as int), entries@[p as int], k);
                    assert(prev.cell(k, txn_idx) == if last_entry(
                        entries@.take(p as int),
                        k,
                    ).is_some() {
                        None
                    } else {
                        old(self).cell(k, txn_idx)
                    });
                }
            }
            p = p + 1;
        }
        assert(entries@.take(entries.len() as int) =~= entries@);
    }
}

} // verus!
