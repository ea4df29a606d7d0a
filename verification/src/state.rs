//! The state that a block runs against: storage locations and delayed
//! fields, and what a transaction's output does to them.

use std::collections::HashMap;
use vstd::prelude::*;
use crate::types::{DelayedFieldId, StateKey, Value};

verus! {

broadcast use vstd::std_specs::hash::group_hash_axioms;

/// Mathematical model of a state: the content of every storage location
/// that exists, and the value of every delayed field that was ever set.
pub struct State {
    pub data: Map<StateKey, Value>,
    pub fields: Map<DelayedFieldId, u64>,
}

impl State {
    /// Content of a storage location, if it exists.
    pub open spec fn value(self, key: StateKey) -> Option<Value> {
        if self.data.contains_key(key) {
            Some(self.data[key])
        } else {
            None
        }
    }

    /// Value of a delayed field; a field that was never set is zero.
    pub open spec fn field(self, id: DelayedFieldId) -> int {
        if self.fields.contains_key(id) {
            self.fields[id] as int
        } else {
            0
        }
    }
}

/// In a list of `(key, item)` entries, the item of the last entry for `key`.
pub open spec fn last_entry<V>(entries: Seq<(u64, V)>, key: u64) -> Option<V>
    decreases entries.len(),
{
    if entries.len() == 0 {
        None
    } else if entries.last().0 == key {
        Some(entries.last().1)
    } else {
        last_entry(entries.drop_last(), key)
    }
}

/// Extending a list by one entry changes the answer for that entry's key only.
pub proof fn lemma_last_entry_push<V>(entries: Seq<(u64, V)>, e: (u64, V), key: u64)
    ensures
        last_entry(entries.push(e), key) == if e.0 == key {
            Some(e.1)
        } else {
            last_entry(entries, key)
        },
{
    assert(entries.push(e).drop_last() =~= entries);
}

/// Looks up the item of the last entry for `key`.
pub fn find_last_entry<V: Copy>(entries: &Vec<(u64, V)>, key: u64) -> (found: Option<V>)
    ensures
        found == last_entry(entries@, key),
{
    let mut found: Option<V> = None;
    let mut i: usize = 0;
    while i < entries.len()
        invariant
            i <= entries.len(),
            found == last_entry(entries@.take(i as int), key),
        decreases entries.len() - i,
    {
        proof {
            assert(entries@.take(i + 1) =~= entries@.take(i as int).push(entries@[i as int]));
            lemma_last_entry_push(entries@.take(i as int), entries@[i as int], key);
        }
        if entries[i].0 == key {
            found = Some(entries[i].1);
        }
        i = i + 1;
    }
    assert(entries@.take(entries.len() as int) =~= entries@);
    found
}

/// What one transaction produced: the storage locations it wrote and the
/// deltas it applied to delayed fields. Where a key or a field occurs more
/// than once, the last entry counts.
#[derive(Debug)]
pub struct TransactionOutput {
    pub writes: Vec<(StateKey, Value)>,
    pub deltas: Vec<(DelayedFieldId, i64)>,
}

/// Model of a [`TransactionOutput`].
pub struct OutputView {
    pub writes: Seq<(StateKey, Value)>,
    pub deltas: Seq<(DelayedFieldId, i64)>,
}

impl View for TransactionOutput {
    type V = OutputView;

    open spec fn view(&self) -> OutputView {
        OutputView { writes: self.writes@, deltas: self.deltas@ }
    }
}

impl TransactionOutput {
    /// An output that writes nothing.
    pub fn empty() -> (out: Self)
        ensures
            out@.writes.len() == 0,
            out@.deltas.len() == 0,
    {
        TransactionOutput { writes: Vec::new(), deltas: Vec::new() }
    }

    /// A copy of this output.
    pub fn duplicate(&self) -> (out: Self)
        ensures
            out@ == self@,
    {
        let mut writes: Vec<(StateKey, Value)> = Vec::new();
        let mut i: usize = 0;
        while i < self.writes.len()
            invariant
                i <= self.writes.len(),
                writes@ == self.writes@.take(i as int),
            decreases self.writes.len() - i,
        {
            writes.push(self.writes[i]);
            assert(self.writes@.take(i + 1) =~= self.writes@.take(i as int).push(
                self.writes@[i as int],
            ));
            i = i + 1;
        }
        let mut deltas: Vec<(DelayedFieldId, i64)> = Vec::new();
        let mut j: usize = 0;
        while j < self.deltas.len()
            invariant
                j <= self.deltas.len(),
                deltas@ == self.deltas@.take(j as int),
            decreases self.deltas.len() - j,
        {
            deltas.push(self.deltas[j]);
            assert(self.deltas@.take(j + 1) =~= self.deltas@.take(j as int).push(
                self.deltas@[j as int],
            ));
            j = j + 1;
        }
        assert(writes@ =~= self.writes@);
        assert(deltas@ =~= self.deltas@);
        TransactionOutput { writes, deltas }
    }
}

/// A delayed field holds values from zero to `u64::MAX`.
pub open spec fn in_field_range(v: int) -> bool {
    0 <= v <= u64::MAX
}

/// Applying the delta entry to the state keeps its field within range.
pub open spec fn fits(s: State, e: (DelayedFieldId, i64)) -> bool {
    in_field_range(s.field(e.0) + e.1)
}

/// The output can be applied to the state: every delta that it lists keeps
/// its field within range.
pub open spec fn applicable(s: State, out: OutputView) -> bool {
    forall|p: int| 0 <= p < out.deltas.len() ==> fits(s, #[trigger] out.deltas[p])
}

/// Content of a location after the writes: the last write to it, else what
/// the state held.
pub open spec fn written_value(s: State, writes: Seq<(StateKey, Value)>, key: StateKey) -> Option<
    Value,
> {
    match last_entry(writes, key) {
        Some(v) => Some(v),
        None => s.value(key),
    }
}

/// Value of a field after the deltas, if the field is set then: its old
/// value moved by the last delta listed for it.
pub open spec fn moved_field(s: State, deltas: Seq<(DelayedFieldId, i64)>, id: DelayedFieldId) -> Option<
    u64,
> {
    match last_entry(deltas, id) {
        Some(d) => Some((s.field(id) + d) as u64),
        None => if s.fields.contains_key(id) {
            Some(s.fields[id])
        } else {
            None
        },
    }
}

/// The state after the output has been applied to it.
pub open spec fn apply(s: State, out: OutputView) -> State {
    State {
        data: Map::new(
            |k: StateKey| written_value(s, out.writes, k).is_some(),
            |k: StateKey| written_value(s, out.writes, k).unwrap(),
        ),
        fields: Map::new(
            |id: DelayedFieldId| moved_field(s, out.deltas, id).is_some(),
            |id: DelayedFieldId| moved_field(s, out.deltas, id).unwrap(),
        ),
    }
}

/// What applying an output does, location by location and field by field.
pub proof fn lemma_apply_pointwise(s: State, out: OutputView)
    requires
        applicable(s, out),
    ensures
        forall|k: StateKey| #[trigger] apply(s, out).value(k) == written_value(s, out.writes, k),
        forall|id: DelayedFieldId| #[trigger]
            apply(s, out).field(id) == s.field(id) + match last_entry(out.deltas, id) {
                Some(d) => d as int,
                None => 0,
            },
{
    assert forall|id: DelayedFieldId| #[trigger]
        apply(s, out).field(id) == s.field(id) + match last_entry(out.deltas, id) {
            Some(d) => d as int,
            None => 0,
        } by {
        lemma_last_entry_at(out.deltas, id);
        if last_entry(out.deltas, id).is_some() {
            let p = choose|p: int|
                0 <= p < out.deltas.len() && out.deltas[p].0 == id && last_entry(out.deltas, id)
                    == Some(out.deltas[p].1);
            assert(fits(s, out.deltas[p]));
        }
    }
}

/// The last entry for a key, when there is one, stands at some position of the list.
pub proof fn lemma_last_entry_at<V>(entries: Seq<(u64, V)>, key: u64)
    ensures
        last_entry(entries, key).is_some() ==> exists|p: int|
            0 <= p < entries.len() && entries[p].0 == key && last_entry(entries, key) == Some(
                entries[p].1,
            ),
    decreases entries.len(),
{
    if entries.len() > 0 {
        if entries.last().0 == key {
            let p = entries.len() - 1;
            assert(entries[p].0 == key && last_entry(entries, key) == Some(entries[p].1));
        } else {
            lemma_last_entry_at(entries.drop_last(), key);
            if last_entry(entries, key).is_some() {
                let p = choose|p: int|
                    0 <= p < entries.drop_last().len() && entries.drop_last()[p].0 == key
                        && last_entry(entries.drop_last(), key) == Some(entries.drop_last()[p].1);
                assert(entries[p].0 == key && last_entry(entries, key) == Some(entries[p].1));
            }
        }
    }
}

/// Executable state: the store that a block starts from and that its
/// committed outputs are applied to.
pub struct StateStore {
    data: HashMap<StateKey, Value>,
    fields: HashMap<DelayedFieldId, u64>,
}

impl View for StateStore {
    type V = State;

    closed spec fn view(&self) -> State {
        State { data: self.data@, fields: self.fields@ }
    }
}

impl StateStore {
    /// A store in which nothing exists.
    pub fn new() -> (s: Self)
        ensures
            s@.data == Map::<StateKey, Value>::empty(),
            s@.fields == Map::<DelayedFieldId, u64>::empty(),
    {
        StateStore { data: HashMap::new(), fields: HashMap::new() }
    }

    /// A copy of the store.
    pub fn duplicate(&self) -> (s: Self)
        ensures
            s@ == self@,
    {
        StateStore { data: self.data.clone(), fields: self.fields.clone() }
    }

    /// Content of a storage location, if it exists.
    pub fn get(&self, key: StateKey) -> (r: Option<Value>)
        ensures
            r == self@.value(key),
    {
        match self.data.get(&key) {
            Some(v) => Some(*v),
            None => None,
        }
    }

    /// Value of a delayed field; zero if it was never set.
    pub fn field(&self, id: DelayedFieldId) -> (r: u64)
        ensures
            r == self@.field(id),
    {
        match self.fields.get(&id) {
            Some(v) => *v,
            None => 0,
        }
    }

    /// Sets the content of a storage location.
    pub fn set(&mut self, key: StateKey, value: Value)
        ensures
            final(self)@.data == old(self)@.data.insert(key, value),
            final(self)@.fields == old(self)@.fields,
    {
        self.data.insert(key, value);
    }

    /// Sets the value of a delayed field.
    pub fn set_field(&mut self, id: DelayedFieldId, value: u64)
        ensures
            final(self)@.fields == old(self)@.fields.insert(id, value),
            final(self)@.data == old(self)@.data,
    {
        self.fields.insert(id, value);
    }

    /// Tells whether the output can be applied: whether each delta that it
    /// lists keeps its field within range.
    pub fn accepts(&self, out: &TransactionOutput) -> (ok: bool)
        ensures
            ok == applicable(self@, out@),
    {
        let mut p: usize = 0;
        while p < out.deltas.len()
            invariant
                p <= out.deltas.len(),
                forall|q: int| 0 <= q < p ==> fits(self@, #[trigger] out.deltas[q]),
            decreases out.deltas.len() - p,
        {
            let e = out.deltas[p];
            let current = self.field(e.0);
            let sum: i128 = current as i128 + e.1 as i128;
            if sum < 0 || sum > u64::MAX as i128 {
                assert(!fits(self@, out@.deltas[p as int]));
                return false;
            }
            p = p + 1;
        }
        true
    }

    /// Applies an output: each written location takes its new content, each
    /// delayed field moves by its delta.
    pub fn apply(&mut self, out: &TransactionOutput)
        requires
            applicable(old(self)@, out@),
        ensures
            final(self)@ == apply(old(self)@, out@),
    {
        let ghost before = self@;
        let mut resolved: Vec<(DelayedFieldId, u64)> = Vec::new();
        let mut p: usize = 0;
        while p < out.deltas.len()
            invariant
                p <= out.deltas.len(),
                self@ == before,
                applicable(before, out@),
                resolved.len() == p,
                forall|q: int|
                    0 <= q < p ==> (#[trigger] resolved[q]).0 == out.deltas[q].0 && resolved[q].1
                        == before.field(out.deltas[q].0) + out.deltas[q].1,
            decreases out.deltas.len() - p,
        {
            let e = out.deltas[p];
            let current = self.field(e.0);
            assert(fits(before, out@.deltas[p as int]));
            let sum: i128 = current as i128 + e.1 as i128;
            resolved.push((e.0, sum as u64));
            p = p + 1;
        }
        let mut w: usize = 0;
        while w < out.writes.len()
            invariant
                w <= out.writes.len(),
                self@.fields == before.fields,
                forall|k: StateKey|
                    self@.value(k) == #[trigger] written_value(
                        before,
                        out.writes@.take(w as int),
                        k,
                    ),
            decreases out.writes.len() - w,
        {
            let e = out.writes[w];
            let ghost prev = self@;
            self.data.insert(e.0, e.1);
            proof {
                assert(out.writes@.take(w + 1) =~= out.writes@.take(w as int).push(e));
                assert forall|k: StateKey|
                    self@.value(k) == #[trigger] written_value(
                        before,
                        out.writes@.take(w + 1),
                        k,
                    ) by {
                    lemma_last_entry_push(out.writes@.take(w as int), e, k);
                    assert(prev.value(k) == written_value(before, out.writes@.take(w as int), k));
                }
            }
            w = w + 1;
        }
        assert(out.writes@.take(out.writes.len() as int) =~= out.writes@);
        let ghost mid = self@;
        let mut f: usize = 0;
        while f < resolved.len()
            invariant
                f <= resolved.len(),
                resolved.len() == out.deltas.len(),
                self@.data == mid.data,
                forall|q: int|
                    0 <= q < resolved.len() ==> (#[trigger] resolved[q]).0 == out.deltas[q].0
                        && resolved[q].1 == before.field(out.deltas[q].0) + out.deltas[q].1,
                forall|id: DelayedFieldId|
                    (if self@.fields.contains_key(id) {
                        Some(self@.fields[id])
                    } else {
                        None
                    }) == #[trigger] moved_field(before, out.deltas@.take(f as int), id),
            decreases resolved.len() - f,
        {
            let e = resolved[f];
            let ghost prev = self@;
            self.fields.insert(e.0, e.1);
            proof {
                let d = out.deltas@[f as int];
                assert(out.deltas@.take(f + 1) =~= out.deltas@.take(f as int).push(d));
                assert forall|id: DelayedFieldId|
                    (if self@.fields.contains_key(id) {
                        Some(self@.fields[id])
                    } else {
                        None
                    }) == #[trigger] moved_field(before, out.deltas@.take(f + 1), id) by {
                    lemma_last_entry_push(out.deltas@.take(f as int), d, id);
                    assert((if prev.fields.contains_key(id) {
                        Some(prev.fields[id])
                    } else {
                        None
                    }) == moved_field(before, out.deltas@.take(f as int), id));
                }
            }
            f = f + 1;
        }
        proof {
            assert(out.deltas@.take(out.deltas.len() as int) =~= out.deltas@);
            let target = apply(before, out@);
            assert forall|k: StateKey| self@.data.contains_key(k) == target.data.contains_key(
                k,
            ) && (self@.data.contains_key(k) ==> self@.data[k] == target.data[k]) by {
                assert(mid.value(k) == written_value(before, out.writes@, k));
            }
            assert forall|id: DelayedFieldId|
                self@.fields.contains_key(id) == target.fields.contains_key(id) && (
                self@.fields.contains_key(id) ==> self@.fields[id] == target.fields[id]) by {
                assert((if self@.fields.contains_key(id) {
                    Some(self@.fields[id])
                } else {
                    None
                }) == moved_field(before, out.deltas@, id));
            }
            assert(self@.data =~= target.data);
            assert(self@.fields =~= target.fields);
        }
    }
}

} // verus!
