//! Delayed fields: values that are resolved at commit time by adding up the
//! deltas of the slots below, kept in a multi-version history of their own.

use vstd::prelude::*;
use crate::mvs::{find, lemma_find_at, ordered, position, Cell, VersionedStore};
use crate::types::{DelayedFieldId, TxnIndex};

verus! {

/// What the deltas below a reader slot add up to.
#[derive(Clone, Copy, Debug, PartialEq, Eq, Structural)]
pub enum Pending {
    /// Every delta below the reader is resolved; this is their sum.
    Total { sum: i128 },
    /// The lowest slot below the reader whose delta is an estimate.
    Dependency { txn_idx: TxnIndex },
}

/// The delta that a cell contributes to a sum: an absent cell and an
/// estimate contribute nothing.
pub open spec fn contribution(c: Option<Cell<i64>>) -> int {
    match c {
        Some(cell) => match cell.payload {
            Some(d) => d as int,
            None => 0,
        },
        None => 0,
    }
}

/// A cell that is an estimate.
pub open spec fn is_estimate<V>(c: Option<Cell<V>>) -> bool {
    c.is_some() && c.unwrap().payload.is_none()
}

/// The multi-version history of the delayed fields: per field, the delta
/// that each slot applied to it.
pub type DelayedFieldStore = VersionedStore<i64>;

impl VersionedStore<i64> {
    /// Sum of the deltas that the slots below `reader` applied to `id`.
    pub open spec fn total_below(&self, id: DelayedFieldId, reader: TxnIndex) -> int
        decreases reader,
    {
        if reader == 0 {
            0
        } else {
            let below = (reader - 1) as TxnIndex;
            self.total_below(id, below) + contribution(self.cell(id, below))
        }
    }

    /// No slot below `reader` holds an estimate for `id`.
    pub open spec fn resolved_below(&self, id: DelayedFieldId, reader: TxnIndex) -> bool {
        forall|j: TxnIndex| j < reader ==> !is_estimate(self.cell(id, j))
    }

    /// What a reader slot is told about the deltas below it.
    pub open spec fn pending_matches(
        &self,
        id: DelayedFieldId,
        reader: TxnIndex,
        r: Pending,
    ) -> bool {
        match r {
            Pending::Total { sum } => self.resolved_below(id, reader) && sum == self.total_below(
                id,
                reader,
            ),
            Pending::Dependency { txn_idx } => {
                &&& txn_idx < reader
                &&& is_estimate(self.cell(id, txn_idx))
                &&& self.resolved_below(id, txn_idx)
            },
        }
    }

    /// Two stores that agree on every cell of `id` below `reader` give the same sum.
    pub proof fn lemma_total_depends_on_cells_below(
        &self,
        other: &VersionedStore<i64>,
        id: DelayedFieldId,
        reader: TxnIndex,
    )
        requires
            forall|j: TxnIndex| j < reader ==> self.cell(id, j) == other.cell(id, j),
        ensures
            self.total_below(id, reader) == other.total_below(id, reader),
        decreases reader,
    {
        if reader > 0 {
            self.lemma_total_depends_on_cells_below(other, id, (reader - 1) as TxnIndex);
        }
    }

    /// A sum of deltas stays within `reader` times the range of one delta.
    pub proof fn lemma_total_bounds(&self, id: DelayedFieldId, reader: TxnIndex)
        ensures
            -(reader as int) * 0x8000_0000_0000_0000 <= self.total_below(id, reader) <= (
            reader as int) * 0x8000_0000_0000_0000,
        decreases reader,
    {
        if reader > 0 {
            self.lemma_total_bounds(id, (reader - 1) as TxnIndex);
            assert((reader as int) * 0x8000_0000_0000_0000 == (reader - 1)
                * 0x8000_0000_0000_0000 + 0x8000_0000_0000_0000) by (nonlinear_arith);
        }
    }

    /// Slots in `[from, to)` that hold nothing for `id` add nothing.
    pub proof fn lemma_total_skips_absent(&self, id: DelayedFieldId, from: TxnIndex, to: TxnIndex)
        requires
            from <= to,
            forall|j: TxnIndex| from <= j < to ==> self.cell(id, j).is_none(),
        ensures
            self.total_below(id, to) == self.total_below(id, from),
        decreases to - from,
    {
        if from < to {
            self.lemma_total_skips_absent(id, from, (to - 1) as TxnIndex);
        }
    }

    /// Adds up the deltas that the slots below `reader` applied to `id`. An
    /// estimate among them stops the sum: the reader depends on that slot.
    pub fn read_total(&self, id: DelayedFieldId, reader: TxnIndex) -> (r: Pending)
        requires
            self.wf(),
        ensures
            self.pending_matches(id, reader, r),
    {
        match self.history(id) {
            None => {
                proof {
                    self.lemma_total_skips_absent(id, 0, reader);
                }
                Pending::Total { sum: 0 }
            },
            Some(list) => {
                let end = position(list, reader);
                let mut sum: i128 = 0;
                let mut q: usize = 0;
                let ghost mut done: TxnIndex = 0;
                while q < end
                    invariant
                        self.wf(),
                        ordered(list@),
                        forall|i: TxnIndex| self.cell(id, i) == find(list@, i),
                        q <= end <= list.len(),
                        forall|k: int| 0 <= k < end ==> list[k].txn_idx < reader,
                        forall|k: int| end <= k < list.len() ==> list[k].txn_idx >= reader,
                        done <= reader,
                        forall|k: int| 0 <= k < q ==> list[k].txn_idx < done,
                        forall|k: int| q <= k < list.len() ==> list[k].txn_idx >= done,
                        sum == self.total_below(id, done),
                        self.resolved_below(id, done),
                    decreases end - q,
                {
                    let e = &list[q];
                    proof {
                        lemma_find_at(list@, q as int);
                        assert forall|j: TxnIndex| done <= j < e.txn_idx implies self.cell(
                            id,
                            j,
                        ).is_none() by {
                            if find(list@, j).is_some() {
                                let k = choose|k: int| 0 <= k < list@.len() && list@[k].txn_idx == j;
                                if k < q {
                                } else if k > q {
                                    assert(list@[q as int].txn_idx < list@[k].txn_idx);
                                }
                            }
                        }
                        self.lemma_total_skips_absent(id, done, e.txn_idx);
                        self.lemma_total_bounds(id, e.txn_idx);
                        assert((e.txn_idx as int) * 0x8000_0000_0000_0000 <= 0xffff_ffff
                            * 0x8000_0000_0000_0000) by (nonlinear_arith)
                            requires
                                e.txn_idx <= 0xffff_ffff,
                        ;
                    }
                    match e.payload {
                        None => {
                            return Pending::Dependency { txn_idx: e.txn_idx };
                        },
                        Some(d) => {
                            sum = sum + d as i128;
                        },
                    }
                    proof {
                        assert(self.total_below(id, (e.txn_idx + 1) as TxnIndex)
                            == self.total_below(id, e.txn_idx) + contribution(
                            self.cell(id, e.txn_idx),
                        ));
                        assert forall|k: int| q + 1 <= k < list.len() implies list[k].txn_idx
                            >= e.txn_idx + 1 by {
                            assert(list@[q as int].txn_idx < list@[k].txn_idx);
                        }
                        done = (e.txn_idx + 1) as TxnIndex;
                    }
                    q = q + 1;
                }
                proof {
                    assert forall|j: TxnIndex| done <= j < reader implies self.cell(
                        id,
                        j,
                    ).is_none() by {
                        if find(list@, j).is_some() {
                            let k = choose|k: int| 0 <= k < list@.len() && list@[k].txn_idx == j;
                        }
                    }
                    self.lemma_total_skips_absent(id, done, reader);
                }
                Pending::Total { sum }
            },
        }
    }
}

} // verus!
