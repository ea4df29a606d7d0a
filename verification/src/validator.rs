//! The validator: checks a recorded read-set against what the stores
//! report now.

use vstd::prelude::*;
use crate::state::StateStore;
use crate::task::{reads_hold_in, DataRead, FieldRead, ReadDescriptor, Snapshot};
use crate::types::TxnIndex;

verus! {

/// Every entry of the read-set still stands.
pub open spec fn all_confirmed(source: Snapshot<'_>, reads: Seq<ReadDescriptor>) -> bool {
    forall|p: int| 0 <= p < reads.len() ==> source.confirms(#[trigger] reads[p])
}

/// Checks one entry of a read-set: reads the same location again on behalf
/// of the same slot and compares. A read of a storage location stands if the
/// same version with the same content, or the same base content, is
/// observed. A read of a delayed field stands if the same value, or the same
/// answer to the same question about its bounds, comes back, whatever the
/// deltas below have become. An entry that recorded a dependency never stands.
pub fn validate_read(source: &Snapshot<'_>, d: &ReadDescriptor) -> (ok: bool)
    requires
        source.wf(),
    ensures
        ok == source.confirms(*d),
{
    match *d {
        ReadDescriptor::Data { key, observed } => {
            match observed {
                DataRead::Dependency { .. } => false,
                _ => {
                    let now = source.read_data(key);
                    now.same(&observed)
                },
            }
        },
        ReadDescriptor::Field { id, observed } => {
            match observed {
                FieldRead::Dependency { .. } => false,
                FieldRead::Value { value } => {
                    match source.read_field(id) {
                        FieldRead::Value { value: now } => now == value,
                        _ => false,
                    }
                },
                FieldRead::Bound { delta, limit, within } => {
                    match source.check_field_bound(id, delta, limit) {
                        FieldRead::Bound { within: now, .. } => now == within,
                        _ => false,
                    }
                },
            }
        },
    }
}

/// Validates a read-set on behalf of the slot that recorded it: valid
/// exactly if every entry still stands.
pub fn validate_read_set(source: &Snapshot<'_>, reads: &Vec<ReadDescriptor>) -> (ok: bool)
    requires
        source.wf(),
    ensures
        ok == all_confirmed(*source, reads@),
{
    let mut p: usize = 0;
    while p < reads.len()
        invariant
            p <= reads.len(),
            source.wf(),
            forall|q: int| 0 <= q < p ==> source.confirms(#[trigger] reads@[q]),
        decreases reads.len() - p,
    {
        if !validate_read(source, &reads[p]) {
            assert(!source.confirms(reads@[p as int]));
            return false;
        }
        p = p + 1;
    }
    true
}

/// Checks a read-set against a state: whether a transaction that runs on
/// the state alone would observe every entry of it.
pub fn reads_hold(reads: &Vec<ReadDescriptor>, state: &StateStore) -> (ok: bool)
    ensures
        ok == reads_hold_in(reads@, state@),
{
    let mut p: usize = 0;
    while p < reads.len()
        invariant
            p <= reads.len(),
            forall|q: int| 0 <= q < p ==> (#[trigger] reads@[q]).holds_in(state@),
        decreases reads.len() - p,
    {
        let holds = match reads[p] {
            ReadDescriptor::Data { key, observed } => match observed {
                DataRead::Versioned { value, .. } => match state.get(key) {
                    Some(now) => now == value,
                    None => false,
                },
                DataRead::Storage { value } => match (state.get(key), value) {
                    (Some(now), Some(then)) => now == then,
                    (None, None) => true,
                    _ => false,
                },
                DataRead::Dependency { .. } => false,
            },
            ReadDescriptor::Field { id, observed } => match observed {
                FieldRead::Value { value } => state.field(id) as i128 == value,
                FieldRead::Bound { delta, limit, within } => {
                    let moved: i128 = state.field(id) as i128 + delta as i128;
                    within == (0 <= moved && moved <= limit as i128)
                },
                FieldRead::Dependency { .. } => false,
            },
        };
        if !holds {
            assert(!reads@[p as int].holds_in(state@));
            return false;
        }
        p = p + 1;
    }
    true
}

/// The lowest slot that an entry of the read-set waits for, if any entry
/// recorded a dependency: the first such entry decides.
pub fn first_dependency(reads: &Vec<ReadDescriptor>) -> (blocker: Option<TxnIndex>)
    ensures
        match blocker {
            Some(b) => exists|p: int|
                0 <= p < reads.len() && (#[trigger] reads[p]).is_dependency() && blocker_of(
                    reads[p],
                ) == Some(b) && forall|q: int| 0 <= q < p ==> !(#[trigger] reads[q]).is_dependency(),
            None => forall|p: int| 0 <= p < reads.len() ==> !(#[trigger] reads[p]).is_dependency(),
        },
{
    let mut p: usize = 0;
    while p < reads.len()
        invariant
            p <= reads.len(),
            forall|q: int| 0 <= q < p ==> !(#[trigger] reads[q]).is_dependency(),
        decreases reads.len() - p,
    {
        match reads[p] {
            ReadDescriptor::Data { observed: DataRead::Dependency { txn_idx }, .. } => {
                assert(reads[p as int].is_dependency() && blocker_of(reads[p as int]) == Some(
                    txn_idx,
                ));
                return Some(txn_idx);
            },
            ReadDescriptor::Field { observed: FieldRead::Dependency { txn_idx }, .. } => {
                assert(reads[p as int].is_dependency() && blocker_of(reads[p as int]) == Some(
                    txn_idx,
                ));
                return Some(txn_idx);
            },
            _ => {},
        }
        p = p + 1;
    }
    None
}

/// The slot that a read waits for, if it recorded a dependency.
pub open spec fn blocker_of(d: ReadDescriptor) -> Option<TxnIndex> {
    match d {
        ReadDescriptor::Data { observed: DataRead::Dependency { txn_idx }, .. } => Some(txn_idx),
        ReadDescriptor::Field { observed: FieldRead::Dependency { txn_idx }, .. } => Some(txn_idx),
        _ => None,
    }
}

/// What a read reports depends on the base state and on what the slots
/// below the reader hold for the location or the field that was read, and
/// on nothing else.
pub proof fn lemma_report_depends_on_what_was_read(
    a: Snapshot<'_>,
    b: Snapshot<'_>,
    d: ReadDescriptor,
)
    requires
        a.reader == b.reader,
        a.base@ == b.base@,
        match d {
            ReadDescriptor::Data { key, .. } => forall|i: TxnIndex|
                i < a.reader ==> a.data.cell(key, i) == b.data.cell(key, i),
            ReadDescriptor::Field { id, .. } => forall|i: TxnIndex|
                i < a.reader ==> a.fields.cell(id, i) == b.fields.cell(id, i),
        },
    ensures
        a.reports(d) == b.reports(d),
{
    match d {
        ReadDescriptor::Data { key, observed } => {
            a.data.lemma_latest_depends_on_cells_below(b.data, key, a.reader);
        },
        ReadDescriptor::Field { id, observed } => {
            a.fields.lemma_total_depends_on_cells_below(b.fields, id, a.reader);
            assert(a.fields.resolved_below(id, a.reader) == b.fields.resolved_below(id, a.reader));
            match observed {
                FieldRead::Dependency { txn_idx } => {
                    if txn_idx < a.reader {
                        assert(a.fields.resolved_below(id, txn_idx) == b.fields.resolved_below(
                            id,
                            txn_idx,
                        ));
                    }
                },
                _ => {},
            }
        },
    }
}

/// What a reader observes depends on the base state and on what the slots
/// below it hold, and on nothing else.
pub proof fn lemma_reports_frame(a: Snapshot<'_>, b: Snapshot<'_>, d: ReadDescriptor)
    requires
        a.reader == b.reader,
        a.base@ == b.base@,
        forall|k: u64, i: TxnIndex| i < a.reader ==> a.data.cell(k, i) == b.data.cell(k, i),
        forall|k: u64, i: TxnIndex| i < a.reader ==> a.fields.cell(k, i) == b.fields.cell(k, i),
    ensures
        a.reports(d) == b.reports(d),
{
    lemma_report_depends_on_what_was_read(a, b, d);
}

/// The entry reads the delayed field `id`.
pub open spec fn reads_field(d: ReadDescriptor, id: u64) -> bool {
    match d {
        ReadDescriptor::Data { .. } => false,
        ReadDescriptor::Field { id: read, .. } => read == id,
    }
}

/// Deltas do not disturb those who do not look: whatever deltas the slots
/// below apply to a delayed field, and in whatever order they come and go,
/// a read-set that holds no read of that field stands exactly as it did.
/// A transaction that only adds to a field, without reading it, therefore
/// never makes another that does the same run again.
pub proof fn lemma_deltas_disturb_only_their_readers(
    a: Snapshot<'_>,
    b: Snapshot<'_>,
    reads: Seq<ReadDescriptor>,
    id: u64,
)
    requires
        a.reader == b.reader,
        a.base@ == b.base@,
        forall|k: u64, i: TxnIndex| i < a.reader ==> a.data.cell(k, i) == b.data.cell(k, i),
        forall|k: u64, i: TxnIndex|
            k != id && i < a.reader ==> a.fields.cell(k, i) == b.fields.cell(k, i),
        forall|p: int| 0 <= p < reads.len() ==> !reads_field(#[trigger] reads[p], id),
    ensures
        all_confirmed(a, reads) == all_confirmed(b, reads),
{
    assert forall|p: int| 0 <= p < reads.len() implies a.confirms(#[trigger] reads[p])
        == b.confirms(reads[p]) by {
        assert(!reads_field(reads[p], id));
        lemma_report_depends_on_what_was_read(a, b, reads[p]);
    }
}

} // verus!
