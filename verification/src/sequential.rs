//! The reference that every way of executing a block is measured against:
//! the transactions run one at a time, in index order.

use vstd::prelude::*;
use crate::delayed::DelayedFieldStore;
use crate::mvs::VersionedStore;
use crate::state::{
    applicable, apply, last_entry, lemma_apply_pointwise, OutputView, State, StateStore,
    TransactionOutput,
};
use crate::task::{
    reads_hold_in, ExecutionStatus, ExecutorTask, LatestView, ReadDescriptor, Snapshot, StatusView,
};
use crate::types::{DelayedFieldId, TxnIndex, Value};

verus! {

/// How the execution of a block ended.
#[derive(Debug)]
pub enum Ending {
    /// Every transaction was committed.
    Completed,
    /// A transaction ended the block; it is the last one committed.
    Truncated,
    /// A transaction failed for good; the status is the one it ended in.
    Failed(ExecutionStatus),
    /// The caller called the execution off.
    Cancelled,
}

/// Model of an [`Ending`].
pub enum EndingView {
    Completed,
    Truncated,
    Failed(StatusView),
    Cancelled,
}

impl View for Ending {
    type V = EndingView;

    open spec fn view(&self) -> EndingView {
        match self {
            Ending::Completed => EndingView::Completed,
            Ending::Truncated => EndingView::Truncated,
            Ending::Failed(status) => EndingView::Failed(status@),
            Ending::Cancelled => EndingView::Cancelled,
        }
    }
}

/// What the execution of a block hands back: the outputs of the committed
/// transactions, in index order, and how the execution ended.
#[derive(Debug)]
pub struct BlockOutput {
    pub outputs: Vec<TransactionOutput>,
    pub ending: Ending,
}

/// The outputs of a list of transactions, as models.
pub open spec fn output_views(outputs: Seq<TransactionOutput>) -> Seq<OutputView> {
    outputs.map_values(|o: TransactionOutput| o@)
}

/// The text of the failure of an output whose deltas leave the range of a delayed field.
pub open spec fn range_violation() -> Seq<char> {
    "delayed field out of range"@
}

/// How far a sequential execution has come: the outputs committed so far,
/// the state they led to, and the ending once there is one.
pub struct Course {
    pub outputs: Seq<OutputView>,
    pub state: State,
    pub ending: Option<EndingView>,
}

/// One step of the sequential execution: what the status of the next
/// transaction, run on the state of a course that has not ended, makes of it.
pub open spec fn advance(c: Course, status: StatusView) -> Course {
    match status {
        StatusView::Success(out) => if applicable(c.state, out) {
            Course { outputs: c.outputs.push(out), state: apply(c.state, out), ending: None }
        } else {
            Course {
                ending: Some(
                    EndingView::Failed(
                        StatusView::DelayedFieldsCodeInvariantError(range_violation()),
                    ),
                ),
                ..c
            }
        },
        StatusView::SkipRest(out) => if applicable(c.state, out) {
            Course {
                outputs: c.outputs.push(out),
                state: apply(c.state, out),
                ending: Some(EndingView::Truncated),
            }
        } else {
            Course {
                ending: Some(
                    EndingView::Failed(
                        StatusView::DelayedFieldsCodeInvariantError(range_violation()),
                    ),
                ),
                ..c
            }
        },
        failure => Course { ending: Some(EndingView::Failed(failure)), ..c },
    }
}

/// The sequential execution of the first `n` transactions of a block on `base`.
pub open spec fn course<E: ExecutorTask>(txns: Seq<E::Txn>, base: State, n: nat) -> Course
    decreases n,
{
    if n == 0 {
        Course { outputs: Seq::empty(), state: base, ending: None }
    } else {
        let before = course::<E>(txns, base, (n - 1) as nat);
        if before.ending.is_some() {
            before
        } else {
            advance(before, E::outcome(txns[n - 1], before.state))
        }
    }
}

/// The sequential execution of a whole block on `base`.
pub open spec fn sequential<E: ExecutorTask>(txns: Seq<E::Txn>, base: State) -> Course {
    let c = course::<E>(txns, base, txns.len());
    Course {
        ending: Some(
            match c.ending {
                Some(e) => e,
                None => EndingView::Completed,
            },
        ),
        ..c
    }
}

/// A course that has ended stays as it is.
pub proof fn lemma_course_ended<E: ExecutorTask>(txns: Seq<E::Txn>, base: State, k: nat, n: nat)
    requires
        k <= n,
        course::<E>(txns, base, k).ending.is_some(),
    ensures
        course::<E>(txns, base, n) == course::<E>(txns, base, k),
    decreases n,
{
    if k < n {
        lemma_course_ended::<E>(txns, base, k, (n - 1) as nat);
    }
}

/// A course that has not ended committed one output for each transaction.
pub proof fn lemma_course_running<E: ExecutorTask>(txns: Seq<E::Txn>, base: State, n: nat)
    requires
        course::<E>(txns, base, n).ending.is_none(),
    ensures
        course::<E>(txns, base, n).outputs.len() == n,
        forall|k: nat| k <= n ==> (#[trigger] course::<E>(txns, base, k)).ending.is_none(),
    decreases n,
{
    if n > 0 {
        let before = course::<E>(txns, base, (n - 1) as nat);
        lemma_course_running::<E>(txns, base, (n - 1) as nat);
    }
}

/// The delta that an output applies to a delayed field; nothing where it lists none.
pub open spec fn delta_of(out: OutputView, id: DelayedFieldId) -> int {
    match last_entry(out.deltas, id) {
        Some(d) => d as int,
        None => 0,
    }
}

/// Sum of the deltas that a list of outputs applies to a delayed field,
/// taken in the order of the list.
pub open spec fn delta_sum(outputs: Seq<OutputView>, id: DelayedFieldId) -> int
    decreases outputs.len(),
{
    if outputs.len() == 0 {
        0
    } else {
        delta_sum(outputs.drop_last(), id) + delta_of(outputs.last(), id)
    }
}

/// Delayed fields add up: after any number of transactions, the value of a
/// delayed field is its value in the base state plus the sum of the deltas
/// of the committed outputs, in index order. No delta is lost, whatever
/// else the transactions did.
pub proof fn lemma_field_is_sum_of_deltas<E: ExecutorTask>(
    txns: Seq<E::Txn>,
    base: State,
    n: nat,
    id: DelayedFieldId,
)
    ensures
        course::<E>(txns, base, n).state.field(id) == base.field(id) + delta_sum(
            course::<E>(txns, base, n).outputs,
            id,
        ),
    decreases n,
{
    if n > 0 {
        let before = course::<E>(txns, base, (n - 1) as nat);
        lemma_field_is_sum_of_deltas::<E>(txns, base, (n - 1) as nat, id);
        if before.ending.is_none() {
            let status = E::outcome(txns[n - 1], before.state);
            match status.output() {
                Some(out) => {
                    if applicable(before.state, out) {
                        lemma_apply_pointwise(before.state, out);
                        assert(before.outputs.push(out).drop_last() =~= before.outputs);
                    }
                },
                None => {},
            }
        }
    } else {
        assert(delta_sum(Seq::<OutputView>::empty(), id) == 0);
    }
}

/// Truncation: a transaction that ends the block is the last one
/// committed. The outputs are those of the transactions up to it, it
/// included, and the state is the one that they lead to: nothing of a later
/// transaction is in it.
pub proof fn lemma_truncation<E: ExecutorTask>(txns: Seq<E::Txn>, base: State, k: nat)
    requires
        k < txns.len(),
        course::<E>(txns, base, k).ending.is_none(),
        E::outcome(txns[k as int], course::<E>(txns, base, k).state) is SkipRest,
        applicable(
            course::<E>(txns, base, k).state,
            E::outcome(txns[k as int], course::<E>(txns, base, k).state).output().unwrap(),
        ),
    ensures
        sequential::<E>(txns, base).outputs.len() == k + 1,
        sequential::<E>(txns, base).outputs == course::<E>(txns, base, k).outputs.push(
            E::outcome(txns[k as int], course::<E>(txns, base, k).state).output().unwrap(),
        ),
        sequential::<E>(txns, base).state == apply(
            course::<E>(txns, base, k).state,
            E::outcome(txns[k as int], course::<E>(txns, base, k).state).output().unwrap(),
        ),
        sequential::<E>(txns, base).ending == Some(EndingView::Truncated),
{
    lemma_course_running::<E>(txns, base, k);
    let next = course::<E>(txns, base, k + 1);
    assert(next == advance(
        course::<E>(txns, base, k),
        E::outcome(txns[k as int], course::<E>(txns, base, k).state),
    ));
    lemma_course_ended::<E>(txns, base, k + 1, txns.len());
}

/// Every transaction that the sequential execution commits without ending
/// the block with it is one whose change set can be resolved after
/// execution: a transaction that cannot never succeeds plainly.
pub proof fn lemma_committed_are_capable<E: ExecutorTask>(
    txns: Seq<E::Txn>,
    base: State,
    n: nat,
    i: int,
)
    requires
        0 <= i < n,
        course::<E>(txns, base, n).ending.is_none(),
    ensures
        E::dynamic_change_set_capable(txns[i]),
    decreases n,
{
    lemma_course_running::<E>(txns, base, n);
    let before = course::<E>(txns, base, (n - 1) as nat);
    assert(before.ending.is_none());
    if i == n - 1 {
        E::lemma_success_is_capable(txns[i], before.state);
    } else {
        lemma_committed_are_capable::<E>(txns, base, (n - 1) as nat, i);
    }
}

/// Reads made on empty multi-version stores are reads of the base state.
pub proof fn lemma_reads_of_base(source: Snapshot<'_>, reads: Seq<ReadDescriptor>)
    requires
        forall|k: u64, i: TxnIndex| source.data.cell(k, i).is_none(),
        forall|k: u64, i: TxnIndex| source.fields.cell(k, i).is_none(),
        forall|p: int| 0 <= p < reads.len() ==> source.reports(#[trigger] reads[p]),
    ensures
        reads_hold_in(reads, source.base@),
{
    assert forall|p: int| 0 <= p < reads.len() implies (#[trigger] reads[p]).holds_in(
        source.base@,
    ) by {
        assert(source.reports(reads[p]));
        match reads[p] {
            ReadDescriptor::Data { key, observed } => {
                source.data.lemma_latest_of_absent(key, source.reader);
            },
            ReadDescriptor::Field { id, observed } => {
                source.fields.lemma_total_skips_absent(id, 0, source.reader);
            },
        }
    }
}

/// Runs the block one transaction at a time, in index order, applying each
/// output to `base` before the next transaction runs.
pub fn execute_sequentially<E: ExecutorTask>(
    executor: &E,
    txns: &Vec<E::Txn>,
    base: &mut StateStore,
) -> (result: BlockOutput)
    requires
        txns.len() <= u32::MAX,
    ensures
        output_views(result.outputs@) == sequential::<E>(txns@, old(base)@).outputs,
        final(base)@ == sequential::<E>(txns@, old(base)@).state,
        Some(result.ending@) == sequential::<E>(txns@, old(base)@).ending,
{
    let ghost start = base@;
    let data: VersionedStore<Value> = VersionedStore::new();
    let fields: DelayedFieldStore = VersionedStore::new();
    let mut outputs: Vec<TransactionOutput> = Vec::new();
    let mut i: usize = 0;
    assert(output_views(outputs@) =~= Seq::<OutputView>::empty());
    while i < txns.len()
        invariant
            i <= txns.len() <= u32::MAX,
            start == old(base)@,
            data.wf(),
            fields.wf(),
            forall|k: u64, j: TxnIndex| data.cell(k, j).is_none(),
            forall|k: u64, j: TxnIndex| fields.cell(k, j).is_none(),
            course::<E>(txns@, start, i as nat) == (Course {
                outputs: output_views(outputs@),
                state: base@,
                ending: None,
            }),
        decreases txns.len() - i,
    {
        let source = Snapshot { data: &data, fields: &fields, base: &*base, reader: i as TxnIndex };
        let mut view = LatestView::new(source);
        let status = executor.execute_transaction(&mut view, &txns[i], i as TxnIndex);
        let reads = view.into_reads();
        proof {
            lemma_reads_of_base(source, reads@);
            assert(status@ == E::outcome(txns@[i as int], base@));
        }
        let ghost before = course::<E>(txns@, start, i as nat);
        let ghost after = course::<E>(txns@, start, (i + 1) as nat);
        assert(after == advance(before, status@));
        match status {
            ExecutionStatus::Success(out) => {
                if base.accepts(&out) {
                    base.apply(&out);
                    proof {
                        assert(output_views(outputs@.push(out)) =~= output_views(outputs@).push(
                            out@,
                        ));
                    }
                    outputs.push(out);
                } else {
                    proof {
                        lemma_course_ended::<E>(txns@, start, (i + 1) as nat, txns@.len());
                    }
                    return BlockOutput {
                        outputs,
                        ending: Ending::Failed(
                            ExecutionStatus::DelayedFieldsCodeInvariantError(range_failure()),
                        ),
                    };
                }
            },
            ExecutionStatus::SkipRest(out) => {
                proof {
                    lemma_course_ended::<E>(txns@, start, (i + 1) as nat, txns@.len());
                }
                if base.accepts(&out) {
                    base.apply(&out);
                    proof {
                        assert(output_views(outputs@.push(out)) =~= output_views(outputs@).push(
                            out@,
                        ));
                    }
                    outputs.push(out);
                    return BlockOutput { outputs, ending: Ending::Truncated };
                } else {
                    return BlockOutput {
                        outputs,
                        ending: Ending::Failed(
                            ExecutionStatus::DelayedFieldsCodeInvariantError(range_failure()),
                        ),
                    };
                }
            },
            failure => {
                proof {
                    lemma_course_ended::<E>(txns@, start, (i + 1) as nat, txns@.len());
                }
                return BlockOutput { outputs, ending: Ending::Failed(failure) };
            },
        }
        i = i + 1;
    }
    BlockOutput { outputs, ending: Ending::Completed }
}

/// The text of the failure of an output whose deltas leave the range of a delayed field.
pub fn range_failure() -> (message: String)
    ensures
        message@ == range_violation(),
{
    "delayed field out of range".to_owned()
}

} // verus!
