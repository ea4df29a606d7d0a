//! The block executor: runs the slots of a block speculatively against the
//! multi-version stores, validates what they read, and commits them in
//! index order.

use vstd::prelude::*;
use crate::delayed::{contribution, DelayedFieldStore};
use crate::mvs::{Cell, VersionedStore};
use crate::scheduler::{holds_result, Scheduler, Slot, SlotState, Slots, Task};
use crate::sequential::{
    advance, course, lemma_course_ended, output_views, range_failure, sequential, BlockOutput,
    Course, Ending, EndingView,
};
use crate::state::{
    applicable, apply, fits, last_entry, lemma_apply_pointwise, written_value, State, StateStore,
    TransactionOutput,
};
use crate::task::{
    decided_by_reads, reads_hold_in, ExecutionStatus, ExecutorTask, LatestView, ReadDescriptor,
    Snapshot, StatusView,
};
use crate::types::{DelayedFieldId, Incarnation, StateKey, TxnIndex, Value, Version};
use crate::validator::{
    all_confirmed, blocker_of, first_dependency, lemma_reports_frame, validate_read_set,
};

verus! {

/// What the last finished execution of a slot left behind.
pub struct Record {
    pub status: ExecutionStatus,
    pub reads: Vec<ReadDescriptor>,
    pub incarnation: Incarnation,
}

/// What a slot holds in a multi-version store for a key, given the entry
/// of its recorded output for that key: the payload while the incarnation
/// stands, an estimate once it is void, nothing where it wrote nothing.
pub open spec fn expected<V>(entry: Option<V>, incarnation: Incarnation, live: bool) -> Option<
    Cell<V>,
> {
    match entry {
        Some(v) => Some(
            Cell {
                incarnation,
                payload: if live {
                    Some(v)
                } else {
                    None
                },
            },
        ),
        None => None,
    }
}

/// The transactions that a list of references refers to.
pub open spec fn referred<T>(refs: Seq<&T>) -> Seq<T> {
    Seq::new(refs.len(), |i: int| *refs[i])
}

/// The executor of one block.
pub struct BlockExecutor<'a, E: ExecutorTask> {
    executor: E,
    txns: Vec<&'a E::Txn>,
    base: StateStore,
    data: VersionedStore<Value>,
    fields: DelayedFieldStore,
    scheduler: Scheduler,
    records: Vec<Record>,
    ending: Option<Ending>,
}

impl<'a, E: ExecutorTask> BlockExecutor<'a, E> {
    /// The transactions of the block.
    pub closed spec fn txns(&self) -> Seq<E::Txn> {
        referred(self.txns@)
    }

    /// The state that the block started from.
    pub closed spec fn base(&self) -> State {
        self.base@
    }

    /// The slots of the block.
    pub closed spec fn slots(&self) -> Slots {
        self.scheduler@
    }

    /// The status that the last finished execution of slot `i` ended in.
    pub closed spec fn status(&self, i: int) -> StatusView {
        self.records@[i].status@
    }

    /// The read-set of the last finished execution of slot `i`.
    pub closed spec fn reads(&self, i: int) -> Seq<ReadDescriptor> {
        self.records@[i].reads@
    }

    /// The incarnation of the last finished execution of slot `i`.
    pub closed spec fn recorded_incarnation(&self, i: int) -> Incarnation {
        self.records@[i].incarnation
    }

    /// How the block ended, once it has.
    pub closed spec fn ending(&self) -> Option<EndingView> {
        match self.ending {
            Some(e) => Some(e@),
            None => None,
        }
    }

    /// What slot `reader` executes against.
    pub closed spec fn source(&self, reader: TxnIndex) -> Snapshot<'_> {
        Snapshot { data: &self.data, fields: &self.fields, base: &self.base, reader }
    }

    /// What slot `i` holds for a storage location in the multi-version store.
    pub closed spec fn data_cell(&self, key: StateKey, i: TxnIndex) -> Option<Cell<Value>> {
        self.data.cell(key, i)
    }

    /// What slot `i` holds for a delayed field in the multi-version store.
    pub closed spec fn field_cell(&self, id: DelayedFieldId, i: TxnIndex) -> Option<Cell<i64>> {
        self.fields.cell(id, i)
    }

    /// The sequential execution of the first `n` transactions of the block.
    pub open spec fn course(&self, n: nat) -> Course {
        course::<E>(self.txns(), self.base(), n)
    }

    /// Number of slots.
    pub open spec fn len(&self) -> nat {
        self.txns().len()
    }

    /// The slot holds the result of its current incarnation.
    pub open spec fn live(&self, i: int) -> bool {
        holds_result(self.slots().slots[i].state)
    }

    /// The multi-version stores hold for slot `i` what its record says.
    pub open spec fn cells_fit(&self, i: int, live: bool) -> bool {
        &&& forall|k: StateKey|
            self.data_cell(k, i as TxnIndex) == expected(
                #[trigger] last_entry(self.status(i).writes(), k),
                self.recorded_incarnation(i),
                live,
            )
        &&& forall|id: DelayedFieldId|
            self.field_cell(id, i as TxnIndex) == expected(
                #[trigger] last_entry(self.status(i).deltas(), id),
                self.recorded_incarnation(i),
                live,
            )
    }

    /// The stores hold for slot `i` what its record and its state say.
    pub open spec fn slot_fits(&self, i: int) -> bool {
        self.cells_fit(i, self.live(i))
    }

    /// The reads recorded for slot `i` decide the status recorded for it.
    pub open spec fn decided(&self, i: int) -> bool {
        decided_by_reads::<E>(self.txns()[i], self.reads(i), self.status(i))
    }

    /// The committed slot `i` holds what the sequential execution gives for it.
    pub open spec fn sealed(&self, i: int) -> bool {
        let before = self.course(i as nat);
        &&& self.status(i) == E::outcome(self.txns()[i], before.state)
        &&& self.status(i).output().is_some()
        &&& applicable(before.state, self.status(i).output().unwrap())
        &&& (self.status(i) is SkipRest ==> i + 1 == self.slots().committed && self.ending()
            == Some(EndingView::Truncated))
    }

    /// The ending fits the committed slots.
    pub open spec fn ending_fits(&self) -> bool {
        let c = self.slots().committed;
        &&& self.slots().halted == self.ending().is_some()
        &&& match self.ending() {
            None => c < self.len(),
            Some(EndingView::Completed) => c == self.len(),
            Some(EndingView::Truncated) => c >= 1 && self.status(c - 1) is SkipRest,
            Some(EndingView::Failed(s)) => c < self.len() && self.live(c as int) && self.status(
                c as int,
            ) == E::outcome(self.txns()[c as int], self.course(c).state) && advance(
                self.course(c),
                self.status(c as int),
            ).ending == Some(EndingView::Failed(s)),
            Some(EndingView::Cancelled) => true,
        }
    }

    /// The invariant of the executor.
    pub closed spec fn wf(&self) -> bool {
        &&& self.scheduler@.wf()
        &&& self.data.wf()
        &&& self.fields.wf()
        &&& self.records@.len() == self.txns@.len()
        &&& self.scheduler@.slots.len() == self.txns@.len()
        &&& forall|i: int| 0 <= i < self.len() ==> #[trigger] self.slot_fits(i)
        &&& forall|i: int| 0 <= i < self.len() && self.live(i) ==> #[trigger] self.decided(i)
        &&& forall|i: int| 0 <= i < self.slots().committed ==> #[trigger] self.sealed(i)
        &&& self.ending_fits()
    }

    /// The committed slots are a prefix of the sequential execution: after
    /// `n` of them the sequential execution has committed the same outputs,
    /// and its state is what slot `n` reads from the stores.
    pub proof fn lemma_prefix(&self, n: nat)
        requires
            self.wf(),
            n <= self.slots().committed,
        ensures
            self.course(n).ending == if n > 0 && self.status(n - 1) is SkipRest {
                Some(EndingView::Truncated)
            } else {
                None
            },
            self.course(n).outputs.len() == n,
            forall|i: int|
                0 <= i < n ==> #[trigger] self.course(n).outputs[i] == self.status(
                    i,
                ).output().unwrap(),
            forall|k: StateKey|
                !(#[trigger] self.source(n as TxnIndex).data_read(k) is Dependency)
                    && self.course(n).state.value(k) == self.source(n as TxnIndex).data_read(
                    k,
                ).content(),
            forall|id: DelayedFieldId| #[trigger]
                self.source(n as TxnIndex).fields.resolved_below(id, n as TxnIndex),
            forall|id: DelayedFieldId|
                self.course(n).state.field(id) == #[trigger] self.source(
                    n as TxnIndex,
                ).field_value(id),
        decreases n,
    {
        if n == 0 {
            assert forall|k: StateKey|
                !(#[trigger] self.source(0).data_read(k) is Dependency) && self.course(
                    0,
                ).state.value(k) == self.source(0).data_read(k).content() by {}
            assert forall|id: DelayedFieldId|
                self.course(n).state.field(id) == #[trigger] self.source(
                    n as TxnIndex,
                ).field_value(id) by {
                assert(self.fields.total_below(id, 0) == 0);
            }
        } else {
            let m = (n - 1) as nat;
            let i = m as int;
            self.lemma_prefix(m);
            assert(self.sealed(i));
            if m > 0 {
                assert(self.sealed(m - 1));
            }
            let before = self.course(m);
            let out = self.status(i).output().unwrap();
            assert(self.course(n) == advance(before, self.status(i)));
            lemma_apply_pointwise(before.state, out);
            assert(self.slot_fits(i));
            assert(self.live(i));
            let lower = self.source(m as TxnIndex);
            let upper = self.source(n as TxnIndex);
            assert forall|k: StateKey|
                !(#[trigger] upper.data_read(k) is Dependency) && self.course(n).state.value(k)
                    == upper.data_read(k).content() by {
                assert(self.course(n).state.value(k) == written_value(before.state, out.writes, k));
                assert(self.data_cell(k, m as TxnIndex) == expected(
                    last_entry(self.status(i).writes(), k),
                    self.recorded_incarnation(i),
                    true,
                ));
                assert(!(lower.data_read(k) is Dependency) && before.state.value(k)
                    == lower.data_read(k).content());
            }
            assert forall|id: DelayedFieldId| #[trigger]
                self.source(n as TxnIndex).fields.resolved_below(id, n as TxnIndex) by {
                assert(self.field_cell(id, m as TxnIndex) == expected(
                    last_entry(self.status(i).deltas(), id),
                    self.recorded_incarnation(i),
                    true,
                ));
                assert(lower.fields.resolved_below(id, m as TxnIndex));
            }
            assert forall|id: DelayedFieldId|
                self.course(n).state.field(id) == #[trigger] self.source(
                    n as TxnIndex,
                ).field_value(id) by {
                assert(self.field_cell(id, m as TxnIndex) == expected(
                    last_entry(self.status(i).deltas(), id),
                    self.recorded_incarnation(i),
                    true,
                ));
                assert(before.state.field(id) == lower.field_value(id));
                assert(self.fields.resolved_below(id, m as TxnIndex));
                assert(self.fields.total_below(id, n as TxnIndex) == self.fields.total_below(
                    id,
                    m as TxnIndex,
                ) + contribution(self.fields.cell(id, m as TxnIndex)));
            }
            assert forall|j: int| 0 <= j < n implies #[trigger] self.course(n).outputs[j]
                == self.status(j).output().unwrap() by {
                if j < m {
                    assert(before.outputs[j] == self.status(j).output().unwrap());
                }
            }
        }
    }

    /// An executor for the block `txns` on the state `base`: every slot
    /// waits for its first execution, and nothing is committed. Until a slot
    /// has run, its record is that of a void attempt that read nothing.
    pub fn new(executor: E, txns: Vec<&'a E::Txn>, base: StateStore) -> (s: Self)
        requires
            txns.len() <= TxnIndex::MAX,
        ensures
            s.wf(),
            s.txns() == referred(txns@),
            s.base() == base@,
            s.slots().committed == 0,
            s.ending() == if txns.len() == 0 {
                Some(EndingView::Completed)
            } else {
                None
            },
            forall|i: int|
                0 <= i < txns.len() ==> s.slots().slots[i] == (Slot {
                    state: SlotState::ReadyToExecute,
                    incarnation: 0,
                    blocked_on: None,
                    sequential: false,
                }),
            forall|i: int|
                0 <= i < txns.len() ==> #[trigger] s.status(i)
                    == StatusView::SpeculativeExecutionAbortError(Seq::empty()) && s.reads(i).len()
                    == 0,
    {
        let n = txns.len();
        let mut scheduler = Scheduler::new(n as TxnIndex);
        let mut records: Vec<Record> = Vec::new();
        let mut i: usize = 0;
        while i < n
            invariant
                i <= n,
                records.len() == i,
                forall|j: int|
                    0 <= j < i ==> (#[trigger] records[j]).status@
                        == StatusView::SpeculativeExecutionAbortError(Seq::empty())
                        && records[j].reads@.len() == 0,
            decreases n - i,
        {
            records.push(
                Record {
                    status: ExecutionStatus::SpeculativeExecutionAbortError(String::new()),
                    reads: Vec::new(),
                    incarnation: 0,
                },
            );
            i = i + 1;
        }
        let ending = if n == 0 {
            scheduler.halt();
            Some(Ending::Completed)
        } else {
            None
        };
        let s = BlockExecutor {
            executor,
            txns,
            base,
            data: VersionedStore::new(),
            fields: VersionedStore::new(),
            scheduler,
            records,
            ending,
        };
        proof {
            assert forall|i: int| 0 <= i < s.len() implies #[trigger] s.slot_fits(i) by {
                assert(s.records@[i].status@.output().is_none());
            }
        }
        s
    }

    fn snapshot(&self, reader: TxnIndex) -> (source: Snapshot<'_>)
        requires
            self.wf(),
        ensures
            source == self.source(reader),
            source.wf(),
    {
        Snapshot { data: &self.data, fields: &self.fields, base: &self.base, reader }
    }

    /// Runs the transaction of slot `txn_idx` against the stores as they
    /// stand, and hands back the status and the read-set. Nothing is changed.
    fn run_slot(&self, txn_idx: TxnIndex) -> (r: (ExecutionStatus, Vec<ReadDescriptor>))
        requires
            self.wf(),
            txn_idx < self.len(),
        ensures
            decided_by_reads::<E>(self.txns()[txn_idx as int], r.1@, r.0@),
            forall|p: int| 0 <= p < r.1@.len() ==> self.source(txn_idx).reports(#[trigger] r.1@[p]),
            forall|p: int|
                0 <= p < r.1@.len() ==> match blocker_of(#[trigger] r.1@[p]) {
                    Some(b) => b < txn_idx,
                    None => true,
                },
    {
        let source = self.snapshot(txn_idx);
        let mut view = LatestView::new(source);
        let status = self.executor.execute_transaction(
            &mut view,
            self.txns[txn_idx as usize],
            txn_idx,
        );
        let reads = view.into_reads();
        proof {
            assert forall|p: int| 0 <= p < reads@.len() implies match blocker_of(
                #[trigger] reads@[p],
            ) {
                Some(b) => b < txn_idx,
                None => true,
            } by {
                assert(source.reports(reads@[p]));
                match reads@[p] {
                    ReadDescriptor::Data { key, .. } => {
                        self.data.lemma_latest_is_below(key, txn_idx);
                    },
                    ReadDescriptor::Field { .. } => {},
                }
            }
        }
        (status, reads)
    }

    /// Records what an execution of slot `txn_idx` ended in. An execution
    /// that ran into an unresolved write leaves no result: the slot waits
    /// for the slot that it ran into, or runs again at once. Any other
    /// execution replaces what the slot held in the stores by what it wrote,
    /// and the slot waits for validation.
    fn install(&mut self, txn_idx: TxnIndex, status: ExecutionStatus, reads: Vec<ReadDescriptor>)
        requires
            old(self).wf(),
            txn_idx < old(self).len(),
            old(self).slots().slots[txn_idx as int].state == SlotState::Executing,
            decided_by_reads::<E>(old(self).txns()[txn_idx as int], reads@, status@),
            forall|p: int|
                0 <= p < reads@.len() ==> match blocker_of(#[trigger] reads@[p]) {
                    Some(b) => b < txn_idx,
                    None => true,
                },
        ensures
            final(self).wf(),
            final(self).txns() == old(self).txns(),
            final(self).base() == old(self).base(),
            final(self).ending() == old(self).ending(),
            forall|k: StateKey, i: TxnIndex|
                i != txn_idx ==> final(self).data_cell(k, i) == old(self).data_cell(k, i),
            forall|k: DelayedFieldId, i: TxnIndex|
                i != txn_idx ==> final(self).field_cell(k, i) == old(self).field_cell(k, i),
            forall|i: int|
                0 <= i < old(self).len() && i != txn_idx ==> final(self).status(i) == old(self).status(i) && final(self).reads(i) == old(self).reads(i) && final(self).recorded_incarnation(i) == old(self).recorded_incarnation(i),
            blocked(reads@) ==> {
                &&& final(self).slots().committed == old(self).slots().committed
                &&& final(self).slots().halted == old(self).slots().halted
                &&& final(self).slots().slots.len() == old(self).slots().slots.len()
                &&& forall|i: int|
                    0 <= i < old(self).len() && i != txn_idx ==> final(self).slots().slots[i]
                        == old(self).slots().slots[i]
                &&& !holds_result(final(self).slots().slots[txn_idx as int].state)
                &&& final(self).slots().slots[txn_idx as int].state != SlotState::Executing
                &&& final(self).status(txn_idx as int) == old(self).status(txn_idx as int)
                &&& final(self).reads(txn_idx as int) == old(self).reads(txn_idx as int)
            },
            !blocked(reads@) ==> {
                &&& final(self).slots() == old(self).slots().executed(
                    txn_idx as int,
                    status@ is DelayedFieldsCodeInvariantError,
                )
                &&& final(self).status(txn_idx as int) == status@
                &&& final(self).reads(txn_idx as int) == reads@
                &&& final(self).recorded_incarnation(txn_idx as int) == old(self).slots().slots[txn_idx as int].incarnation
            },
    {
        let i = txn_idx as usize;
        let incarnation = self.scheduler.slot(txn_idx).incarnation;
        let ghost before = *self;
        match first_dependency(&reads) {
            Some(blocker) => {
                self.scheduler.suspend(txn_idx, blocker);
                proof {
                    assert forall|j: int| 0 <= j < self.len() implies #[trigger] self.slot_fits(
                        j,
                    ) by {
                        assert(before.slot_fits(j));
                    }
                    assert forall|j: int| 0 <= j < self.len() && self.live(j) implies #[trigger]
                        self.decided(j) by {
                        assert(before.decided(j));
                    }
                    assert forall|j: int| 0 <= j < self.slots().committed implies #[trigger]
                        self.sealed(j) by {
                        assert(before.sealed(j));
                    }
                }
            },
            None => {
                match self.records[i].status.output() {
                    Some(out) => {
                        self.data.remove_all(txn_idx, &out.writes);
                        self.fields.remove_all(txn_idx, &out.deltas);
                    },
                    None => {},
                }
                proof {
                    assert(before.slot_fits(i as int));
                    assert forall|k: StateKey| self.data_cell(k, txn_idx).is_none() by {
                        assert(before.data_cell(k, txn_idx) == expected(
                            last_entry(before.status(i as int).writes(), k),
                            before.recorded_incarnation(i as int),
                            false,
                        ));
                    }
                    assert forall|k: DelayedFieldId| self.field_cell(k, txn_idx).is_none() by {
                        assert(before.field_cell(k, txn_idx) == expected(
                            last_entry(before.status(i as int).deltas(), k),
                            before.recorded_incarnation(i as int),
                            false,
                        ));
                    }
                }
                let ghost cleared = *self;
                match status.output() {
                    Some(out) => {
                        self.data.write_all(txn_idx, incarnation, &out.writes);
                        self.fields.write_all(txn_idx, incarnation, &out.deltas);
                    },
                    None => {},
                }
                let sequential = match status {
                    ExecutionStatus::DelayedFieldsCodeInvariantError(_) => true,
                    _ => false,
                };
                proof {
                    assert forall|k: StateKey|
                        self.data_cell(k, txn_idx) == expected(
                            #[trigger] last_entry(status@.writes(), k),
                            incarnation,
                            true,
                        ) by {
                        assert(cleared.data_cell(k, txn_idx).is_none());
                    }
                    assert forall|k: DelayedFieldId|
                        self.field_cell(k, txn_idx) == expected(
                            #[trigger] last_entry(status@.deltas(), k),
                            incarnation,
                            true,
                        ) by {
                        assert(cleared.field_cell(k, txn_idx).is_none());
                    }
                }
                self.records.set(i, Record { status, reads, incarnation });
                self.scheduler.finish_execution(txn_idx, sequential);
                proof {
                    assert forall|j: int| 0 <= j < self.len() implies #[trigger] self.slot_fits(
                        j,
                    ) by {
                        if j != i {
                            assert(before.slot_fits(j));
                            assert(self.status(j) == before.status(j));
                            assert(self.live(j) == before.live(j));
                        }
                    }
                    assert forall|j: int| 0 <= j < self.len() && self.live(j) implies #[trigger]
                        self.decided(j) by {
                        if j != i {
                            assert(before.live(j));
                            assert(before.decided(j));
                        }
                    }
                    assert forall|j: int| 0 <= j < self.slots().committed implies #[trigger]
                        self.sealed(j) by {
                        assert(before.sealed(j));
                        assert(j != i);
                    }
                }
            },
        }
    }

    /// Turns what slot `j` holds in the stores into estimates.
    fn retire(&mut self, j: TxnIndex)
        requires
            old(self).data.wf(),
            old(self).fields.wf(),
            j < old(self).records@.len(),
            old(self).cells_fit(j as int, true),
        ensures
            final(self).data.wf(),
            final(self).fields.wf(),
            final(self).cells_fit(j as int, false),
            final(self).records == old(self).records,
            final(self).scheduler == old(self).scheduler,
            final(self).txns == old(self).txns,
            final(self).base == old(self).base,
            final(self).ending == old(self).ending,
            forall|k: StateKey, i: TxnIndex|
                i != j ==> final(self).data_cell(k, i) == old(self).data_cell(k, i),
            forall|k: DelayedFieldId, i: TxnIndex|
                i != j ==> final(self).field_cell(k, i) == old(self).field_cell(k, i),
    {
        let ghost before = *self;
        match self.records[j as usize].status.output() {
            Some(out) => {
                self.data.mark_estimates(j, &out.writes);
                self.fields.mark_estimates(j, &out.deltas);
            },
            None => {},
        }
        proof {
            assert forall|k: StateKey|
                self.data_cell(k, j) == expected(
                    #[trigger] last_entry(self.status(j as int).writes(), k),
                    self.recorded_incarnation(j as int),
                    false,
                ) by {
                assert(before.data_cell(k, j) == expected(
                    last_entry(before.status(j as int).writes(), k),
                    before.recorded_incarnation(j as int),
                    true,
                ));
            }
            assert forall|k: DelayedFieldId|
                self.field_cell(k, j) == expected(
                    #[trigger] last_entry(self.status(j as int).deltas(), k),
                    self.recorded_incarnation(j as int),
                    false,
                ) by {
                assert(before.field_cell(k, j) == expected(
                    last_entry(before.status(j as int).deltas(), k),
                    before.recorded_incarnation(j as int),
                    true,
                ));
            }
        }
    }

    /// While the slots from `from` up are being declared void: the stores
    /// hold estimates for those below `upto`, and what they held for the others.
    spec fn fits_voiding(&self, before: &Self, i: int, from: TxnIndex, upto: TxnIndex) -> bool {
        self.cells_fit(i, before.live(i) && !(from <= i && i < upto))
    }

    /// Declares void the incarnation of slot `txn_idx`, whose validation
    /// failed, and of every slot above it that holds an uncommitted result:
    /// what they hold in the stores becomes estimates, and they run again.
    fn abort_from(&mut self, txn_idx: TxnIndex)
        requires
            old(self).wf(),
            old(self).ending().is_none(),
            old(self).slots().committed <= txn_idx < old(self).len(),
            old(self).slots().slots[txn_idx as int].state == SlotState::Validating,
        ensures
            final(self).wf(),
            final(self).txns() == old(self).txns(),
            final(self).base() == old(self).base(),
            final(self).ending() == old(self).ending(),
            final(self).slots() == old(self).slots().aborted_from(txn_idx as int),
            forall|k: StateKey, i: TxnIndex|
                i < txn_idx ==> final(self).data_cell(k, i) == old(self).data_cell(k, i),
            forall|k: DelayedFieldId, i: TxnIndex|
                i < txn_idx ==> final(self).field_cell(k, i) == old(self).field_cell(k, i),
            forall|i: int|
                0 <= i < old(self).len() ==> final(self).status(i) == old(self).status(i) && final(self).reads(i) == old(self).reads(i) && final(self).recorded_incarnation(i) == old(self).recorded_incarnation(i),
    {
        let ghost before = *self;
        let n = self.scheduler.len();
        let mut j: TxnIndex = txn_idx;
        proof {
            assert forall|i: int| 0 <= i < n implies #[trigger] self.fits_voiding(
                &before,
                i,
                txn_idx,
                j,
            ) by {
                assert(before.slot_fits(i));
            }
        }
        while j < n
            invariant
                txn_idx <= j <= n,
                n == before.len(),
                before.wf(),
                before.ending().is_none(),
                before.slots().committed <= txn_idx < before.len(),
                before.slots().slots[txn_idx as int].state == SlotState::Validating,
                self.data.wf(),
                self.fields.wf(),
                self.records == before.records,
                self.scheduler == before.scheduler,
                self.txns == before.txns,
                self.base == before.base,
                self.ending == before.ending,
                forall|i: int| 0 <= i < n ==> #[trigger] self.fits_voiding(&before, i, txn_idx, j),
                forall|k: StateKey, i: TxnIndex|
                    i < txn_idx ==> self.data_cell(k, i) == before.data_cell(k, i),
                forall|k: DelayedFieldId, i: TxnIndex|
                    i < txn_idx ==> self.field_cell(k, i) == before.field_cell(k, i),
            decreases n - j,
        {
            let ghost prev = *self;
            let holds = match self.scheduler.slot(j).state {
                SlotState::Executed => true,
                SlotState::ReadyToValidate => true,
                SlotState::Validating => true,
                SlotState::Committed => true,
                _ => false,
            };
            proof {
                assert(prev.fits_voiding(&before, j as int, txn_idx, j));
            }
            if holds {
                self.retire(j);
            }
            proof {
                assert forall|i: int| 0 <= i < n implies #[trigger] self.fits_voiding(
                    &before,
                    i,
                    txn_idx,
                    (j + 1) as TxnIndex,
                ) by {
                    assert(prev.fits_voiding(&before, i, txn_idx, j));
                }
            }
            j = j + 1;
        }
        let ghost voided = *self;
        self.scheduler.abort_from(txn_idx);
        proof {
            assert forall|i: int| 0 <= i < self.len() implies #[trigger] self.slot_fits(i) by {
                assert(voided.fits_voiding(&before, i, txn_idx, n));
            }
            assert forall|i: int| 0 <= i < self.len() && self.live(i) implies #[trigger]
                self.decided(i) by {
                assert(before.live(i));
                assert(before.decided(i));
            }
            assert forall|i: int| 0 <= i < self.slots().committed implies #[trigger] self.sealed(
                i,
            ) by {
                assert(before.sealed(i));
            }
        }
    }

    /// Reads that still stand for the slot at the commit frontier are reads
    /// that the transaction, run alone after the committed ones, would observe.
    proof fn lemma_confirmed_reads_hold(&self, reads: Seq<ReadDescriptor>)
        requires
            self.wf(),
            self.ending().is_none(),
            all_confirmed(self.source(self.slots().committed as TxnIndex), reads),
        ensures
            self.course(self.slots().committed).ending.is_none(),
            reads_hold_in(reads, self.course(self.slots().committed).state),
    {
        let c = self.slots().committed;
        let source = self.source(c as TxnIndex);
        self.lemma_prefix(c);
        if c > 0 {
            assert(self.sealed(c - 1));
        }
        assert forall|p: int| 0 <= p < reads.len() implies (#[trigger] reads[p]).holds_in(
            self.course(c).state,
        ) by {
            assert(source.confirms(reads[p]));
            match reads[p] {
                ReadDescriptor::Data { key, observed } => {
                    assert(!(source.data_read(key) is Dependency) && self.course(c).state.value(
                        key,
                    ) == source.data_read(key).content());
                },
                ReadDescriptor::Field { id, observed } => {
                    assert(self.course(c).state.field(id) == source.field_value(id));
                },
            }
        }
    }

    /// Tells whether the output of the slot at the commit frontier can be
    /// applied to the state that the committed slots lead to.
    fn frontier_accepts(&self, out: &TransactionOutput) -> (ok: bool)
        requires
            self.wf(),
            self.ending().is_none(),
        ensures
            ok == applicable(self.course(self.slots().committed).state, out@),
    {
        let c = self.scheduler.committed();
        let ghost state = self.course(c as nat).state;
        proof {
            self.lemma_prefix(c as nat);
        }
        let mut p: usize = 0;
        while p < out.deltas.len()
            invariant
                p <= out.deltas.len(),
                self.wf(),
                c == self.slots().committed,
                state == self.course(c as nat).state,
                forall|id: DelayedFieldId| #[trigger]
                    self.source(c).fields.resolved_below(id, c),
                forall|id: DelayedFieldId|
                    state.field(id) == #[trigger] self.source(c).field_value(id),
                forall|q: int| 0 <= q < p ==> fits(state, #[trigger] out@.deltas[q]),
            decreases out.deltas.len() - p,
        {
            let id = out.deltas[p].0;
            let delta = out.deltas[p].1;
            proof {
                assert(self.source(c).fields.resolved_below(id, c));
                assert(state.field(id) == self.source(c).field_value(id));
                self.fields.lemma_total_bounds(id, c);
                assert((c as int) * 0x8000_0000_0000_0000 <= 0xffff_ffff * 0x8000_0000_0000_0000)
                    by (nonlinear_arith)
                    requires
                        c <= 0xffff_ffff,
                ;
            }
            match self.fields.read_total(id, c) {
                crate::delayed::Pending::Total { sum } => {
                    let moved: i128 = self.base.field(id) as i128 + sum + delta as i128;
                    if moved < 0 || moved > u64::MAX as i128 {
                        assert(!fits(state, out@.deltas[p as int]));
                        return false;
                    }
                },
                crate::delayed::Pending::Dependency { txn_idx } => {
                    assert(false);
                    return false;
                },
            }
            p = p + 1;
        }
        true
    }

    /// Settles the slot at the commit frontier, whose reads still stand: it
    /// is committed, or the block fails with it.
    fn settle(&mut self) -> (committed: bool)
        requires
            old(self).wf(),
            old(self).ending().is_none(),
            old(self).slots().slots[old(self).slots().committed as int].state
                == SlotState::Validating,
            all_confirmed(
                old(self).source(old(self).slots().committed as TxnIndex),
                old(self).reads(old(self).slots().committed as int),
            ),
        ensures
            final(self).wf(),
            final(self).txns() == old(self).txns(),
            final(self).base() == old(self).base(),
            forall|k: StateKey, i: TxnIndex| final(self).data_cell(k, i) == old(self).data_cell(k, i),
            forall|k: DelayedFieldId, i: TxnIndex|
                final(self).field_cell(k, i) == old(self).field_cell(k, i),
            forall|i: int|
                0 <= i < old(self).len() ==> final(self).status(i) == old(self).status(i) && final(self).reads(i) == old(self).reads(i) && final(self).recorded_incarnation(i) == old(self).recorded_incarnation(i),
            committed ==> final(self).slots() == (Slots {
                halted: final(self).ending().is_some(),
                ..old(self).slots().advanced()
            }) && !(final(self).ending() is Some && (final(self).ending().unwrap() is Failed
                || final(self).ending().unwrap() is Cancelled)),
            !committed ==> final(self).slots() == (Slots { halted: true, ..old(self).slots() })
                && final(self).ending() is Some && final(self).ending().unwrap() is Failed,
    {
        let ghost before = *self;
        let c = self.scheduler.committed();
        let n = self.scheduler.len();
        proof {
            self.lemma_confirmed_reads_hold(self.reads(c as int));
            assert(self.live(c as int));
            assert(self.decided(c as int));
            assert(self.status(c as int) == E::outcome(
                self.txns()[c as int],
                self.course(c as nat).state,
            ));
        }
        let verdict: Option<Ending> = match &self.records[c as usize].status {
            ExecutionStatus::Success(out) => {
                if self.frontier_accepts(out) {
                    None
                } else {
                    Some(
                        Ending::Failed(
                            ExecutionStatus::DelayedFieldsCodeInvariantError(range_failure()),
                        ),
                    )
                }
            },
            ExecutionStatus::SkipRest(out) => {
                if self.frontier_accepts(out) {
                    Some(Ending::Truncated)
                } else {
                    Some(
                        Ending::Failed(
                            ExecutionStatus::DelayedFieldsCodeInvariantError(range_failure()),
                        ),
                    )
                }
            },
            failure => Some(Ending::Failed(failure.duplicate())),
        };
        let commits = match &verdict {
            None => true,
            Some(Ending::Truncated) => true,
            _ => false,
        };
        if commits {
            self.scheduler.commit();
            self.ending = match verdict {
                None => if c + 1 == n {
                    Some(Ending::Completed)
                } else {
                    None
                },
                other => other,
            };
            if self.ending.is_some() {
                self.scheduler.halt();
            }
        } else {
            self.ending = verdict;
            self.scheduler.halt();
        }
        proof {
            assert forall|i: int| 0 <= i < self.len() implies #[trigger] self.slot_fits(i) by {
                assert(before.slot_fits(i));
            }
            assert forall|i: int| 0 <= i < self.len() && self.live(i) implies #[trigger]
                self.decided(i) by {
                assert(before.live(i));
                assert(before.decided(i));
            }
            assert forall|i: int| 0 <= i < self.slots().committed implies #[trigger] self.sealed(
                i,
            ) by {
                if i < c {
                    assert(before.sealed(i));
                }
            }
        }
        commits
    }

    /// Validates slot `txn_idx`, which was handed out for validation. A slot
    /// whose reads no longer stand is declared void, with every slot above
    /// it that holds an uncommitted result. A slot whose reads stand is
    /// settled if it is at the commit frontier, and parked otherwise.
    fn validate_slot(&mut self, txn_idx: TxnIndex) -> (outcome: ValidationOutcome)
        requires
            old(self).wf(),
            old(self).ending().is_none(),
            txn_idx < old(self).len(),
            old(self).slots().slots[txn_idx as int].state == SlotState::Validating,
        ensures
            final(self).wf(),
            final(self).txns() == old(self).txns(),
            final(self).base() == old(self).base(),
            forall|k: StateKey, i: TxnIndex|
                i < txn_idx ==> final(self).data_cell(k, i) == old(self).data_cell(k, i),
            forall|k: DelayedFieldId, i: TxnIndex|
                i < txn_idx ==> final(self).field_cell(k, i) == old(self).field_cell(k, i),
            forall|i: int|
                0 <= i < old(self).len() ==> final(self).status(i) == old(self).status(i) && final(self).reads(i) == old(self).reads(i) && final(self).recorded_incarnation(i) == old(self).recorded_incarnation(i),
            old(self).validation_step(txn_idx, outcome, final(self).slots(), final(self).ending()),
    {
        let valid = {
            let source = self.snapshot(txn_idx);
            validate_read_set(&source, &self.records[txn_idx as usize].reads)
        };
        if !valid {
            self.abort_from(txn_idx);
            ValidationOutcome::Aborted
        } else if txn_idx == self.scheduler.committed() {
            if self.settle() {
                ValidationOutcome::Committed
            } else {
                ValidationOutcome::Failed
            }
        } else {
            let ghost before = *self;
            self.scheduler.park(txn_idx);
            proof {
                assert forall|i: int| 0 <= i < self.len() implies #[trigger] self.slot_fits(i) by {
                    assert(before.slot_fits(i));
                }
                assert forall|i: int| 0 <= i < self.len() && self.live(i) implies #[trigger]
                    self.decided(i) by {
                    assert(before.live(i));
                    assert(before.decided(i));
                }
                assert forall|i: int| 0 <= i < self.slots().committed implies #[trigger]
                    self.sealed(i) by {
                    assert(before.sealed(i));
                }
            }
            ValidationOutcome::Parked
        }
    }

    /// What a validation of slot `txn_idx` with this outcome makes of the
    /// slots and of the ending.
    pub open spec fn validation_step(
        &self,
        txn_idx: TxnIndex,
        outcome: ValidationOutcome,
        slots: Slots,
        ending: Option<EndingView>,
    ) -> bool {
        self.validation_step_from(self.slots(), txn_idx, outcome, slots, ending)
    }

    /// What a validation of slot `txn_idx` with this outcome makes of the
    /// slots `handed`, in which the slot is handed out for validation, and
    /// of the ending.
    pub open spec fn validation_step_from(
        &self,
        handed: Slots,
        txn_idx: TxnIndex,
        outcome: ValidationOutcome,
        slots: Slots,
        ending: Option<EndingView>,
    ) -> bool {
        let stands = all_confirmed(self.source(txn_idx), self.reads(txn_idx as int));
        match outcome {
            ValidationOutcome::Stale => false,
            ValidationOutcome::Aborted => {
                &&& !stands
                &&& slots == handed.aborted_from(txn_idx as int)
                &&& ending.is_none()
            },
            ValidationOutcome::Parked => {
                &&& stands
                &&& txn_idx != handed.committed
                &&& slots == handed.with_slot(
                    txn_idx as int,
                    Slot { state: SlotState::Executed, ..handed.slots[txn_idx as int] },
                )
                &&& ending.is_none()
            },
            ValidationOutcome::Committed => {
                &&& stands
                &&& txn_idx == handed.committed
                &&& slots == (Slots { halted: ending.is_some(), ..handed.advanced() })
                &&& (ending.is_none() || ending == Some(EndingView::Completed) || ending == Some(
                    EndingView::Truncated,
                ))
            },
            ValidationOutcome::Failed => {
                &&& stands
                &&& txn_idx == handed.committed
                &&& slots == (Slots { halted: true, ..handed })
                &&& ending is Some
                &&& ending.unwrap() is Failed
            },
        }
    }

    /// Hands out the next task: the lowest-indexed slot that waits for
    /// validation or execution.
    pub fn next_task(&mut self) -> (task: Task)
        requires
            old(self).wf(),
        ensures
            final(self).wf(),
            final(self).unchanged_but_slots(old(self)),
            match task {
                Task::Execute(v) => {
                    &&& old(self).ending().is_none()
                    &&& old(self).slots().lowest_ready(v.txn_idx as int)
                    &&& old(self).slots().slots[v.txn_idx as int].state
                        == SlotState::ReadyToExecute
                    &&& old(self).slots().slots[v.txn_idx as int].incarnation == v.incarnation
                    &&& final(self).slots() == old(self).slots().handed_out(v.txn_idx as int)
                },
                Task::Validate(v) => {
                    &&& old(self).ending().is_none()
                    &&& old(self).slots().lowest_ready(v.txn_idx as int)
                    &&& old(self).slots().slots[v.txn_idx as int].state
                        == SlotState::ReadyToValidate
                    &&& old(self).slots().slots[v.txn_idx as int].incarnation == v.incarnation
                    &&& final(self).slots() == old(self).slots().handed_out(v.txn_idx as int)
                },
                Task::Wait => old(self).ending().is_none() && old(self).slots().none_ready()
                    && final(self).slots() == old(self).slots(),
                Task::Done => old(self).ending().is_some() && final(self).slots() == old(self).slots(),
            },
    {
        let ghost before = *self;
        let task = self.scheduler.next_task();
        proof {
            assert forall|i: int| 0 <= i < self.len() implies #[trigger] self.slot_fits(i) by {
                assert(before.slot_fits(i));
            }
            assert forall|i: int| 0 <= i < self.len() && self.live(i) implies #[trigger]
                self.decided(i) by {
                assert(before.live(i));
                assert(before.decided(i));
            }
            assert forall|i: int| 0 <= i < self.slots().committed implies #[trigger] self.sealed(
                i,
            ) by {
                assert(before.sealed(i));
            }
        }
        task
    }

    /// Everything but the slots is as in `before`: the block, the base
    /// state, the ending, the records and the stores.
    pub open spec fn unchanged_but_slots(&self, before: &Self) -> bool {
        &&& self.txns() == before.txns()
        &&& self.base() == before.base()
        &&& self.ending() == before.ending()
        &&& forall|k: StateKey, i: TxnIndex| self.data_cell(k, i) == before.data_cell(k, i)
        &&& forall|k: DelayedFieldId, i: TxnIndex| self.field_cell(k, i) == before.field_cell(k, i)
        &&& forall|i: int|
            0 <= i < before.len() ==> self.status(i) == before.status(i) && self.reads(i)
                == before.reads(i) && self.recorded_incarnation(i) == before.recorded_incarnation(
                i,
            )
    }

    /// Executes the task `version`, if that incarnation of that slot is
    /// handed out for execution and the block has not ended: runs the
    /// transaction against the stores as they stand and records what it
    /// ended in. Returns whether it did. An
    /// execution of the slot at the commit frontier always leaves a result:
    /// there is nothing unresolved below it to run into.
    pub fn execute(&mut self, version: Version) -> (done: bool)
        requires
            old(self).wf(),
        ensures
            final(self).wf(),
            final(self).txns() == old(self).txns(),
            final(self).base() == old(self).base(),
            final(self).ending() == old(self).ending(),
            done == (old(self).ending().is_none() && old(self).handed_out_for(
                version,
                SlotState::Executing,
            )),
            !done ==> final(self).slots() == old(self).slots() && final(self).unchanged_but_slots(
                old(self),
            ),
            done ==> old(self).execution_step(version.txn_idx, final(self)),
            done && version.txn_idx == old(self).slots().committed ==> final(self).slots().slots[version.txn_idx as int].state == SlotState::ReadyToValidate,
    {
        if self.ending.is_some() || !self.is_handed_out(version, SlotState::Executing) {
            return false;
        }
        let r = self.run_slot(version.txn_idx);
        proof {
            if version.txn_idx == self.slots().committed {
                self.lemma_frontier_reads_stand(r.1@);
            }
        }
        self.install(version.txn_idx, r.0, r.1);
        true
    }

    /// What an execution of slot `txn_idx` makes of the executor: either it
    /// ran into an unresolved write, and the slot waits or is set to run
    /// again, with its record as it was; or it left a record that its
    /// reads decide, made of reads of the stores as they stood, and the slot
    /// waits for validation.
    pub open spec fn execution_step(&self, txn_idx: TxnIndex, after: &Self) -> bool {
        let i = txn_idx as int;
        &&& forall|k: StateKey, j: TxnIndex|
            j != txn_idx ==> after.data_cell(k, j) == self.data_cell(k, j)
        &&& forall|k: DelayedFieldId, j: TxnIndex|
            j != txn_idx ==> after.field_cell(k, j) == self.field_cell(k, j)
        &&& forall|j: int|
            0 <= j < self.len() && j != i ==> after.status(j) == self.status(j) && after.reads(j)
                == self.reads(j) && after.recorded_incarnation(j) == self.recorded_incarnation(j)
        &&& if after.slots().slots[i].state == SlotState::ReadyToValidate {
            &&& after.slots() == self.slots().executed(
                i,
                after.status(i) is DelayedFieldsCodeInvariantError,
            )
            &&& after.decided(i)
            &&& !blocked(after.reads(i))
            &&& forall|p: int|
                0 <= p < after.reads(i).len() ==> self.source(txn_idx).reports(
                    #[trigger] after.reads(i)[p],
                )
            &&& after.recorded_incarnation(i) == self.slots().slots[i].incarnation
        } else {
            &&& after.slots().committed == self.slots().committed
            &&& after.slots().halted == self.slots().halted
            &&& after.slots().slots.len() == self.slots().slots.len()
            &&& forall|j: int|
                0 <= j < self.len() && j != i ==> after.slots().slots[j] == self.slots().slots[j]
            &&& (after.slots().slots[i].state == SlotState::Aborted || after.slots().slots[i].state
                == SlotState::ReadyToExecute)
            &&& after.status(i) == self.status(i)
            &&& after.reads(i) == self.reads(i)
        }
    }

    /// That incarnation of that slot is handed out, in state `state`.
    pub open spec fn handed_out_for(&self, version: Version, state: SlotState) -> bool {
        &&& version.txn_idx < self.len()
        &&& self.slots().slots[version.txn_idx as int].state == state
        &&& self.slots().slots[version.txn_idx as int].incarnation == version.incarnation
    }

    fn is_handed_out(&self, version: Version, state: SlotState) -> (b: bool)
        requires
            self.wf(),
        ensures
            b == self.handed_out_for(version, state),
    {
        if version.txn_idx >= self.scheduler.len() {
            return false;
        }
        let slot = self.scheduler.slot(version.txn_idx);
        slot.incarnation == version.incarnation && slot.state == state
    }

    /// Validates the task `version`, if that incarnation of that slot is
    /// handed out for validation and the block has not ended.
    pub fn validate(&mut self, version: Version) -> (outcome: ValidationOutcome)
        requires
            old(self).wf(),
        ensures
            final(self).wf(),
            final(self).txns() == old(self).txns(),
            final(self).base() == old(self).base(),
            outcome is Stale <==> !(old(self).handed_out_for(version, SlotState::Validating)
                && old(self).ending().is_none()),
            outcome is Stale ==> final(self).slots() == old(self).slots() && final(self).unchanged_but_slots(old(self)),
            !(outcome is Stale) ==> old(self).validation_step(
                version.txn_idx,
                outcome,
                final(self).slots(),
                final(self).ending(),
            ),
    {
        if self.ending.is_some() || !self.is_handed_out(version, SlotState::Validating) {
            return ValidationOutcome::Stale;
        }
        self.validate_slot(version.txn_idx)
    }

    /// Calls the execution off. A block that has ended stays as it ended.
    pub fn cancel(&mut self)
        requires
            old(self).wf(),
        ensures
            final(self).wf(),
            final(self).txns() == old(self).txns(),
            final(self).base() == old(self).base(),
            final(self).ending() == match old(self).ending() {
                Some(e) => Some(e),
                None => Some(EndingView::Cancelled),
            },
            final(self).slots() == (Slots { halted: true, ..old(self).slots() }),
    {
        let ghost before = *self;
        if self.ending.is_none() {
            self.ending = Some(Ending::Cancelled);
            self.scheduler.halt();
        }
        proof {
            assert(self.slots() =~= (Slots { halted: true, ..before.slots() }));
            assert forall|i: int| 0 <= i < self.len() implies #[trigger] self.slot_fits(i) by {
                assert(before.slot_fits(i));
            }
            assert forall|i: int| 0 <= i < self.len() && self.live(i) implies #[trigger]
                self.decided(i) by {
                assert(before.live(i));
                assert(before.decided(i));
            }
            assert forall|i: int| 0 <= i < self.slots().committed implies #[trigger] self.sealed(
                i,
            ) by {
                assert(before.sealed(i));
            }
        }
    }

    /// Number of committed slots.
    pub fn committed(&self) -> (c: TxnIndex)
        ensures
            c == self.slots().committed,
    {
        self.scheduler.committed()
    }

    /// Whether the block has ended.
    pub fn has_ended(&self) -> (b: bool)
        ensures
            b == self.ending().is_some(),
    {
        self.ending.is_some()
    }

    /// The slot at `txn_idx`.
    pub fn slot(&self, txn_idx: TxnIndex) -> (slot: Slot)
        requires
            self.wf(),
            txn_idx < self.len(),
        ensures
            slot == self.slots().slots[txn_idx as int],
    {
        self.scheduler.slot(txn_idx)
    }

    /// Two executors with the same base state whose stores hold the same
    /// below `reader` give that reader sources that agree below it.
    proof fn lemma_same_cells(&self, other: &Self, reader: TxnIndex)
        requires
            self.base() == other.base(),
            forall|k: StateKey, i: TxnIndex|
                i < reader ==> self.data_cell(k, i) == other.data_cell(k, i),
            forall|k: DelayedFieldId, i: TxnIndex|
                i < reader ==> self.field_cell(k, i) == other.field_cell(k, i),
        ensures
            self.source(reader).base@ == other.source(reader).base@,
            forall|k: StateKey, i: TxnIndex|
                i < reader ==> self.source(reader).data.cell(k, i) == other.source(
                    reader,
                ).data.cell(k, i),
            forall|k: DelayedFieldId, i: TxnIndex|
                i < reader ==> self.source(reader).fields.cell(k, i) == other.source(
                    reader,
                ).fields.cell(k, i),
    {
        assert forall|k: StateKey, i: TxnIndex| i < reader implies self.source(reader).data.cell(
            k,
            i,
        ) == other.source(reader).data.cell(k, i) by {
            assert(self.data_cell(k, i) == other.data_cell(k, i));
        }
        assert forall|k: DelayedFieldId, i: TxnIndex| i < reader implies self.source(
            reader,
        ).fields.cell(k, i) == other.source(reader).fields.cell(k, i) by {
            assert(self.field_cell(k, i) == other.field_cell(k, i));
        }
    }

    /// The block has not ended, and the slot at the commit frontier waits
    /// for validation.
    pub open spec fn awaits_commit(&self) -> bool {
        &&& self.ending().is_none()
        &&& self.slots().committed < self.len()
        &&& self.slots().slots[self.slots().committed as int].state == SlotState::ReadyToValidate
    }

    /// The block, the base state and the records are as in `before`, and so
    /// is what the slots below `txn_idx` hold in the stores.
    pub open spec fn unchanged_but_cells_above(&self, before: &Self, txn_idx: TxnIndex) -> bool {
        &&& self.txns() == before.txns()
        &&& self.base() == before.base()
        &&& forall|k: StateKey, i: TxnIndex|
            i < txn_idx ==> self.data_cell(k, i) == before.data_cell(k, i)
        &&& forall|k: DelayedFieldId, i: TxnIndex|
            i < txn_idx ==> self.field_cell(k, i) == before.field_cell(k, i)
        &&& forall|i: int|
            0 <= i < before.len() ==> self.status(i) == before.status(i) && self.reads(i)
                == before.reads(i) && self.recorded_incarnation(i) == before.recorded_incarnation(
                i,
            )
    }

    /// Commits the slot at the commit frontier if it waits for validation
    /// and its reads still stand: the slot is handed out for validation and
    /// validated. If the block has ended, or the slot at the frontier does
    /// not wait for validation, nothing changes, and the outcome is `Stale`.
    pub fn try_commit(&mut self) -> (outcome: ValidationOutcome)
        requires
            old(self).wf(),
        ensures
            final(self).wf(),
            final(self).txns() == old(self).txns(),
            final(self).base() == old(self).base(),
            outcome is Stale <==> !old(self).awaits_commit(),
            outcome is Stale ==> final(self).slots() == old(self).slots() && final(self).unchanged_but_slots(old(self)),
            !(outcome is Stale) ==> old(self).validation_step_from(
                old(self).slots().handed_out(old(self).slots().committed as int),
                old(self).slots().committed as TxnIndex,
                outcome,
                final(self).slots(),
                final(self).ending(),
            ) && final(self).unchanged_but_cells_above(
                old(self),
                old(self).slots().committed as TxnIndex,
            ),
    {
        if self.ending.is_some() {
            return ValidationOutcome::Stale;
        }
        let c = self.scheduler.committed();
        match self.scheduler.slot(c).state {
            SlotState::ReadyToValidate => {},
            _ => {
                return ValidationOutcome::Stale;
            },
        }
        assert(self.slots().ready(c as int));
        let ghost before = *self;
        let task = self.next_task();
        match task {
            Task::Validate(v) => {
                assert(v.txn_idx == c) by {
                    if v.txn_idx > c {
                        assert(!before.slots().ready(c as int));
                    }
                    if v.txn_idx < c {
                        assert(before.slots().slots[v.txn_idx as int].state
                            == SlotState::Committed);
                    }
                }
                proof {
                    before.lemma_same_cells(self, c);
                    assert forall|p: int|
                        0 <= p < before.reads(c as int).len() implies (before.source(c).reports(
                        #[trigger] before.reads(c as int)[p],
                    ) <==> self.source(c).reports(before.reads(c as int)[p])) by {
                        lemma_reports_frame(
                            before.source(c),
                            self.source(c),
                            before.reads(c as int)[p],
                        );
                    }
                    assert(all_confirmed(before.source(c), before.reads(c as int))
                        == all_confirmed(self.source(c), self.reads(c as int))) by {
                        if all_confirmed(before.source(c), before.reads(c as int)) {
                            assert forall|p: int|
                                0 <= p < self.reads(c as int).len() implies self.source(
                                c,
                            ).confirms(#[trigger] self.reads(c as int)[p]) by {
                                assert(before.source(c).confirms(before.reads(c as int)[p]));
                            }
                        }
                        if all_confirmed(self.source(c), self.reads(c as int)) {
                            assert forall|p: int|
                                0 <= p < before.reads(c as int).len() implies before.source(
                                c,
                            ).confirms(#[trigger] before.reads(c as int)[p]) by {
                                assert(self.source(c).confirms(self.reads(c as int)[p]));
                            }
                        }
                    }
                }
                self.validate_slot(c)
            },
            Task::Execute(v) => {
                proof {
                    if v.txn_idx > c {
                        assert(!before.slots().ready(c as int));
                    }
                    if v.txn_idx < c {
                        assert(before.slots().slots[v.txn_idx as int].state
                            == SlotState::Committed);
                    }
                    assert(false);
                }
                ValidationOutcome::Stale
            },
            _ => {
                proof {
                    assert(before.slots().ready(c as int));
                    assert(false);
                }
                ValidationOutcome::Stale
            },
        }
    }

    /// What a try to commit does to the commit frontier: a slot that is
    /// committed moves it up by one, anything else leaves it. If no slot was
    /// handed out before, none is afterwards, unless the block has failed;
    /// and a try that commits nothing and leaves the block running leaves
    /// the slot at the frontier waiting for execution. A slot at the
    /// frontier whose reads stand is committed, unless the block ends with it.
    pub proof fn lemma_try_commit(before: &Self, after: &Self, outcome: ValidationOutcome)
        requires
            before.wf(),
            after.wf(),
            after.txns() == before.txns(),
            outcome is Stale <==> !before.awaits_commit(),
            outcome is Stale ==> after.slots() == before.slots() && after.ending()
                == before.ending(),
            !(outcome is Stale) ==> before.validation_step_from(
                before.slots().handed_out(before.slots().committed as int),
                before.slots().committed as TxnIndex,
                outcome,
                after.slots(),
                after.ending(),
            ),
        ensures
            after.slots().committed == before.slots().committed + if outcome is Committed {
                1nat
            } else {
                0nat
            },
            before.slots().idle() ==> after.ending().is_some() || after.slots().idle(),
            !(outcome is Committed) && after.ending().is_none() && before.slots().idle()
                ==> after.slots().slots[after.slots().committed as int].state
                == SlotState::ReadyToExecute,
            before.awaits_commit() && all_confirmed(
                before.source(before.slots().committed as TxnIndex),
                before.reads(before.slots().committed as int),
            ) ==> outcome is Committed || after.ending().is_some(),
            after.ending() == Some(EndingView::Cancelled) ==> before.ending() == Some(
                EndingView::Cancelled,
            ),
            before.ending().is_some() ==> after.ending() == before.ending(),
    {
    }

    /// A block that has ended, and was not called off, has come to what its
    /// sequential execution comes to: the committed slots are the
    /// transactions that the sequential execution commits, with the same
    /// outputs, and the ending is the same.
    pub proof fn lemma_result_is_sequential(&self)
        requires
            self.wf(),
            self.ending() is Some,
            !(self.ending().unwrap() is Cancelled),
        ensures
            sequential::<E>(self.txns(), self.base()).outputs == self.course(
                self.slots().committed,
            ).outputs,
            sequential::<E>(self.txns(), self.base()).outputs.len() == self.slots().committed,
            sequential::<E>(self.txns(), self.base()).state == self.course(
                self.slots().committed,
            ).state,
            sequential::<E>(self.txns(), self.base()).ending == self.ending(),
    {
        let n = self.len();
        let cc = self.slots().committed;
        self.lemma_prefix(cc);
        if cc > 0 {
            assert(self.sealed(cc - 1));
        }
        match self.ending().unwrap() {
            EndingView::Completed => {},
            EndingView::Truncated => {
                lemma_course_ended::<E>(self.txns(), self.base(), cc, n);
            },
            EndingView::Failed(s) => {
                let next = self.course((cc + 1) as nat);
                assert(next == advance(self.course(cc), self.status(cc as int)));
                lemma_course_ended::<E>(self.txns(), self.base(), (cc + 1) as nat, n);
            },
            EndingView::Cancelled => {},
        }
    }

    /// Ends the use of the executor: applies the outputs of the committed
    /// slots to the base state, in index order, and hands back those outputs
    /// with the ending, and the state. A block that was not called off gives
    /// what its sequential execution gives; one that was called off gives
    /// what the sequential execution had reached after the committed slots.
    pub fn into_output(self) -> (r: (BlockOutput, StateStore))
        requires
            self.wf(),
            self.ending().is_some(),
        ensures
            r.0.ending@ == self.ending().unwrap(),
            !(r.0.ending is Cancelled) ==> output_views(r.0.outputs@)
                == sequential::<E>(self.txns(), self.base()).outputs && r.1@ == sequential::<E>(
                self.txns(),
                self.base(),
            ).state && Some(r.0.ending@) == sequential::<E>(self.txns(), self.base()).ending,
            r.0.ending is Cancelled ==> output_views(r.0.outputs@)
                == self.course(self.slots().committed).outputs && r.1@ == self.course(
                self.slots().committed,
            ).state && self.course(self.slots().committed).ending.is_none(),
            r.0.outputs@.len() == self.slots().committed,
    {
        let ghost me = self;
        let c = self.scheduler.committed() as usize;
        let BlockExecutor { base, records, ending, .. } = self;
        let mut base = base;
        let mut outputs: Vec<TransactionOutput> = Vec::new();
        let mut i: usize = 0;
        proof {
            assert(output_views(outputs@) =~= me.course(0).outputs);
        }
        while i < c
            invariant
                i <= c,
                c == me.slots().committed,
                me.wf(),
                records == me.records,
                base@ == me.course(i as nat).state,
                output_views(outputs@) == me.course(i as nat).outputs,
                outputs@.len() == i,
            decreases c - i,
        {
            proof {
                me.lemma_prefix(i as nat);
                me.lemma_prefix((i + 1) as nat);
                assert(me.sealed(i as int));
                if i > 0 {
                    assert(me.sealed(i - 1));
                }
                assert(me.course((i + 1) as nat) == advance(
                    me.course(i as nat),
                    me.status(i as int),
                ));
            }
            match records[i].status.output() {
                Some(out) => {
                    base.apply(out);
                    let copy = out.duplicate();
                    proof {
                        assert(output_views(outputs@.push(copy))
                            =~= output_views(outputs@).push(copy@));
                    }
                    outputs.push(copy);
                },
                None => {
                    assert(false);
                },
            }
            i = i + 1;
        }
        let ending = match ending {
            Some(e) => e,
            None => Ending::Cancelled,
        };
        proof {
            me.lemma_prefix(c as nat);
            if c > 0 {
                assert(me.sealed(c - 1));
            }
            if !(me.ending().unwrap() is Cancelled) {
                me.lemma_result_is_sequential();
            }
        }
        (BlockOutput { outputs, ending }, base)
    }

    /// Takes back every task that was handed out and not finished.
    pub fn recall(&mut self)
        requires
            old(self).wf(),
        ensures
            final(self).wf(),
            final(self).unchanged_but_slots(old(self)),
            final(self).slots() == old(self).slots().recalled(),
            final(self).slots().idle(),
    {
        let ghost before = *self;
        self.scheduler.recall();
        proof {
            assert forall|i: int| 0 <= i < self.len() implies #[trigger] self.slot_fits(i) by {
                assert(before.slot_fits(i));
            }
            assert forall|i: int| 0 <= i < self.len() && self.live(i) implies #[trigger]
                self.decided(i) by {
                assert(before.live(i));
                assert(before.decided(i));
            }
            assert forall|i: int| 0 <= i < self.slots().committed implies #[trigger] self.sealed(
                i,
            ) by {
                assert(before.sealed(i));
            }
        }
    }

    /// The result of running slot `txn_idx` on this executor: the reads
    /// decide the status, they are reads of the stores as they stand, and
    /// whatever they wait for lies below the slot.
    pub open spec fn result_fits(
        &self,
        txn_idx: TxnIndex,
        status: StatusView,
        reads: Seq<ReadDescriptor>,
    ) -> bool {
        &&& decided_by_reads::<E>(self.txns()[txn_idx as int], reads, status)
        &&& forall|p: int| 0 <= p < reads.len() ==> self.source(txn_idx).reports(#[trigger] reads[p])
        &&& forall|p: int|
            0 <= p < reads.len() ==> match blocker_of(#[trigger] reads[p]) {
                Some(b) => b < txn_idx,
                None => true,
            }
    }

    /// Reads made on behalf of the slot at the commit frontier ran into no
    /// unresolved write, and stand.
    proof fn lemma_frontier_reads_stand(&self, reads: Seq<ReadDescriptor>)
        requires
            self.wf(),
            forall|p: int|
                0 <= p < reads.len() ==> self.source(self.slots().committed as TxnIndex).reports(
                    #[trigger] reads[p],
                ),
        ensures
            !blocked(reads),
            all_confirmed(self.source(self.slots().committed as TxnIndex), reads),
    {
        let c = self.slots().committed;
        let source = self.source(c as TxnIndex);
        self.lemma_prefix(c);
        assert forall|p: int| 0 <= p < reads.len() implies !(#[trigger] reads[p]).is_dependency() by {
            assert(source.reports(reads[p]));
            match reads[p] {
                ReadDescriptor::Data { key, observed } => {
                    assert(!(source.data_read(key) is Dependency));
                },
                ReadDescriptor::Field { id, observed } => {
                    assert(source.fields.resolved_below(id, c as TxnIndex));
                },
            }
        }
    }

    /// One round of speculative execution. Up to `width` tasks are handed
    /// out, lowest index first. Validations are made as they come; the
    /// executions all run against the stores as they stand once the tasks
    /// are handed out, none seeing what another of the round writes, and
    /// their results are recorded afterwards. Then every slot that can be
    /// committed is. The round commits at least the slot that was at the
    /// commit frontier, unless the block ends in it.
    fn round<K: BlockSynchronizationKillSwitch>(&mut self, width: usize, kill_switch: Option<&K>)
        requires
            old(self).wf(),
            old(self).ending().is_none(),
            old(self).slots().idle(),
            old(self).slots().slots[old(self).slots().committed as int].state
                == SlotState::ReadyToExecute,
        ensures
            final(self).wf(),
            final(self).txns() == old(self).txns(),
            final(self).base() == old(self).base(),
            final(self).ending().is_some() || final(self).slots().committed > old(self).slots().committed,
            final(self).slots().committed >= old(self).slots().committed,
            final(self).ending().is_none() ==> final(self).slots().idle() && final(self).slots().slots[final(self).slots().committed as int].state
                == SlotState::ReadyToExecute,
            final(self).ending() == Some(EndingView::Cancelled) ==> kill_switch.is_some(),
    {
        let c = self.scheduler.committed();
        let ghost start = *self;
        assert(self.slots().ready(c as int));
        let first = self.next_task();
        proof {
            match first {
                Task::Execute(v) => {
                    if v.txn_idx > c {
                        assert(!start.slots().ready(c as int));
                    }
                    if v.txn_idx < c {
                        assert(start.slots().slots[v.txn_idx as int].state
                            == SlotState::Committed);
                    }
                },
                Task::Validate(v) => {
                    if v.txn_idx > c {
                        assert(!start.slots().ready(c as int));
                    }
                    if v.txn_idx < c {
                        assert(start.slots().slots[v.txn_idx as int].state
                            == SlotState::Committed);
                    }
                    assert(false);
                },
                _ => {
                    assert(start.slots().ready(c as int));
                    assert(false);
                },
            }
        }
        let mut handed: Vec<TxnIndex> = Vec::new();
        handed.push(c);
        let mut w: usize = 1;
        while w < width
            invariant
                self.wf(),
                self.ending().is_none(),
                self.slots().committed == c,
                self.txns() == start.txns(),
                self.base() == start.base(),
                handed@.len() >= 1,
                handed@[0] == c,
                all_executing(self.slots(), handed@),
                distinct(handed@),
            decreases width - w,
        {
            let ghost before = *self;
            let task = self.next_task();
            match task {
                Task::Execute(v) => {
                    handed.push(v.txn_idx);
                },
                Task::Validate(v) => {
                    proof {
                        if v.txn_idx < c {
                            assert(before.slots().slots[v.txn_idx as int].state
                                == SlotState::Committed);
                        }
                    }
                    self.validate_slot(v.txn_idx);
                },
                _ => {
                    break ;
                },
            }
            w = w + 1;
        }
        if interrupted(kill_switch) {
            self.cancel();
            return ;
        }
        let ghost full = handed@;
        let ghost ran = *self;
        let mut results: Vec<(ExecutionStatus, Vec<ReadDescriptor>)> = Vec::new();
        let mut q: usize = 0;
        while q < handed.len()
            invariant
                q <= handed.len(),
                handed@ == full,
                *self == ran,
                self.wf(),
                all_executing(self.slots(), handed@),
                results@.len() == q,
                forall|r: int|
                    0 <= r < q ==> ran.result_fits(
                        full[r],
                        (#[trigger] results@[r]).0@,
                        results@[r].1@,
                    ),
            decreases handed.len() - q,
        {
            let r = self.run_slot(handed[q]);
            results.push(r);
            q = q + 1;
        }
        proof {
            ran.lemma_frontier_reads_stand(results@[0].1@);
        }
        while results.len() > 0
            invariant
                self.wf(),
                self.ending().is_none(),
                self.slots().committed == c,
                self.txns() == start.txns(),
                self.base() == start.base(),
                start.txns() == old(self).txns(),
                start.base() == old(self).base(),
                c == old(self).slots().committed,
                ran.wf(),
                ran.txns() == start.txns(),
                ran.base() == start.base(),
                ran.slots().committed == c,
                full.len() >= 1,
                full[0] == c,
                distinct(full),
                results@.len() == handed@.len(),
                handed@ == full.take(handed@.len() as int),
                handed@.len() <= full.len(),
                all_executing(self.slots(), handed@),
                forall|r: int|
                    0 <= r < results@.len() ==> ran.result_fits(
                        full[r],
                        (#[trigger] results@[r]).0@,
                        results@[r].1@,
                    ),
                forall|k: StateKey, i: TxnIndex|
                    i < c ==> self.data_cell(k, i) == ran.data_cell(k, i),
                forall|k: DelayedFieldId, i: TxnIndex|
                    i < c ==> self.field_cell(k, i) == ran.field_cell(k, i),
                results@.len() > 0 ==> !blocked(results@[0].1@),
                results@.len() == 0 ==> self.slots().slots[c as int].state
                    == SlotState::ReadyToValidate && all_confirmed(
                    ran.source(c),
                    self.reads(c as int),
                ),
            decreases results.len(),
        {
            let ghost before = *self;
            let ghost m = results@.len() - 1;
            let r = results.pop().unwrap();
            let txn_idx = handed.pop().unwrap();
            proof {
                assert(txn_idx == full[m]);
                assert(ran.result_fits(full[m], r.0@, r.1@));
                assert(handed@ =~= full.take(m));
                if m == 0 {
                    ran.lemma_frontier_reads_stand(r.1@);
                }
            }
            self.install(txn_idx, r.0, r.1);
            proof {
                assert(all_executing(self.slots(), handed@)) by {
                    assert forall|x: int| 0 <= x < handed@.len() implies handed@[x]
                        < self.slots().slots.len() && self.slots().slots[handed@[x] as int].state
                        == SlotState::Executing by {
                        assert(full[x] != full[m]);
                        assert(before.slots().slots[handed@[x] as int].state
                            == SlotState::Executing);
                    }
                }
            }
            if interrupted(kill_switch) {
                self.cancel();
                return ;
            }
        }
        proof {
            ran.lemma_same_cells(self, c);
            assert forall|p: int| 0 <= p < self.reads(c as int).len() implies self.source(
                c,
            ).confirms(#[trigger] self.reads(c as int)[p]) by {
                assert(ran.source(c).confirms(self.reads(c as int)[p]));
                lemma_reports_frame(ran.source(c), self.source(c), self.reads(c as int)[p]);
            }
        }
        let ghost installed = *self;
        self.recall();
        proof {
            installed.lemma_same_cells(self, c);
            assert forall|p: int| 0 <= p < self.reads(c as int).len() implies self.source(
                c,
            ).confirms(#[trigger] self.reads(c as int)[p]) by {
                assert(installed.source(c).confirms(installed.reads(c as int)[p]));
                lemma_reports_frame(installed.source(c), self.source(c), self.reads(c as int)[p]);
            }
        }
        let ghost recalled = *self;
        let first = self.try_commit();
        proof {
            Self::lemma_try_commit(&recalled, self, first);
        }
        let mut more = first == ValidationOutcome::Committed;
        while more
            invariant
                self.wf(),
                self.txns() == start.txns(),
                self.base() == start.base(),
                start.txns() == old(self).txns(),
                start.base() == old(self).base(),
                c == old(self).slots().committed,
                self.slots().committed >= c,
                self.ending().is_some() || self.slots().committed > c,
                self.ending().is_some() || self.slots().idle(),
                !more && self.ending().is_none() ==> self.slots().slots[self.slots().committed as int].state
                    == SlotState::ReadyToExecute,
                self.ending() == Some(EndingView::Cancelled) ==> kill_switch.is_some(),
                self.slots().committed <= self.len(),
            decreases self.len() - self.slots().committed + if more {
                1int
            } else {
                0int
            },
        {
            if interrupted(kill_switch) {
                self.cancel();
                return ;
            }
            let ghost before = *self;
            let outcome = self.try_commit();
            proof {
                Self::lemma_try_commit(&before, self, outcome);
            }
            more = outcome == ValidationOutcome::Committed;
        }
    }

    /// Runs the block to its end: rounds of speculative execution, each
    /// `concurrency_level` tasks wide (one at least), until every slot is
    /// committed or the block has ended otherwise. The kill switch, where
    /// there is one, is polled between the steps; once it is raised, nothing
    /// more is executed or committed, and the block ends as cancelled. A
    /// block that is not called off ends as its sequential execution ends,
    /// with as many slots committed.
    pub fn run<K: BlockSynchronizationKillSwitch>(
        &mut self,
        concurrency_level: usize,
        kill_switch: Option<&K>,
    )
        requires
            old(self).wf(),
        ensures
            final(self).wf(),
            final(self).txns() == old(self).txns(),
            final(self).base() == old(self).base(),
            final(self).ending().is_some(),
            old(self).ending().is_some() ==> final(self).ending() == old(self).ending(),
            final(self).ending() == Some(EndingView::Cancelled) ==> kill_switch.is_some() || old(self).ending() == Some(EndingView::Cancelled),
            !(final(self).ending().unwrap() is Cancelled) ==> final(self).slots().committed
                == sequential::<E>(final(self).txns(), final(self).base()).outputs.len() && final(self).ending() == sequential::<E>(final(self).txns(), final(self).base()).ending,
    {
        self.recall();
        let ghost recalled = *self;
        let first = self.try_commit();
        proof {
            Self::lemma_try_commit(&recalled, self, first);
        }
        let mut more = first == ValidationOutcome::Committed;
        while more
            invariant
                self.wf(),
                self.txns() == old(self).txns(),
                self.base() == old(self).base(),
                old(self).ending().is_some() ==> self.ending() == old(self).ending(),
                self.ending() == Some(EndingView::Cancelled) ==> old(self).ending() == Some(
                    EndingView::Cancelled,
                ),
                self.ending().is_some() || self.slots().idle(),
                !more && self.ending().is_none() ==> self.slots().slots[self.slots().committed as int].state
                    == SlotState::ReadyToExecute,
                self.slots().committed <= self.len(),
            decreases self.len() - self.slots().committed + if more {
                1int
            } else {
                0int
            },
        {
            let ghost before = *self;
            let outcome = self.try_commit();
            proof {
                Self::lemma_try_commit(&before, self, outcome);
            }
            more = outcome == ValidationOutcome::Committed;
        }
        while !self.has_ended()
            invariant
                self.wf(),
                self.txns() == old(self).txns(),
                self.base() == old(self).base(),
                old(self).ending().is_some() ==> self.ending() == old(self).ending(),
                self.ending() == Some(EndingView::Cancelled) ==> kill_switch.is_some() || old(self).ending() == Some(EndingView::Cancelled),
                self.ending().is_none() ==> self.slots().idle() && self.slots().slots[self.slots().committed as int].state
                    == SlotState::ReadyToExecute,
                self.slots().committed <= self.len(),
            decreases self.len() - self.slots().committed + if self.ending().is_none() {
                1int
            } else {
                0int
            },
        {
            if interrupted(kill_switch) {
                self.cancel();
            } else {
                self.round(concurrency_level, kill_switch);
            }
        }
        proof {
            if !(self.ending().unwrap() is Cancelled) {
                self.lemma_result_is_sequential();
            }
        }
    }

    /// Number of slots whose record is final: the committed ones, and the
    /// one that the block failed with.
    pub open spec fn settled(&self) -> nat {
        self.slots().committed + if self.ending() is Some && self.ending().unwrap() is Failed {
            1nat
        } else {
            0nat
        }
    }

    /// The record of a settled slot holds what the transaction ends in when
    /// it runs alone after the transactions below it, and its reads decide it.
    pub proof fn lemma_settled_is_sequential(&self, i: int)
        requires
            self.wf(),
            0 <= i < self.settled(),
        ensures
            i < self.len(),
            self.decided(i),
            self.status(i) == E::outcome(self.txns()[i], self.course(i as nat).state),
    {
        if i < self.slots().committed {
            assert(self.sealed(i));
            assert(self.live(i));
        }
    }

    /// A block that has ended, and was not called off, has settled its first slot.
    pub proof fn lemma_first_is_settled(&self)
        requires
            self.wf(),
            self.len() >= 1,
            self.ending() is Some,
            !(self.ending().unwrap() is Cancelled),
        ensures
            self.settled() >= 1,
    {
    }

    /// Ends the use of the executor and hands out the records of its slots,
    /// with the number of committed slots and the ending.
    pub fn into_records(self) -> (r: Settled)
        requires
            self.wf(),
            self.ending() is Some,
        ensures
            r.records@.len() == self.len(),
            forall|i: int|
                0 <= i < self.len() ==> (#[trigger] r.records@[i]).status@ == self.status(i)
                    && r.records@[i].reads@ == self.reads(i),
            r.committed == self.slots().committed,
            r.ending@ == self.ending().unwrap(),
    {
        let committed = self.scheduler.committed();
        let BlockExecutor { records, ending, .. } = self;
        let ending = match ending {
            Some(e) => e,
            None => Ending::Cancelled,
        };
        Settled { records, committed, ending }
    }

    /// Commit monotonicity: a slot is committed only above committed
    /// slots, and never above a slot that ended the block.
    pub proof fn lemma_commits_in_order(&self, i: int, j: int)
        requires
            self.wf(),
            0 <= j < i < self.len(),
            self.slots().slots[i].state == SlotState::Committed,
        ensures
            self.slots().slots[j].state == SlotState::Committed,
            !(self.status(j) is SkipRest),
    {
        assert(self.sealed(j));
    }

    /// No stale reads: a value that a reader observes is the one that the
    /// slot it comes from wrote in its current incarnation, and that
    /// incarnation stands. What an incarnation that was declared void wrote
    /// is observed by nobody.
    pub proof fn lemma_reads_are_current(&self, key: StateKey, reader: TxnIndex)
        requires
            self.wf(),
            reader <= self.len(),
        ensures
            match self.source(reader).data_read(key) {
                crate::task::DataRead::Versioned { txn_idx, incarnation, value } => {
                    &&& txn_idx < reader
                    &&& self.live(txn_idx as int)
                    &&& incarnation == self.recorded_incarnation(txn_idx as int)
                    &&& last_entry(self.status(txn_idx as int).writes(), key) == Some(value)
                },
                _ => true,
            },
    {
        self.data.lemma_latest_is_held(key, reader);
        self.data.lemma_latest_is_below(key, reader);
        match self.source(reader).data_read(key) {
            crate::task::DataRead::Versioned { txn_idx, incarnation, value } => {
                assert(self.slot_fits(txn_idx as int));
                assert(self.data_cell(key, txn_idx) == expected(
                    last_entry(self.status(txn_idx as int).writes(), key),
                    self.recorded_incarnation(txn_idx as int),
                    self.live(txn_idx as int),
                ));
            },
            _ => {},
        }
    }

    /// No stale deltas: a delta that counts towards the value of a delayed
    /// field is the one that its slot applied in its current incarnation,
    /// and that incarnation stands.
    pub proof fn lemma_deltas_are_current(&self, id: DelayedFieldId, txn_idx: TxnIndex)
        requires
            self.wf(),
            txn_idx < self.len(),
        ensures
            match self.field_cell(id, txn_idx) {
                Some(c) => c.payload.is_some() ==> {
                    &&& self.live(txn_idx as int)
                    &&& c.incarnation == self.recorded_incarnation(txn_idx as int)
                    &&& last_entry(self.status(txn_idx as int).deltas(), id) == c.payload
                },
                None => true,
            },
    {
        assert(self.slot_fits(txn_idx as int));
        assert(self.field_cell(id, txn_idx) == expected(
            last_entry(self.status(txn_idx as int).deltas(), id),
            self.recorded_incarnation(txn_idx as int),
            self.live(txn_idx as int),
        ));
    }
}

/// Executes a block speculatively, `concurrency_level` tasks at a time, and
/// applies the outputs of the committed transactions to the state. Unless
/// the execution is called off, the outputs, the state and the ending are
/// those of the sequential execution of the block. If it is called off,
/// they are what the sequential execution had reached after as many
/// transactions as there are outputs.
pub fn execute_transactions_parallel<E: ExecutorTask, K: BlockSynchronizationKillSwitch>(
    executor: E,
    txns: Vec<E::Txn>,
    base: StateStore,
    concurrency_level: usize,
    kill_switch: Option<&K>,
) -> (r: (BlockOutput, StateStore))
    requires
        txns.len() <= TxnIndex::MAX,
    ensures
        !(r.0.ending is Cancelled) ==> output_views(r.0.outputs@) == sequential::<E>(
            txns@,
            base@,
        ).outputs && r.1@ == sequential::<E>(txns@, base@).state && Some(r.0.ending@)
            == sequential::<E>(txns@, base@).ending,
        r.0.ending is Cancelled ==> kill_switch.is_some() && r.0.outputs@.len() <= txns.len()
            && output_views(r.0.outputs@) == course::<E>(
            txns@,
            base@,
            r.0.outputs@.len() as nat,
        ).outputs && r.1@ == course::<E>(txns@, base@, r.0.outputs@.len() as nat).state && course::<
            E,
        >(txns@, base@, r.0.outputs@.len() as nat).ending.is_none(),
{
    let mut refs: Vec<&E::Txn> = Vec::new();
    let mut i: usize = 0;
    while i < txns.len()
        invariant
            i <= txns.len(),
            refs@.len() == i,
            forall|j: int| 0 <= j < i ==> *(#[trigger] refs@[j]) == txns@[j],
        decreases txns.len() - i,
    {
        refs.push(&txns[i]);
        i = i + 1;
    }
    assert(referred(refs@) =~= txns@);
    let mut block = BlockExecutor::new(executor, refs, base);
    block.run(concurrency_level, kill_switch);
    block.into_output()
}

/// The signal by which the caller calls the execution of a block off. It is
/// polled between the steps of the execution.
pub trait BlockSynchronizationKillSwitch {
    /// Whether the caller asks for the execution to stop.
    fn interrupt_requested(&self) -> bool;
}

/// A kill switch that is never raised.
pub struct NeverInterrupted;

impl BlockSynchronizationKillSwitch for NeverInterrupted {
    fn interrupt_requested(&self) -> (raised: bool)
        ensures
            !raised,
    {
        false
    }
}

/// Polls the kill switch, where there is one.
fn interrupted<K: BlockSynchronizationKillSwitch>(kill_switch: Option<&K>) -> (raised: bool)
    ensures
        raised ==> kill_switch.is_some(),
{
    match kill_switch {
        Some(k) => k.interrupt_requested(),
        None => false,
    }
}

/// Every slot of the list is handed out for execution.
pub open spec fn all_executing(slots: Slots, handed: Seq<TxnIndex>) -> bool {
    forall|q: int|
        0 <= q < handed.len() ==> (#[trigger] handed[q]) < slots.slots.len()
            && slots.slots[handed[q] as int].state == SlotState::Executing
}

/// No slot occurs twice in the list.
pub open spec fn distinct(handed: Seq<TxnIndex>) -> bool {
    forall|a: int, b: int| 0 <= a < b < handed.len() ==> handed[a] != handed[b]
}

/// What an executor that has ended leaves behind.
pub struct Settled {
    /// The record of every slot.
    pub records: Vec<Record>,
    /// Number of committed slots.
    pub committed: TxnIndex,
    /// How the block ended.
    pub ending: Ending,
}

/// What a validation made of its slot.
#[derive(Clone, Copy, Debug, PartialEq, Eq, Structural)]
pub enum ValidationOutcome {
    /// The task did not apply: the slot is not handed out for that
    /// validation, or the block has ended.
    Stale,
    /// The reads no longer stand: the slot runs again.
    Aborted,
    /// The reads stand; the slot waits for its turn to commit.
    Parked,
    /// The reads stand, and the slot was committed.
    Committed,
    /// The reads stand, and the block failed with the slot.
    Failed,
}

/// Some entry of the read-set recorded a dependency.
pub open spec fn blocked(reads: Seq<ReadDescriptor>) -> bool {
    exists|p: int| 0 <= p < reads.len() && (#[trigger] reads[p]).is_dependency()
}

} // verus!
