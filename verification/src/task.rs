//! The contract between the engine and the executor that runs single
//! transactions: what an execution is handed, what it returns, and what the
//! engine may rely on.

use vstd::prelude::*;
use crate::delayed::{DelayedFieldStore, Pending};
use crate::mvs::{Lookup, VersionedStore};
use crate::state::{OutputView, State, StateStore, TransactionOutput};
use crate::types::{DelayedFieldId, Incarnation, StateKey, TxnIndex, Value};

verus! {

/// The status codes of the virtual machine, as far as the engine tells them apart.
#[derive(Clone, Copy, Debug, PartialEq, Eq, Structural)]
pub enum StatusCode {
    /// The execution saw speculative state that does not fit together.
    SpeculativeExecutionAbortError,
    /// An invariant of delayed fields, or of the engine itself, was found broken.
    DelayedFieldOrBlockStmCodeInvariantError,
    /// Any other status code, by its number.
    Other(u64),
}

/// Status of a virtual machine run: a code and, where the machine gave one, a message.
#[derive(Debug)]
pub struct VmStatus {
    pub status_code: StatusCode,
    pub message: Option<String>,
}

/// Model of a [`VmStatus`].
pub struct VmStatusView {
    pub status_code: StatusCode,
    pub message: Option<Seq<char>>,
}

impl VmStatusView {
    /// The message of the status; the empty text if it has none.
    pub open spec fn message_or_empty(self) -> Seq<char> {
        match self.message {
            Some(m) => m,
            None => Seq::empty(),
        }
    }
}

impl VmStatus {
    /// The message of the status; the empty text if it has none.
    pub fn message_or_default(&self) -> (m: String)
        ensures
            m@ == self@.message_or_empty(),
    {
        match &self.message {
            Some(m) => m.clone(),
            None => String::new(),
        }
    }
}

impl View for VmStatus {
    type V = VmStatusView;

    open spec fn view(&self) -> VmStatusView {
        VmStatusView {
            status_code: self.status_code,
            message: match self.message {
                Some(m) => Some(m@),
                None => None,
            },
        }
    }
}

/// What one execution of one transaction ended in.
#[derive(Debug)]
pub enum ExecutionStatus {
    /// Normal result.
    Success(TransactionOutput),
    /// The transaction ends the block: it is committed, and every
    /// transaction after it is dropped from this block.
    SkipRest(TransactionOutput),
    /// A transaction that must never fail did.
    Abort(VmStatus),
    /// The execution saw speculative state that does not fit together; the
    /// attempt is void.
    SpeculativeExecutionAbortError(String),
    /// An invariant of delayed fields was found broken.
    DelayedFieldsCodeInvariantError(String),
}

/// Model of an [`ExecutionStatus`].
pub enum StatusView {
    Success(OutputView),
    SkipRest(OutputView),
    Abort(VmStatusView),
    SpeculativeExecutionAbortError(Seq<char>),
    DelayedFieldsCodeInvariantError(Seq<char>),
}

impl View for ExecutionStatus {
    type V = StatusView;

    open spec fn view(&self) -> StatusView {
        match self {
            ExecutionStatus::Success(out) => StatusView::Success(out@),
            ExecutionStatus::SkipRest(out) => StatusView::SkipRest(out@),
            ExecutionStatus::Abort(e) => StatusView::Abort(e@),
            ExecutionStatus::SpeculativeExecutionAbortError(m) => {
                StatusView::SpeculativeExecutionAbortError(m@)
            },
            ExecutionStatus::DelayedFieldsCodeInvariantError(m) => {
                StatusView::DelayedFieldsCodeInvariantError(m@)
            },
        }
    }
}

impl StatusView {
    /// The output that the execution produced, if it produced one.
    pub open spec fn output(self) -> Option<OutputView> {
        match self {
            StatusView::Success(out) => Some(out),
            StatusView::SkipRest(out) => Some(out),
            _ => None,
        }
    }

    /// The storage locations that the execution wrote.
    pub open spec fn writes(self) -> Seq<(StateKey, Value)> {
        match self.output() {
            Some(out) => out.writes,
            None => Seq::empty(),
        }
    }

    /// The deltas that the execution applied to delayed fields.
    pub open spec fn deltas(self) -> Seq<(DelayedFieldId, i64)> {
        match self.output() {
            Some(out) => out.deltas,
            None => Seq::empty(),
        }
    }
}

impl ExecutionStatus {
    /// The output that the execution produced, if it produced one.
    pub fn output(&self) -> (out: Option<&TransactionOutput>)
        ensures
            match out {
                Some(o) => self@.output() == Some(o@),
                None => self@.output().is_none(),
            },
    {
        match self {
            ExecutionStatus::Success(out) => Some(out),
            ExecutionStatus::SkipRest(out) => Some(out),
            _ => None,
        }
    }

    /// A copy of this status.
    pub fn duplicate(&self) -> (copy: Self)
        ensures
            copy@ == self@,
    {
        match self {
            ExecutionStatus::Success(out) => ExecutionStatus::Success(out.duplicate()),
            ExecutionStatus::SkipRest(out) => ExecutionStatus::SkipRest(out.duplicate()),
            ExecutionStatus::Abort(e) => ExecutionStatus::Abort(
                VmStatus {
                    status_code: e.status_code,
                    message: match &e.message {
                        Some(m) => Some(m.clone()),
                        None => None,
                    },
                },
            ),
            ExecutionStatus::SpeculativeExecutionAbortError(m) => {
                ExecutionStatus::SpeculativeExecutionAbortError(m.clone())
            },
            ExecutionStatus::DelayedFieldsCodeInvariantError(m) => {
                ExecutionStatus::DelayedFieldsCodeInvariantError(m.clone())
            },
        }
    }
}

/// What a read of a storage location observed.
#[allow(inconsistent_fields)]
#[derive(Clone, Copy, Debug)]
pub enum DataRead {
    /// The value that this incarnation of a lower slot wrote.
    Versioned { txn_idx: TxnIndex, incarnation: Incarnation, value: Value },
    /// No lower slot holds the key; this is what the base state has.
    Storage { value: Option<Value> },
    /// The closest lower slot that holds the key has not resolved its write.
    Dependency { txn_idx: TxnIndex },
}

/// What a read of a delayed field observed.
#[derive(Clone, Copy, Debug)]
pub enum FieldRead {
    /// The value of the field.
    Value { value: i128 },
    /// Whether the field, moved by `delta`, stays between zero and `limit`.
    Bound { delta: i64, limit: u64, within: bool },
    /// A lower slot has not resolved its delta.
    Dependency { txn_idx: TxnIndex },
}

/// One entry of a read-set.
#[allow(inconsistent_fields)]
#[derive(Clone, Copy, Debug)]
pub enum ReadDescriptor {
    Data { key: StateKey, observed: DataRead },
    Field { id: DelayedFieldId, observed: FieldRead },
}

impl DataRead {
    /// The content that the read stands for; nothing for a dependency.
    pub open spec fn content(self) -> Option<Value> {
        match self {
            DataRead::Versioned { value, .. } => Some(value),
            DataRead::Storage { value } => value,
            DataRead::Dependency { .. } => None,
        }
    }

    /// Tells whether two reads observed the same.
    pub fn same(&self, other: &DataRead) -> (b: bool)
        ensures
            b == (*self == *other),
    {
        match (*self, *other) {
            (
                DataRead::Versioned { txn_idx: a, incarnation: b, value: c },
                DataRead::Versioned { txn_idx: x, incarnation: y, value: z },
            ) => a == x && b == y && c == z,
            (DataRead::Storage { value: a }, DataRead::Storage { value: x }) => match (a, x) {
                (Some(u), Some(v)) => u == v,
                (None, None) => true,
                _ => false,
            },
            (DataRead::Dependency { txn_idx: a }, DataRead::Dependency { txn_idx: x }) => a == x,
            _ => false,
        }
    }
}

impl ReadDescriptor {
    /// The read ran into an unresolved write.
    pub open spec fn is_dependency(self) -> bool {
        match self {
            ReadDescriptor::Data { observed, .. } => observed is Dependency,
            ReadDescriptor::Field { observed, .. } => observed is Dependency,
        }
    }

    /// A transaction that runs on `s` alone would observe the same.
    pub open spec fn holds_in(self, s: State) -> bool {
        match self {
            ReadDescriptor::Data { key, observed } => !(observed is Dependency) && s.value(key)
                == observed.content(),
            ReadDescriptor::Field { id, observed } => match observed {
                FieldRead::Value { value } => s.field(id) == value,
                FieldRead::Bound { delta, limit, within } => within == (0 <= s.field(id) + delta
                    <= limit),
                FieldRead::Dependency { .. } => false,
            },
        }
    }
}

/// Every entry of the read-set would be observed on `s` alone.
pub open spec fn reads_hold_in(reads: Seq<ReadDescriptor>, s: State) -> bool {
    forall|p: int| 0 <= p < reads.len() ==> (#[trigger] reads[p]).holds_in(s)
}

/// A read-set extended by one entry holds in a state exactly if the
/// read-set and the entry do.
pub proof fn lemma_reads_hold_push(reads: Seq<ReadDescriptor>, d: ReadDescriptor, s: State)
    ensures
        reads_hold_in(reads.push(d), s) == (reads_hold_in(reads, s) && d.holds_in(s)),
{
    let more = reads.push(d);
    if reads_hold_in(more, s) {
        assert forall|p: int| 0 <= p < reads.len() implies (#[trigger] reads[p]).holds_in(s) by {
            assert(more[p] == reads[p]);
        }
        assert(more[reads.len() as int] == d);
    }
    if reads_hold_in(reads, s) && d.holds_in(s) {
        assert forall|p: int| 0 <= p < more.len() implies (#[trigger] more[p]).holds_in(s) by {
            if p < reads.len() {
                assert(more[p] == reads[p]);
            }
        }
    }
}

/// What a reader slot executes against: the two multi-version stores and
/// the base state below them.
pub struct Snapshot<'a> {
    pub data: &'a VersionedStore<Value>,
    pub fields: &'a DelayedFieldStore,
    pub base: &'a StateStore,
    pub reader: TxnIndex,
}

impl<'a> Snapshot<'a> {
    /// The two multi-version stores are well formed.
    pub open spec fn wf(&self) -> bool {
        self.data.wf() && self.fields.wf()
    }

    /// What the reader observes for a storage location.
    pub open spec fn data_read(&self, key: StateKey) -> DataRead {
        match self.data.latest(key, self.reader) {
            Lookup::Versioned { txn_idx, incarnation, payload } => DataRead::Versioned {
                txn_idx,
                incarnation,
                value: payload,
            },
            Lookup::Dependency { txn_idx } => DataRead::Dependency { txn_idx },
            Lookup::Uninitialized => DataRead::Storage { value: self.base@.value(key) },
        }
    }

    /// Value of a delayed field for the reader, all deltas below it taken as resolved.
    pub open spec fn field_value(&self, id: DelayedFieldId) -> int {
        self.base@.field(id) + self.fields.total_below(id, self.reader)
    }

    /// The descriptor is what the reader observes now.
    pub open spec fn reports(&self, d: ReadDescriptor) -> bool {
        match d {
            ReadDescriptor::Data { key, observed } => observed == self.data_read(key),
            ReadDescriptor::Field { id, observed } => match observed {
                FieldRead::Value { value } => self.fields.resolved_below(id, self.reader) && value
                    == self.field_value(id),
                FieldRead::Bound { delta, limit, within } => self.fields.resolved_below(
                    id,
                    self.reader,
                ) && within == (0 <= self.field_value(id) + delta <= limit),
                FieldRead::Dependency { txn_idx } => self.fields.pending_matches(
                    id,
                    self.reader,
                    Pending::Dependency { txn_idx },
                ),
            },
        }
    }

    /// The descriptor still stands: the reader observes it now, and it is no dependency.
    pub open spec fn confirms(&self, d: ReadDescriptor) -> bool {
        !d.is_dependency() && self.reports(d)
    }

    /// Reads a storage location.
    pub fn read_data(&self, key: StateKey) -> (r: DataRead)
        requires
            self.wf(),
        ensures
            r == self.data_read(key),
    {
        match self.data.read(key, self.reader) {
            Lookup::Versioned { txn_idx, incarnation, payload } => DataRead::Versioned {
                txn_idx,
                incarnation,
                value: payload,
            },
            Lookup::Dependency { txn_idx } => DataRead::Dependency { txn_idx },
            Lookup::Uninitialized => DataRead::Storage { value: self.base.get(key) },
        }
    }

    /// Reads the value of a delayed field.
    pub fn read_field(&self, id: DelayedFieldId) -> (r: FieldRead)
        requires
            self.wf(),
        ensures
            !(r is Bound),
            self.reports(ReadDescriptor::Field { id, observed: r }),
    {
        match self.fields.read_total(id, self.reader) {
            Pending::Dependency { txn_idx } => FieldRead::Dependency { txn_idx },
            Pending::Total { sum } => {
                proof {
                    self.fields.lemma_total_bounds(id, self.reader);
                    lemma_reader_bound(self.reader);
                }
                FieldRead::Value { value: self.base.field(id) as i128 + sum }
            },
        }
    }

    /// Tells whether a delayed field, moved by `delta`, stays between zero and `limit`.
    pub fn check_field_bound(&self, id: DelayedFieldId, delta: i64, limit: u64) -> (r: FieldRead)
        requires
            self.wf(),
        ensures
            match r {
                FieldRead::Bound { delta: d, limit: l, .. } => d == delta && l == limit,
                FieldRead::Dependency { .. } => true,
                FieldRead::Value { .. } => false,
            },
            self.reports(ReadDescriptor::Field { id, observed: r }),
    {
        match self.fields.read_total(id, self.reader) {
            Pending::Dependency { txn_idx } => FieldRead::Dependency { txn_idx },
            Pending::Total { sum } => {
                proof {
                    self.fields.lemma_total_bounds(id, self.reader);
                    lemma_reader_bound(self.reader);
                }
                let moved: i128 = self.base.field(id) as i128 + sum + delta as i128;
                FieldRead::Bound { delta, limit, within: 0 <= moved && moved <= limit as i128 }
            },
        }
    }
}

proof fn lemma_reader_bound(reader: TxnIndex)
    ensures
        (reader as int) * 0x8000_0000_0000_0000 <= 0xffff_ffff * 0x8000_0000_0000_0000,
{
    assert((reader as int) * 0x8000_0000_0000_0000 <= 0xffff_ffff * 0x8000_0000_0000_0000)
        by (nonlinear_arith)
        requires
            reader <= 0xffff_ffff,
    ;
}

/// The view that an execution reads through. Every read is recorded, so
/// that it can be checked again later.
pub struct LatestView<'a> {
    source: Snapshot<'a>,
    reads: Vec<ReadDescriptor>,
}

impl<'a> LatestView<'a> {
    /// The stores are well formed, and every recorded read is what the
    /// source reports.
    pub closed spec fn wf(&self) -> bool {
        &&& self.source.wf()
        &&& forall|p: int|
            0 <= p < self.reads@.len() ==> self.source.reports(#[trigger] self.reads@[p])
    }

    /// What the view reads from.
    pub closed spec fn source(&self) -> Snapshot<'a> {
        self.source
    }

    /// The reads recorded so far, in the order in which they were made.
    pub closed spec fn reads(&self) -> Seq<ReadDescriptor> {
        self.reads@
    }

    /// A view for one execution of slot `source.reader`, with nothing read yet.
    pub fn new(source: Snapshot<'a>) -> (v: Self)
        requires
            source.wf(),
        ensures
            v.wf(),
            v.source() == source,
            v.reads().len() == 0,
    {
        LatestView { source, reads: Vec::new() }
    }

    /// The slot on whose behalf the view reads.
    pub fn reader(&self) -> (r: TxnIndex)
        ensures
            r == self.source().reader,
    {
        self.source.reader
    }

    /// Reads a storage location and records the read.
    pub fn get(&mut self, key: StateKey) -> (r: DataRead)
        requires
            old(self).wf(),
        ensures
            final(self).wf(),
            final(self).source() == old(self).source(),
            r == old(self).source().data_read(key),
            final(self).reads() == old(self).reads().push(
                ReadDescriptor::Data { key, observed: r },
            ),
    {
        let r = self.source.read_data(key);
        self.reads.push(ReadDescriptor::Data { key, observed: r });
        r
    }

    /// Reads the value of a delayed field and records the read.
    pub fn get_field(&mut self, id: DelayedFieldId) -> (r: FieldRead)
        requires
            old(self).wf(),
        ensures
            final(self).wf(),
            final(self).source() == old(self).source(),
            !(r is Bound),
            old(self).source().reports(ReadDescriptor::Field { id, observed: r }),
            final(self).reads() == old(self).reads().push(
                ReadDescriptor::Field { id, observed: r },
            ),
    {
        let r = self.source.read_field(id);
        self.reads.push(ReadDescriptor::Field { id, observed: r });
        r
    }

    /// Asks whether a delayed field, moved by `delta`, stays between zero and
    /// `limit`, and records the answer. Only the answer is recorded, not the
    /// value: the read stands as long as the answer does.
    pub fn check_field(&mut self, id: DelayedFieldId, delta: i64, limit: u64) -> (r: FieldRead)
        requires
            old(self).wf(),
        ensures
            final(self).wf(),
            final(self).source() == old(self).source(),
            match r {
                FieldRead::Bound { delta: d, limit: l, .. } => d == delta && l == limit,
                FieldRead::Dependency { .. } => true,
                FieldRead::Value { .. } => false,
            },
            old(self).source().reports(ReadDescriptor::Field { id, observed: r }),
            final(self).reads() == old(self).reads().push(
                ReadDescriptor::Field { id, observed: r },
            ),
    {
        let r = self.source.check_field_bound(id, delta, limit);
        self.reads.push(ReadDescriptor::Field { id, observed: r });
        r
    }

    /// Ends the execution's use of the view and hands out its read-set.
    pub fn into_reads(self) -> (reads: Vec<ReadDescriptor>)
        requires
            self.wf(),
        ensures
            self.source().wf(),
            reads@ == self.reads(),
            forall|p: int| 0 <= p < reads@.len() ==> self.source().reports(#[trigger] reads@[p]),
    {
        self.reads
    }
}

/// The executor of single transactions: the virtual machine that the
/// engine drives. The engine is generic over it.
pub trait ExecutorTask: Sized {
    /// The transactions that the executor runs.
    type Txn;

    /// What the transaction ends in when it runs alone on `state`.
    spec fn outcome(txn: Self::Txn, state: State) -> StatusView;

    /// Whether the transaction can have its change set resolved after execution.
    spec fn dynamic_change_set_capable(txn: Self::Txn) -> bool;

    /// An executor for one block that starts from `base`.
    fn init(base: &StateStore) -> Self;

    /// Runs one transaction on behalf of slot `txn_idx`, reading through
    /// `view` alone. The result depends on nothing but the transaction and
    /// what was read: on every state on which the same reads would be
    /// observed, the transaction run alone ends in the same.
    fn execute_transaction(
        &self,
        view: &mut LatestView<'_>,
        txn: &Self::Txn,
        txn_idx: TxnIndex,
    ) -> (status: ExecutionStatus)
        requires
            old(view).wf(),
            old(view).reads().len() == 0,
            old(view).source().reader == txn_idx,
        ensures
            final(view).wf(),
            final(view).source() == old(view).source(),
            forall|s: State|
                reads_hold_in(final(view).reads(), s) ==> status@ == #[trigger] Self::outcome(
                    *txn,
                    s,
                ),
    ;

    /// Tells whether the transaction can have its change set resolved after execution.
    fn is_transaction_dynamic_change_set_capable(txn: &Self::Txn) -> (b: bool)
        ensures
            b == Self::dynamic_change_set_capable(*txn),
    ;

    /// A transaction that succeeds without ending the block is one whose
    /// change set can be resolved after execution.
    proof fn lemma_success_is_capable(txn: Self::Txn, state: State)
        ensures
            Self::outcome(txn, state) is Success ==> Self::dynamic_change_set_capable(txn),
    ;
}

/// The recorded reads decide the status: on every state on which they would
/// be observed, the transaction run alone ends in `status`.
pub open spec fn decided_by_reads<E: ExecutorTask>(
    txn: E::Txn,
    reads: Seq<ReadDescriptor>,
    status: StatusView,
) -> bool {
    forall|s: State| reads_hold_in(reads, s) ==> status == #[trigger] E::outcome(txn, s)
}

} // verus!
