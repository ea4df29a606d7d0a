//! The sharded dispatcher: spreads a block over shards, lets every shard
//! execute its part, and merges what the shards hand back into the result
//! of the block.

use vstd::prelude::*;
use crate::executor::{referred, BlockExecutor, NeverInterrupted, Record};
use crate::sequential::{
    advance, course, lemma_course_ended, output_views, range_failure, sequential, BlockOutput,
    Course, Ending,
};
use crate::state::{OutputView, State, StateStore, TransactionOutput};
use crate::task::{decided_by_reads, ExecutionStatus, ExecutorTask};
use crate::types::TxnIndex;
use crate::validator::reads_hold;

verus! {

/// A block whose transactions are assigned to shards.
pub struct PartitionedTransactions<T> {
    /// The transactions of the block, in index order.
    pub txns: Vec<T>,
    /// For each transaction, the shard that executes it.
    pub shard_of: Vec<usize>,
}

/// Assigns the transactions of a block to shards by their partition keys:
/// a transaction goes to the shard whose number is its key modulo the
/// number of shards, so that transactions with one key share a shard.
pub fn partition<T>(txns: Vec<T>, keys: &Vec<u64>, num_shards: usize) -> (p:
    PartitionedTransactions<T>)
    requires
        keys.len() == txns.len(),
        num_shards > 0,
    ensures
        p.txns == txns,
        p.shard_of@.len() == txns.len(),
        forall|i: int|
            0 <= i < txns.len() ==> (#[trigger] p.shard_of@[i]) == keys@[i] % (num_shards as u64),
{
    let mut shard_of: Vec<usize> = Vec::new();
    let mut i: usize = 0;
    while i < keys.len()
        invariant
            i <= keys.len(),
            num_shards > 0,
            shard_of@.len() == i,
            forall|j: int|
                0 <= j < i ==> (#[trigger] shard_of@[j]) == keys@[j] % (num_shards as u64),
        decreases keys.len() - i,
    {
        shard_of.push((keys[i] % (num_shards as u64)) as usize);
        i = i + 1;
    }
    PartitionedTransactions { txns, shard_of }
}

/// The shard that executes transaction `i`: the one that it is assigned
/// to, modulo the number of shards; the first shard if it is assigned to none.
pub open spec fn shard_for(shard_of: Seq<usize>, num_shards: usize, i: int) -> int {
    if 0 <= i < shard_of.len() && num_shards > 0 {
        shard_of[i] as int % num_shards as int
    } else {
        0
    }
}

/// The shard that executes transaction `i`.
pub fn shard_of_txn(shard_of: &Vec<usize>, num_shards: usize, i: usize) -> (shard: usize)
    ensures
        shard == shard_for(shard_of@, num_shards, i as int),
        num_shards > 0 ==> shard < num_shards,
{
    if i < shard_of.len() && num_shards > 0 {
        shard_of[i] % num_shards
    } else {
        0
    }
}

/// The part of a shard in a round: the indices from `from` up to, not
/// including, `upto` of the transactions that the shard executes, in
/// increasing order.
pub open spec fn sub_block(
    shard_of: Seq<usize>,
    num_shards: usize,
    shard: int,
    from: int,
    upto: int,
) -> Seq<TxnIndex>
    decreases upto - from,
{
    if upto <= from {
        Seq::empty()
    } else {
        let before = sub_block(shard_of, num_shards, shard, from, upto - 1);
        if shard_for(shard_of, num_shards, upto - 1) == shard {
            before.push((upto - 1) as TxnIndex)
        } else {
            before
        }
    }
}

/// The indices of a sub-block lie in the range that it is cut from, and
/// the sub-block of the shard that executes the first transaction of the
/// range begins with it.
pub proof fn lemma_sub_block(
    shard_of: Seq<usize>,
    num_shards: usize,
    shard: int,
    from: int,
    upto: int,
)
    requires
        0 <= from <= upto <= TxnIndex::MAX,
    ensures
        sub_block(shard_of, num_shards, shard, from, upto).len() <= upto - from,
        forall|j: int|
            0 <= j < sub_block(shard_of, num_shards, shard, from, upto).len() ==> from <= (
            #[trigger] sub_block(shard_of, num_shards, shard, from, upto)[j]) < upto,
        from < upto && shard_for(shard_of, num_shards, from) == shard ==> sub_block(
            shard_of,
            num_shards,
            shard,
            from,
            upto,
        ).len() >= 1 && sub_block(shard_of, num_shards, shard, from, upto)[0] == from,
    decreases upto - from,
{
    if from < upto {
        lemma_sub_block(shard_of, num_shards, shard, from, upto - 1);
    }
}

/// What a shard is asked to execute in one round: the transactions of the
/// block with these indices, in this order, against the state that the
/// round starts from.
pub struct SubBlockRequest {
    pub shard: usize,
    pub indices: Vec<TxnIndex>,
}

/// Makes the request to one shard for one round: the transactions from
/// index `from` on that the shard executes, in index order.
pub fn sub_block_request(
    shard_of: &Vec<usize>,
    num_shards: usize,
    shard: usize,
    from: usize,
    upto: usize,
) -> (request: SubBlockRequest)
    requires
        from <= upto <= TxnIndex::MAX,
    ensures
        request.shard == shard,
        request.indices@ == sub_block(shard_of@, num_shards, shard as int, from as int, upto as int),
{
    let mut indices: Vec<TxnIndex> = Vec::new();
    let mut i = from;
    while i < upto
        invariant
            from <= i <= upto <= TxnIndex::MAX,
            indices@ == sub_block(shard_of@, num_shards, shard as int, from as int, i as int),
        decreases upto - i,
    {
        if shard_of_txn(shard_of, num_shards, i) == shard {
            indices.push(i as TxnIndex);
        }
        i = i + 1;
    }
    SubBlockRequest { shard, indices }
}

/// What a shard hands back for one round: for each transaction that it
/// was asked to execute, in the order of the request, what its execution
/// left behind. Only the first `usable` records are final.
pub struct ShardOutput {
    pub records: Vec<Record>,
    pub usable: usize,
}

/// The transactions of a sub-block.
pub open spec fn chosen<T>(txns: Seq<T>, indices: Seq<TxnIndex>) -> Seq<T> {
    Seq::new(indices.len(), |j: int| txns[indices[j] as int])
}

/// What a shard hands back fits what it was asked: each of its final
/// records is decided by its reads, and the record of the first transaction
/// is final and holds what that transaction ends in on the state that the
/// round started from.
pub open spec fn shard_output_fits<E: ExecutorTask>(
    txns: Seq<E::Txn>,
    base: State,
    indices: Seq<TxnIndex>,
    out: ShardOutput,
) -> bool {
    &&& out.records@.len() == indices.len()
    &&& out.usable <= out.records@.len()
    &&& forall|j: int|
        0 <= j < out.usable ==> decided_by_reads::<E>(
            txns[indices[j] as int],
            (#[trigger] out.records@[j]).reads@,
            out.records@[j].status@,
        )
    &&& (indices.len() > 0 ==> out.usable >= 1 && out.records@[0].status@ == E::outcome(
        txns[indices[0] as int],
        base,
    ))
}

/// Number of final records that the execution of a sub-block leaves: one
/// for each transaction that its sequential execution commits, and one for
/// the transaction that it fails with.
pub open spec fn final_records<E: ExecutorTask>(sub: Seq<E::Txn>, base: State) -> nat {
    let result = sequential::<E>(sub, base);
    result.outputs.len() + if result.ending is Some && result.ending.unwrap() is Failed {
        1nat
    } else {
        0nat
    }
}

/// Executes a sub-block: the transactions of the block with the given
/// indices, in that order, against the state `base`, with a block executor
/// of its own, `concurrency_level` tasks at a time. The final records are
/// those of the transactions that the sequential execution of the sub-block
/// settles, each with the status that the transaction ends in there.
pub fn run_sub_block<E: ExecutorTask>(
    txns: &Vec<E::Txn>,
    indices: &Vec<TxnIndex>,
    base: &StateStore,
    concurrency_level: usize,
) -> (out: ShardOutput)
    requires
        indices.len() <= TxnIndex::MAX,
        forall|j: int| 0 <= j < indices@.len() ==> (#[trigger] indices@[j]) < txns.len(),
    ensures
        out.usable == final_records::<E>(chosen(txns@, indices@), base@),
        forall|j: int|
            0 <= j < out.usable ==> (#[trigger] out.records@[j]).status@ == E::outcome(
                chosen(txns@, indices@)[j],
                course::<E>(chosen(txns@, indices@), base@, j as nat).state,
            ),
        shard_output_fits::<E>(txns@, base@, indices@, out),
{
    let mut refs: Vec<&E::Txn> = Vec::new();
    let mut i: usize = 0;
    while i < indices.len()
        invariant
            i <= indices.len(),
            refs@.len() == i,
            forall|j: int| 0 <= j < indices@.len() ==> (#[trigger] indices@[j]) < txns.len(),
            forall|j: int| 0 <= j < i ==> *(#[trigger] refs@[j]) == txns@[indices@[j] as int],
        decreases indices.len() - i,
    {
        refs.push(&txns[indices[i] as usize]);
        i = i + 1;
    }
    let ghost given = referred(refs@);
    assert(given =~= chosen(txns@, indices@));
    let mut block = BlockExecutor::new(E::init(base), refs, base.duplicate());
    block.run(concurrency_level, None::<&NeverInterrupted>);
    let ghost engine = block;
    let settled = block.into_records();
    proof {
        if engine.settled() > 0 {
            engine.lemma_settled_is_sequential(engine.settled() - 1);
        }
        engine.lemma_result_is_sequential();
    }
    let usable = settled.committed as usize + match settled.ending {
        Ending::Failed(_) => 1,
        _ => 0,
    };
    proof {
        assert forall|j: int| 0 <= j < usable implies decided_by_reads::<E>(
            txns@[indices@[j] as int],
            (#[trigger] settled.records@[j]).reads@,
            settled.records@[j].status@,
        ) by {
            engine.lemma_settled_is_sequential(j);
            assert(given[j] == txns@[indices@[j] as int]);
        }
        assert forall|j: int| 0 <= j < usable implies (#[trigger] settled.records@[j]).status@
            == E::outcome(given[j], course::<E>(given, base@, j as nat).state) by {
            engine.lemma_settled_is_sequential(j);
        }
        if indices@.len() > 0 {
            engine.lemma_first_is_settled();
            engine.lemma_settled_is_sequential(0);
            assert(given[0] == txns@[indices@[0] as int]);
        }
    }
    ShardOutput { records: settled.records, usable }
}

/// What executes the sub-blocks of the shards: worker pools in this
/// process, or other processes that are handed the request and the state and
/// hand the records back.
pub trait ExecutorClient<E: ExecutorTask> {
    /// Executes the part of one shard in one round against the state that
    /// the round starts from, and hands back what the execution of each
    /// transaction left behind.
    fn execute_sub_block(
        &self,
        txns: &Vec<E::Txn>,
        request: &SubBlockRequest,
        base: &StateStore,
        concurrency_level: usize,
    ) -> (out: ShardOutput)
        requires
            request.indices.len() <= TxnIndex::MAX,
            forall|j: int|
                0 <= j < request.indices@.len() ==> (#[trigger] request.indices@[j]) < txns.len(),
        ensures
            shard_output_fits::<E>(txns@, base@, request.indices@, out),
    ;
}

/// The shards of this process: each sub-block is executed by a block
/// executor of its own.
pub struct LocalExecutorClient {}

impl<E: ExecutorTask> ExecutorClient<E> for LocalExecutorClient {
    fn execute_sub_block(
        &self,
        txns: &Vec<E::Txn>,
        request: &SubBlockRequest,
        base: &StateStore,
        concurrency_level: usize,
    ) -> (out: ShardOutput) {
        run_sub_block::<E>(txns, &request.indices, base, concurrency_level)
    }
}

/// Position of an index of the block in the list of a shard.
fn position_of(indices: &Vec<TxnIndex>, g: TxnIndex) -> (r: Option<usize>)
    ensures
        match r {
            Some(j) => j < indices@.len() && indices@[j as int] == g && forall|q: int|
                0 <= q < j ==> indices@[q] != g,
            None => forall|q: int| 0 <= q < indices@.len() ==> indices@[q] != g,
        },
{
    let mut j: usize = 0;
    while j < indices.len()
        invariant
            j <= indices.len(),
            forall|q: int| 0 <= q < j ==> indices@[q] != g,
        decreases indices.len() - j,
    {
        if indices[j] == g {
            return Some(j);
        }
        j = j + 1;
    }
    None
}

/// The sharded executor of blocks.
pub struct ShardedBlockExecutor {
    num_shards: usize,
    num_threads: Option<usize>,
}

impl ShardedBlockExecutor {
    /// Number of shards.
    pub closed spec fn shards(&self) -> nat {
        self.num_shards as nat
    }

    /// Number of worker threads of each shard, where it is limited.
    pub closed spec fn threads(&self) -> Option<usize> {
        self.num_threads
    }

    /// A dispatcher over `num_shards` shards; it has one shard at least.
    /// `num_threads` is the size of the pool of worker threads of each
    /// shard, where there is a limit to it.
    pub fn new(num_shards: usize, num_threads: Option<usize>) -> (s: Self)
        ensures
            s.shards() == if num_shards == 0 {
                1nat
            } else {
                num_shards as nat
            },
            s.threads() == num_threads,
    {
        ShardedBlockExecutor {
            num_shards: if num_shards == 0 {
                1
            } else {
                num_shards
            },
            num_threads,
        }
    }

    /// Number of shards.
    pub fn num_shards(&self) -> (n: usize)
        ensures
            n == self.shards(),
    {
        self.num_shards
    }

    /// Number of tasks that a shard works on at a time: the concurrency
    /// level asked for, but no more than the shard has worker threads.
    pub fn width(&self, concurrency_level: usize) -> (w: usize)
        ensures
            w == match self.threads() {
                Some(t) => if t < concurrency_level {
                    t
                } else {
                    concurrency_level
                },
                None => concurrency_level,
            },
    {
        match self.num_threads {
            Some(t) => if t < concurrency_level {
                t
            } else {
                concurrency_level
            },
            None => concurrency_level,
        }
    }

    /// Executes a block over the shards, in rounds. In each round every
    /// shard is asked to execute, against the state that the round starts
    /// from, the transactions assigned to it that are not committed yet,
    /// `concurrency_level` tasks at a time where it has the worker threads
    /// for it; a shard number beyond the last shard counts modulo the number
    /// of shards. Then the transactions are committed in index order, each
    /// with what its shard handed back for it, as long as what it read is
    /// what the committed state holds; the first transaction whose reads
    /// depend on what another shard did in the same round ends the round,
    /// and it and every transaction after it wait for the next round. The
    /// outputs, the state and the ending are those of the sequential
    /// execution of the block, however the transactions are assigned.
    pub fn execute_block<E: ExecutorTask, C: ExecutorClient<E>>(
        &self,
        client: &C,
        partitioned: PartitionedTransactions<E::Txn>,
        concurrency_level: usize,
        base: StateStore,
    ) -> (r: (BlockOutput, StateStore))
        requires
            partitioned.txns.len() <= TxnIndex::MAX,
        ensures
            output_views(r.0.outputs@) == sequential::<E>(partitioned.txns@, base@).outputs,
            r.1@ == sequential::<E>(partitioned.txns@, base@).state,
            Some(r.0.ending@) == sequential::<E>(partitioned.txns@, base@).ending,
    {
        let txns = &partitioned.txns;
        let shard_of = &partitioned.shard_of;
        let n = txns.len();
        let num_shards = if self.num_shards == 0 {
            1
        } else {
            self.num_shards
        };
        let width = self.width(concurrency_level);
        let ghost start = base@;
        let mut state = base;
        let mut outputs: Vec<TransactionOutput> = Vec::new();
        let mut ending: Option<Ending> = None;
        let mut done: usize = 0;
        assert(output_views(outputs@) =~= Seq::<OutputView>::empty());
        while done < n && ending.is_none()
            invariant
                done <= n,
                n == txns.len(),
                n <= TxnIndex::MAX,
                num_shards > 0,
                outputs@.len() == done,
                ending is None ==> course::<E>(txns@, start, done as nat) == (Course {
                    outputs: output_views(outputs@),
                    state: state@,
                    ending: None,
                }),
                ending is Some ==> course::<E>(txns@, start, n as nat) == (Course {
                    outputs: output_views(outputs@),
                    state: state@,
                    ending: Some(ending.unwrap()@),
                }),
            decreases n - done + if ending is None {
                1int
            } else {
                0int
            },
        {
            let round_start = done;
            let ghost round_base = state@;
            let mut requests: Vec<SubBlockRequest> = Vec::new();
            let mut runs: Vec<ShardOutput> = Vec::new();
            let mut s: usize = 0;
            while s < num_shards
                invariant
                    s <= num_shards,
                    num_shards > 0,
                    n == txns.len(),
                    n <= TxnIndex::MAX,
                    round_start < n,
                    round_base == state@,
                    runs@.len() == s,
                    requests@.len() == s,
                    forall|k: int|
                        0 <= k < s ==> (#[trigger] requests@[k]).indices@ == sub_block(
                            shard_of@,
                            num_shards,
                            k,
                            round_start as int,
                            n as int,
                        ),
                    forall|k: int|
                        0 <= k < s ==> shard_output_fits::<E>(
                            txns@,
                            round_base,
                            requests@[k].indices@,
                            #[trigger] runs@[k],
                        ),
                decreases num_shards - s,
            {
                let request = sub_block_request(shard_of, num_shards, s, round_start, n);
                proof {
                    lemma_sub_block(shard_of@, num_shards, s as int, round_start as int, n as int);
                }
                let run = client.execute_sub_block(txns, &request, &state, width);
                requests.push(request);
                runs.push(run);
                s = s + 1;
            }
            let mut deferred = false;
            while done < n && ending.is_none() && !deferred
                invariant
                    round_start <= done <= n,
                    round_start < n,
                    n == txns.len(),
                    n <= TxnIndex::MAX,
                    num_shards > 0,
                    outputs@.len() == done,
                    runs@.len() == num_shards,
                    requests@.len() == num_shards,
                    done == round_start && ending is None ==> state@ == round_base && !deferred,
                    forall|k: int|
                        0 <= k < num_shards ==> (#[trigger] requests@[k]).indices@ == sub_block(
                            shard_of@,
                            num_shards,
                            k,
                            round_start as int,
                            n as int,
                        ),
                    forall|k: int|
                        0 <= k < num_shards ==> shard_output_fits::<E>(
                            txns@,
                            round_base,
                            requests@[k].indices@,
                            #[trigger] runs@[k],
                        ),
                    ending is None ==> course::<E>(txns@, start, done as nat) == (Course {
                        outputs: output_views(outputs@),
                        state: state@,
                        ending: None,
                    }),
                    ending is Some ==> course::<E>(txns@, start, n as nat) == (Course {
                        outputs: output_views(outputs@),
                        state: state@,
                        ending: Some(ending.unwrap()@),
                    }),
                decreases n - done + if ending is None && !deferred {
                    1int
                } else {
                    0int
                },
            {
                let shard = shard_of_txn(shard_of, num_shards, done);
                let run = &runs[shard];
                let indices = &requests[shard].indices;
                proof {
                    assert(requests@[shard as int].indices@ == sub_block(
                        shard_of@,
                        num_shards,
                        shard as int,
                        round_start as int,
                        n as int,
                    ));
                    assert(shard_output_fits::<E>(txns@, round_base, indices@, *run));
                    lemma_sub_block(
                        shard_of@,
                        num_shards,
                        shard as int,
                        round_start as int,
                        n as int,
                    );
                }
                let found = position_of(indices, done as TxnIndex);
                proof {
                    if done == round_start {
                        assert(indices@[0] == done);
                        assert(found == Some(0usize));
                    }
                }
                let usable_at: Option<usize> = match found {
                    Some(j) => if j < run.usable {
                        Some(j)
                    } else {
                        None
                    },
                    None => None,
                };
                match usable_at {
                    None => {
                        deferred = true;
                    },
                    Some(j) => {
                        let record = &run.records[j];
                        let stands = done == round_start || reads_hold(&record.reads, &state);
                        if !stands {
                            deferred = true;
                        } else {
                            proof {
                                assert(indices@[j as int] == done);
                                assert(decided_by_reads::<E>(
                                    txns@[done as int],
                                    record.reads@,
                                    record.status@,
                                ));
                                assert(record.status@ == E::outcome(txns@[done as int], state@));
                                assert(course::<E>(txns@, start, (done + 1) as nat) == advance(
                                    course::<E>(txns@, start, done as nat),
                                    record.status@,
                                ));
                            }
                            match &record.status {
                                ExecutionStatus::Success(out) => {
                                    if state.accepts(out) {
                                        state.apply(out);
                                        let copy = out.duplicate();
                                        proof {
                                            assert(output_views(outputs@.push(copy))
                                                =~= output_views(outputs@).push(copy@));
                                        }
                                        outputs.push(copy);
                                        done = done + 1;
                                    } else {
                                        proof {
                                            lemma_course_ended::<E>(
                                                txns@,
                                                start,
                                                (done + 1) as nat,
                                                n as nat,
                                            );
                                        }
                                        ending = Some(
                                            Ending::Failed(
                                                ExecutionStatus::DelayedFieldsCodeInvariantError(
                                                    range_failure(),
                                                ),
                                            ),
                                        );
                                    }
                                },
                                ExecutionStatus::SkipRest(out) => {
                                    proof {
                                        lemma_course_ended::<E>(
                                            txns@,
                                            start,
                                            (done + 1) as nat,
                                            n as nat,
                                        );
                                    }
                                    if state.accepts(out) {
                                        state.apply(out);
                                        let copy = out.duplicate();
                                        proof {
                                            assert(output_views(outputs@.push(copy))
                                                =~= output_views(outputs@).push(copy@));
                                        }
                                        outputs.push(copy);
                                        done = done + 1;
                                        ending = Some(Ending::Truncated);
                                    } else {
                                        ending = Some(
                                            Ending::Failed(
                                                ExecutionStatus::DelayedFieldsCodeInvariantError(
                                                    range_failure(),
                                                ),
                                            ),
                                        );
                                    }
                                },
                                failure => {
                                    proof {
                                        lemma_course_ended::<E>(
                                            txns@,
                                            start,
                                            (done + 1) as nat,
                                            n as nat,
                                        );
                                    }
                                    ending = Some(Ending::Failed(failure.duplicate()));
                                },
                            }
                        }
                    },
                }
            }
        }
        let ending = match ending {
            Some(e) => e,
            None => Ending::Completed,
        };
        (BlockOutput { outputs, ending }, state)
    }
}

} // verus!
