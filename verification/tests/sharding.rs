use lumio_executor::sequential::{execute_sequentially, Ending};
use lumio_executor::sharding::{
    partition, run_sub_block, shard_of_txn, sub_block_request, ExecutorClient, LocalExecutorClient,
    PartitionedTransactions, ShardOutput, ShardedBlockExecutor, SubBlockRequest,
};
use std::cell::RefCell;
use lumio_executor::state::StateStore;
use lumio_executor::task::ExecutionStatus;
use lumio_executor::vm::{Instruction, Script, ScriptVm};

const A: u64 = 1;
const B: u64 = 2;
const C: u64 = 3;
const COUNTER: u64 = 100;

fn script(instructions: Vec<Instruction>) -> Script {
    Script { instructions, direct_write_set: false }
}

fn chained_block() -> Vec<Script> {
    vec![
        script(vec![Instruction::Add(1), Instruction::Store(A)]),
        script(vec![Instruction::Load(A), Instruction::Add(1), Instruction::Store(B)]),
        script(vec![Instruction::Load(B), Instruction::Add(1), Instruction::Store(C)]),
        script(vec![Instruction::AddDelta(COUNTER, 4)]),
        script(vec![Instruction::Load(C), Instruction::Add(1), Instruction::Store(A)]),
        script(vec![Instruction::AddDelta(COUNTER, 6), Instruction::LoadField(COUNTER), Instruction::Store(B)]),
        script(vec![Instruction::Load(A), Instruction::Load(B), Instruction::Add(1), Instruction::Store(C)]),
    ]
}

#[test]
fn partition_sends_equal_keys_to_one_shard() {
    let p = partition(chained_block(), &vec![0, 1, 2, 3, 4, 5, 7], 3);
    assert_eq!(p.shard_of, vec![0, 1, 2, 0, 1, 2, 1]);
    assert_eq!(p.txns.len(), 7);
    let single = partition(chained_block(), &vec![9, 8, 7, 6, 5, 4, 3], 1);
    assert_eq!(single.shard_of, vec![0; 7]);
}

#[test]
fn a_dispatcher_has_one_shard_at_least() {
    assert_eq!(ShardedBlockExecutor::new(0, None).num_shards(), 1);
    assert_eq!(ShardedBlockExecutor::new(4, None).num_shards(), 4);
}

#[test]
fn sharded_execution_gives_what_sequential_execution_gives() {
    let mut base = StateStore::new();
    base.set(B, 30);
    let expected = execute_sequentially(&ScriptVm {}, &chained_block(), &mut base);
    assert!(matches!(expected.ending, Ending::Completed));
    for shards in [1usize, 2, 3, 7, 16] {
        for keys in [
            vec![0u64, 1, 2, 3, 4, 5, 6],
            vec![0, 0, 0, 0, 0, 0, 0],
            vec![6, 5, 4, 3, 2, 1, 0],
            vec![0, 1, 0, 1, 0, 1, 0],
        ] {
            let mut start = StateStore::new();
            start.set(B, 30);
            let dispatcher = ShardedBlockExecutor::new(shards, None);
            let (output, state) = dispatcher.execute_block::<ScriptVm, LocalExecutorClient>(
                &LocalExecutorClient {},
                partition(chained_block(), &keys, shards),
                2,
                start,
            );
            assert!(matches!(output.ending, Ending::Completed));
            assert_eq!(output.outputs.len(), expected.outputs.len());
            for i in 0..expected.outputs.len() {
                assert_eq!(output.outputs[i].writes, expected.outputs[i].writes);
                assert_eq!(output.outputs[i].deltas, expected.outputs[i].deltas);
            }
            for key in [A, B, C] {
                assert_eq!(state.get(key), base.get(key));
            }
            assert_eq!(state.field(COUNTER), 10);
            assert_eq!(state.get(A), Some(4));
            assert_eq!(state.get(B), Some(10));
            assert_eq!(state.get(C), Some(11));
        }
    }
}

#[test]
fn a_shard_number_beyond_the_last_shard_counts_modulo_the_number_of_shards() {
    let dispatcher = ShardedBlockExecutor::new(2, None);
    let (output, state) = dispatcher.execute_block::<ScriptVm, LocalExecutorClient>(
        &LocalExecutorClient {},
        PartitionedTransactions { txns: chained_block(), shard_of: vec![5, 4, 3, 2, 1, 0, 9] },
        1,
        StateStore::new(),
    );
    assert!(matches!(output.ending, Ending::Completed));
    assert_eq!(output.outputs.len(), 7);
    assert_eq!(state.get(C), Some(11));
}

#[test]
fn sharded_execution_truncates_and_fails_as_sequential_execution_does() {
    let truncated = || {
        vec![
            script(vec![Instruction::Add(1), Instruction::Store(A)]),
            script(vec![Instruction::Load(A), Instruction::Store(B), Instruction::SkipRest]),
            script(vec![Instruction::Add(9), Instruction::Store(C)]),
        ]
    };
    let (output, state) = ShardedBlockExecutor::new(3, None).execute_block::<ScriptVm, LocalExecutorClient>(
        &LocalExecutorClient {},
        partition(truncated(), &vec![0, 1, 2], 3),
        2,
        StateStore::new(),
    );
    assert!(matches!(output.ending, Ending::Truncated));
    assert_eq!(output.outputs.len(), 2);
    assert_eq!(state.get(B), Some(1));
    assert_eq!(state.get(C), None);

    let failing = || {
        vec![
            script(vec![Instruction::Add(1), Instruction::Store(A)]),
            script(vec![Instruction::Add(9), Instruction::Store(C)]),
            script(vec![Instruction::Load(A), Instruction::Store(B), Instruction::Abort(3)]),
            script(vec![Instruction::Add(9), Instruction::Store(B)]),
        ]
    };
    let (output, state) = ShardedBlockExecutor::new(2, None).execute_block::<ScriptVm, LocalExecutorClient>(
        &LocalExecutorClient {},
        partition(failing(), &vec![0, 1, 2, 3], 2),
        2,
        StateStore::new(),
    );
    assert!(matches!(output.ending, Ending::Failed(ExecutionStatus::Abort(_))));
    assert_eq!(output.outputs.len(), 2);
    assert_eq!(state.get(A), Some(1));
    assert_eq!(state.get(C), Some(9));
    assert_eq!(state.get(B), None);
}

#[test]
fn a_shard_is_asked_for_its_transactions_in_index_order() {
    let shard_of = vec![0usize, 1, 0, 1, 0, 1, 0];
    assert_eq!(sub_block_request(&shard_of, 2, 0, 0, 7).indices, vec![0, 2, 4, 6]);
    assert_eq!(sub_block_request(&shard_of, 2, 1, 0, 7).indices, vec![1, 3, 5]);
    assert_eq!(sub_block_request(&shard_of, 2, 1, 3, 7).indices, vec![3, 5]);
    assert_eq!(sub_block_request(&shard_of, 2, 1, 4, 7).indices, vec![5]);
    assert_eq!(sub_block_request(&shard_of, 2, 0, 3, 6).indices, vec![4]);
    assert_eq!(sub_block_request(&shard_of, 2, 0, 7, 7).indices, Vec::<u32>::new());
    assert_eq!(sub_block_request(&shard_of, 2, 1, 0, 7).shard, 1);
    // A transaction that is assigned to no shard goes to the first one.
    assert_eq!(sub_block_request(&vec![1], 2, 0, 0, 3).indices, vec![1, 2]);
    assert_eq!(shard_of_txn(&shard_of, 2, 1), 1);
    assert_eq!(shard_of_txn(&vec![5, 7], 3, 1), 1);
    assert_eq!(shard_of_txn(&shard_of, 2, 9), 0);
    assert_eq!(shard_of_txn(&shard_of, 0, 1), 0);
}

#[test]
fn a_shard_hands_back_a_record_for_each_of_its_transactions() {
    let txns = chained_block();
    let base = StateStore::new();
    let even = run_sub_block::<ScriptVm>(&txns, &vec![0, 2, 4, 6], &base, 2);
    assert_eq!(even.records.len(), 4);
    assert_eq!(even.usable, 4);
    // Run alone, the third transaction finds nothing at B and writes 1 to C.
    match &even.records[1].status {
        ExecutionStatus::Success(out) => assert_eq!(out.writes, vec![(C, 1)]),
        other => panic!("unexpected status {:?}", other),
    }
    let none = run_sub_block::<ScriptVm>(&txns, &vec![], &base, 2);
    assert!(none.records.is_empty());
    assert_eq!(none.usable, 0);
    // A sub-block that fails settles the transaction that it fails with, and nothing after it.
    let failing = vec![
        script(vec![Instruction::Add(1), Instruction::Store(A)]),
        script(vec![Instruction::Abort(1)]),
        script(vec![Instruction::Add(1), Instruction::Store(B)]),
    ];
    let failed = run_sub_block::<ScriptVm>(&failing, &vec![0, 1, 2], &base, 3);
    assert_eq!(failed.records.len(), 3);
    assert_eq!(failed.usable, 2);
    assert!(matches!(failed.records[1].status, ExecutionStatus::Abort(_)));
    let truncated = vec![
        script(vec![Instruction::Add(1), Instruction::Store(A), Instruction::SkipRest]),
        script(vec![Instruction::Add(1), Instruction::Store(B)]),
    ];
    assert_eq!(run_sub_block::<ScriptVm>(&truncated, &vec![0, 1], &base, 3).usable, 1);
}

struct CountingClient {
    requests: RefCell<Vec<(usize, Vec<u32>)>>,
}

impl ExecutorClient<ScriptVm> for CountingClient {
    fn execute_sub_block(
        &self,
        txns: &Vec<Script>,
        request: &SubBlockRequest,
        base: &StateStore,
        concurrency_level: usize,
    ) -> ShardOutput {
        self.requests.borrow_mut().push((request.shard, request.indices.clone()));
        run_sub_block::<ScriptVm>(txns, &request.indices, base, concurrency_level)
    }
}

#[test]
fn what_crosses_shards_waits_for_the_next_round() {
    let client = CountingClient { requests: RefCell::new(Vec::new()) };
    let (output, state) = ShardedBlockExecutor::new(2, None).execute_block::<ScriptVm, CountingClient>(
        &client,
        partition(chained_block(), &vec![0, 1, 0, 1, 0, 1, 0], 2),
        2,
        StateStore::new(),
    );
    assert!(matches!(output.ending, Ending::Completed));
    assert_eq!(state.get(C), Some(11));
    let requests = client.requests.into_inner();
    // The second transaction reads what the first one wrote in the other shard: the first round
    // commits the first transaction only.
    assert_eq!(requests[0], (0, vec![0, 2, 4, 6]));
    assert_eq!(requests[1], (1, vec![1, 3, 5]));
    assert_eq!(requests[2], (0, vec![2, 4, 6]));
    assert_eq!(requests[3], (1, vec![1, 3, 5]));
    assert_eq!(requests.len() % 2, 0);
    assert!(requests.len() < 2 * 7 + 1);
    // With everything in one shard, one round is enough.
    let single = CountingClient { requests: RefCell::new(Vec::new()) };
    let _ = ShardedBlockExecutor::new(2, None).execute_block::<ScriptVm, CountingClient>(
        &single,
        partition(chained_block(), &vec![0, 0, 0, 0, 0, 0, 0], 2),
        2,
        StateStore::new(),
    );
    assert_eq!(
        single.requests.into_inner(),
        vec![(0, vec![0, 1, 2, 3, 4, 5, 6]), (1, vec![])]
    );
}

#[test]
fn an_empty_block_is_complete() {
    let (output, _) = ShardedBlockExecutor::new(4, None).execute_block::<ScriptVm, LocalExecutorClient>(
        &LocalExecutorClient {},
        PartitionedTransactions { txns: Vec::new(), shard_of: Vec::new() },
        2,
        StateStore::new(),
    );
    assert!(matches!(output.ending, Ending::Completed));
    assert!(output.outputs.is_empty());
}

#[test]
fn a_shard_works_on_no_more_tasks_than_it_has_worker_threads() {
    assert_eq!(ShardedBlockExecutor::new(2, None).width(8), 8);
    assert_eq!(ShardedBlockExecutor::new(2, Some(3)).width(8), 3);
    assert_eq!(ShardedBlockExecutor::new(2, Some(30)).width(8), 8);
    let (output, state) = ShardedBlockExecutor::new(3, Some(1)).execute_block::<ScriptVm, LocalExecutorClient>(
        &LocalExecutorClient {},
        partition(chained_block(), &vec![0, 1, 2, 3, 4, 5, 6], 3),
        8,
        StateStore::new(),
    );
    assert!(matches!(output.ending, Ending::Completed));
    assert_eq!(state.get(C), Some(11));
}
