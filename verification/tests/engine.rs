use lumio_executor::executor::{
    execute_transactions_parallel, BlockExecutor, BlockSynchronizationKillSwitch, NeverInterrupted,
    ValidationOutcome,
};
use lumio_executor::scheduler::{SlotState, Task};
use lumio_executor::sequential::{execute_sequentially, BlockOutput, Ending};
use lumio_executor::state::StateStore;
use lumio_executor::task::{ExecutionStatus, StatusCode};
use lumio_executor::types::Version;
use lumio_executor::vm::{Instruction, Script, ScriptVm};
use std::cell::Cell;

const A: u64 = 1;
const B: u64 = 2;
const C: u64 = 3;
const COUNTER: u64 = 100;

fn script(instructions: Vec<Instruction>) -> Script {
    Script { instructions, direct_write_set: false }
}

fn writes_a() -> Script {
    script(vec![Instruction::Add(1), Instruction::Store(A)])
}

fn copies_a_plus_one_to_b() -> Script {
    script(vec![Instruction::Load(A), Instruction::Add(1), Instruction::Store(B)])
}

fn execute_version(task: Task) -> Version {
    match task {
        Task::Execute(v) => v,
        other => panic!("expected an execution, got {:?}", other),
    }
}

fn validate_version(task: Task) -> Version {
    match task {
        Task::Validate(v) => v,
        other => panic!("expected a validation, got {:?}", other),
    }
}

fn validate_next(block: &mut BlockExecutor<ScriptVm>) -> ValidationOutcome {
    let version = validate_version(block.next_task());
    block.validate(version)
}

fn same_outputs(a: &BlockOutput, b: &BlockOutput) -> bool {
    if a.outputs.len() != b.outputs.len() {
        return false;
    }
    for i in 0..a.outputs.len() {
        if a.outputs[i].writes != b.outputs[i].writes || a.outputs[i].deltas != b.outputs[i].deltas {
            return false;
        }
    }
    format!("{:?}", a.ending) == format!("{:?}", b.ending)
}

struct RaisedAfter {
    polls_left: Cell<u32>,
}

impl BlockSynchronizationKillSwitch for RaisedAfter {
    fn interrupt_requested(&self) -> bool {
        let left = self.polls_left.get();
        if left == 0 {
            true
        } else {
            self.polls_left.set(left - 1);
            false
        }
    }
}

#[test]
fn stale_read_is_detected_and_the_slot_runs_again() {
    let block_txns = vec![writes_a(), copies_a_plus_one_to_b()];
    let mut block = BlockExecutor::new(ScriptVm {}, block_txns.iter().collect(), StateStore::new());
    let v0 = execute_version(block.next_task());
    let v1 = execute_version(block.next_task());
    assert_eq!(v0, Version { txn_idx: 0, incarnation: 0 });
    assert_eq!(v1, Version { txn_idx: 1, incarnation: 0 });
    // The higher slot runs first and reads A before the lower slot has written it.
    assert!(block.execute(v1));
    assert!(block.execute(v0));
    let check0 = validate_version(block.next_task());
    assert_eq!(check0.txn_idx, 0);
    assert_eq!(block.validate(check0), ValidationOutcome::Committed);
    let check1 = validate_version(block.next_task());
    assert_eq!(check1.txn_idx, 1);
    assert_eq!(block.validate(check1), ValidationOutcome::Aborted);
    assert_eq!(block.slot(1).state, SlotState::ReadyToExecute);
    assert_eq!(block.slot(1).incarnation, 1);
    let again = execute_version(block.next_task());
    assert_eq!(again, Version { txn_idx: 1, incarnation: 1 });
    assert!(block.execute(again));
    let recheck = validate_version(block.next_task());
    assert_eq!(block.validate(recheck), ValidationOutcome::Committed);
    assert!(block.has_ended());
    let (output, state) = block.into_output();
    assert!(matches!(output.ending, Ending::Completed));
    assert_eq!(output.outputs.len(), 2);
    assert_eq!(output.outputs[0].writes, vec![(A, 1)]);
    assert_eq!(output.outputs[1].writes, vec![(B, 2)]);
    assert_eq!(state.get(A), Some(1));
    assert_eq!(state.get(B), Some(2));
}

#[test]
fn a_task_that_is_not_handed_out_is_not_performed() {
    let block_txns = vec![writes_a()];
    let mut block = BlockExecutor::new(ScriptVm {}, block_txns.iter().collect(), StateStore::new());
    assert!(!block.execute(Version { txn_idx: 0, incarnation: 0 }));
    assert_eq!(block.validate(Version { txn_idx: 0, incarnation: 0 }), ValidationOutcome::Stale);
    let v = execute_version(block.next_task());
    assert!(!block.execute(Version { txn_idx: 0, incarnation: 7 }));
    assert!(!block.execute(Version { txn_idx: 5, incarnation: 0 }));
    assert!(block.execute(v));
    assert!(!block.execute(v));
}

fn mixed_block() -> Vec<Script> {
    vec![
        writes_a(),
        copies_a_plus_one_to_b(),
        script(vec![Instruction::Load(B), Instruction::Add(10), Instruction::Store(C)]),
        script(vec![Instruction::AddDelta(COUNTER, 5)]),
        script(vec![Instruction::Load(C), Instruction::Load(A), Instruction::Add(7), Instruction::Store(A)]),
        script(vec![Instruction::AddDelta(COUNTER, -2), Instruction::LoadField(COUNTER), Instruction::Store(B)]),
        script(vec![Instruction::TryAdd(COUNTER, 100, 50), Instruction::Store(C)]),
        script(vec![Instruction::TryAdd(COUNTER, 10, 50), Instruction::Store(C)]),
    ]
}

#[test]
fn parallel_execution_gives_what_sequential_execution_gives() {
    for width in [1usize, 2, 3, 8, 64] {
        let mut base = StateStore::new();
        base.set(C, 40);
        base.set_field(COUNTER, 1);
        let expected = execute_sequentially(&ScriptVm {}, &mixed_block(), &mut base);
        let mut start = StateStore::new();
        start.set(C, 40);
        start.set_field(COUNTER, 1);
        let (output, state) = execute_transactions_parallel(
            ScriptVm {},
            mixed_block(),
            start,
            width,
            None::<&NeverInterrupted>,
        );
        assert!(same_outputs(&output, &expected));
        assert!(matches!(output.ending, Ending::Completed));
        assert_eq!(output.outputs.len(), 8);
        for key in [A, B, C] {
            assert_eq!(state.get(key), base.get(key));
        }
        assert_eq!(state.field(COUNTER), base.field(COUNTER));
        assert_eq!(state.get(A), Some(8));
        assert_eq!(state.get(B), Some(4));
        assert_eq!(state.get(C), Some(1));
        assert_eq!(state.field(COUNTER), 14);
    }
}

#[test]
fn an_empty_block_is_complete_at_once() {
    let (output, state) = execute_transactions_parallel(
        ScriptVm {},
        Vec::new(),
        StateStore::new(),
        4,
        None::<&NeverInterrupted>,
    );
    assert!(matches!(output.ending, Ending::Completed));
    assert!(output.outputs.is_empty());
    assert_eq!(state.get(A), None);
}

#[test]
fn skip_rest_truncates_the_block() {
    let block = || {
        vec![
            writes_a(),
            script(vec![Instruction::Add(5), Instruction::Store(B), Instruction::SkipRest]),
            script(vec![Instruction::Add(9), Instruction::Store(C)]),
            script(vec![Instruction::Add(9), Instruction::Store(A)]),
        ]
    };
    for width in [1usize, 4] {
        let (output, state) = execute_transactions_parallel(
            ScriptVm {},
            block(),
            StateStore::new(),
            width,
            None::<&NeverInterrupted>,
        );
        assert!(matches!(output.ending, Ending::Truncated));
        assert_eq!(output.outputs.len(), 2);
        assert_eq!(state.get(A), Some(1));
        assert_eq!(state.get(B), Some(5));
        assert_eq!(state.get(C), None);
    }
    let mut base = StateStore::new();
    let expected = execute_sequentially(&ScriptVm {}, &block(), &mut base);
    assert!(matches!(expected.ending, Ending::Truncated));
    assert_eq!(expected.outputs.len(), 2);
    assert_eq!(base.get(C), None);
}

#[test]
fn a_ready_made_write_set_always_ends_the_block() {
    let direct = Script {
        instructions: vec![Instruction::Add(3), Instruction::Store(A)],
        direct_write_set: true,
    };
    let (output, state) = execute_transactions_parallel(
        ScriptVm {},
        vec![direct, writes_a()],
        StateStore::new(),
        2,
        None::<&NeverInterrupted>,
    );
    assert!(matches!(output.ending, Ending::Truncated));
    assert_eq!(output.outputs.len(), 1);
    assert_eq!(state.get(A), Some(3));
}

#[test]
fn an_abort_fails_the_block_and_keeps_the_committed_prefix() {
    let block = || {
        vec![
            writes_a(),
            script(vec![Instruction::Load(A), Instruction::Store(B), Instruction::Abort(17)]),
            script(vec![Instruction::Add(9), Instruction::Store(C)]),
        ]
    };
    for width in [1usize, 3] {
        let (output, state) = execute_transactions_parallel(
            ScriptVm {},
            block(),
            StateStore::new(),
            width,
            None::<&NeverInterrupted>,
        );
        match &output.ending {
            Ending::Failed(ExecutionStatus::Abort(status)) => {
                assert_eq!(status.status_code, StatusCode::Other(17));
                assert!(status.message.is_none());
            },
            other => panic!("unexpected ending {:?}", other),
        }
        assert_eq!(output.outputs.len(), 1);
        assert_eq!(state.get(A), Some(1));
        assert_eq!(state.get(B), None);
        assert_eq!(state.get(C), None);
    }
}

#[test]
fn a_broken_invariant_fails_the_block_when_it_is_what_sequential_execution_gives() {
    let (output, _) = execute_transactions_parallel(
        ScriptVm {},
        vec![writes_a(), script(vec![Instruction::BreakInvariant])],
        StateStore::new(),
        2,
        None::<&NeverInterrupted>,
    );
    assert!(matches!(
        output.ending,
        Ending::Failed(ExecutionStatus::DelayedFieldsCodeInvariantError(_))
    ));
    assert_eq!(output.outputs.len(), 1);
}

#[test]
fn a_delta_that_leaves_the_range_of_its_field_fails_the_block() {
    let block = || {
        vec![
            script(vec![Instruction::AddDelta(COUNTER, 3)]),
            script(vec![Instruction::AddDelta(COUNTER, -4)]),
            script(vec![Instruction::AddDelta(COUNTER, 4)]),
        ]
    };
    let (output, state) = execute_transactions_parallel(
        ScriptVm {},
        block(),
        StateStore::new(),
        3,
        None::<&NeverInterrupted>,
    );
    match &output.ending {
        Ending::Failed(ExecutionStatus::DelayedFieldsCodeInvariantError(message)) => {
            assert_eq!(message, "delayed field out of range");
        },
        other => panic!("unexpected ending {:?}", other),
    }
    assert_eq!(output.outputs.len(), 1);
    assert_eq!(state.field(COUNTER), 3);
    let mut base = StateStore::new();
    let expected = execute_sequentially(&ScriptVm {}, &block(), &mut base);
    assert!(same_outputs(&output, &expected));
}

#[test]
fn independent_deltas_commit_without_running_again() {
    let block_txns = vec![
            script(vec![Instruction::AddDelta(COUNTER, 5)]),
            script(vec![Instruction::AddDelta(COUNTER, 7)]),
        ];
    let mut block = BlockExecutor::new(ScriptVm {}, block_txns.iter().collect(), StateStore::new());
    let v0 = execute_version(block.next_task());
    let v1 = execute_version(block.next_task());
    assert!(block.execute(v1));
    assert!(block.execute(v0));
    let check0 = validate_version(block.next_task());
    assert_eq!(block.validate(check0), ValidationOutcome::Committed);
    let check1 = validate_version(block.next_task());
    assert_eq!(block.validate(check1), ValidationOutcome::Committed);
    assert_eq!(block.slot(0).incarnation, 0);
    assert_eq!(block.slot(1).incarnation, 0);
    let (output, state) = block.into_output();
    assert!(matches!(output.ending, Ending::Completed));
    assert_eq!(state.field(COUNTER), 12);
}

#[test]
fn a_bound_check_stands_while_its_answer_does() {
    let mut base = StateStore::new();
    base.set_field(COUNTER, 10);
    let block_txns = vec![
            script(vec![Instruction::AddDelta(COUNTER, 5)]),
            script(vec![Instruction::TryAdd(COUNTER, 1, 100), Instruction::Store(A)]),
        ];
    let mut block = BlockExecutor::new(ScriptVm {}, block_txns.iter().collect(), base);
    let v0 = execute_version(block.next_task());
    let v1 = execute_version(block.next_task());
    // The higher slot checks its bound against 10; by the time it commits the field is at 15,
    // and the answer is the same.
    assert!(block.execute(v1));
    assert!(block.execute(v0));
    assert_eq!(validate_next(&mut block), ValidationOutcome::Committed);
    assert_eq!(validate_next(&mut block), ValidationOutcome::Committed);
    assert_eq!(block.slot(1).incarnation, 0);
    let (_, state) = block.into_output();
    assert_eq!(state.field(COUNTER), 16);
    assert_eq!(state.get(A), Some(1));
}

#[test]
fn a_value_read_of_a_field_is_checked_against_the_value() {
    let block_txns = vec![
            script(vec![Instruction::AddDelta(COUNTER, 5)]),
            script(vec![Instruction::LoadField(COUNTER), Instruction::Store(A)]),
        ];
    let mut block = BlockExecutor::new(ScriptVm {}, block_txns.iter().collect(), StateStore::new());
    let v0 = execute_version(block.next_task());
    let v1 = execute_version(block.next_task());
    assert!(block.execute(v1));
    assert!(block.execute(v0));
    assert_eq!(validate_next(&mut block), ValidationOutcome::Committed);
    assert_eq!(validate_next(&mut block), ValidationOutcome::Aborted);
    let again = execute_version(block.next_task());
    assert!(block.execute(again));
    assert_eq!(validate_next(&mut block), ValidationOutcome::Committed);
    let (_, state) = block.into_output();
    assert_eq!(state.get(A), Some(5));
}

#[test]
fn a_reader_waits_for_an_estimate_and_runs_again_once_it_is_resolved() {
    let block_txns = vec![
            script(vec![Instruction::Load(C), Instruction::Store(A)]),
            writes_a(),
            copies_a_plus_one_to_b(),
        ];
    let mut block = BlockExecutor::new(ScriptVm {}, block_txns.iter().collect(), StateStore::new());
    let v0 = execute_version(block.next_task());
    let v1 = execute_version(block.next_task());
    let v2 = execute_version(block.next_task());
    assert!(block.execute(v1));
    assert!(block.execute(v2));
    assert!(block.execute(v0));
    assert_eq!(validate_next(&mut block), ValidationOutcome::Committed);
    // Slot 1 read nothing, so it stands; slot 2 read what slot 1 wrote.
    assert_eq!(validate_next(&mut block), ValidationOutcome::Committed);
    assert_eq!(validate_next(&mut block), ValidationOutcome::Committed);
    let (output, state) = block.into_output();
    assert!(matches!(output.ending, Ending::Completed));
    assert_eq!(state.get(A), Some(1));
    assert_eq!(state.get(B), Some(2));
}

#[test]
fn an_aborted_slot_leaves_estimates_that_block_readers() {
    let block_txns = vec![
            script(vec![Instruction::Add(4), Instruction::Store(C)]),
            script(vec![Instruction::Load(C), Instruction::Store(A)]),
            copies_a_plus_one_to_b(),
        ];
    let mut block = BlockExecutor::new(ScriptVm {}, block_txns.iter().collect(), StateStore::new());
    let v0 = execute_version(block.next_task());
    let v1 = execute_version(block.next_task());
    let v2 = execute_version(block.next_task());
    assert!(block.execute(v1));
    assert!(block.execute(v0));
    assert_eq!(validate_next(&mut block), ValidationOutcome::Committed);
    // Slot 1 read C before slot 0 wrote it: it is declared void, and what it wrote becomes an
    // estimate.
    assert_eq!(validate_next(&mut block), ValidationOutcome::Aborted);
    // Slot 2 now runs into the estimate of slot 1 and has to wait for it.
    assert!(block.execute(v2));
    assert_eq!(block.slot(2).state, SlotState::Aborted);
    assert_eq!(block.slot(2).blocked_on, Some(1));
    let again1 = execute_version(block.next_task());
    assert_eq!(again1, Version { txn_idx: 1, incarnation: 1 });
    assert!(block.execute(again1));
    assert_eq!(block.slot(2).state, SlotState::ReadyToExecute);
    assert_eq!(block.slot(2).incarnation, 1);
    assert_eq!(validate_next(&mut block), ValidationOutcome::Committed);
    let again2 = execute_version(block.next_task());
    assert!(block.execute(again2));
    assert_eq!(validate_next(&mut block), ValidationOutcome::Committed);
    let (_, state) = block.into_output();
    assert_eq!(state.get(C), Some(4));
    assert_eq!(state.get(A), Some(4));
    assert_eq!(state.get(B), Some(5));
}

#[test]
fn cancellation_keeps_a_prefix_of_the_sequential_execution() {
    let mut base = StateStore::new();
    let expected = execute_sequentially(&ScriptVm {}, &mixed_block(), &mut base);
    for polls in 0..40u32 {
        let switch = RaisedAfter { polls_left: Cell::new(polls) };
        let (output, state) = execute_transactions_parallel(
            ScriptVm {},
            mixed_block(),
            StateStore::new(),
            3,
            Some(&switch),
        );
        let committed = output.outputs.len();
        assert!(committed <= expected.outputs.len());
        for i in 0..committed {
            assert_eq!(output.outputs[i].writes, expected.outputs[i].writes);
            assert_eq!(output.outputs[i].deltas, expected.outputs[i].deltas);
        }
        // The state is the one after exactly the committed transactions.
        let mut replay = StateStore::new();
        for out in &output.outputs {
            assert!(replay.accepts(out));
            replay.apply(out);
        }
        for key in [A, B, C] {
            assert_eq!(state.get(key), replay.get(key));
        }
        assert_eq!(state.field(COUNTER), replay.field(COUNTER));
        if !matches!(output.ending, Ending::Cancelled) {
            assert!(same_outputs(&output, &expected));
        }
    }
    let immediately = RaisedAfter { polls_left: Cell::new(0) };
    let (output, state) = execute_transactions_parallel(
        ScriptVm {},
        mixed_block(),
        StateStore::new(),
        3,
        Some(&immediately),
    );
    assert!(matches!(output.ending, Ending::Cancelled));
    assert!(output.outputs.is_empty());
    assert_eq!(state.get(A), None);
    // A second run without cancellation gives the sequential result.
    let (full, _) = execute_transactions_parallel(
        ScriptVm {},
        mixed_block(),
        StateStore::new(),
        3,
        None::<&NeverInterrupted>,
    );
    assert!(same_outputs(&full, &expected));
}

#[test]
fn cancel_ends_a_running_block_and_leaves_an_ended_one_alone() {
    let block_txns = vec![writes_a()];
    let mut block = BlockExecutor::new(ScriptVm {}, block_txns.iter().collect(), StateStore::new());
    block.cancel();
    assert!(block.has_ended());
    assert!(matches!(block.next_task(), Task::Done));
    let (output, _) = block.into_output();
    assert!(matches!(output.ending, Ending::Cancelled));

    let done_txns = vec![writes_a()];
    let mut done = BlockExecutor::new(ScriptVm {}, done_txns.iter().collect(), StateStore::new());
    done.run(1, None::<&NeverInterrupted>);
    done.cancel();
    let (output, state) = done.into_output();
    assert!(matches!(output.ending, Ending::Completed));
    assert_eq!(state.get(A), Some(1));
}

#[test]
fn the_script_machine_reads_its_own_writes_and_wraps_around() {
    let mut base = StateStore::new();
    let block = vec![script(vec![
        Instruction::Add(u64::MAX),
        Instruction::Add(3),
        Instruction::Store(A),
        Instruction::Add(1),
        Instruction::Store(A),
        Instruction::Load(A),
        Instruction::Add(1),
        Instruction::Store(B),
    ])];
    let output = execute_sequentially(&ScriptVm {}, &block, &mut base);
    assert!(matches!(output.ending, Ending::Completed));
    assert_eq!(output.outputs[0].writes, vec![(A, 2), (A, 3), (B, 4)]);
    assert_eq!(base.get(A), Some(3));
    assert_eq!(base.get(B), Some(4));
}

#[test]
fn a_slot_is_committed_only_after_every_slot_below_it() {
    let block_txns = vec![writes_a(), script(vec![Instruction::Add(2), Instruction::Store(C)])];
    let mut block = BlockExecutor::new(ScriptVm {}, block_txns.iter().collect(), StateStore::new());
    let v0 = execute_version(block.next_task());
    let v1 = execute_version(block.next_task());
    assert!(block.execute(v1));
    assert!(block.execute(v0));
    let check0 = validate_version(block.next_task());
    let check1 = validate_version(block.next_task());
    // The reads of the higher slot stand, but the lower slot is not committed yet.
    assert_eq!(block.validate(check1), ValidationOutcome::Parked);
    assert_eq!(block.slot(1).state, SlotState::Executed);
    assert_eq!(block.committed(), 0);
    assert!(matches!(block.next_task(), Task::Wait));
    assert_eq!(block.try_commit(), ValidationOutcome::Stale);
    assert_eq!(block.validate(check0), ValidationOutcome::Committed);
    assert_eq!(block.committed(), 1);
    assert_eq!(block.slot(0).state, SlotState::Committed);
    assert_eq!(block.slot(1).state, SlotState::ReadyToValidate);
    assert!(!block.has_ended());
    assert_eq!(block.try_commit(), ValidationOutcome::Committed);
    assert_eq!(block.committed(), 2);
    assert!(block.has_ended());
    assert_eq!(block.try_commit(), ValidationOutcome::Stale);
    let (output, state) = block.into_output();
    assert!(matches!(output.ending, Ending::Completed));
    assert_eq!(state.get(C), Some(2));
}

#[test]
fn tasks_that_were_handed_out_can_be_taken_back() {
    let block_txns = vec![writes_a(), copies_a_plus_one_to_b()];
    let mut block = BlockExecutor::new(ScriptVm {}, block_txns.iter().collect(), StateStore::new());
    let v0 = execute_version(block.next_task());
    let _ = execute_version(block.next_task());
    assert!(matches!(block.next_task(), Task::Wait));
    block.recall();
    assert_eq!(block.slot(0).state, SlotState::ReadyToExecute);
    assert_eq!(block.slot(1).state, SlotState::ReadyToExecute);
    assert_eq!(execute_version(block.next_task()), v0);
    block.run(4, None::<&NeverInterrupted>);
    let (output, state) = block.into_output();
    assert!(matches!(output.ending, Ending::Completed));
    assert_eq!(state.get(B), Some(2));
}

#[test]
fn a_try_to_commit_declares_a_stale_frontier_slot_void() {
    let block_txns = vec![writes_a(), copies_a_plus_one_to_b()];
    let mut block = BlockExecutor::new(ScriptVm {}, block_txns.iter().collect(), StateStore::new());
    let v0 = execute_version(block.next_task());
    let v1 = execute_version(block.next_task());
    assert!(block.execute(v1));
    assert!(block.execute(v0));
    assert_eq!(block.try_commit(), ValidationOutcome::Committed);
    assert_eq!(block.try_commit(), ValidationOutcome::Aborted);
    assert_eq!(block.slot(1).state, SlotState::ReadyToExecute);
    assert_eq!(block.try_commit(), ValidationOutcome::Stale);
    let again = execute_version(block.next_task());
    assert!(block.execute(again));
    assert_eq!(block.slot(1).state, SlotState::ReadyToValidate);
    assert_eq!(block.try_commit(), ValidationOutcome::Committed);
    assert!(block.has_ended());
}

#[test]
fn a_try_to_commit_fails_the_block_with_a_slot_that_fails_for_good() {
    let block_txns = vec![script(vec![Instruction::Abort(9)])];
    let mut block = BlockExecutor::new(ScriptVm {}, block_txns.iter().collect(), StateStore::new());
    let v0 = execute_version(block.next_task());
    assert!(block.execute(v0));
    assert_eq!(block.try_commit(), ValidationOutcome::Failed);
    assert!(block.has_ended());
    assert_eq!(block.committed(), 0);
    let (output, _) = block.into_output();
    assert!(matches!(output.ending, Ending::Failed(ExecutionStatus::Abort(_))));
    assert!(output.outputs.is_empty());
}

#[test]
fn nothing_is_executed_once_the_block_has_ended() {
    let block_txns = vec![writes_a(), copies_a_plus_one_to_b()];
    let mut block = BlockExecutor::new(ScriptVm {}, block_txns.iter().collect(), StateStore::new());
    let v0 = execute_version(block.next_task());
    let v1 = execute_version(block.next_task());
    assert!(block.execute(v0));
    block.cancel();
    assert!(!block.execute(v1));
    assert_eq!(block.slot(1).state, SlotState::Executing);
    assert_eq!(block.try_commit(), ValidationOutcome::Stale);
    let (output, state) = block.into_output();
    assert!(matches!(output.ending, Ending::Cancelled));
    assert!(output.outputs.is_empty());
    assert_eq!(state.get(A), None);
}

#[test]
fn a_speculative_abort_that_sequential_execution_gives_too_fails_the_block() {
    let block = || vec![writes_a(), script(vec![Instruction::Load(A), Instruction::GiveUp]), writes_a()];
    let mut base = StateStore::new();
    let expected = execute_sequentially(&ScriptVm {}, &block(), &mut base);
    assert!(matches!(
        expected.ending,
        Ending::Failed(ExecutionStatus::SpeculativeExecutionAbortError(_))
    ));
    for width in [1usize, 2, 3] {
        let (output, state) = execute_transactions_parallel(
            ScriptVm {},
            block(),
            StateStore::new(),
            width,
            None::<&NeverInterrupted>,
        );
        assert!(same_outputs(&output, &expected));
        assert_eq!(output.outputs.len(), 1);
        assert_eq!(state.get(A), Some(1));
    }
}
