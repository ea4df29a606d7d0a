use lumio_executor::delayed::Pending;
use lumio_executor::mvs::{Lookup, VersionedStore};
use lumio_executor::scheduler::{Scheduler, SlotState, Task};
use lumio_executor::state::{find_last_entry, StateStore, TransactionOutput};
use lumio_executor::task::{
    DataRead, ExecutionStatus, FieldRead, LatestView, ReadDescriptor, Snapshot, StatusCode, VmStatus,
};
use lumio_executor::vm_wrapper::{
    execution_status, is_dynamic_change_set_capable, process_validator_transaction,
    ValidatorHandler, ValidatorTransaction, VmResult,
};
use lumio_executor::types::Version;
use lumio_executor::validator::{first_dependency, reads_hold, validate_read_set};

#[test]
fn a_read_sees_the_highest_lower_slot() {
    let mut store: VersionedStore<u64> = VersionedStore::new();
    assert!(matches!(store.read(7, 5), Lookup::Uninitialized));
    store.write(7, 3, 0, 30);
    store.write(7, 1, 2, 10);
    store.write(7, 8, 0, 80);
    store.write(9, 2, 0, 99);
    assert!(matches!(store.read(7, 0), Lookup::Uninitialized));
    assert!(matches!(store.read(7, 1), Lookup::Uninitialized));
    assert!(matches!(store.read(7, 2), Lookup::Versioned { txn_idx: 1, incarnation: 2, payload: 10 }));
    assert!(matches!(store.read(7, 3), Lookup::Versioned { txn_idx: 1, incarnation: 2, payload: 10 }));
    assert!(matches!(store.read(7, 4), Lookup::Versioned { txn_idx: 3, incarnation: 0, payload: 30 }));
    assert!(matches!(store.read(7, 8), Lookup::Versioned { txn_idx: 3, incarnation: 0, payload: 30 }));
    assert!(matches!(store.read(7, 9), Lookup::Versioned { txn_idx: 8, incarnation: 0, payload: 80 }));
    assert!(matches!(store.read(9, 9), Lookup::Versioned { txn_idx: 2, incarnation: 0, payload: 99 }));
}

#[test]
fn a_write_replaces_what_the_slot_held_and_an_estimate_blocks() {
    let mut store: VersionedStore<u64> = VersionedStore::new();
    store.write(7, 3, 0, 30);
    store.write(7, 3, 1, 31);
    assert!(matches!(store.read(7, 4), Lookup::Versioned { txn_idx: 3, incarnation: 1, payload: 31 }));
    store.mark_estimate(7, 3);
    assert!(matches!(store.read(7, 4), Lookup::Dependency { txn_idx: 3 }));
    assert!(matches!(store.read(7, 3), Lookup::Uninitialized));
    store.mark_estimate(7, 2);
    assert!(matches!(store.read(7, 3), Lookup::Uninitialized));
    store.write(7, 3, 2, 32);
    assert!(matches!(store.read(7, 4), Lookup::Versioned { txn_idx: 3, incarnation: 2, payload: 32 }));
    store.remove(7, 3);
    assert!(matches!(store.read(7, 4), Lookup::Uninitialized));
    store.remove(7, 3);
    assert_eq!(store.history(7).map(|h| h.len()), Some(0));
    assert!(store.history(8).is_none());
}

#[test]
fn batches_are_installed_estimated_and_removed() {
    let mut store: VersionedStore<u64> = VersionedStore::new();
    let entries = vec![(1u64, 10u64), (2, 20), (1, 11)];
    store.write_all(4, 0, &entries);
    assert!(matches!(store.read(1, 5), Lookup::Versioned { txn_idx: 4, incarnation: 0, payload: 11 }));
    assert!(matches!(store.read(2, 5), Lookup::Versioned { txn_idx: 4, incarnation: 0, payload: 20 }));
    store.mark_estimates(4, &entries);
    assert!(matches!(store.read(1, 5), Lookup::Dependency { txn_idx: 4 }));
    assert!(matches!(store.read(2, 5), Lookup::Dependency { txn_idx: 4 }));
    store.remove_all(4, &entries);
    assert!(matches!(store.read(1, 5), Lookup::Uninitialized));
    assert!(matches!(store.read(2, 5), Lookup::Uninitialized));
    assert_eq!(find_last_entry(&entries, 1), Some(11));
    assert_eq!(find_last_entry(&entries, 2), Some(20));
    assert_eq!(find_last_entry(&entries, 3), None);
}

#[test]
fn deltas_below_the_reader_add_up() {
    let mut store: VersionedStore<i64> = VersionedStore::new();
    assert_eq!(store.read_total(5, 10), Pending::Total { sum: 0 });
    store.write(5, 2, 0, 7);
    store.write(5, 6, 0, -3);
    store.write(5, 4, 1, i64::MAX);
    store.write(6, 1, 0, 1000);
    assert_eq!(store.read_total(5, 0), Pending::Total { sum: 0 });
    assert_eq!(store.read_total(5, 2), Pending::Total { sum: 0 });
    assert_eq!(store.read_total(5, 3), Pending::Total { sum: 7 });
    assert_eq!(store.read_total(5, 5), Pending::Total { sum: 7 + i64::MAX as i128 });
    assert_eq!(store.read_total(5, 7), Pending::Total { sum: 4 + i64::MAX as i128 });
    store.mark_estimate(5, 4);
    assert_eq!(store.read_total(5, 7), Pending::Dependency { txn_idx: 4 });
    assert_eq!(store.read_total(5, 4), Pending::Total { sum: 7 });
    store.mark_estimate(5, 2);
    assert_eq!(store.read_total(5, 7), Pending::Dependency { txn_idx: 2 });
}

#[test]
fn an_output_is_applied_with_the_last_entry_of_each_key() {
    let mut store = StateStore::new();
    store.set(1, 5);
    store.set_field(9, 10);
    let out = TransactionOutput {
        writes: vec![(1, 6), (2, 7), (1, 8)],
        deltas: vec![(9, -4), (8, 3), (9, 5)],
    };
    assert!(store.accepts(&out));
    store.apply(&out);
    assert_eq!(store.get(1), Some(8));
    assert_eq!(store.get(2), Some(7));
    assert_eq!(store.get(3), None);
    assert_eq!(store.field(9), 15);
    assert_eq!(store.field(8), 3);
    assert_eq!(store.field(7), 0);
    let copy = store.duplicate();
    assert_eq!(copy.get(1), Some(8));
    assert_eq!(copy.field(9), 15);
    let twin = out.duplicate();
    assert_eq!(twin.writes, out.writes);
    assert_eq!(twin.deltas, out.deltas);
    assert!(TransactionOutput::empty().writes.is_empty());
}

#[test]
fn an_output_that_leaves_the_range_of_a_field_is_not_accepted() {
    let mut store = StateStore::new();
    store.set_field(9, 10);
    let below = TransactionOutput { writes: vec![], deltas: vec![(9, -11)] };
    assert!(!store.accepts(&below));
    let on_the_edge = TransactionOutput { writes: vec![], deltas: vec![(9, -10)] };
    assert!(store.accepts(&on_the_edge));
    store.set_field(9, u64::MAX);
    let above = TransactionOutput { writes: vec![], deltas: vec![(9, 1)] };
    assert!(!store.accepts(&above));
    let every_entry_counts = TransactionOutput { writes: vec![], deltas: vec![(9, 1), (9, 0)] };
    assert!(!store.accepts(&every_entry_counts));
}

#[test]
fn the_view_records_what_it_reads() {
    let mut data: VersionedStore<u64> = VersionedStore::new();
    let mut fields: VersionedStore<i64> = VersionedStore::new();
    let mut base = StateStore::new();
    base.set(1, 100);
    base.set_field(9, 50);
    data.write(2, 0, 0, 20);
    data.write(3, 1, 0, 30);
    data.mark_estimate(3, 1);
    fields.write(9, 0, 0, -20);
    let source = Snapshot { data: &data, fields: &fields, base: &base, reader: 2 };
    let mut view = LatestView::new(Snapshot { data: &data, fields: &fields, base: &base, reader: 2 });
    assert_eq!(view.reader(), 2);
    assert!(matches!(view.get(1), DataRead::Storage { value: Some(100) }));
    assert!(matches!(view.get(4), DataRead::Storage { value: None }));
    assert!(matches!(view.get(2), DataRead::Versioned { txn_idx: 0, incarnation: 0, value: 20 }));
    assert!(matches!(view.get(3), DataRead::Dependency { txn_idx: 1 }));
    assert!(matches!(view.get_field(9), FieldRead::Value { value: 30 }));
    assert!(matches!(view.check_field(9, 5, 35), FieldRead::Bound { delta: 5, limit: 35, within: true }));
    assert!(matches!(view.check_field(9, 6, 35), FieldRead::Bound { within: false, .. }));
    assert!(matches!(view.check_field(9, -31, 35), FieldRead::Bound { within: false, .. }));
    let reads = view.into_reads();
    assert_eq!(reads.len(), 8);
    assert_eq!(first_dependency(&reads), Some(1));
    assert!(!validate_read_set(&source, &reads));
    let without_dependency: Vec<ReadDescriptor> =
        reads.iter().copied().filter(|d| !matches!(d, ReadDescriptor::Data { key: 3, .. })).collect();
    assert_eq!(first_dependency(&without_dependency), None);
    assert!(validate_read_set(&source, &without_dependency));
    // On another source the same reads stand only as far as the same is observed.
    let mut changed: VersionedStore<i64> = VersionedStore::new();
    changed.write(9, 0, 0, -21);
    let other = Snapshot { data: &data, fields: &changed, base: &base, reader: 2 };
    assert!(!validate_read_set(&other, &without_dependency));
    let only_bounds: Vec<ReadDescriptor> = without_dependency
        .iter()
        .copied()
        .filter(|d| !matches!(d, ReadDescriptor::Field { observed: FieldRead::Value { .. }, .. }))
        .collect();
    // The field moved from 30 to 29: with a delta of 6 it now stays within 35.
    assert!(!validate_read_set(&other, &only_bounds));
    let loose: Vec<ReadDescriptor> = only_bounds
        .iter()
        .copied()
        .filter(|d| !matches!(d, ReadDescriptor::Field { observed: FieldRead::Bound { delta: 6, .. }, .. }))
        .collect();
    assert!(validate_read_set(&other, &loose));
}

#[test]
fn reads_are_checked_against_a_state() {
    let mut state = StateStore::new();
    state.set(1, 100);
    state.set_field(9, 50);
    let holds = vec![
        ReadDescriptor::Data { key: 1, observed: DataRead::Storage { value: Some(100) } },
        ReadDescriptor::Data {
            key: 1,
            observed: DataRead::Versioned { txn_idx: 3, incarnation: 1, value: 100 },
        },
        ReadDescriptor::Data { key: 2, observed: DataRead::Storage { value: None } },
        ReadDescriptor::Field { id: 9, observed: FieldRead::Value { value: 50 } },
        ReadDescriptor::Field { id: 9, observed: FieldRead::Bound { delta: 1, limit: 51, within: true } },
        ReadDescriptor::Field { id: 9, observed: FieldRead::Bound { delta: 2, limit: 51, within: false } },
        ReadDescriptor::Field { id: 8, observed: FieldRead::Value { value: 0 } },
    ];
    assert!(reads_hold(&holds, &state));
    assert!(reads_hold(&Vec::new(), &state));
    for broken in [
        ReadDescriptor::Data { key: 1, observed: DataRead::Storage { value: Some(101) } },
        ReadDescriptor::Data { key: 1, observed: DataRead::Storage { value: None } },
        ReadDescriptor::Data { key: 2, observed: DataRead::Storage { value: Some(0) } },
        ReadDescriptor::Data { key: 1, observed: DataRead::Dependency { txn_idx: 0 } },
        ReadDescriptor::Field { id: 9, observed: FieldRead::Value { value: 49 } },
        ReadDescriptor::Field { id: 9, observed: FieldRead::Bound { delta: 1, limit: 51, within: false } },
        ReadDescriptor::Field { id: 9, observed: FieldRead::Dependency { txn_idx: 0 } },
    ] {
        let mut reads = holds.clone();
        reads.push(broken);
        assert!(!reads_hold(&reads, &state));
    }
}

#[test]
fn the_scheduler_hands_out_the_lowest_slot_and_commits_in_order() {
    let mut scheduler = Scheduler::new(3);
    assert_eq!(scheduler.len(), 3);
    assert_eq!(scheduler.committed(), 0);
    assert!(!scheduler.halted());
    assert!(matches!(scheduler.next_task(), Task::Execute(Version { txn_idx: 0, incarnation: 0 })));
    assert!(matches!(scheduler.next_task(), Task::Execute(Version { txn_idx: 1, incarnation: 0 })));
    scheduler.finish_execution(1, false);
    assert!(matches!(scheduler.next_task(), Task::Validate(Version { txn_idx: 1, incarnation: 0 })));
    scheduler.park(1);
    assert_eq!(scheduler.slot(1).state, SlotState::Executed);
    assert!(matches!(scheduler.next_task(), Task::Execute(Version { txn_idx: 2, incarnation: 0 })));
    assert!(matches!(scheduler.next_task(), Task::Wait));
    assert!(scheduler.suspend(2, 0));
    assert_eq!(scheduler.slot(2).state, SlotState::Aborted);
    assert_eq!(scheduler.slot(2).blocked_on, Some(0));
    // The lower slot finishes: the parked slot above it is validated again, the waiting one runs
    // again.
    scheduler.finish_execution(0, false);
    assert_eq!(scheduler.slot(0).state, SlotState::ReadyToValidate);
    assert_eq!(scheduler.slot(1).state, SlotState::ReadyToValidate);
    assert_eq!(scheduler.slot(2).state, SlotState::ReadyToExecute);
    assert_eq!(scheduler.slot(2).incarnation, 1);
    assert!(matches!(scheduler.next_task(), Task::Validate(Version { txn_idx: 0, incarnation: 0 })));
    scheduler.commit();
    assert_eq!(scheduler.committed(), 1);
    assert_eq!(scheduler.slot(0).state, SlotState::Committed);
    assert!(matches!(scheduler.next_task(), Task::Validate(Version { txn_idx: 1, incarnation: 0 })));
    scheduler.abort_from(1);
    assert_eq!(scheduler.slot(1).state, SlotState::ReadyToExecute);
    assert_eq!(scheduler.slot(1).incarnation, 1);
    assert_eq!(scheduler.slot(2).state, SlotState::ReadyToExecute);
    assert_eq!(scheduler.slot(2).incarnation, 1);
    assert!(matches!(scheduler.next_task(), Task::Execute(Version { txn_idx: 1, incarnation: 1 })));
    scheduler.recall();
    assert_eq!(scheduler.slot(1).state, SlotState::ReadyToExecute);
    scheduler.halt();
    assert!(scheduler.halted());
    assert!(matches!(scheduler.next_task(), Task::Done));
}

#[test]
fn a_slot_that_ran_into_a_slot_with_a_result_runs_again_at_once() {
    let mut scheduler = Scheduler::new(2);
    let _ = scheduler.next_task();
    let _ = scheduler.next_task();
    scheduler.finish_execution(0, false);
    assert!(!scheduler.suspend(1, 0));
    assert_eq!(scheduler.slot(1).state, SlotState::ReadyToExecute);
    assert_eq!(scheduler.slot(1).incarnation, 1);
    assert_eq!(scheduler.slot(1).blocked_on, None);
}

#[test]
fn a_slot_that_must_run_without_speculation_waits_for_the_frontier() {
    let mut scheduler = Scheduler::new(2);
    let _ = scheduler.next_task();
    let _ = scheduler.next_task();
    scheduler.finish_execution(1, true);
    assert!(scheduler.slot(1).sequential);
    assert!(matches!(scheduler.next_task(), Task::Validate(Version { txn_idx: 1, .. })));
    scheduler.abort_from(1);
    assert_eq!(scheduler.slot(1).state, SlotState::ReadyToExecute);
    // Slot 0 is still being executed: slot 1 is not handed out.
    assert!(matches!(scheduler.next_task(), Task::Wait));
    scheduler.finish_execution(0, false);
    assert!(matches!(scheduler.next_task(), Task::Validate(Version { txn_idx: 0, .. })));
    scheduler.commit();
    assert!(matches!(scheduler.next_task(), Task::Execute(Version { txn_idx: 1, incarnation: 1 })));
}

fn status(code: StatusCode, message: Option<&str>) -> VmStatus {
    VmStatus { status_code: code, message: message.map(|m| m.to_string()) }
}

fn output() -> TransactionOutput {
    TransactionOutput { writes: vec![(1, 2)], deltas: vec![] }
}

#[test]
fn the_status_of_the_machine_decides_the_status_of_the_execution() {
    let speculative = execution_status(
        VmResult::Completed {
            status: status(StatusCode::SpeculativeExecutionAbortError, Some("stale")),
            output: output(),
            restart: true,
        },
        true,
    );
    assert!(matches!(speculative, ExecutionStatus::SpeculativeExecutionAbortError(m) if m == "stale"));
    let invariant = execution_status(
        VmResult::Completed {
            status: status(StatusCode::DelayedFieldOrBlockStmCodeInvariantError, None),
            output: output(),
            restart: false,
        },
        false,
    );
    assert!(matches!(invariant, ExecutionStatus::DelayedFieldsCodeInvariantError(m) if m.is_empty()));
    let restart = execution_status(
        VmResult::Completed { status: status(StatusCode::Other(0), None), output: output(), restart: true },
        false,
    );
    assert!(matches!(restart, ExecutionStatus::SkipRest(out) if out.writes == vec![(1, 2)]));
    let success = execution_status(
        VmResult::Completed { status: status(StatusCode::Other(0), None), output: output(), restart: false },
        true,
    );
    assert!(matches!(success, ExecutionStatus::Success(out) if out.writes == vec![(1, 2)]));
    let failed = execution_status(VmResult::Failed(status(StatusCode::Other(4016), Some("boom"))), true);
    match failed {
        ExecutionStatus::Abort(e) => {
            assert_eq!(e.status_code, StatusCode::Other(4016));
            assert_eq!(e.message.as_deref(), Some("boom"));
        },
        other => panic!("unexpected status {:?}", other),
    }
    let failed_speculative = execution_status(
        VmResult::Failed(status(StatusCode::SpeculativeExecutionAbortError, None)),
        true,
    );
    assert!(matches!(failed_speculative, ExecutionStatus::SpeculativeExecutionAbortError(m) if m.is_empty()));
    let failed_invariant = execution_status(
        VmResult::Failed(status(StatusCode::DelayedFieldOrBlockStmCodeInvariantError, Some("x"))),
        true,
    );
    assert!(matches!(failed_invariant, ExecutionStatus::DelayedFieldsCodeInvariantError(m) if m == "x"));
}

#[test]
fn only_a_valid_genesis_with_a_ready_made_write_set_is_not_capable() {
    assert!(is_dynamic_change_set_capable(false, false));
    assert!(is_dynamic_change_set_capable(false, true));
    assert!(is_dynamic_change_set_capable(true, false));
    assert!(!is_dynamic_change_set_capable(true, true));
}

#[test]
fn validator_transactions_go_to_their_own_handlers() {
    assert_eq!(
        process_validator_transaction(ValidatorTransaction::DkgResult),
        ValidatorHandler::DkgResult
    );
    assert_eq!(
        process_validator_transaction(ValidatorTransaction::ObservedJwkUpdate),
        ValidatorHandler::JwkUpdate
    );
}
