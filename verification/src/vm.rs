//! A small virtual machine: transactions are scripts over one accumulator.
//! It is an executor in its own right, and the one that the engine can be
//! exercised with.

use vstd::prelude::*;
use crate::state::{find_last_entry, last_entry, OutputView, State, StateStore, TransactionOutput};
use crate::task::{
    lemma_reads_hold_push, reads_hold_in, DataRead, ExecutionStatus, ExecutorTask, FieldRead,
    LatestView, ReadDescriptor, StatusCode, StatusView, VmStatus, VmStatusView,
};
use crate::types::{DelayedFieldId, StateKey, TxnIndex, Value};

verus! {

/// One instruction of a script.
#[derive(Clone, Copy, Debug)]
pub enum Instruction {
    /// Loads a storage location into the accumulator: what the script
    /// itself wrote there last, else what the state holds, else zero.
    Load(StateKey),
    /// Adds a constant to the accumulator, wrapping around.
    Add(u64),
    /// Writes the accumulator to a storage location.
    Store(StateKey),
    /// Applies a delta to a delayed field, without reading the field.
    AddDelta(DelayedFieldId, i64),
    /// Applies a delta to a delayed field if that keeps the field between
    /// zero and the limit; the accumulator becomes one if it was applied,
    /// zero if not.
    TryAdd(DelayedFieldId, i64, u64),
    /// Loads the value of a delayed field into the accumulator.
    LoadField(DelayedFieldId),
    /// Ends the block with this transaction.
    SkipRest,
    /// Fails for good, with a status code.
    Abort(u64),
    /// Reports a broken invariant of delayed fields.
    BreakInvariant,
    /// Reports speculative state that does not fit together, whatever the state.
    GiveUp,
}

/// A transaction of the script machine.
#[derive(Debug)]
pub struct Script {
    pub instructions: Vec<Instruction>,
    /// The script carries a ready-made write set: it cannot have its change
    /// set resolved after execution, and always ends the block.
    pub direct_write_set: bool,
}

/// The registers of the machine while a script runs.
pub struct Machine {
    pub acc: u64,
    pub writes: Seq<(StateKey, Value)>,
    pub deltas: Seq<(DelayedFieldId, i64)>,
    pub skip: bool,
}

/// What one instruction leads to.
pub enum Step {
    Next(Machine),
    Halt(StatusView),
}

/// The delta that the script has applied to a field so far.
pub open spec fn pending(m: Machine, id: DelayedFieldId) -> int {
    match last_entry(m.deltas, id) {
        Some(d) => d as int,
        None => 0,
    }
}

/// The status of a broken invariant of delayed fields.
pub open spec fn invariant_broken() -> StatusView {
    StatusView::DelayedFieldsCodeInvariantError(Seq::empty())
}

/// What the instruction does to the machine on state `s`.
pub open spec fn step(m: Machine, ins: Instruction, s: State) -> Step {
    match ins {
        Instruction::Load(key) => Step::Next(
            Machine {
                acc: match last_entry(m.writes, key) {
                    Some(v) => v,
                    None => match s.value(key) {
                        Some(v) => v,
                        None => 0,
                    },
                },
                ..m
            },
        ),
        Instruction::Add(c) => Step::Next(
            Machine {
                acc: if m.acc + c <= u64::MAX {
                    (m.acc + c) as u64
                } else {
                    (m.acc + c - 0x1_0000_0000_0000_0000) as u64
                },
                ..m
            },
        ),
        Instruction::Store(key) => Step::Next(Machine { writes: m.writes.push((key, m.acc)), ..m }),
        Instruction::AddDelta(id, d) => {
            let sum = pending(m, id) + d;
            if i64::MIN <= sum <= i64::MAX {
                Step::Next(Machine { deltas: m.deltas.push((id, sum as i64)), ..m })
            } else {
                Step::Halt(invariant_broken())
            }
        },
        Instruction::TryAdd(id, d, limit) => {
            let sum = pending(m, id) + d;
            if i64::MIN <= sum <= i64::MAX {
                if 0 <= s.field(id) + sum <= limit {
                    Step::Next(Machine { acc: 1, deltas: m.deltas.push((id, sum as i64)), ..m })
                } else {
                    Step::Next(Machine { acc: 0, ..m })
                }
            } else {
                Step::Halt(invariant_broken())
            }
        },
        Instruction::LoadField(id) => {
            let v = s.field(id) + pending(m, id);
            if 0 <= v <= u64::MAX {
                Step::Next(Machine { acc: v as u64, ..m })
            } else {
                Step::Halt(invariant_broken())
            }
        },
        Instruction::SkipRest => Step::Next(Machine { skip: true, ..m }),
        Instruction::Abort(code) => Step::Halt(
            StatusView::Abort(VmStatusView { status_code: StatusCode::Other(code), message: None }),
        ),
        Instruction::BreakInvariant => Step::Halt(invariant_broken()),
        Instruction::GiveUp => Step::Halt(StatusView::SpeculativeExecutionAbortError(Seq::empty())),
    }
}

/// What a script that has run through ends in.
pub open spec fn finish(m: Machine, direct: bool) -> StatusView {
    let out = OutputView { writes: m.writes, deltas: m.deltas };
    if m.skip || direct {
        StatusView::SkipRest(out)
    } else {
        StatusView::Success(out)
    }
}

/// What the script ends in when it goes on from instruction `pc` on state `s`.
pub open spec fn run_from(
    instructions: Seq<Instruction>,
    pc: nat,
    m: Machine,
    s: State,
    direct: bool,
) -> StatusView
    decreases instructions.len() - pc,
{
    if pc >= instructions.len() {
        finish(m, direct)
    } else {
        match step(m, instructions[pc as int], s) {
            Step::Next(next) => run_from(instructions, pc + 1, next, s, direct),
            Step::Halt(status) => status,
        }
    }
}

/// The machine before the first instruction.
pub open spec fn fresh() -> Machine {
    Machine { acc: 0, writes: Seq::empty(), deltas: Seq::empty(), skip: false }
}

/// A script that runs through ends the block or can have its change set
/// resolved later: it succeeds without ending the block only if it does not
/// carry a ready-made write set.
proof fn lemma_run_success(
    instructions: Seq<Instruction>,
    pc: nat,
    m: Machine,
    s: State,
    direct: bool,
)
    ensures
        run_from(instructions, pc, m, s, direct) is Success ==> !direct,
    decreases instructions.len() - pc,
{
    if pc < instructions.len() {
        match step(m, instructions[pc as int], s) {
            Step::Next(next) => lemma_run_success(instructions, pc + 1, next, s, direct),
            Step::Halt(status) => {},
        }
    }
}

/// The script machine.
pub struct ScriptVm {}

impl ExecutorTask for ScriptVm {
    type Txn = Script;

    open spec fn outcome(txn: Script, state: State) -> StatusView {
        run_from(txn.instructions@, 0, fresh(), state, txn.direct_write_set)
    }

    open spec fn dynamic_change_set_capable(txn: Script) -> bool {
        !txn.direct_write_set
    }

    fn init(base: &StateStore) -> Self {
        ScriptVm {  }
    }

    fn execute_transaction(&self, view: &mut LatestView<'_>, txn: &Script, txn_idx: TxnIndex) -> (status:
        ExecutionStatus) {
        let mut acc: u64 = 0;
        let mut writes: Vec<(StateKey, Value)> = Vec::new();
        let mut deltas: Vec<(DelayedFieldId, i64)> = Vec::new();
        let mut skip = false;
        let mut pc: usize = 0;
        let ghost instructions = txn.instructions@;
        let ghost direct = txn.direct_write_set;
        while pc < txn.instructions.len()
            invariant
                pc <= txn.instructions.len(),
                instructions == txn.instructions@,
                direct == txn.direct_write_set,
                view.wf(),
                view.source() == old(view).source(),
                forall|s: State| #[trigger]
                    reads_hold_in(view.reads(), s) ==> Self::outcome(*txn, s) == run_from(
                        instructions,
                        pc as nat,
                        Machine { acc, writes: writes@, deltas: deltas@, skip },
                        s,
                        direct,
                    ),
            decreases txn.instructions.len() - pc,
        {
            let ghost m = Machine { acc, writes: writes@, deltas: deltas@, skip };
            let ghost before = view.reads();
            let ins = txn.instructions[pc];
            match ins {
                Instruction::Load(key) => {
                    match find_last_entry(&writes, key) {
                        Some(v) => {
                            acc = v;
                        },
                        None => {
                            let r = view.get(key);
                            proof {
                                assert forall|s: State| #[trigger]
                                    reads_hold_in(view.reads(), s) implies reads_hold_in(before, s)
                                    && (ReadDescriptor::Data { key, observed: r }).holds_in(s) by {
                                    lemma_reads_hold_push(
                                        before,
                                        ReadDescriptor::Data { key, observed: r },
                                        s,
                                    );
                                }
                            }
                            match r {
                                DataRead::Versioned { value, .. } => {
                                    acc = value;
                                },
                                DataRead::Storage { value } => {
                                    acc = match value {
                                        Some(v) => v,
                                        None => 0,
                                    };
                                },
                                DataRead::Dependency { .. } => {
                                    return ExecutionStatus::SpeculativeExecutionAbortError(
                                        String::new(),
                                    );
                                },
                            }
                        },
                    }
                },
                Instruction::Add(c) => {
                    let room = u64::MAX - acc;
                    acc = if c <= room {
                        acc + c
                    } else {
                        c - room - 1
                    };
                },
                Instruction::Store(key) => {
                    writes.push((key, acc));
                },
                Instruction::AddDelta(id, d) => {
                    let local: i64 = match find_last_entry(&deltas, id) {
                        Some(x) => x,
                        None => 0,
                    };
                    let sum: i128 = local as i128 + d as i128;
                    if sum < i64::MIN as i128 || sum > i64::MAX as i128 {
                        return ExecutionStatus::DelayedFieldsCodeInvariantError(String::new());
                    }
                    deltas.push((id, sum as i64));
                },
                Instruction::TryAdd(id, d, limit) => {
                    let local: i64 = match find_last_entry(&deltas, id) {
                        Some(x) => x,
                        None => 0,
                    };
                    let sum: i128 = local as i128 + d as i128;
                    if sum < i64::MIN as i128 || sum > i64::MAX as i128 {
                        return ExecutionStatus::DelayedFieldsCodeInvariantError(String::new());
                    }
                    let r = view.check_field(id, sum as i64, limit);
                    proof {
                        assert forall|s: State| #[trigger]
                            reads_hold_in(view.reads(), s) implies reads_hold_in(before, s) && (
                        ReadDescriptor::Field { id, observed: r }).holds_in(s) by {
                            lemma_reads_hold_push(
                                before,
                                ReadDescriptor::Field { id, observed: r },
                                s,
                            );
                        }
                    }
                    match r {
                        FieldRead::Bound { within, .. } => {
                            if within {
                                deltas.push((id, sum as i64));
                                acc = 1;
                            } else {
                                acc = 0;
                            }
                        },
                        _ => {
                            return ExecutionStatus::SpeculativeExecutionAbortError(String::new());
                        },
                    }
                },
                Instruction::LoadField(id) => {
                    let local: i64 = match find_last_entry(&deltas, id) {
                        Some(x) => x,
                        None => 0,
                    };
                    let r = view.get_field(id);
                    proof {
                        assert forall|s: State| #[trigger]
                            reads_hold_in(view.reads(), s) implies reads_hold_in(before, s) && (
                        ReadDescriptor::Field { id, observed: r }).holds_in(s) by {
                            lemma_reads_hold_push(
                                before,
                                ReadDescriptor::Field { id, observed: r },
                                s,
                            );
                        }
                    }
                    match r {
                        FieldRead::Value { value } => {
                            let low: i128 = -(local as i128);
                            let high: i128 = u64::MAX as i128 - local as i128;
                            if value < low || value > high {
                                return ExecutionStatus::DelayedFieldsCodeInvariantError(
                                    String::new(),
                                );
                            }
                            acc = (value + local as i128) as u64;
                        },
                        _ => {
                            return ExecutionStatus::SpeculativeExecutionAbortError(String::new());
                        },
                    }
                },
                Instruction::SkipRest => {
                    skip = true;
                },
                Instruction::Abort(code) => {
                    return ExecutionStatus::Abort(
                        VmStatus { status_code: StatusCode::Other(code), message: None },
                    );
                },
                Instruction::BreakInvariant => {
                    return ExecutionStatus::DelayedFieldsCodeInvariantError(String::new());
                },
                Instruction::GiveUp => {
                    return ExecutionStatus::SpeculativeExecutionAbortError(String::new());
                },
            }
            proof {
                let next = Machine { acc, writes: writes@, deltas: deltas@, skip };
                assert forall|s: State| #[trigger]
                    reads_hold_in(view.reads(), s) implies Self::outcome(*txn, s) == run_from(
                    instructions,
                    (pc + 1) as nat,
                    next,
                    s,
                    direct,
                ) by {
                    assert(reads_hold_in(before, s));
                    assert(step(m, ins, s) == Step::Next(next));
                }
            }
            pc = pc + 1;
        }
        let out = TransactionOutput { writes, deltas };
        if skip || txn.direct_write_set {
            ExecutionStatus::SkipRest(out)
        } else {
            ExecutionStatus::Success(out)
        }
    }

    fn is_transaction_dynamic_change_set_capable(txn: &Script) -> (b: bool) {
        !txn.direct_write_set
    }

    proof fn lemma_success_is_capable(txn: Script, state: State) {
        lemma_run_success(txn.instructions@, 0, fresh(), state, txn.direct_write_set);
    }
}

} // verus!
