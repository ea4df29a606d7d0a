//! The scheduler: the state machine of every slot of a block, the order in
//! which slots are handed out for execution and validation, and the order
//! in which they commit.

use vstd::prelude::*;
use crate::types::{Incarnation, TxnIndex, Version};

verus! {

/// Where a slot stands.
#[derive(Clone, Copy, Debug, PartialEq, Eq, Structural)]
pub enum SlotState {
    /// Waiting to be handed out for execution.
    ReadyToExecute,
    /// Handed out for execution.
    Executing,
    /// Holds the result of its incarnation and has passed a validation;
    /// parked until its turn to commit, or until a lower slot writes again.
    Executed,
    /// Holds the result of its incarnation; waiting to be handed out for validation.
    ReadyToValidate,
    /// Handed out for validation.
    Validating,
    /// Final: the result of its incarnation is part of the block's result.
    Committed,
    /// Its incarnation is void, and it waits for a lower slot before it runs again.
    Aborted,
}

/// One slot of the block.
#[derive(Clone, Copy, Debug)]
pub struct Slot {
    pub state: SlotState,
    pub incarnation: Incarnation,
    /// The lower slot that this one waits for; set exactly in state `Aborted`.
    pub blocked_on: Option<TxnIndex>,
    /// The slot must run without speculation: only once every lower slot is committed.
    pub sequential: bool,
}

/// What a worker is asked to do next.
#[derive(Clone, Copy, Debug)]
pub enum Task {
    /// Execute this incarnation of this slot.
    Execute(Version),
    /// Validate this incarnation of this slot.
    Validate(Version),
    /// Nothing can be handed out now.
    Wait,
    /// The block has ended.
    Done,
}

/// The slot holds the result of its current incarnation.
pub open spec fn holds_result(state: SlotState) -> bool {
    state == SlotState::Executed || state == SlotState::ReadyToValidate || state
        == SlotState::Validating || state == SlotState::Committed
}

/// The incarnation after this one. It stops at the largest number.
pub open spec fn next_incarnation(incarnation: Incarnation) -> Incarnation {
    if incarnation < Incarnation::MAX {
        (incarnation + 1) as Incarnation
    } else {
        incarnation
    }
}

/// A slot that is set to run again, as its next incarnation.
pub open spec fn rerun(slot: Slot) -> Slot {
    Slot {
        state: SlotState::ReadyToExecute,
        incarnation: next_incarnation(slot.incarnation),
        blocked_on: None,
        ..slot
    }
}

/// Model of the scheduler.
pub struct Slots {
    pub slots: Seq<Slot>,
    /// Number of committed slots: the commit frontier.
    pub committed: nat,
    /// No task is handed out any more.
    pub halted: bool,
}

impl Slots {
    /// The invariant of the scheduler: the committed slots are the slots
    /// below the commit frontier; a slot waits for another exactly if it is
    /// in state `Aborted`, and then for an uncommitted slot below it; and
    /// the slot at the commit frontier is not parked.
    pub open spec fn wf(self) -> bool {
        &&& self.committed <= self.slots.len() <= TxnIndex::MAX
        &&& forall|i: int|
            0 <= i < self.slots.len() ==> ((#[trigger] self.slots[i]).state == SlotState::Committed
                <==> i < self.committed)
        &&& forall|i: int|
            0 <= i < self.slots.len() ==> ((#[trigger] self.slots[i]).state == SlotState::Aborted
                <==> self.slots[i].blocked_on.is_some())
        &&& forall|i: int|
            0 <= i < self.slots.len() && (#[trigger] self.slots[i]).blocked_on.is_some()
                ==> self.committed <= self.slots[i].blocked_on.unwrap() < i
        &&& (self.committed < self.slots.len() ==> self.slots[self.committed as int].state
            != SlotState::Executed)
    }

    /// No slot is handed out.
    pub open spec fn idle(self) -> bool {
        forall|i: int|
            0 <= i < self.slots.len() ==> (#[trigger] self.slots[i]).state != SlotState::Executing
                && self.slots[i].state != SlotState::Validating
    }

    /// After every task that was handed out and not finished was taken
    /// back: the slots wait again for what they were handed out for.
    pub open spec fn recalled(self) -> Slots {
        Slots {
            slots: Seq::new(
                self.slots.len(),
                |j: int|
                    {
                        let slot = self.slots[j];
                        if slot.state == SlotState::Executing {
                            Slot { state: SlotState::ReadyToExecute, ..slot }
                        } else if slot.state == SlotState::Validating {
                            Slot { state: SlotState::ReadyToValidate, ..slot }
                        } else {
                            slot
                        }
                    },
            ),
            ..self
        }
    }

    /// The slot can be handed out: for validation, or for execution unless
    /// it has to wait for the commit frontier.
    pub open spec fn ready(self, i: int) -> bool {
        let slot = self.slots[i];
        slot.state == SlotState::ReadyToValidate || (slot.state == SlotState::ReadyToExecute && (
        !slot.sequential || i == self.committed))
    }

    /// Slot `i` is the lowest one that can be handed out.
    pub open spec fn lowest_ready(self, i: int) -> bool {
        &&& 0 <= i < self.slots.len()
        &&& self.ready(i)
        &&& forall|j: int| 0 <= j < i ==> !self.ready(j)
    }

    /// No slot can be handed out.
    pub open spec fn none_ready(self) -> bool {
        forall|j: int| 0 <= j < self.slots.len() ==> !self.ready(j)
    }

    /// The scheduler with slot `i` replaced.
    pub open spec fn with_slot(self, i: int, slot: Slot) -> Slots {
        Slots { slots: self.slots.update(i, slot), ..self }
    }

    /// After slot `i` was handed out.
    pub open spec fn handed_out(self, i: int) -> Slots {
        let slot = self.slots[i];
        self.with_slot(
            i,
            Slot {
                state: if slot.state == SlotState::ReadyToExecute {
                    SlotState::Executing
                } else {
                    SlotState::Validating
                },
                ..slot
            },
        )
    }

    /// After the execution of slot `i` has finished with a result: the slot
    /// waits for validation, every slot that waited for it runs again, and
    /// every parked slot above it has to be validated again.
    pub open spec fn executed(self, i: int, sequential: bool) -> Slots {
        Slots {
            slots: Seq::new(
                self.slots.len(),
                |j: int|
                    {
                        let slot = self.slots[j];
                        if j == i {
                            Slot { state: SlotState::ReadyToValidate, sequential, ..slot }
                        } else if slot.blocked_on == Some(i as TxnIndex) {
                            rerun(slot)
                        } else if j > i && slot.state == SlotState::Executed {
                            Slot { state: SlotState::ReadyToValidate, ..slot }
                        } else {
                            slot
                        }
                    },
            ),
            ..self
        }
    }

    /// After the incarnation of slot `i` and of every slot above it that
    /// holds an uncommitted result was declared void.
    pub open spec fn aborted_from(self, i: int) -> Slots {
        Slots {
            slots: Seq::new(
                self.slots.len(),
                |j: int|
                    {
                        let slot = self.slots[j];
                        if j == i || (j > i && holds_result(slot.state)) {
                            rerun(slot)
                        } else {
                            slot
                        }
                    },
            ),
            ..self
        }
    }

    /// After the frontier slot was committed: the frontier moves up, every
    /// slot that waited for the committed one runs again, and the slot at
    /// the new frontier, if parked, has to be validated once more.
    pub open spec fn advanced(self) -> Slots {
        let c = self.committed as int;
        Slots {
            slots: Seq::new(
                self.slots.len(),
                |j: int|
                    {
                        let slot = self.slots[j];
                        if j == c {
                            Slot { state: SlotState::Committed, ..slot }
                        } else if slot.blocked_on == Some(c as TxnIndex) {
                            rerun(slot)
                        } else if j == c + 1 && slot.state == SlotState::Executed {
                            Slot { state: SlotState::ReadyToValidate, ..slot }
                        } else {
                            slot
                        }
                    },
            ),
            committed: self.committed + 1,
            ..self
        }
    }
}

/// A sweep over all slots.
enum Sweep {
    Executed { txn_idx: TxnIndex, sequential: bool },
    AbortedFrom { txn_idx: TxnIndex },
    Advanced { frontier: TxnIndex },
    Recalled,
}

spec fn swept(all: Slots, sweep: Sweep) -> Seq<Slot> {
    match sweep {
        Sweep::Executed { txn_idx, sequential } => all.executed(txn_idx as int, sequential).slots,
        Sweep::AbortedFrom { txn_idx } => all.aborted_from(txn_idx as int).slots,
        Sweep::Advanced { frontier } => all.advanced().slots,
        Sweep::Recalled => all.recalled().slots,
    }
}

/// The scheduler of one block.
pub struct Scheduler {
    slots: Vec<Slot>,
    committed: TxnIndex,
    halted: bool,
}

impl View for Scheduler {
    type V = Slots;

    closed spec fn view(&self) -> Slots {
        Slots { slots: self.slots@, committed: self.committed as nat, halted: self.halted }
    }
}

impl Scheduler {
    /// A scheduler for a block of `n` transactions: every slot waits for
    /// its first execution.
    pub fn new(n: TxnIndex) -> (s: Self)
        ensures
            s@.wf(),
            s@.slots.len() == n,
            s@.committed == 0,
            !s@.halted,
            forall|i: int|
                0 <= i < n ==> s@.slots[i] == (Slot {
                    state: SlotState::ReadyToExecute,
                    incarnation: 0,
                    blocked_on: None,
                    sequential: false,
                }),
    {
        let mut slots: Vec<Slot> = Vec::new();
        let mut i: TxnIndex = 0;
        while i < n
            invariant
                i <= n,
                slots.len() == i,
                forall|j: int|
                    0 <= j < i ==> slots[j] == (Slot {
                        state: SlotState::ReadyToExecute,
                        incarnation: 0,
                        blocked_on: None,
                        sequential: false,
                    }),
            decreases n - i,
        {
            slots.push(
                Slot {
                    state: SlotState::ReadyToExecute,
                    incarnation: 0,
                    blocked_on: None,
                    sequential: false,
                },
            );
            i = i + 1;
        }
        Scheduler { slots, committed: 0, halted: false }
    }

    /// Number of slots.
    pub fn len(&self) -> (n: TxnIndex)
        requires
            self@.wf(),
        ensures
            n == self@.slots.len(),
    {
        self.slots.len() as TxnIndex
    }

    /// Number of committed slots.
    pub fn committed(&self) -> (c: TxnIndex)
        ensures
            c == self@.committed,
    {
        self.committed
    }

    /// Whether the scheduler has stopped handing out tasks.
    pub fn halted(&self) -> (h: bool)
        ensures
            h == self@.halted,
    {
        self.halted
    }

    /// The slot at `txn_idx`.
    pub fn slot(&self, txn_idx: TxnIndex) -> (slot: Slot)
        requires
            txn_idx < self@.slots.len(),
        ensures
            slot == self@.slots[txn_idx as int],
    {
        self.slots[txn_idx as usize]
    }

    /// Stops the scheduler: from now on every worker is told that the block has ended.
    pub fn halt(&mut self)
        ensures
            final(self)@ == (Slots { halted: true, ..old(self)@ }),
    {
        self.halted = true;
    }

    /// Hands out the lowest-indexed slot that waits for validation or for
    /// execution. A slot is in one state at a time, so no index is ever
    /// offered for both; among slots the lower index goes first, whichever
    /// of the two it waits for.
    pub fn next_task(&mut self) -> (task: Task)
        requires
            old(self)@.wf(),
        ensures
            final(self)@.wf(),
            match task {
                Task::Execute(v) => {
                    &&& !old(self)@.halted
                    &&& old(self)@.lowest_ready(v.txn_idx as int)
                    &&& old(self)@.slots[v.txn_idx as int].state == SlotState::ReadyToExecute
                    &&& old(self)@.slots[v.txn_idx as int].incarnation == v.incarnation
                    &&& final(self)@ == old(self)@.handed_out(v.txn_idx as int)
                },
                Task::Validate(v) => {
                    &&& !old(self)@.halted
                    &&& old(self)@.lowest_ready(v.txn_idx as int)
                    &&& old(self)@.slots[v.txn_idx as int].state == SlotState::ReadyToValidate
                    &&& old(self)@.slots[v.txn_idx as int].incarnation == v.incarnation
                    &&& final(self)@ == old(self)@.handed_out(v.txn_idx as int)
                },
                Task::Wait => !old(self)@.halted && old(self)@.none_ready() && final(self)@ == old(self)@,
                Task::Done => old(self)@.halted && final(self)@ == old(self)@,
            },
    {
        if self.halted {
            return Task::Done;
        }
        let mut i: usize = 0;
        while i < self.slots.len()
            invariant
                i <= self.slots.len(),
                self@ == old(self)@,
                self@.wf(),
                !self.halted,
                forall|j: int| 0 <= j < i ==> !self@.ready(j),
            decreases self.slots.len() - i,
        {
            let slot = self.slots[i];
            let version = Version { txn_idx: i as TxnIndex, incarnation: slot.incarnation };
            match slot.state {
                SlotState::ReadyToValidate => {
                    self.slots.set(i, Slot { state: SlotState::Validating, ..slot });
                    assert(self@.slots =~= old(self)@.handed_out(i as int).slots);
                    return Task::Validate(version);
                },
                SlotState::ReadyToExecute => {
                    if !slot.sequential || i == self.committed as usize {
                        self.slots.set(i, Slot { state: SlotState::Executing, ..slot });
                        assert(self@.slots =~= old(self)@.handed_out(i as int).slots);
                        return Task::Execute(version);
                    }
                },
                _ => {},
            }
            i = i + 1;
        }
        Task::Wait
    }

    fn sweep(&mut self, sweep: Sweep)
        requires
            old(self)@.wf(),
            match sweep {
                Sweep::Executed { txn_idx, .. } => txn_idx < old(self)@.slots.len(),
                Sweep::AbortedFrom { txn_idx } => txn_idx < old(self)@.slots.len(),
                Sweep::Advanced { frontier } => frontier == old(self)@.committed && frontier < old(self)@.slots.len(),
                Sweep::Recalled => true,
            },
        ensures
            final(self)@.slots == swept(old(self)@, sweep),
            final(self)@.committed == old(self)@.committed,
            final(self)@.halted == old(self)@.halted,
    {
        let mut j: usize = 0;
        while j < self.slots.len()
            invariant
                j <= self.slots.len(),
                self.slots.len() == old(self).slots.len(),
                self.committed == old(self).committed,
                self.halted == old(self).halted,
                old(self)@.wf(),
                match sweep {
                    Sweep::Executed { txn_idx, .. } => txn_idx < old(self)@.slots.len(),
                    Sweep::AbortedFrom { txn_idx } => txn_idx < old(self)@.slots.len(),
                    Sweep::Advanced { frontier } => frontier == old(self)@.committed && frontier
                        < old(self)@.slots.len(),
                    Sweep::Recalled => true,
                },
                forall|k: int| 0 <= k < j ==> self.slots[k] == swept(old(self)@, sweep)[k],
                forall|k: int| j <= k < self.slots.len() ==> self.slots[k] == old(self).slots[k],
            decreases self.slots.len() - j,
        {
            let slot = self.slots[j];
            let again = Slot {
                state: SlotState::ReadyToExecute,
                incarnation: if slot.incarnation < Incarnation::MAX {
                    slot.incarnation + 1
                } else {
                    slot.incarnation
                },
                blocked_on: None,
                ..slot
            };
            let holds = match slot.state {
                SlotState::Executed => true,
                SlotState::ReadyToValidate => true,
                SlotState::Validating => true,
                SlotState::Committed => true,
                _ => false,
            };
            let parked = match slot.state {
                SlotState::Executed => true,
                _ => false,
            };
            let waits_for = match slot.blocked_on {
                Some(b) => b as usize,
                None => self.slots.len(),
            };
            let changed = match sweep {
                Sweep::Executed { txn_idx, sequential } => {
                    let i = txn_idx as usize;
                    if j == i {
                        Slot { state: SlotState::ReadyToValidate, sequential, ..slot }
                    } else if waits_for == i {
                        again
                    } else if j > i && parked {
                        Slot { state: SlotState::ReadyToValidate, ..slot }
                    } else {
                        slot
                    }
                },
                Sweep::AbortedFrom { txn_idx } => {
                    let i = txn_idx as usize;
                    if j == i || (j > i && holds) {
                        again
                    } else {
                        slot
                    }
                },
                Sweep::Recalled => {
                    match slot.state {
                        SlotState::Executing => Slot { state: SlotState::ReadyToExecute, ..slot },
                        SlotState::Validating => Slot { state: SlotState::ReadyToValidate, ..slot },
                        _ => slot,
                    }
                },
                Sweep::Advanced { frontier } => {
                    let c = self.committed as usize;
                    if j == c {
                        Slot { state: SlotState::Committed, ..slot }
                    } else if waits_for == c {
                        again
                    } else if j == c + 1 && parked {
                        Slot { state: SlotState::ReadyToValidate, ..slot }
                    } else {
                        slot
                    }
                },
            };
            proof {
                assert(old(self)@.slots[j as int] == slot);
                assert(again == rerun(slot));
                assert(holds == holds_result(slot.state));
                assert(changed == swept(old(self)@, sweep)[j as int]);
            }
            self.slots.set(j, changed);
            j = j + 1;
        }
        assert(self@.slots =~= swept(old(self)@, sweep));
    }

    /// Records that the execution of slot `txn_idx` has finished with a
    /// result. `sequential` says whether the slot, should it run again, must
    /// wait for the commit frontier.
    pub fn finish_execution(&mut self, txn_idx: TxnIndex, sequential: bool)
        requires
            old(self)@.wf(),
            txn_idx < old(self)@.slots.len(),
            old(self)@.slots[txn_idx as int].state == SlotState::Executing,
        ensures
            final(self)@.wf(),
            final(self)@ == old(self)@.executed(txn_idx as int, sequential),
    {
        self.sweep(Sweep::Executed { txn_idx, sequential });
    }

    /// Suspends slot `txn_idx`, whose execution ran into the unresolved
    /// write of the lower slot `blocker`: it waits until that slot has
    /// executed or committed, and then runs again. If `blocker` holds a
    /// result by now, the slot is set to run again at once. Returns whether
    /// the slot waits.
    pub fn suspend(&mut self, txn_idx: TxnIndex, blocker: TxnIndex) -> (waits: bool)
        requires
            old(self)@.wf(),
            txn_idx < old(self)@.slots.len(),
            blocker < txn_idx,
            old(self)@.slots[txn_idx as int].state == SlotState::Executing,
        ensures
            final(self)@.wf(),
            waits == !holds_result(old(self)@.slots[blocker as int].state),
            final(self)@ == old(self)@.with_slot(
                txn_idx as int,
                if waits {
                    Slot {
                        state: SlotState::Aborted,
                        blocked_on: Some(blocker),
                        ..old(self)@.slots[txn_idx as int]
                    }
                } else {
                    rerun(old(self)@.slots[txn_idx as int])
                },
            ),
    {
        let slot = self.slots[txn_idx as usize];
        let waits = match self.slots[blocker as usize].state {
            SlotState::Executed => false,
            SlotState::ReadyToValidate => false,
            SlotState::Validating => false,
            SlotState::Committed => false,
            _ => true,
        };
        if waits {
            self.slots.set(
                txn_idx as usize,
                Slot { state: SlotState::Aborted, blocked_on: Some(blocker), ..slot },
            );
        } else {
            self.slots.set(
                txn_idx as usize,
                Slot {
                    state: SlotState::ReadyToExecute,
                    incarnation: if slot.incarnation < Incarnation::MAX {
                        slot.incarnation + 1
                    } else {
                        slot.incarnation
                    },
                    blocked_on: None,
                    ..slot
                },
            );
        }
        waits
    }

    /// Declares void the incarnation of slot `txn_idx` and of every slot
    /// above it that holds an uncommitted result: each of them runs again,
    /// as its next incarnation.
    pub fn abort_from(&mut self, txn_idx: TxnIndex)
        requires
            old(self)@.wf(),
            old(self)@.committed <= txn_idx < old(self)@.slots.len(),
            old(self)@.slots[txn_idx as int].state == SlotState::Validating
                || old(self)@.slots[txn_idx as int].state == SlotState::Executing,
        ensures
            final(self)@.wf(),
            final(self)@ == old(self)@.aborted_from(txn_idx as int),
    {
        self.sweep(Sweep::AbortedFrom { txn_idx });
    }

    /// Takes back every task that was handed out and not finished.
    pub fn recall(&mut self)
        requires
            old(self)@.wf(),
        ensures
            final(self)@.wf(),
            final(self)@.idle(),
            final(self)@ == old(self)@.recalled(),
    {
        self.sweep(Sweep::Recalled);
    }

    /// Parks slot `txn_idx`, whose validation passed while lower slots are
    /// not all committed.
    pub fn park(&mut self, txn_idx: TxnIndex)
        requires
            old(self)@.wf(),
            old(self)@.committed < txn_idx < old(self)@.slots.len(),
            old(self)@.slots[txn_idx as int].state == SlotState::Validating,
        ensures
            final(self)@.wf(),
            final(self)@ == old(self)@.with_slot(
                txn_idx as int,
                Slot { state: SlotState::Executed, ..old(self)@.slots[txn_idx as int] },
            ),
    {
        let slot = self.slots[txn_idx as usize];
        self.slots.set(txn_idx as usize, Slot { state: SlotState::Executed, ..slot });
    }

    /// Commits the slot at the commit frontier, whose validation passed.
    pub fn commit(&mut self)
        requires
            old(self)@.wf(),
            old(self)@.committed < old(self)@.slots.len(),
            old(self)@.slots[old(self)@.committed as int].state == SlotState::Validating,
        ensures
            final(self)@.wf(),
            final(self)@ == old(self)@.advanced(),
    {
        self.sweep(Sweep::Advanced { frontier: self.committed });
        self.committed = self.committed + 1;
    }
}

/// Mutual exclusion: a slot that is handed out, for execution or for
/// validation, is not handed out again until that task is finished or
/// taken back. So at most one worker works on a slot at any time.
pub proof fn lemma_handed_out_once(s: Slots, i: int)
    requires
        0 <= i < s.slots.len(),
        s.slots[i].state == SlotState::Executing || s.slots[i].state == SlotState::Validating,
    ensures
        !s.ready(i),
        !s.lowest_ready(i),
{
}

/// Commit monotonicity: whenever a slot is committed, every slot below it is.
pub proof fn lemma_commit_is_monotone(s: Slots, i: int, j: int)
    requires
        s.wf(),
        0 <= j < i < s.slots.len(),
        s.slots[i].state == SlotState::Committed,
    ensures
        s.slots[j].state == SlotState::Committed,
{
}

} // verus!
