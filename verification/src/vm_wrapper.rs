//! The adapter between a virtual machine and the engine: how what the
//! machine came to on one transaction becomes the status that the engine
//! acts on, and which transactions do not go through the machine's general
//! path at all.

use vstd::prelude::*;
use crate::state::{OutputView, TransactionOutput};
use crate::task::{ExecutionStatus, StatusCode, StatusView, VmStatus, VmStatusView};

verus! {

/// What a run of the virtual machine on one transaction came to.
#[derive(Debug)]
pub enum VmResult {
    /// The machine ran the transaction through.
    Completed {
        /// The status that the machine reports.
        status: VmStatus,
        /// The output of the transaction.
        output: TransactionOutput,
        /// The events of the output ask for a new epoch to begin.
        restart: bool,
    },
    /// A transaction that must never fail did.
    Failed(VmStatus),
}

/// Model of a [`VmResult`].
pub enum VmResultView {
    Completed { status: VmStatusView, output: OutputView, restart: bool },
    Failed(VmStatusView),
}

impl View for VmResult {
    type V = VmResultView;

    open spec fn view(&self) -> VmResultView {
        match self {
            VmResult::Completed { status, output, restart } => VmResultView::Completed {
                status: status@,
                output: output@,
                restart: *restart,
            },
            VmResult::Failed(status) => VmResultView::Failed(status@),
        }
    }
}

impl VmResultView {
    /// The result is a success that does not end the block.
    pub open spec fn plain_success(self) -> bool {
        match self {
            VmResultView::Completed { status, restart, .. } => status.status_code
                != StatusCode::SpeculativeExecutionAbortError && status.status_code
                != StatusCode::DelayedFieldOrBlockStmCodeInvariantError && !restart,
            VmResultView::Failed(_) => false,
        }
    }

    /// The status of the execution that the result stands for.
    pub open spec fn execution_status(self) -> StatusView {
        match self {
            VmResultView::Completed { status, output, restart } => if status.status_code
                == StatusCode::SpeculativeExecutionAbortError {
                StatusView::SpeculativeExecutionAbortError(status.message_or_empty())
            } else if status.status_code == StatusCode::DelayedFieldOrBlockStmCodeInvariantError {
                StatusView::DelayedFieldsCodeInvariantError(status.message_or_empty())
            } else if restart {
                StatusView::SkipRest(output)
            } else {
                StatusView::Success(output)
            },
            VmResultView::Failed(status) => if status.status_code
                == StatusCode::SpeculativeExecutionAbortError {
                StatusView::SpeculativeExecutionAbortError(status.message_or_empty())
            } else if status.status_code == StatusCode::DelayedFieldOrBlockStmCodeInvariantError {
                StatusView::DelayedFieldsCodeInvariantError(status.message_or_empty())
            } else {
                StatusView::Abort(status)
            },
        }
    }
}

/// Whether a transaction can have its change set resolved after
/// execution: every transaction can, but a valid genesis transaction that
/// carries a ready-made write set.
pub fn is_dynamic_change_set_capable(valid: bool, genesis_with_direct_write_set: bool) -> (b: bool)
    ensures
        b == !(valid && genesis_with_direct_write_set),
{
    !(valid && genesis_with_direct_write_set)
}

/// Turns what the virtual machine came to into the status that the engine
/// acts on. A status code of speculative abort or of a broken invariant
/// decides, whether the machine ran through or failed; its message, or the
/// empty text, goes along. Otherwise a run that asks for a new epoch ends
/// the block, any other run is a success, and a failure is an abort with
/// the status of the machine. A success that does not end the block must
/// come from a transaction whose change set can be resolved after
/// execution: `capable` says whether it can.
pub fn execution_status(result: VmResult, capable: bool) -> (status: ExecutionStatus)
    requires
        result@.plain_success() ==> capable,
    ensures
        status@ == result@.execution_status(),
{
    match result {
        VmResult::Completed { status, output, restart } => {
            match status.status_code {
                StatusCode::SpeculativeExecutionAbortError => {
                    ExecutionStatus::SpeculativeExecutionAbortError(status.message_or_default())
                },
                StatusCode::DelayedFieldOrBlockStmCodeInvariantError => {
                    ExecutionStatus::DelayedFieldsCodeInvariantError(status.message_or_default())
                },
                StatusCode::Other(_) => {
                    if restart {
                        ExecutionStatus::SkipRest(output)
                    } else {
                        ExecutionStatus::Success(output)
                    }
                },
            }
        },
        VmResult::Failed(err) => {
            match err.status_code {
                StatusCode::SpeculativeExecutionAbortError => {
                    ExecutionStatus::SpeculativeExecutionAbortError(err.message_or_default())
                },
                StatusCode::DelayedFieldOrBlockStmCodeInvariantError => {
                    ExecutionStatus::DelayedFieldsCodeInvariantError(err.message_or_default())
                },
                StatusCode::Other(_) => ExecutionStatus::Abort(err),
            }
        },
    }
}

/// A transaction that the validators themselves put into a block.
#[derive(Clone, Copy, Debug, PartialEq, Eq, Structural)]
pub enum ValidatorTransaction {
    /// The result of a distributed key generation.
    DkgResult,
    /// An update of the keys of an identity provider that the validators observed.
    ObservedJwkUpdate,
}

/// The handler that processes a validator transaction.
#[derive(Clone, Copy, Debug, PartialEq, Eq, Structural)]
pub enum ValidatorHandler {
    DkgResult,
    JwkUpdate,
}

/// Routes a validator transaction to its handler: each kind has its own,
/// and none goes through the general execution of transactions.
pub fn process_validator_transaction(txn: ValidatorTransaction) -> (handler: ValidatorHandler)
    ensures
        handler == match txn {
            ValidatorTransaction::DkgResult => ValidatorHandler::DkgResult,
            ValidatorTransaction::ObservedJwkUpdate => ValidatorHandler::JwkUpdate,
        },
{
    match txn {
        ValidatorTransaction::DkgResult => ValidatorHandler::DkgResult,
        ValidatorTransaction::ObservedJwkUpdate => ValidatorHandler::JwkUpdate,
    }
}

} // verus!
