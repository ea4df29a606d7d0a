//! Identifiers shared by every component of the execution engine.

use vstd::prelude::*;

verus! {

/// Dense, zero-based position of a transaction within its block.
pub type TxnIndex = u32;

/// Number of the execution attempt of one slot; grows by one on every re-execution.
pub type Incarnation = u32;

/// Opaque identifier of a storage location.
pub type StateKey = u64;

/// Content of a storage location.
pub type Value = u64;

/// Identifier of a delayed field (aggregator).
pub type DelayedFieldId = u64;

/// One speculative execution attempt: the slot and its incarnation.
#[derive(Clone, Copy, Debug, PartialEq, Eq, Structural)]
pub struct Version {
    pub txn_idx: TxnIndex,
    pub incarnation: Incarnation,
}

} // verus!
