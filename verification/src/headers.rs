//! The names of the headers that the node's interface answers with.

use vstd::prelude::*;

verus! {

/// Chain ID of the current chain
pub const X_LUMIO_CHAIN_ID: &'static str = "X-Lumio-Chain-Id";

/// Current epoch of the chain
pub const X_LUMIO_EPOCH: &'static str = "X-Lumio-Epoch";

/// Current ledger version of the chain
pub const X_LUMIO_LEDGER_VERSION: &'static str = "X-Lumio-Ledger-Version";

/// Oldest non-pruned ledger version of the chain
pub const X_LUMIO_LEDGER_OLDEST_VERSION: &'static str = "X-Lumio-Ledger-Oldest-Version";

/// Current block height of the chain
pub const X_LUMIO_BLOCK_HEIGHT: &'static str = "X-Lumio-Block-Height";

/// Oldest non-pruned block height of the chain
pub const X_LUMIO_OLDEST_BLOCK_HEIGHT: &'static str = "X-Lumio-Oldest-Block-Height";

/// Current timestamp of the chain
pub const X_LUMIO_LEDGER_TIMESTAMP: &'static str = "X-Lumio-Ledger-TimestampUsec";

/// Cursor used for pagination.
pub const X_LUMIO_CURSOR: &'static str = "X-Lumio-Cursor";

/// The cost of the call in terms of gas. Only applicable to calls that result in
/// function execution in the VM, e.g. view functions, txn simulation.
pub const X_LUMIO_GAS_USED: &'static str = "X-Lumio-Gas-Used";

/// Provided by the client to identify what client it is.
pub const X_LUMIO_CLIENT: &'static str = "x-lumio-client";

} // verus!
