//! A speculative parallel block-execution engine. A block of transactions
//! is applied to a versioned key-value state so that the result is the one
//! that executing the transactions one at a time, in index order, gives.
//!
//! The engine, from the leaves up:
//! - [`mvs`] and [`delayed`]: the multi-version stores, for storage
//!   locations and for delayed fields;
//! - [`state`]: the state that a block runs against, and what an output
//!   does to it;
//! - [`task`]: the contract with the executor of single transactions, and
//!   the view that an execution reads through;
//! - [`sequential`]: the sequential execution that everything is measured
//!   against;
//! - [`scheduler`] and [`validator`]: the state machine of the slots, and
//!   the check of what a slot has read;
//! - [`executor`]: the block executor, which drives the slots to their
//!   commit;
//! - [`sharding`]: the dispatcher over shards;
//! - [`vm`]: a small executor of scripts;
//! - [`vm_wrapper`]: the adapter that turns what a virtual machine came to
//!   into the status that the engine acts on.
//!
//! Around the engine stand the pieces that a node needs besides it:
//! [`ledger`] frames the exchanges with a hardware wallet, [`features`]
//! handles sets of feature flags, [`storage_error`] holds the errors of the
//! storage interface, [`file_store`] the decisions of the file store, and
//! [`headers`] the names of the headers of the node's interface.

pub mod types;
pub mod text;
pub mod mvs;
pub mod delayed;
pub mod state;
pub mod task;
pub mod sequential;
pub mod scheduler;
pub mod validator;
pub mod executor;
pub mod vm;
pub mod vm_wrapper;
pub mod sharding;
pub mod ledger;
pub mod features;
pub mod storage_error;
pub mod file_store;
pub mod headers;
