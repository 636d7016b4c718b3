//! The consensus state that the tasks of a round-based, stake-weighted
//! validator node share, and the lifecycle of the node.
//!
//! - [`committee`]: the validators, their stake, and the quorum and
//!   availability thresholds.
//! - [`batches`]: the sealed batches of each round and their certificates.
//! - [`peers`]: the peer table, kept in both directions.
//! - [`shared`]: the three of them with the round and the height, each behind
//!   its own guard, for any number of tasks at once.
//! - [`status`] and [`node`]: the status of the node, the rule by which it
//!   changes, and the registry of background tasks that a shutdown drains.
//! - [`address`], [`assoc`] and [`error`]: the keys, the map and the failures
//!   that the others are made of.

pub mod address;
pub mod assoc;
pub mod batches;
pub mod committee;
pub mod error;
pub mod node;
pub mod peers;
pub mod shared;
pub mod status;
mod sync;
