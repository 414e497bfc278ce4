//! Bounds the disk footprint of an append-only, slot-indexed ledger store.
//!
//! The store keeps one metadata record per slot, counting the `received`
//! shreds of that slot as a proxy for its byte volume.  Once the aggregate
//! shred count crosses a configured cap, the cleanup cycle computes the
//! oldest slot boundary to purge (FIFO by slot) and removes the contiguous
//! prefix of slots up to and including that boundary.
//!
//! The cycle is driven by an asynchronous feed of "new root" notifications,
//! drained through `crossbeam_channel` and coalesced to the freshest value.

use vstd::prelude::*;

pub mod cleanup;
pub mod laws;
pub mod ledger;
pub mod metrics;
pub mod roots;

verus! {

/// Identifier of a ledger segment; slots increase monotonically.
pub type Slot = u64;

/// Default cap on the total live shred count before a purge triggers.
pub const DEFAULT_MAX_LEDGER_SHREDS: u64 = 200_000_000;

/// Advertised floor for the configurable shred cap.
pub const DEFAULT_MIN_MAX_LEDGER_SHREDS: u64 = 50_000_000;

/// Default minimum root advance, in slots, between two purge triggers.
pub const DEFAULT_PURGE_SLOT_INTERVAL: u64 = 512;

} // verus!
