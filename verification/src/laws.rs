//! The governing properties of the cleanup cycle, stated and proved over
//! the same spec functions the executable contracts use.

use vstd::prelude::*;

use crate::Slot;
use crate::cleanup::boundary_index;
use crate::cleanup::boundary_slot;
use crate::cleanup::gate_passes;
use crate::cleanup::lemma_boundary_index_props;
use crate::cleanup::next_boundary_marker;
use crate::cleanup::next_entries;
use crate::cleanup::next_last_purge_slot;
use crate::cleanup::purge_boundary;
use crate::cleanup::should_purge;
use crate::cleanup::scanned;
use crate::cleanup::suffix_sum;
use crate::cleanup::sum_received;
use crate::ledger::SlotMeta;
use crate::ledger::lemma_purge_filter_elements;

verus! {

/// While the cumulative shred count of the scan stays below the cap, a
/// cycle purges nothing: the evaluation reports no purge, and the metadata
/// records and both boundary markers come through unchanged.
pub proof fn lemma_below_cap_is_noop(
    s: Seq<SlotMeta>,
    root: Slot,
    last_purge_slot: Slot,
    purge_interval: u64,
    max: u64,
    marker: Slot,
)
    requires
        sum_received(scanned(s, root)) < max,
    ensures
        !should_purge(s, root, max),
        next_entries(s, root, last_purge_slot, purge_interval, max) == s,
        next_boundary_marker(s, root, last_purge_slot, purge_interval, max, marker) == marker,
{
}

/// The purge boundary is exactly where the newest-first running sum first
/// exceeds the cap: above the boundary index the running sum never exceeds
/// the cap, at the boundary index it does whenever it does anywhere, and
/// when it exceeds nowhere the boundary falls back to the oldest scanned
/// record.
pub proof fn lemma_boundary_characterization(t: Seq<SlotMeta>, max: u64)
    requires
        t.len() > 0,
    ensures
        ({
            let b = boundary_index(t, max, t.len() - 1);
            &&& 0 <= b < t.len()
            &&& boundary_slot(t, max) == t[b].slot
            &&& forall|k: int| b < k < t.len() ==> #[trigger] suffix_sum(t, k) <= max
            &&& (exists|k: int| 0 <= k < t.len() && #[trigger] suffix_sum(t, k) > max)
                ==> suffix_sum(t, b) > max
            &&& (forall|k: int| 0 <= k < t.len() ==> #[trigger] suffix_sum(t, k) <= max) ==> b == 0
        }),
{
    let b = boundary_index(t, max, t.len() - 1);
    lemma_boundary_index_props(t, max, t.len() - 1);
    if exists|k: int| 0 <= k < t.len() && #[trigger] suffix_sum(t, k) > max {
        let k = choose|k: int| 0 <= k < t.len() && #[trigger] suffix_sum(t, k) > max;
        if b == 0 {
            assert(k == b);
        }
    }
}

/// Two cycles against the same root: whatever the first did, the second is
/// a complete no-op — the interval gate never admits one root twice.
pub proof fn lemma_repeated_root_second_cycle_noop(
    s: Seq<SlotMeta>,
    root: Slot,
    last_purge_slot: Slot,
    purge_interval: u64,
    max: u64,
    marker: Slot,
)
    ensures
        ({
            let last1 = next_last_purge_slot(root, last_purge_slot, purge_interval);
            let s1 = next_entries(s, root, last_purge_slot, purge_interval, max);
            &&& !gate_passes(root, last1, purge_interval)
            &&& next_last_purge_slot(root, last1, purge_interval) == last1
            &&& next_entries(s1, root, last1, purge_interval, max) == s1
            &&& next_boundary_marker(s1, root, last1, purge_interval, max, marker) == marker
        }),
{
}

/// A second cycle whose root lies within `purge_interval` of the mark the
/// first cycle left behind is gated into a complete no-op.
pub proof fn lemma_second_cycle_within_interval_noop(
    s: Seq<SlotMeta>,
    root1: Slot,
    root2: Slot,
    last_purge_slot: Slot,
    purge_interval: u64,
    max: u64,
    marker: Slot,
)
    requires
        root2 <= next_last_purge_slot(root1, last_purge_slot, purge_interval) + purge_interval,
    ensures
        ({
            let last1 = next_last_purge_slot(root1, last_purge_slot, purge_interval);
            let s1 = next_entries(s, root1, last_purge_slot, purge_interval, max);
            &&& !gate_passes(root2, last1, purge_interval)
            &&& next_last_purge_slot(root2, last1, purge_interval) == last1
            &&& next_entries(s1, root2, last1, purge_interval, max) == s1
            &&& next_boundary_marker(s1, root2, last1, purge_interval, max, marker) == marker
        }),
{
}

/// One cycle never lowers the last-purge mark.
pub proof fn lemma_last_purge_slot_monotonic(root: Slot, last_purge_slot: Slot, purge_interval: u64)
    ensures
        next_last_purge_slot(root, last_purge_slot, purge_interval) >= last_purge_slot,
{
}

/// The last-purge mark after a whole sequence of cycles, one per received
/// root.
pub open spec fn last_purge_slot_after(roots: Seq<Slot>, last_purge_slot: Slot, purge_interval: u64) -> Slot
    decreases roots.len(),
{
    if roots.len() == 0 {
        last_purge_slot
    } else {
        last_purge_slot_after(
            roots.drop_first(),
            next_last_purge_slot(roots[0], last_purge_slot, purge_interval),
            purge_interval,
        )
    }
}

/// Across any sequence of cycles, whatever roots arrive, the last-purge
/// mark never decreases.
pub proof fn lemma_last_purge_slot_monotonic_over_cycles(
    roots: Seq<Slot>,
    last_purge_slot: Slot,
    purge_interval: u64,
)
    ensures
        last_purge_slot_after(roots, last_purge_slot, purge_interval) >= last_purge_slot,
    decreases roots.len(),
{
    if roots.len() > 0 {
        lemma_last_purge_slot_monotonic_over_cycles(
            roots.drop_first(),
            next_last_purge_slot(roots[0], last_purge_slot, purge_interval),
            purge_interval,
        );
    }
}

/// After a cycle that purged, no metadata record at or below the computed
/// boundary remains visible: every surviving record's slot strictly exceeds
/// the boundary.
pub proof fn lemma_no_purged_slot_visible(
    s: Seq<SlotMeta>,
    root: Slot,
    last_purge_slot: Slot,
    purge_interval: u64,
    max: u64,
)
    requires
        gate_passes(root, last_purge_slot, purge_interval),
        should_purge(s, root, max),
    ensures
        forall|a: int|
            0 <= a < next_entries(s, root, last_purge_slot, purge_interval, max).len()
                ==> #[trigger] next_entries(s, root, last_purge_slot, purge_interval, max)[a].slot
                    > purge_boundary(s, root, max),
{
    lemma_purge_filter_elements(s, 0, purge_boundary(s, root, max));
}

} // verus!
