//! The retention evaluator and the purge cycle.
//!
//! A cycle takes the freshest root, checks the interval gate, scans slot
//! metadata from genesis to decide whether the shred cap is exceeded, and if
//! so purges the contiguous prefix of slots up to a boundary chosen so that
//! the newest slots totalling roughly the cap survive (FIFO retention).

use vstd::prelude::*;

use crate::Slot;
use crate::ledger::Ledger;
use crate::ledger::SlotMeta;
use crate::ledger::purge_filter;
use crate::roots::RecvTimeoutError;
use crate::roots::receive_new_roots;
use crossbeam_channel::Receiver;

verus! {

/// Total `received` shred count over a run of metadata records.
pub open spec fn sum_received(s: Seq<SlotMeta>) -> int
    decreases s.len(),
{
    if s.len() == 0 {
        0
    } else {
        s[0].received + sum_received(s.drop_first())
    }
}

/// How many leading records a scan from genesis visits: every record up to
/// and including the first whose slot strictly exceeds `root`, which ends
/// the scan.
pub open spec fn scan_count(s: Seq<SlotMeta>, root: Slot) -> int
    decreases s.len(),
{
    if s.len() == 0 {
        0
    } else if s[0].slot > root {
        1
    } else {
        1 + scan_count(s.drop_first(), root)
    }
}

/// The prefix of records a scan from genesis visits.
pub open spec fn scanned(s: Seq<SlotMeta>, root: Slot) -> Seq<SlotMeta> {
    s.take(scan_count(s, root))
}

/// Shred count over the records from index `j` to the end: the newest-first
/// running sum, read at index `j`.
pub open spec fn suffix_sum(t: Seq<SlotMeta>, j: int) -> int {
    sum_received(t.skip(j))
}

/// The index the newest-first walk stops at: the largest index at or below
/// `m` whose suffix sum strictly exceeds `max`, or 0 if none does.
pub open spec fn boundary_index(t: Seq<SlotMeta>, max: u64, m: int) -> int
    decreases m,
{
    if m <= 0 {
        0
    } else if suffix_sum(t, m) > max {
        m
    } else {
        boundary_index(t, max, m - 1)
    }
}

/// The purge boundary over a non-empty scan: everything at or below this
/// slot, the boundary slot itself included, is purged.
pub open spec fn boundary_slot(t: Seq<SlotMeta>, max: u64) -> Slot
    recommends
        t.len() > 0,
{
    t[boundary_index(t, max, t.len() - 1)].slot
}

/// A purge may trigger only when the root has advanced strictly more than
/// `purge_interval` slots past the last purge trigger.
pub open spec fn gate_passes(root: Slot, last_purge_slot: Slot, purge_interval: u64) -> bool {
    root > last_purge_slot && root - last_purge_slot > purge_interval
}

/// The last-purge mark after a cycle: the interval gate alone controls it.
pub open spec fn next_last_purge_slot(root: Slot, last_purge_slot: Slot, purge_interval: u64) -> Slot {
    if gate_passes(root, last_purge_slot, purge_interval) {
        root
    } else {
        last_purge_slot
    }
}

/// The scan decides to purge exactly when it visited at least one record and
/// the accumulated shred count has reached the cap.
pub open spec fn should_purge(s: Seq<SlotMeta>, root: Slot, max: u64) -> bool {
    scanned(s, root).len() > 0 && sum_received(scanned(s, root)) >= max
}

/// The boundary a deciding scan computes.
pub open spec fn purge_boundary(s: Seq<SlotMeta>, root: Slot, max: u64) -> Slot {
    boundary_slot(scanned(s, root), max)
}

/// The metadata records after one cycle against root `root`.
pub open spec fn next_entries(
    s: Seq<SlotMeta>,
    root: Slot,
    last_purge_slot: Slot,
    purge_interval: u64,
    max: u64,
) -> Seq<SlotMeta> {
    if gate_passes(root, last_purge_slot, purge_interval) && should_purge(s, root, max) {
        purge_filter(s, 0, purge_boundary(s, root, max))
    } else {
        s
    }
}

/// A boundary marker (low-water mark or expiry-visibility marker) after one
/// cycle: advanced to the computed boundary by a purge, else untouched.
pub open spec fn next_boundary_marker(
    s: Seq<SlotMeta>,
    root: Slot,
    last_purge_slot: Slot,
    purge_interval: u64,
    max: u64,
    current: Slot,
) -> Slot {
    if gate_passes(root, last_purge_slot, purge_interval) && should_purge(s, root, max) {
        purge_boundary(s, root, max)
    } else {
        current
    }
}

pub proof fn lemma_sum_received_nonneg(s: Seq<SlotMeta>)
    ensures
        sum_received(s) >= 0,
    decreases s.len(),
{
    if s.len() > 0 {
        lemma_sum_received_nonneg(s.drop_first());
    }
}

pub proof fn lemma_sum_received_push(s: Seq<SlotMeta>, m: SlotMeta)
    ensures
        sum_received(s.push(m)) == sum_received(s) + m.received,
    decreases s.len(),
{
    if s.len() == 0 {
        assert(s.push(m)[0] == m);
        assert(s.push(m).drop_first() =~= Seq::<SlotMeta>::empty());
        assert(sum_received(s.push(m)) == m.received + sum_received(s.push(m).drop_first()));
    } else {
        assert(s.push(m)[0] == s[0]);
        assert(s.push(m).drop_first() =~= s.drop_first().push(m));
        lemma_sum_received_push(s.drop_first(), m);
    }
}

/// The shred count of a prefix never exceeds that of the whole run.
pub proof fn lemma_sum_take_le(s: Seq<SlotMeta>, n: int)
    requires
        0 <= n <= s.len(),
    ensures
        sum_received(s.take(n)) <= sum_received(s),
    decreases s.len() - n,
{
    if n == s.len() {
        assert(s.take(n) =~= s);
    } else {
        assert(s.take(n + 1) =~= s.take(n).push(s[n]));
        lemma_sum_received_push(s.take(n), s[n]);
        lemma_sum_take_le(s, n + 1);
    }
}

pub proof fn lemma_suffix_sum_step(t: Seq<SlotMeta>, j: int)
    requires
        0 <= j < t.len(),
    ensures
        suffix_sum(t, j) == t[j].received + suffix_sum(t, j + 1),
{
    assert(t.skip(j).drop_first() =~= t.skip(j + 1));
    assert(t.skip(j)[0] == t[j]);
}

pub proof fn lemma_suffix_sum_bounds(t: Seq<SlotMeta>, j: int)
    requires
        0 <= j <= t.len(),
    ensures
        0 <= suffix_sum(t, j) <= sum_received(t),
    decreases j,
{
    lemma_sum_received_nonneg(t.skip(j));
    if j == 0 {
        assert(t.skip(0) =~= t);
    } else {
        lemma_suffix_sum_step(t, j - 1);
        lemma_suffix_sum_bounds(t, j - 1);
    }
}

/// A prefix length that stops exactly where the scan stops is the scan count.
pub proof fn lemma_scan_count_eq(s: Seq<SlotMeta>, root: Slot, n: int)
    requires
        0 <= n <= s.len(),
        forall|k: int| 0 <= k < n - 1 ==> #[trigger] s[k].slot <= root,
        n < s.len() ==> n >= 1 && s[n - 1].slot > root,
        n == 0 ==> s.len() == 0,
    ensures
        scan_count(s, root) == n,
    decreases s.len(),
{
    if s.len() == 0 {
    } else if s[0].slot > root {
        if n >= 2 {
            assert(s[0].slot <= root);
        }
    } else {
        if n >= 2 {
            let s1 = s.drop_first();
            assert forall|k: int| 0 <= k < n - 2 implies #[trigger] s1[k].slot <= root by {
                assert(s[k + 1].slot <= root);
            }
            lemma_scan_count_eq(s1, root, n - 1);
        } else {
            assert(n == 1);
            assert(s.len() == 1);
            assert(scan_count(s.drop_first(), root) == 0);
        }
    }
}

pub proof fn lemma_boundary_index_props(t: Seq<SlotMeta>, max: u64, m: int)
    requires
        0 <= m < t.len(),
    ensures
        0 <= boundary_index(t, max, m) <= m,
        boundary_index(t, max, m) > 0 ==> suffix_sum(t, boundary_index(t, max, m)) > max,
        forall|k: int| boundary_index(t, max, m) < k <= m ==> #[trigger] suffix_sum(t, k) <= max,
    decreases m,
{
    if m <= 0 {
    } else if suffix_sum(t, m) > max {
    } else {
        lemma_boundary_index_props(t, max, m - 1);
    }
}

/// An index where the newest-first running sum first exceeds the cap is the
/// boundary index.
pub proof fn lemma_boundary_index_eq_from(t: Seq<SlotMeta>, max: u64, j: int, m: int)
    requires
        0 <= j <= m < t.len(),
        suffix_sum(t, j) > max,
        forall|k: int| j < k <= m ==> #[trigger] suffix_sum(t, k) <= max,
    ensures
        boundary_index(t, max, m) == j,
    decreases m - j,
{
    if m > j {
        assert(suffix_sum(t, m) <= max);
        lemma_boundary_index_eq_from(t, max, j, m - 1);
    }
}

/// Decides whether a cycle passes the interval gate.
pub fn should_run_purge(root: Slot, last_purge_slot: Slot, purge_interval: u64) -> (r: bool)
    ensures
        r == gate_passes(root, last_purge_slot, purge_interval),
{
    root > last_purge_slot && root - last_purge_slot > purge_interval
}

/// Scans slot metadata ascending from genesis, stopping once a slot strictly
/// exceeds `root`, and decides whether to purge.
///
/// Returns `(slots_to_clean, lowest_cleanup_slot, total_shreds)`:
/// - `slots_to_clean`: whether the accumulated shred count reached the cap
///   (an empty scan never purges);
/// - `lowest_cleanup_slot`: the purge boundary — the slot where the
///   newest-first running sum first exceeds the cap, or the oldest scanned
///   slot when the sum never strictly exceeds it; 0 when there is nothing to
///   clean, and then to be ignored;
/// - `total_shreds`: the accumulated shred count of the scan.
pub fn find_slots_to_clean(blockstore: &Ledger, root: Slot, max_ledger_shreds: u64) -> (r: (
    bool,
    Slot,
    u64,
))
    requires
        blockstore.wf(),
        sum_received(blockstore@) <= u64::MAX,
    ensures
        ({
            let t = scanned(blockstore@, root);
            let total = sum_received(t);
            &&& r.2 == total
            &&& r.0 == (t.len() > 0 && total >= max_ledger_shreds)
            &&& !r.0 ==> r.1 == 0
            &&& r.0 ==> r.1 == boundary_slot(t, max_ledger_shreds)
        }),
{
    let entries = blockstore.slot_metas();
    let ghost s = blockstore@;
    let mut total_slots: Vec<SlotMeta> = Vec::new();
    let mut total_shreds: u64 = 0;
    let mut i: usize = 0;
    loop
        invariant_except_break
            forall|k: int| 0 <= k < i as int ==> #[trigger] s[k].slot <= root,
        invariant
            entries@ == s,
            sum_received(s) <= u64::MAX,
            0 <= i as int <= s.len(),
            total_slots@ == s.take(i as int),
            total_shreds == sum_received(s.take(i as int)),
        ensures
            total_slots@ == scanned(s, root),
            total_shreds == sum_received(scanned(s, root)),
        decreases s.len() - i,
    {
        if i >= entries.len() {
            proof {
                lemma_scan_count_eq(s, root, i as int);
                assert(total_slots@ =~= scanned(s, root));
            }
            break;
        }
        let m = entries[i];
        proof {
            assert(s.take(i as int + 1) =~= s.take(i as int).push(s[i as int]));
            lemma_sum_received_push(s.take(i as int), s[i as int]);
            lemma_sum_take_le(s, i as int + 1);
            lemma_sum_received_nonneg(s.take(i as int));
        }
        total_shreds = total_shreds + m.received;
        total_slots.push(m);
        i = i + 1;
        if m.slot > root {
            proof {
                lemma_scan_count_eq(s, root, i as int);
                assert(total_slots@ =~= scanned(s, root));
            }
            break;
        }
    }
    if total_slots.len() == 0 || total_shreds < max_ledger_shreds {
        return (false, 0, total_shreds);
    }
    let ghost t = total_slots@;
    let mut num_shreds_to_clean: u64 = 0;
    let mut lowest_cleanup_slot: Slot = total_slots[0].slot;
    let mut j: usize = total_slots.len();
    proof {
        assert(t.skip(t.len() as int) =~= Seq::<SlotMeta>::empty());
    }
    loop
        invariant_except_break
            forall|k: int| j as int <= k < t.len() ==> #[trigger] suffix_sum(t, k) <= max_ledger_shreds,
            lowest_cleanup_slot == t[0].slot,
        invariant
            total_slots@ == t,
            t.len() > 0,
            sum_received(t) <= u64::MAX,
            0 <= j as int <= t.len(),
            num_shreds_to_clean == suffix_sum(t, j as int),
        ensures
            lowest_cleanup_slot == boundary_slot(t, max_ledger_shreds),
        decreases j,
    {
        if j == 0 {
            proof {
                lemma_boundary_index_props(t, max_ledger_shreds, t.len() - 1);
            }
            break;
        }
        j = j - 1;
        proof {
            lemma_suffix_sum_step(t, j as int);
            lemma_suffix_sum_bounds(t, j as int);
            lemma_suffix_sum_bounds(t, j as int + 1);
        }
        num_shreds_to_clean = num_shreds_to_clean + total_slots[j].received;
        if num_shreds_to_clean > max_ledger_shreds {
            lowest_cleanup_slot = total_slots[j].slot;
            proof {
                lemma_boundary_index_eq_from(t, max_ledger_shreds, j as int, t.len() - 1);
            }
            break;
        }
    }
    (true, lowest_cleanup_slot, total_shreds)
}

/// Runs one cleanup cycle against an already-received root: interval gate,
/// retention evaluation, and — when the cap is crossed — the purge, with
/// the low-water mark advanced before the bulk purge and the
/// expiry-visibility marker advanced only after it returns.
///
/// `last_purge_slot` advances to `root` whenever the interval gate admits the root, whether or
/// not anything is purged: the interval gate alone controls that update.
pub fn run_cleanup_cycle(
    root: Slot,
    blockstore: &mut Ledger,
    max_ledger_shreds: u64,
    last_purge_slot: &mut Slot,
    purge_interval: u64,
)
    requires
        old(blockstore).wf(),
        sum_received(old(blockstore)@) <= u64::MAX,
    ensures
        final(blockstore).wf(),
        *final(last_purge_slot) == next_last_purge_slot(root, *old(last_purge_slot), purge_interval),
        final(blockstore)@ == next_entries(
            old(blockstore)@,
            root,
            *old(last_purge_slot),
            purge_interval,
            max_ledger_shreds,
        ),
        final(blockstore).spec_lowest_cleanup_slot() == next_boundary_marker(
            old(blockstore)@,
            root,
            *old(last_purge_slot),
            purge_interval,
            max_ledger_shreds,
            old(blockstore).spec_lowest_cleanup_slot(),
        ),
        final(blockstore).spec_max_expired_slot() == next_boundary_marker(
            old(blockstore)@,
            root,
            *old(last_purge_slot),
            purge_interval,
            max_ledger_shreds,
            old(blockstore).spec_max_expired_slot(),
        ),
{
    if !should_run_purge(root, *last_purge_slot, purge_interval) {
        return;
    }
    *last_purge_slot = root;
    let cleanup = find_slots_to_clean(blockstore, root, max_ledger_shreds);
    let slots_to_clean = cleanup.0;
    let lowest_cleanup_slot = cleanup.1;
    if slots_to_clean {
        blockstore.set_lowest_cleanup_slot(lowest_cleanup_slot);
        blockstore.purge_slots(0, lowest_cleanup_slot);
        blockstore.set_max_expired_slot(lowest_cleanup_slot);
    }
}

/// Everything one cycle may do, related to the root it received: the
/// deterministic transition of `run_cleanup_cycle`, stated over the ledger
/// view and the purge bookkeeping.
pub open spec fn cycle_transition(
    root: Slot,
    pre: Ledger,
    post: Ledger,
    last_before: Slot,
    last_after: Slot,
    purge_interval: u64,
    max: u64,
) -> bool {
    &&& last_after == next_last_purge_slot(root, last_before, purge_interval)
    &&& post@ == next_entries(pre@, root, last_before, purge_interval, max)
    &&& post.spec_lowest_cleanup_slot() == next_boundary_marker(
        pre@,
        root,
        last_before,
        purge_interval,
        max,
        pre.spec_lowest_cleanup_slot(),
    )
    &&& post.spec_max_expired_slot() == next_boundary_marker(
        pre@,
        root,
        last_before,
        purge_interval,
        max,
        pre.spec_max_expired_slot(),
    )
}

/// One full cycle: waits for a root notification, coalesces it to the
/// freshest pending one, and runs the cleanup cycle against it.
///
/// `Err(Timeout)` is benign — nothing arrived within the wait window and the
/// caller retries; `Err(Disconnected)` means the feed is closed for good and
/// the caller must stop.  On either error the ledger and the last-purge mark
/// are untouched.  On `Ok`, some received root governed the cycle, and the
/// last-purge mark never decreases.
pub fn cleanup_ledger(
    new_root_receiver: &Receiver<Slot>,
    blockstore: &mut Ledger,
    max_ledger_shreds: u64,
    last_purge_slot: &mut Slot,
    purge_interval: u64,
) -> (r: Result<(), RecvTimeoutError>)
    requires
        old(blockstore).wf(),
        sum_received(old(blockstore)@) <= u64::MAX,
    ensures
        final(blockstore).wf(),
        *final(last_purge_slot) >= *old(last_purge_slot),
        r is Err ==> *final(blockstore) == *old(blockstore) && *final(last_purge_slot) == *old(
            last_purge_slot,
        ),
        r is Ok ==> exists|root: Slot|
            #[trigger] cycle_transition(
                root,
                *old(blockstore),
                *final(blockstore),
                *old(last_purge_slot),
                *final(last_purge_slot),
                purge_interval,
                max_ledger_shreds,
            ),
{
    let root = match receive_new_roots(new_root_receiver) {
        Ok(root) => root,
        Err(e) => {
            return Err(e);
        },
    };
    let ghost pre = *blockstore;
    let ghost last_before = *last_purge_slot;
    run_cleanup_cycle(root, blockstore, max_ledger_shreds, last_purge_slot, purge_interval);
    proof {
        assert(cycle_transition(
            root,
            pre,
            *blockstore,
            last_before,
            *last_purge_slot,
            purge_interval,
            max_ledger_shreds,
        ));
    }
    Ok(())
}

} // verus!
