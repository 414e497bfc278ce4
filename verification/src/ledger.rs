//! A model of the slot-indexed metadata store that cleanup works against.
//!
//! The store is append-only: slots arrive in strictly increasing order, and
//! cleanup removes a contiguous prefix of slots.  The storage engine's
//! durability and on-disk format are outside this model; the `Ledger` type
//! holds exactly what the cleanup logic reads: per-slot `received` shred
//! counts, plus the two boundary markers the purge advances.

use vstd::prelude::*;

use crate::Slot;

verus! {

/// Per-slot metadata record: the number of shreds received for the slot,
/// an upper-bound proxy for its byte volume.
#[derive(Clone, Copy, PartialEq, Eq, Structural, Debug)]
pub struct SlotMeta {
    pub slot: Slot,
    pub received: u64,
}

/// The slots of `s` are strictly increasing, as the metadata iterator of the
/// storage engine yields them.
pub open spec fn slots_strictly_ascending(s: Seq<SlotMeta>) -> bool {
    forall|i: int, j: int|
        0 <= i < j < s.len() ==> #[trigger] s[i].slot < #[trigger] s[j].slot
}

/// The entries of `s` that survive a purge of the slot range `[from, to]`,
/// in their original order.
pub open spec fn purge_filter(s: Seq<SlotMeta>, from: Slot, to: Slot) -> Seq<SlotMeta>
    decreases s.len(),
{
    if s.len() == 0 {
        Seq::empty()
    } else if from <= s[0].slot && s[0].slot <= to {
        purge_filter(s.drop_first(), from, to)
    } else {
        seq![s[0]] + purge_filter(s.drop_first(), from, to)
    }
}

/// Every entry that survives a purge of `[from, to]` comes from `s` and has
/// a slot outside the purged range.
pub proof fn lemma_purge_filter_elements(s: Seq<SlotMeta>, from: Slot, to: Slot)
    ensures
        forall|a: int|
            0 <= a < purge_filter(s, from, to).len() ==> {
                let m = #[trigger] purge_filter(s, from, to)[a];
                &&& s.contains(m)
                &&& !(from <= m.slot && m.slot <= to)
            },
    decreases s.len(),
{
    if s.len() > 0 {
        lemma_purge_filter_elements(s.drop_first(), from, to);
        assert forall|a: int|
            0 <= a < purge_filter(s, from, to).len() implies {
                let m = #[trigger] purge_filter(s, from, to)[a];
                &&& s.contains(m)
                &&& !(from <= m.slot && m.slot <= to)
            } by {
            let rest = purge_filter(s.drop_first(), from, to);
            if from <= s[0].slot && s[0].slot <= to {
                let b = choose|b: int| 0 <= b < s.drop_first().len() && s.drop_first()[b] == rest[a];
                assert(s[b + 1] == rest[a]);
            } else {
                if a == 0 {
                    assert(s.contains(s[0])) by { assert(s[0] == s[0]); }
                } else {
                    let m = rest[a - 1];
                    let b = choose|b: int| 0 <= b < s.drop_first().len() && s.drop_first()[b] == m;
                    assert(s[b + 1] == m);
                }
            }
        }
    }
}

/// The slot-indexed metadata store, as the cleanup logic sees it.
///
/// `entries` mirrors the storage engine's ascending slot-metadata iteration;
/// `lowest_cleanup_slot` is the shared low-water mark the engine filters
/// reads against; `max_expired_slot` is the engine's compaction-visibility
/// marker, advanced only after a purge completes.
pub struct Ledger {
    entries: Vec<SlotMeta>,
    lowest_cleanup_slot: Slot,
    max_expired_slot: Slot,
}

impl View for Ledger {
    type V = Seq<SlotMeta>;

    closed spec fn view(&self) -> Seq<SlotMeta> {
        self.entries@
    }
}

impl Ledger {
    /// The low-water mark: data at or below this slot is purgeable.
    pub closed spec fn spec_lowest_cleanup_slot(&self) -> Slot {
        self.lowest_cleanup_slot
    }

    /// The compaction-visibility marker of the storage engine.
    pub closed spec fn spec_max_expired_slot(&self) -> Slot {
        self.max_expired_slot
    }

    /// Well-formedness: metadata records stand in strictly ascending slot order.
    pub open spec fn wf(&self) -> bool {
        slots_strictly_ascending(self@)
    }

    /// An empty store with both boundary markers at slot 0.
    pub fn new() -> (r: Ledger)
        ensures
            r.wf(),
            r@ == Seq::<SlotMeta>::empty(),
            r.spec_lowest_cleanup_slot() == 0,
            r.spec_max_expired_slot() == 0,
    {
        Ledger { entries: Vec::new(), lowest_cleanup_slot: 0, max_expired_slot: 0 }
    }

    /// Appends the metadata record of a new slot.  The store is append-only,
    /// so the new slot must exceed every slot already present.
    pub fn insert_slot_meta(&mut self, slot: Slot, received: u64)
        requires
            old(self).wf(),
            old(self)@.len() > 0 ==> slot > old(self)@.last().slot,
        ensures
            final(self).wf(),
            final(self)@ == old(self)@.push(SlotMeta { slot, received }),
            final(self).spec_lowest_cleanup_slot() == old(self).spec_lowest_cleanup_slot(),
            final(self).spec_max_expired_slot() == old(self).spec_max_expired_slot(),
    {
        proof {
            let s = self@;
            assert forall|i: int, j: int|
                0 <= i < j < s.push(SlotMeta { slot, received }).len()
                    implies #[trigger] s.push(SlotMeta { slot, received })[i].slot
                        < #[trigger] s.push(SlotMeta { slot, received })[j].slot by {
                if j < s.len() {
                    assert(s[i].slot < s[j].slot);
                } else {
                    if i < s.len() - 1 {
                        assert(s[i].slot < s[s.len() - 1].slot);
                    }
                }
            }
        }
        self.entries.push(SlotMeta { slot, received });
    }

    /// The metadata records in ascending slot order, as the storage engine's
    /// iterator would yield them from genesis.
    pub fn slot_metas(&self) -> (r: &Vec<SlotMeta>)
        ensures
            r@ == self@,
    {
        &self.entries
    }

    /// Reads the shared low-water mark.
    pub fn lowest_cleanup_slot(&self) -> (r: Slot)
        ensures
            r == self.spec_lowest_cleanup_slot(),
    {
        self.lowest_cleanup_slot
    }

    /// Reads the compaction-visibility marker.
    pub fn max_expired_slot(&self) -> (r: Slot)
        ensures
            r == self.spec_max_expired_slot(),
    {
        self.max_expired_slot
    }

    /// Advances the shared low-water mark; the purge job writes it before
    /// issuing the bulk purge.
    pub fn set_lowest_cleanup_slot(&mut self, slot: Slot)
        ensures
            final(self)@ == old(self)@,
            final(self).wf() == old(self).wf(),
            final(self).spec_lowest_cleanup_slot() == slot,
            final(self).spec_max_expired_slot() == old(self).spec_max_expired_slot(),
    {
        self.lowest_cleanup_slot = slot;
    }

    /// Advances the compaction-visibility marker; the purge job writes it
    /// only after the bulk purge has returned.
    pub fn set_max_expired_slot(&mut self, slot: Slot)
        ensures
            final(self)@ == old(self)@,
            final(self).wf() == old(self).wf(),
            final(self).spec_lowest_cleanup_slot() == old(self).spec_lowest_cleanup_slot(),
            final(self).spec_max_expired_slot() == slot,
    {
        self.max_expired_slot = slot;
    }

    /// Removes every metadata record whose slot lies in `[from, to]`.
    pub fn purge_slots(&mut self, from: Slot, to: Slot)
        requires
            old(self).wf(),
        ensures
            final(self).wf(),
            final(self)@ == purge_filter(old(self)@, from, to),
            final(self).spec_lowest_cleanup_slot() == old(self).spec_lowest_cleanup_slot(),
            final(self).spec_max_expired_slot() == old(self).spec_max_expired_slot(),
    {
        let ghost s = self.entries@;
        let mut kept: Vec<SlotMeta> = Vec::new();
        let mut i: usize = 0;
        proof {
            assert(s.skip(0) =~= s);
            assert(kept@ + purge_filter(s, from, to) =~= purge_filter(s, from, to));
        }
        while i < self.entries.len()
            invariant
                i <= s.len(),
                self.entries@ == s,
                slots_strictly_ascending(s),
                slots_strictly_ascending(kept@),
                purge_filter(s, from, to) == kept@ + purge_filter(s.skip(i as int), from, to),
                kept@.len() > 0 && i < s.len() ==> kept@.last().slot < s[i as int].slot,
                forall|a: int| 0 <= a < kept@.len() ==> !(from <= #[trigger] kept@[a].slot <= to),
            decreases s.len() - i,
        {
            let m = self.entries[i];
            proof {
                assert(s.skip(i as int).drop_first() =~= s.skip(i as int + 1));
                assert(s.skip(i as int)[0] == s[i as int]);
            }
            if !(from <= m.slot && m.slot <= to) {
                proof {
                    let k = kept@.push(m);
                    assert forall|a: int, b: int|
                        0 <= a < b < k.len() implies #[trigger] k[a].slot < #[trigger] k[b].slot by {
                        if b < kept@.len() {
                            assert(kept@[a].slot < kept@[b].slot);
                        } else if a < kept@.len() {
                            if a < kept@.len() - 1 {
                                assert(kept@[a].slot < kept@[kept@.len() - 1].slot);
                            }
                        }
                    }
                    assert(purge_filter(s.skip(i as int), from, to)
                        == seq![s[i as int]] + purge_filter(s.skip(i as int + 1), from, to));
                    assert(kept@ + purge_filter(s.skip(i as int), from, to)
                        =~= k + purge_filter(s.skip(i as int + 1), from, to));
                }
                kept.push(m);
            } else {
                proof {
                    assert(purge_filter(s.skip(i as int), from, to)
                        == purge_filter(s.skip(i as int + 1), from, to));
                }
            }
            proof {
                if i + 1 < s.len() {
                    assert(s[i as int].slot < s[i as int + 1].slot);
                }
            }
            i = i + 1;
        }
        proof {
            assert(s.skip(s.len() as int) =~= Seq::<SlotMeta>::empty());
            assert(kept@ + purge_filter(s.skip(s.len() as int), from, to) =~= kept@);
        }
        self.entries = kept;
    }
}

} // verus!
