//! Cycle-level tests: the original cleanup scenarios driven end to end
//! against the model store and a real crossbeam channel.

use crossbeam_channel::unbounded;
use ledger_cleanup::cleanup::cleanup_ledger;
use ledger_cleanup::ledger::Ledger;
use ledger_cleanup::ledger::SlotMeta;
use ledger_cleanup::roots::RecvTimeoutError;

/// Builds a ledger holding `num_slots` slots starting at `start`, each with
/// `received` shreds.
fn insert_many(ledger: &mut Ledger, start: u64, num_slots: u64, received: u64) {
    let mut slot = start;
    while slot < start + num_slots {
        ledger.insert_slot_meta(slot, received);
        slot += 1;
    }
}

#[test]
fn test_cleanup1() {
    let mut blockstore = Ledger::new();
    insert_many(&mut blockstore, 0, 50, 5);
    let (sender, receiver) = unbounded();

    //send a signal to kill all but 5 shreds, which will be in the newest slots
    let mut last_purge_slot = 0u64;
    sender.send(50).unwrap();
    cleanup_ledger(&receiver, &mut blockstore, 5, &mut last_purge_slot, 10).unwrap();
    assert_eq!(last_purge_slot, 50);

    //check that 0-40 don't exist
    blockstore
        .slot_metas()
        .iter()
        .for_each(|m| assert!(m.slot > 40));
}

#[test]
fn test_cleanup_speed() {
    let mut blockstore = Ledger::new();
    let (sender, receiver) = unbounded();

    let initial_slots = 50u64;
    let initial_entries = 5u64;
    insert_many(&mut blockstore, 0, initial_slots, initial_entries);

    let mut last_purge_slot = 0u64;
    let mut slot = initial_slots;
    let mut num_slots = 6u64;
    for _ in 0..5 {
        let batch_size = 2u64;
        let batches = num_slots / batch_size;
        for i in 0..batches {
            insert_many(&mut blockstore, slot + i * batch_size, batch_size, 5);
        }

        sender.send(slot + num_slots).unwrap();
        cleanup_ledger(
            &receiver,
            &mut blockstore,
            initial_slots,
            &mut last_purge_slot,
            10,
        )
        .unwrap();
        slot += num_slots;
        num_slots *= 2;
    }
}

/// The boundary recomputed independently of the library: walk the scanned
/// records newest-first, accumulate, and stop at the first slot where the
/// running sum strictly exceeds the cap; fall back to the oldest record.
fn reverse_accumulation_boundary(metas: &[SlotMeta], cap: u64) -> u64 {
    let mut running = 0u64;
    let mut boundary = metas[0].slot;
    for m in metas.iter().rev() {
        running += m.received;
        if running > cap {
            boundary = m.slot;
            break;
        }
    }
    boundary
}

#[test]
fn scenario_a_boundary_by_reverse_accumulation() {
    let mut blockstore = Ledger::new();
    insert_many(&mut blockstore, 0, 50, 5);
    let expected_boundary = reverse_accumulation_boundary(blockstore.slot_metas(), 5);

    let (sender, receiver) = unbounded();
    let mut last_purge_slot = 0u64;
    sender.send(50).unwrap();
    cleanup_ledger(&receiver, &mut blockstore, 5, &mut last_purge_slot, 10).unwrap();

    assert_eq!(last_purge_slot, 50);
    assert_eq!(blockstore.lowest_cleanup_slot(), expected_boundary);
    assert!(!blockstore.slot_metas().is_empty());
    blockstore
        .slot_metas()
        .iter()
        .for_each(|m| assert!(m.slot > expected_boundary));
}

#[test]
fn scenario_b_cap_above_total_advances_mark_only() {
    let mut blockstore = Ledger::new();
    insert_many(&mut blockstore, 0, 50, 5);
    let before: Vec<SlotMeta> = blockstore.slot_metas().clone();

    let (sender, receiver) = unbounded();
    let mut last_purge_slot = 0u64;
    // cap above the 250 shreds inserted: nothing to purge
    sender.send(50).unwrap();
    cleanup_ledger(&receiver, &mut blockstore, 1000, &mut last_purge_slot, 10).unwrap();

    assert_eq!(blockstore.slot_metas(), &before);
    // the interval gate alone controls the mark: it still advances to root
    assert_eq!(last_purge_slot, 50);
}

#[test]
fn scenario_c_interval_gates_second_cycle() {
    let mut blockstore = Ledger::new();
    insert_many(&mut blockstore, 0, 50, 5);

    let (sender, receiver) = unbounded();
    let mut last_purge_slot = 0u64;
    sender.send(20).unwrap();
    cleanup_ledger(&receiver, &mut blockstore, 5, &mut last_purge_slot, 10).unwrap();
    assert_eq!(last_purge_slot, 20);
    let after_first: Vec<SlotMeta> = blockstore.slot_metas().clone();
    let marker_after_first = blockstore.lowest_cleanup_slot();

    // a root only 5 slots further on: gated, the first cycle's result persists
    sender.send(25).unwrap();
    cleanup_ledger(&receiver, &mut blockstore, 5, &mut last_purge_slot, 10).unwrap();
    assert_eq!(last_purge_slot, 20);
    assert_eq!(blockstore.slot_metas(), &after_first);
    assert_eq!(blockstore.lowest_cleanup_slot(), marker_after_first);
}

#[test]
fn same_root_twice_second_cycle_is_noop() {
    let mut blockstore = Ledger::new();
    insert_many(&mut blockstore, 0, 50, 5);

    let (sender, receiver) = unbounded();
    let mut last_purge_slot = 0u64;
    sender.send(50).unwrap();
    cleanup_ledger(&receiver, &mut blockstore, 5, &mut last_purge_slot, 10).unwrap();
    let after_first: Vec<SlotMeta> = blockstore.slot_metas().clone();

    sender.send(50).unwrap();
    cleanup_ledger(&receiver, &mut blockstore, 5, &mut last_purge_slot, 10).unwrap();
    assert_eq!(last_purge_slot, 50);
    assert_eq!(blockstore.slot_metas(), &after_first);
}

#[test]
fn drain_leaves_no_pending_roots() {
    let mut blockstore = Ledger::new();
    insert_many(&mut blockstore, 0, 50, 5);

    let (sender, receiver) = unbounded();
    let mut last_purge_slot = 0u64;
    sender.send(15).unwrap();
    sender.send(30).unwrap();
    sender.send(50).unwrap();
    cleanup_ledger(&receiver, &mut blockstore, 5, &mut last_purge_slot, 10).unwrap();

    // every buffered notification was drained and the freshest root governed
    assert!(receiver.try_recv().is_err());
    assert_eq!(last_purge_slot, 50);
}

#[test]
fn empty_ledger_never_purges() {
    let mut blockstore = Ledger::new();
    let (sender, receiver) = unbounded();
    let mut last_purge_slot = 0u64;
    sender.send(100).unwrap();
    cleanup_ledger(&receiver, &mut blockstore, 0, &mut last_purge_slot, 10).unwrap();
    assert_eq!(last_purge_slot, 100);
    assert!(blockstore.slot_metas().is_empty());
    assert_eq!(blockstore.lowest_cleanup_slot(), 0);
}

#[test]
fn timeout_when_no_root_arrives() {
    let mut blockstore = Ledger::new();
    insert_many(&mut blockstore, 0, 10, 5);
    let before: Vec<SlotMeta> = blockstore.slot_metas().clone();

    let (_sender, receiver) = unbounded::<u64>();
    let mut last_purge_slot = 3u64;
    let r = cleanup_ledger(&receiver, &mut blockstore, 5, &mut last_purge_slot, 10);
    assert_eq!(r, Err(RecvTimeoutError::Timeout));
    assert_eq!(last_purge_slot, 3);
    assert_eq!(blockstore.slot_metas(), &before);
}

#[test]
fn disconnected_when_feed_closes() {
    let mut blockstore = Ledger::new();
    let (sender, receiver) = unbounded::<u64>();
    drop(sender);
    let mut last_purge_slot = 0u64;
    let r = cleanup_ledger(&receiver, &mut blockstore, 5, &mut last_purge_slot, 10);
    assert_eq!(r, Err(RecvTimeoutError::Disconnected));
    assert_eq!(last_purge_slot, 0);
}
