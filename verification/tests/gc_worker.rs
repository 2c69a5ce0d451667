use tikv_gc::admission::{AdmissionQueue, TaskHandle, TooBusy};
use tikv_gc::coordinator::{Round, RoundAction};
use tikv_gc::keyspace::{KeySpace, WriteKind, WriteRecord};
use tikv_gc::lock::{LockRecord, LockType};
use tikv_gc::node::{GcError, GcNode, GcTask, TaskOutput};
use tikv_gc::observer::LockObserver;
use tikv_gc::reclaim::Region;

const GC_MAX_EXECUTING_TASKS: usize = 3;

fn whole_keyspace(id: u64) -> Region {
    Region { id, version: 1, start_key: vec![], end_key: vec![] }
}

fn put_lock(key: &[u8], start_ts: u64) -> LockRecord {
    LockRecord::new(key.to_vec(), start_ts, key.to_vec(), LockType::Put)
}

fn prewrite(node: &mut GcNode, key: &[u8], primary: &[u8], start_ts: u64, delivered: bool) {
    node.apply_lock_write(
        LockRecord::new(key.to_vec(), start_ts, primary.to_vec(), LockType::Put),
        delivered,
    );
}

fn must_register_lock_observer(node: &mut GcNode, max_ts: u64) {
    match node.execute(&GcTask::RegisterLockObserver { max_ts }) {
        Ok(TaskOutput::Registered) => {}
        _ => panic!("registering the observer failed"),
    }
}

fn check_lock_observer(node: &mut GcNode, max_ts: u64) -> (Vec<LockRecord>, bool) {
    match node.execute(&GcTask::CheckLockObserver { max_ts, clear: false }) {
        Ok(TaskOutput::Observed(locks, clean)) => (locks, clean),
        _ => panic!("reading the observer failed"),
    }
}

fn must_check_lock_observer(node: &mut GcNode, max_ts: u64, clean: bool) -> Vec<LockRecord> {
    let (locks, is_clean) = check_lock_observer(node, max_ts);
    assert_eq!(is_clean, clean);
    locks
}

fn must_physical_scan_lock(
    node: &mut GcNode,
    max_ts: u64,
    start_key: &[u8],
    limit: usize,
) -> Vec<LockRecord> {
    let start_key = if start_key.is_empty() { None } else { Some(start_key.to_vec()) };
    match node.execute(&GcTask::PhysicalScanLock { max_ts, start_key, limit }) {
        Ok(TaskOutput::Locks(locks)) => locks,
        _ => panic!("the scan failed"),
    }
}

#[test]
fn test_gcworker_busy() {
    let mut node = GcNode::new(GC_MAX_EXECUTING_TASKS);
    node.install_region(whole_keyspace(1));

    // Schedule `GC_MAX_EXECUTING_TASKS - 1` requests and let the worker start
    // them; none of them completes.
    let mut paused = vec![];
    for _i in 1..GC_MAX_EXECUTING_TASKS {
        node.submit(GcTask::Gc { region: whole_keyspace(1), safe_point: 1 }).unwrap();
        let (handle, _task) = node.start_next().unwrap();
        paused.push(handle);
    }
    // One more request fills the last slot.
    node.submit(GcTask::Gc { region: whole_keyspace(1), safe_point: 1 }).unwrap();

    // The old commands are blocked, the new one is refused.
    match node.submit(GcTask::Gc { region: whole_keyspace(1), safe_point: 1 }) {
        Err(TooBusy) => {}
        res => panic!("expect too busy, got {:?}", res),
    }

    // Once the paused commands go on, all of them complete.
    let mut completed = 0;
    for handle in paused {
        assert!(node.complete(handle));
        completed += 1;
    }
    let (handle, task) = node.start_next().unwrap();
    assert!(node.execute(&task).is_ok());
    assert!(node.complete(handle));
    completed += 1;
    assert_eq!(completed, GC_MAX_EXECUTING_TASKS);
    assert!(node.submit(GcTask::Gc { region: whole_keyspace(1), safe_point: 1 }).is_ok());
}

#[test]
fn admission_limit_three_scenario() {
    let mut queue: AdmissionQueue<u32> = AdmissionQueue::new(3);
    let first = queue.submit(10).unwrap();
    let second = queue.submit(11).unwrap();
    assert_eq!(queue.start_next().unwrap().0, first);
    assert_eq!(queue.start_next().unwrap().0, second);
    // Both are paused. A third fills the limit, a fourth is refused.
    let third = queue.submit(12).unwrap();
    assert_eq!(queue.occupied(), 3);
    assert_eq!(queue.submit(13), Err(TooBusy));
    assert_eq!(queue.occupied(), 3);
    // The paused tasks complete.
    assert!(queue.complete(first));
    assert!(queue.complete(second));
    assert_eq!(queue.occupied(), 1);
    // A new submission succeeds.
    let fourth = queue.submit(14).unwrap();
    assert_ne!(fourth, third);
    assert_eq!(queue.occupied(), 2);
}

#[test]
fn admission_is_first_in_first_out() {
    let mut queue: AdmissionQueue<&'static str> = AdmissionQueue::new(4);
    let a = queue.submit("a").unwrap();
    let b = queue.submit("b").unwrap();
    let c = queue.submit("c").unwrap();
    assert_eq!(queue.start_next(), Some((a, "a")));
    assert_eq!(queue.start_next(), Some((b, "b")));
    assert_eq!(queue.start_next(), Some((c, "c")));
    assert_eq!(queue.start_next(), None);
}

#[test]
fn admission_handles_count_up() {
    let mut queue: AdmissionQueue<u8> = AdmissionQueue::new(2);
    assert_eq!(queue.submit(0), Ok(TaskHandle { id: 0 }));
    assert_eq!(queue.submit(0), Ok(TaskHandle { id: 1 }));
    assert_eq!(queue.submit(0), Err(TooBusy));
    // A refusal uses up no handle.
    queue.start_next().unwrap();
    assert!(queue.complete(TaskHandle { id: 0 }));
    assert_eq!(queue.submit(0), Ok(TaskHandle { id: 2 }));
}

#[test]
fn issued_counts_the_admitted() {
    let mut queue: AdmissionQueue<u8> = AdmissionQueue::new(1);
    assert_eq!(queue.issued(), 0);
    queue.submit(0).unwrap();
    assert_eq!(queue.issued(), 1);
    assert!(queue.submit(0).is_err());
    assert_eq!(queue.issued(), 1);
}

#[test]
fn completion_is_reported_once() {
    let mut queue: AdmissionQueue<u8> = AdmissionQueue::new(2);
    let handle = queue.submit(7).unwrap();
    // A task that was not started cannot complete.
    assert!(!queue.complete(handle));
    assert_eq!(queue.occupied(), 1);
    queue.start_next().unwrap();
    assert!(queue.complete(handle));
    assert!(!queue.complete(handle));
    assert_eq!(queue.occupied(), 0);
}

#[test]
fn a_queue_without_slots_refuses_everything() {
    let mut queue: AdmissionQueue<u8> = AdmissionQueue::new(0);
    assert_eq!(queue.submit(1), Err(TooBusy));
    assert_eq!(queue.start_next(), None);
}

// The new leader takes over only after it has applied what the old leader
// applied. While it lags behind, the lock is found on the old leader.
#[test]
fn test_collect_lock_from_stale_leader() {
    let mut old_leader = GcNode::new(GC_MAX_EXECUTING_TASKS);
    let mut new_leader = GcNode::new(GC_MAX_EXECUTING_TASKS);

    // The new peer is paused before it applies the write.
    prewrite(&mut old_leader, b"k1", b"k1", 10, true);

    // Must scan the lock from the old leader.
    let locks = must_physical_scan_lock(&mut old_leader, 100, b"", 10);
    assert_eq!(locks.len(), 1);
    assert_eq!(locks[0].key, b"k1");

    // Can't scan the lock from the new leader.
    must_register_lock_observer(&mut new_leader, 100);
    let locks = must_check_lock_observer(&mut new_leader, 100, true);
    assert!(locks.is_empty());
    let locks = must_physical_scan_lock(&mut new_leader, 100, b"", 10);
    assert!(locks.is_empty());
}

#[test]
fn test_observer_send_error() {
    let mut node = GcNode::new(GC_MAX_EXECUTING_TASKS);

    let max_ts = 100;
    must_register_lock_observer(&mut node, max_ts);
    prewrite(&mut node, b"k1", b"k1", 10, true);
    assert_eq!(must_check_lock_observer(&mut node, max_ts, true).len(), 1);

    // The report of the second write cannot be delivered.
    prewrite(&mut node, b"k2", b"k1", 10, false);
    let (locks, is_clean) = check_lock_observer(&mut node, max_ts);
    // Should mark dirty if fails to send locks.
    assert!(!is_clean);
    assert_eq!(locks.len(), 1);
    assert_eq!(locks[0].key, b"k1");

    // A scan over the same keys recovers the write that was dropped.
    let scanned = must_physical_scan_lock(&mut node, max_ts, b"", 10);
    assert_eq!(scanned.len(), 2);
    assert_eq!(scanned[0].key, b"k1");
    assert_eq!(scanned[1].key, b"k2");
}

#[test]
fn test_notify_observer_after_apply() {
    let mut space = KeySpace::new();
    let mut observer = LockObserver::new();

    // Write a lock and pause before notifying the lock observer.
    let max_ts = 100;
    observer.register(max_ts);
    let key = b"k";
    space.put_lock(put_lock(key, 10));

    // The scan gets the lock because the observer is told only after the
    // write is in the key space.
    let (observed, clean) = observer.check(max_ts);
    assert!(clean);
    assert!(observed.is_empty());
    let locks = space.physical_scan_lock(max_ts, None, 100);
    assert_eq!(locks.len(), 1);
    assert_eq!(locks[0].key, key);

    observer.notify(put_lock(key, 10), true);
    let (observed, clean) = observer.check(max_ts);
    assert!(clean);
    assert_eq!(observed.len(), 1);

    // A new store receives the same write in the same order.
    let mut replica = GcNode::new(GC_MAX_EXECUTING_TASKS);
    must_register_lock_observer(&mut replica, max_ts);
    assert!(must_check_lock_observer(&mut replica, max_ts, true).is_empty());
    prewrite(&mut replica, key, key, 10, true);
    let locks = must_physical_scan_lock(&mut replica, max_ts, b"", 100);
    assert_eq!(locks.len(), 1);
    assert_eq!(locks[0].key, key);
    assert_eq!(must_check_lock_observer(&mut replica, max_ts, true).len(), 1);
}

#[test]
fn test_collect_applying_locks() {
    let mut store_1 = GcNode::new(GC_MAX_EXECUTING_TASKS);
    let mut store_2 = GcNode::new(GC_MAX_EXECUTING_TASKS);

    // Write 1 lock. Store-2 has not applied it yet.
    prewrite(&mut store_1, b"k1", b"k1", 10, true);

    // Starting the process at safe point 20:
    //   1. Register lock observers on all stores.
    //   2. Scan locks physically on each store independently.
    //   3. Get locks from all observers.
    let safe_point = 20;
    must_register_lock_observer(&mut store_1, safe_point);
    must_register_lock_observer(&mut store_2, safe_point);

    // Finish scanning locks on store-2 and find nothing.
    let locks = must_physical_scan_lock(&mut store_2, safe_point, b"", 1);
    assert!(locks.is_empty());

    // Store-2 applies the write; the region leaves store-1.
    prewrite(&mut store_2, b"k1", b"k1", 10, true);
    store_1.apply_unlock(&b"k1".to_vec());

    // Scan locks on store-1 after the region has been destroyed.
    let locks = must_physical_scan_lock(&mut store_1, safe_point, b"", 1);
    assert!(locks.is_empty());

    // Check lock observers.
    let mut locks = vec![];
    locks.extend(must_check_lock_observer(&mut store_1, safe_point, true));
    locks.extend(must_check_lock_observer(&mut store_2, safe_point, true));
    // Must observe the applying lock even through we can't use scan to get it.
    assert_eq!(locks.len(), 1);
    assert_eq!(locks[0].key, b"k1");
}

#[test]
fn observer_scenario_register_then_write() {
    let mut node = GcNode::new(1);
    must_register_lock_observer(&mut node, 100);
    prewrite(&mut node, b"a", b"a", 50, true);
    let (locks, clean) = check_lock_observer(&mut node, 100);
    assert!(clean);
    assert_eq!(locks.len(), 1);
    assert_eq!(locks[0].key, b"a");
    assert_eq!(locks[0].start_ts, 50);
    assert_eq!(locks[0].primary, b"a");
    assert_eq!(locks[0].lock_type, LockType::Put);
}

#[test]
fn observer_ignores_what_is_above_its_threshold() {
    let mut observer = LockObserver::new();
    observer.register(100);
    observer.notify(put_lock(b"a", 101), true);
    observer.notify(put_lock(b"b", 100), true);
    // A lost report above the threshold does not make the observer dirty.
    observer.notify(put_lock(b"c", 200), false);
    let (locks, clean) = observer.check(100);
    assert!(clean);
    assert_eq!(locks.len(), 1);
    assert_eq!(locks[0].key, b"b");
}

#[test]
fn observer_unarmed_or_mismatched_reads_empty_and_clean() {
    let mut observer = LockObserver::new();
    observer.notify(put_lock(b"a", 1), true);
    observer.notify(put_lock(b"b", 1), false);
    let (locks, clean) = observer.check(100);
    assert!(locks.is_empty());
    assert!(clean);

    observer.register(100);
    observer.notify(put_lock(b"a", 1), false);
    let (locks, clean) = observer.check(99);
    assert!(locks.is_empty());
    assert!(clean);
    let (_, clean) = observer.check(100);
    assert!(!clean);
}

#[test]
fn observer_register_supersedes_and_keeps() {
    let mut observer = LockObserver::new();
    observer.register(100);
    observer.notify(put_lock(b"a", 1), true);
    // Arming again for the same timestamp keeps what was accumulated.
    observer.register(100);
    assert_eq!(observer.check(100).0.len(), 1);
    // Arming for another timestamp discards it.
    observer.register(200);
    assert!(observer.check(100).0.is_empty());
    assert!(observer.check(200).0.is_empty());
    assert!(observer.check(200).1);
}

#[test]
fn observer_holds_each_identity_once() {
    let mut observer = LockObserver::new();
    observer.register(100);
    observer.notify(LockRecord::new(b"a".to_vec(), 5, b"p".to_vec(), LockType::Pessimistic), true);
    observer.notify(put_lock(b"b", 5), true);
    observer.notify(LockRecord::new(b"a".to_vec(), 5, b"a".to_vec(), LockType::Put), true);
    observer.notify(put_lock(b"a", 6), true);
    let (locks, clean) = observer.check(100);
    assert!(clean);
    assert_eq!(locks.len(), 3);
    // The later report of the same transaction on the same key took the
    // place of the earlier one.
    assert_eq!(locks[0].key, b"a");
    assert_eq!(locks[0].start_ts, 5);
    assert_eq!(locks[0].lock_type, LockType::Put);
    assert_eq!(locks[0].primary, b"a");
    assert_eq!(locks[1].key, b"b");
    assert_eq!(locks[2].start_ts, 6);
}

#[test]
fn observer_check_and_clear_and_remove() {
    let mut observer = LockObserver::new();
    observer.register(100);
    observer.notify(put_lock(b"a", 1), true);
    observer.notify(put_lock(b"b", 1), false);
    // A query for another timestamp clears nothing.
    let (locks, clean) = observer.check_and_clear(7);
    assert!(locks.is_empty() && clean);
    let (locks, clean) = observer.check_and_clear(100);
    assert_eq!(locks.len(), 1);
    assert!(!clean);
    // The accumulator is empty, the flag stays.
    let (locks, clean) = observer.check(100);
    assert!(locks.is_empty());
    assert!(!clean);
    assert!(!observer.remove(7));
    assert!(observer.remove(100));
    assert!(!observer.remove(100));
    let (locks, clean) = observer.check(100);
    assert!(locks.is_empty() && clean);
}

#[test]
fn scan_is_paginated_in_key_order() {
    let mut space = KeySpace::new();
    for key in [&b"k3"[..], b"k1", b"k5", b"k2", b"k4"] {
        space.put_lock(put_lock(key, 10));
    }
    space.put_lock(put_lock(b"k0", 101));
    space.put_write(&b"k9".to_vec(), WriteRecord { commit_ts: 5, start_ts: 4, kind: WriteKind::Put });

    let all = space.physical_scan_lock(100, None, 100);
    let keys: Vec<Vec<u8>> = all.iter().map(|l| l.key.clone()).collect();
    assert_eq!(keys, vec![b"k1".to_vec(), b"k2".to_vec(), b"k3".to_vec(), b"k4".to_vec(), b"k5".to_vec()]);

    let page = space.physical_scan_lock(100, None, 2);
    assert_eq!(page.len(), 2);
    assert_eq!(page[1].key, b"k2");
    // The lower bound is exclusive.
    let page = space.physical_scan_lock(100, Some(&page[1].key), 2);
    assert_eq!(page.len(), 2);
    assert_eq!(page[0].key, b"k3");
    assert_eq!(page[1].key, b"k4");
    let page = space.physical_scan_lock(100, Some(&page[1].key), 2);
    assert_eq!(page.len(), 1);
    assert_eq!(page[0].key, b"k5");
    assert!(space.physical_scan_lock(100, Some(&b"k5".to_vec()), 2).is_empty());
    // A limit of 0 is no limit.
    assert_eq!(space.physical_scan_lock(100, None, 0).len(), 5);
    assert_eq!(space.physical_scan_lock(100, Some(&b"k3".to_vec()), 0).len(), 2);
    // The threshold is inclusive.
    assert_eq!(space.physical_scan_lock(101, None, 1)[0].key, b"k0");
    assert_eq!(space.physical_scan_lock(9, None, 10).len(), 0);
    assert_eq!(space.physical_scan_lock(10, None, 10).len(), 5);
}

#[test]
fn key_space_holds_one_lock_per_key() {
    let mut space = KeySpace::new();
    let key = b"k".to_vec();
    assert!(space.lock_of(&key).is_none());
    space.put_lock(put_lock(b"k", 10));
    space.put_lock(put_lock(b"k", 12));
    assert_eq!(space.len(), 1);
    assert_eq!(space.lock_of(&key).unwrap().start_ts, 12);
    assert_eq!(space.remove_lock(&key).unwrap().start_ts, 12);
    assert!(space.remove_lock(&key).is_none());
    assert!(space.lock_of(&key).is_none());
    assert!(space.remove_lock(&b"other".to_vec()).is_none());
    assert_eq!(space.entry(0).key, key);
}

fn version(commit_ts: u64, kind: WriteKind) -> WriteRecord {
    WriteRecord { commit_ts, start_ts: commit_ts - 1, kind }
}

#[test]
fn gc_keeps_the_newest_version_at_or_below_the_safe_point() {
    let mut space = KeySpace::new();
    let key = b"k".to_vec();
    for ts in [10u64, 20, 30, 40, 50] {
        space.put_write(&key, version(ts, WriteKind::Put));
    }
    space.put_write(&key, version(25, WriteKind::Rollback));
    space.put_write(&key, version(35, WriteKind::Lock));
    space.put_write(&key, version(45, WriteKind::Lock));

    space.gc(&whole_keyspace(1), 40);
    assert_eq!(
        space.writes_of(&key),
        vec![
            version(40, WriteKind::Put),
            version(50, WriteKind::Put),
            version(45, WriteKind::Lock),
        ]
    );
}

#[test]
fn gc_keeps_what_is_at_the_safe_point() {
    let mut space = KeySpace::new();
    let key = b"k".to_vec();
    space.put_write(&key, version(10, WriteKind::Put));
    space.put_write(&key, version(20, WriteKind::Rollback));
    space.put_write(&key, version(19, WriteKind::Lock));
    space.gc(&whole_keyspace(1), 20);
    assert_eq!(
        space.writes_of(&key),
        vec![version(10, WriteKind::Put), version(20, WriteKind::Rollback)]
    );
}

#[test]
fn gc_keeps_a_deletion_that_is_the_newest_version() {
    let mut space = KeySpace::new();
    let key = b"k".to_vec();
    space.put_write(&key, version(10, WriteKind::Put));
    space.put_write(&key, version(20, WriteKind::Delete));
    space.gc(&whole_keyspace(1), 30);
    assert_eq!(space.writes_of(&key), vec![version(20, WriteKind::Delete)]);
}

#[test]
fn gc_never_touches_pending_locks() {
    let mut space = KeySpace::new();
    let key = b"k".to_vec();
    space.put_lock(put_lock(b"k", 15));
    space.put_lock(put_lock(b"later", 60));
    space.put_lock(put_lock(b"old", 1));
    for ts in [10u64, 20, 30] {
        space.put_write(&key, version(ts, WriteKind::Put));
    }
    space.gc(&whole_keyspace(1), 50);
    assert_eq!(space.lock_of(&key).unwrap().start_ts, 15);
    assert_eq!(space.lock_of(&b"later".to_vec()).unwrap().start_ts, 60);
    assert_eq!(space.lock_of(&b"old".to_vec()).unwrap().start_ts, 1);
    // The version that the pending transaction reads is kept beside the
    // newest one.
    assert_eq!(
        space.writes_of(&key),
        vec![version(10, WriteKind::Put), version(30, WriteKind::Put)]
    );
}

#[test]
fn gc_twice_is_gc_once() {
    let mut space = KeySpace::new();
    for key in [&b"a"[..], b"b", b"c"] {
        for ts in [5u64, 15, 25, 35] {
            space.put_write(&key.to_vec(), version(ts, WriteKind::Put));
        }
        space.put_write(&key.to_vec(), version(12, WriteKind::Rollback));
    }
    space.put_lock(put_lock(b"b", 7));
    space.gc(&whole_keyspace(1), 30);
    let once: Vec<Vec<WriteRecord>> =
        [&b"a"[..], b"b", b"c"].iter().map(|k| space.writes_of(&k.to_vec())).collect();
    space.gc(&whole_keyspace(1), 30);
    let twice: Vec<Vec<WriteRecord>> =
        [&b"a"[..], b"b", b"c"].iter().map(|k| space.writes_of(&k.to_vec())).collect();
    assert_eq!(once, twice);
    // A lower safe point finds nothing left to do.
    space.gc(&whole_keyspace(1), 10);
    let lower: Vec<Vec<WriteRecord>> =
        [&b"a"[..], b"b", b"c"].iter().map(|k| space.writes_of(&k.to_vec())).collect();
    assert_eq!(once, lower);
    assert_eq!(once[0], vec![version(25, WriteKind::Put), version(35, WriteKind::Put)]);
    assert_eq!(
        once[1],
        vec![version(5, WriteKind::Put), version(25, WriteKind::Put), version(35, WriteKind::Put)]
    );
}

#[test]
fn gc_stays_inside_its_region() {
    let mut space = KeySpace::new();
    for key in [&b"a"[..], b"b", b"c", b"d"] {
        space.put_write(&key.to_vec(), version(1, WriteKind::Put));
        space.put_write(&key.to_vec(), version(2, WriteKind::Put));
    }
    let region = Region { id: 7, version: 3, start_key: b"b".to_vec(), end_key: b"d".to_vec() };
    assert!(!region.contains(&b"a".to_vec()));
    assert!(region.contains(&b"b".to_vec()));
    assert!(region.contains(&b"c".to_vec()));
    assert!(region.contains(&b"cz".to_vec()));
    assert!(!region.contains(&b"d".to_vec()));
    space.gc(&region, 10);
    assert_eq!(space.writes_of(&b"a".to_vec()).len(), 2);
    assert_eq!(space.writes_of(&b"b".to_vec()), vec![version(2, WriteKind::Put)]);
    assert_eq!(space.writes_of(&b"c".to_vec()), vec![version(2, WriteKind::Put)]);
    assert_eq!(space.writes_of(&b"d".to_vec()).len(), 2);
}

#[test]
fn gc_of_a_region_that_changed_hands_is_stale() {
    let mut node = GcNode::new(2);
    node.install_region(Region { id: 1, version: 1, start_key: vec![], end_key: b"m".to_vec() });
    node.apply_write(&b"a".to_vec(), version(1, WriteKind::Put));
    node.apply_write(&b"a".to_vec(), version(2, WriteKind::Put));
    let task = GcTask::Gc {
        region: Region { id: 1, version: 1, start_key: vec![], end_key: b"m".to_vec() },
        safe_point: 10,
    };
    // The region was split in the meantime.
    node.install_region(Region { id: 1, version: 2, start_key: vec![], end_key: b"g".to_vec() });
    match node.execute(&task) {
        Err(GcError::StaleEpoch) => {}
        _ => panic!("expected a stale epoch"),
    }
    assert_eq!(node.space.writes_of(&b"a".to_vec()).len(), 2);
    let task = GcTask::Gc {
        region: Region { id: 1, version: 2, start_key: vec![], end_key: b"g".to_vec() },
        safe_point: 10,
    };
    assert!(matches!(node.execute(&task), Ok(TaskOutput::Reclaimed)));
    assert_eq!(node.space.writes_of(&b"a".to_vec()), vec![version(2, WriteKind::Put)]);
    assert_eq!(node.regions.len(), 1);
}

#[test]
fn node_check_task_may_clear() {
    let mut node = GcNode::new(2);
    must_register_lock_observer(&mut node, 100);
    prewrite(&mut node, b"a", b"a", 3, true);
    match node.execute(&GcTask::CheckLockObserver { max_ts: 100, clear: true }) {
        Ok(TaskOutput::Observed(locks, clean)) => {
            assert_eq!(locks.len(), 1);
            assert!(clean);
        }
        _ => panic!("reading the observer failed"),
    }
    assert!(must_check_lock_observer(&mut node, 100, true).is_empty());
}

fn region_of(number: usize) -> Region {
    Region { id: number as u64, version: 1, start_key: vec![], end_key: vec![] }
}

// Runs a round to its end on `nodes`, each of which owns every region.
// `fail_scan_of` names a node whose scan fails; `fail_gc_of` a region whose
// reclaiming fails, and how.
fn drive(
    round: &mut Round,
    nodes: &mut Vec<GcNode>,
    safe_point: u64,
    fail_scan_of: Option<usize>,
    fail_gc_of: Option<(usize, GcError)>,
) -> bool {
    loop {
        match round.next_action() {
            RoundAction::Register { node } => {
                must_register_lock_observer(&mut nodes[node], round.max_ts);
                assert!(round.on_registered(Ok(())));
            }
            RoundAction::Scan { node, start_key, limit } => {
                if fail_scan_of == Some(node) {
                    assert!(round.on_scanned(Err(GcError::ScanFailure)));
                } else {
                    let page = nodes[node].space.physical_scan_lock(
                        round.max_ts,
                        start_key.as_ref(),
                        limit,
                    );
                    assert!(round.on_scanned(Ok(page)));
                }
            }
            RoundAction::Check { node } => {
                let found = check_lock_observer(&mut nodes[node], round.max_ts);
                assert!(round.on_checked(Ok(found)));
            }
            RoundAction::Resolve => {
                // Every collected lock is rolled back where it stands.
                let keys: Vec<Vec<u8>> = round.locks.iter().map(|l| l.key.clone()).collect();
                for node in nodes.iter_mut() {
                    for key in &keys {
                        node.apply_unlock(key);
                    }
                }
                assert!(round.on_resolved(Ok(())));
            }
            RoundAction::Reclaim { region } => {
                let mut outcome = Ok(());
                match fail_gc_of {
                    Some((failing, err)) if failing == region => outcome = Err(err),
                    _ => {
                        for node in nodes.iter_mut() {
                            let task = GcTask::Gc { region: region_of(region), safe_point };
                            if let Err(err) = node.execute(&task) {
                                outcome = Err(err);
                            }
                        }
                    }
                }
                assert!(round.on_reclaimed(outcome));
            }
            RoundAction::Finish { complete } => return complete,
        }
    }
}

fn nodes_with_regions(nodes: usize, regions: usize) -> Vec<GcNode> {
    let mut all = vec![];
    for _ in 0..nodes {
        let mut node = GcNode::new(1);
        for region in 0..regions {
            node.install_region(region_of(region));
        }
        all.push(node);
    }
    all
}

#[test]
fn round_collects_from_every_node() {
    let mut nodes = nodes_with_regions(2, 1);
    for key in [&b"a"[..], b"b", b"c"] {
        prewrite(&mut nodes[0], key, key, 10, true);
    }
    prewrite(&mut nodes[1], b"z", b"z", 11, true);
    prewrite(&mut nodes[1], b"y", b"y", 500, true);
    for ts in [5u64, 15, 25] {
        nodes[0].apply_write(&b"a".to_vec(), version(ts, WriteKind::Put));
    }
    let mut round = Round::new(100, 2, 1, 2);
    assert!(drive(&mut round, &mut nodes, 100, None, None));
    let mut keys: Vec<Vec<u8>> = round.locks.iter().map(|l| l.key.clone()).collect();
    keys.sort();
    assert_eq!(keys, vec![b"a".to_vec(), b"b".to_vec(), b"c".to_vec(), b"z".to_vec()]);
    assert!(round.resolved);
    assert_eq!(round.reclaimed, 1);
    assert_eq!(nodes[0].space.writes_of(&b"a".to_vec()), vec![version(25, WriteKind::Put)]);
    assert_eq!(round.publish(50, 100), 100);
    assert_eq!(round.publish(150, 100), 150);
}

#[test]
fn round_without_a_page_limit_scans_everything() {
    let mut nodes = nodes_with_regions(1, 1);
    prewrite(&mut nodes[0], b"k", b"k", 10, true);
    prewrite(&mut nodes[0], b"l", b"k", 10, true);
    let mut round = Round::new(100, 1, 1, 0);
    assert!(matches!(round.next_action(), RoundAction::Register { node: 0 }));
    assert!(round.on_registered(Ok(())));
    assert!(matches!(
        round.next_action(),
        RoundAction::Scan { node: 0, start_key: None, limit: 0 }
    ));
    let page = nodes[0].space.physical_scan_lock(100, None, 0);
    assert_eq!(page.len(), 2);
    assert!(round.on_scanned(Ok(page)));
    // One page held everything: the scan of the node has ended.
    assert!(matches!(round.next_action(), RoundAction::Check { node: 0 }));
    assert_eq!(round.locks.len(), 2);
}

#[test]
fn round_with_a_dirty_node_is_incomplete() {
    let mut nodes = nodes_with_regions(2, 1);
    must_register_lock_observer(&mut nodes[1], 100);
    prewrite(&mut nodes[1], b"k", b"k", 10, false);
    let mut round = Round::new(100, 2, 1, 10);
    assert!(!drive(&mut round, &mut nodes, 100, None, None));
    assert_eq!(round.affected, vec![false, true]);
    // The scan found what the observer lost.
    assert_eq!(round.locks.len(), 1);
    // Nothing was resolved or reclaimed, and nothing new is announced.
    assert!(!round.resolved);
    assert_eq!(round.reclaimed, 0);
    assert!(!round.on_resolved(Ok(())));
    assert!(!round.on_reclaimed(Ok(())));
    assert_eq!(round.publish(50, 100), 50);
}

#[test]
fn round_with_a_failed_scan_is_incomplete() {
    let mut nodes = nodes_with_regions(3, 1);
    let mut round = Round::new(100, 3, 1, 10);
    assert!(!drive(&mut round, &mut nodes, 100, Some(0), None));
    assert_eq!(round.affected, vec![true, false, false]);
    assert_eq!(round.publish(1, 100), 1);
}

#[test]
fn round_with_a_busy_node_at_reclaiming_announces_nothing() {
    let mut nodes = nodes_with_regions(2, 3);
    let mut round = Round::new(100, 2, 3, 10);
    assert!(!drive(&mut round, &mut nodes, 100, None, Some((1, GcError::TooBusy))));
    assert!(round.failed);
    assert!(round.resolved);
    assert_eq!(round.reclaimed, 1);
    assert_eq!(round.affected, vec![false, false]);
    assert_eq!(round.publish(50, 100), 50);
    // The round has ended: no later answer is due.
    assert!(!round.on_reclaimed(Ok(())));
    assert_eq!(round.publish(50, 100), 50);
}

#[test]
fn round_with_a_stale_region_announces_nothing() {
    // The nodes own two regions, the round names a third.
    let mut nodes = nodes_with_regions(1, 2);
    let mut round = Round::new(100, 1, 3, 10);
    assert!(!drive(&mut round, &mut nodes, 100, None, None));
    assert!(round.failed);
    assert_eq!(round.reclaimed, 2);
    assert_eq!(round.publish(50, 100), 50);
}

#[test]
fn round_whose_locks_cannot_be_resolved_reclaims_nothing() {
    let mut round = Round::new(100, 0, 2, 10);
    assert!(matches!(round.next_action(), RoundAction::Resolve));
    assert!(!round.on_reclaimed(Ok(())));
    assert!(round.on_resolved(Err(GcError::ScanFailure)));
    assert!(matches!(round.next_action(), RoundAction::Finish { complete: false }));
    assert!(!round.on_resolved(Ok(())));
    assert!(!round.on_reclaimed(Ok(())));
    assert_eq!(round.publish(7, 9), 7);
}

#[test]
fn round_asks_in_order_and_ignores_answers_that_are_not_due() {
    let mut round = Round::new(100, 2, 1, 10);
    assert!(!round.on_scanned(Ok(vec![])));
    assert!(!round.on_checked(Ok((vec![], true))));
    assert!(!round.on_resolved(Ok(())));
    assert!(!round.on_reclaimed(Ok(())));
    assert!(matches!(round.next_action(), RoundAction::Register { node: 0 }));
    assert!(round.on_registered(Err(GcError::TooBusy)));
    assert!(matches!(round.next_action(), RoundAction::Register { node: 1 }));
    assert!(!round.on_scanned(Ok(vec![])));
    assert!(round.on_registered(Ok(())));
    assert!(!round.on_registered(Ok(())));
    assert!(matches!(
        round.next_action(),
        RoundAction::Scan { node: 0, start_key: None, limit: 10 }
    ));
    assert!(!round.on_checked(Ok((vec![], true))));
    assert!(round.on_scanned(Ok(vec![])));
    assert!(round.on_scanned(Ok(vec![])));
    assert!(matches!(round.next_action(), RoundAction::Check { node: 0 }));
    assert!(round.on_checked(Ok((vec![], true))));
    assert!(round.on_checked(Err(GcError::StaleEpoch)));
    assert!(matches!(round.next_action(), RoundAction::Finish { complete: false }));
    assert_eq!(round.affected, vec![true, true]);
    assert!(!round.on_resolved(Ok(())));
}

#[test]
fn round_over_no_node_is_complete_once_its_regions_are_reclaimed() {
    let mut round = Round::new(100, 0, 2, 10);
    assert_eq!(round.publish(7, 9), 7);
    assert!(matches!(round.next_action(), RoundAction::Resolve));
    assert!(round.on_resolved(Ok(())));
    assert!(matches!(round.next_action(), RoundAction::Reclaim { region: 0 }));
    assert!(round.on_reclaimed(Ok(())));
    assert_eq!(round.publish(7, 9), 7);
    assert!(matches!(round.next_action(), RoundAction::Reclaim { region: 1 }));
    assert!(round.on_reclaimed(Ok(())));
    assert!(matches!(round.next_action(), RoundAction::Finish { complete: true }));
    assert_eq!(round.publish(7, 9), 9);
    assert_eq!(round.publish(9, 9), 9);
}
