//! One node of the store as reclamation sees it: the task queue, the lock
//! observer, the key space and the regions that the node currently owns.

use vstd::prelude::*;
use crate::admission::{AdmissionQueue, QueueModel, TaskHandle, TooBusy};
use crate::bytes_order::bytes_equal;
use crate::keyspace::{
    lemma_lookup_at, lock_at, place_of, writes_at, KeyEntryView, KeySpace, WriteRecord,
};
use crate::lock::{record_views, LockRecord, LockRecordView, TimeStamp};
use crate::observer::{LockObserver, ObserverModel};
use crate::protocol::{ApplyEvent, NodeModel};
use crate::reclaim::{reclaim, Region, RegionView};
use crate::scanner::{lemma_scan_membership, scan_all, scan_page, visible_lock};

verus! {

/// A unit of work that a node admits.
pub enum GcTask {
    /// Reclaim the versions of `region` below `safe_point`.
    Gc { region: Region, safe_point: TimeStamp },
    /// Read one page of the pending locks at or below `max_ts`, behind
    /// `start_key`; a `limit` of 0 stands for no limit.
    PhysicalScanLock { max_ts: TimeStamp, start_key: Option<Vec<u8>>, limit: usize },
    /// Arm the lock observer for `max_ts`.
    RegisterLockObserver { max_ts: TimeStamp },
    /// Read the lock observer back, and empty its accumulator if `clear`.
    CheckLockObserver { max_ts: TimeStamp, clear: bool },
}

/// What a task hands to whoever waits for its completion.
pub enum TaskOutput {
    Reclaimed,
    Locks(Vec<LockRecord>),
    Registered,
    Observed(Vec<LockRecord>, bool),
}

/// The conditions that end a task, or a round, without its result. None
/// of them says that data is damaged; each asks for another attempt.
#[derive(Clone, Copy, Debug, PartialEq, Eq, Structural)]
pub enum GcError {
    /// Every slot of the node was taken.
    TooBusy,
    /// The key space could not be read.
    ScanFailure,
    /// The region changed hands since the task was built.
    StaleEpoch,
}

/// `regions` without those that have the id `id`.
pub open spec fn without_id(regions: Seq<RegionView>, id: u64) -> Seq<RegionView>
    decreases regions.len(),
{
    if regions.len() == 0 {
        Seq::empty()
    } else {
        let rest = without_id(regions.drop_last(), id);
        if regions.last().id == id {
            rest
        } else {
            rest.push(regions.last())
        }
    }
}

/// The values of a run of regions, in order.
pub open spec fn region_views(regions: Seq<Region>) -> Seq<RegionView> {
    regions.map_values(|r: Region| r@)
}

/// The pending locks of a key space, by key.
pub open spec fn lock_map(entries: Seq<KeyEntryView>) -> Map<Seq<u8>, LockRecordView> {
    Map::new(|k: Seq<u8>| lock_at(entries, k).is_some(), |k: Seq<u8>| lock_at(entries, k).unwrap())
}

/// Whether two regions have the same value.
pub fn same_region(a: &Region, b: &Region) -> (same: bool)
    ensures
        same == (a@ == b@),
{
    a.id == b.id && a.version == b.version && bytes_equal(&a.start_key, &b.start_key)
        && bytes_equal(&a.end_key, &b.end_key)
}

/// One node.
pub struct GcNode {
    pub queue: AdmissionQueue<GcTask>,
    pub observer: LockObserver,
    pub space: KeySpace,
    pub regions: Vec<Region>,
}

impl GcNode {
    /// The invariant of the node: that of each of its parts.
    pub open spec fn wf(&self) -> bool {
        &&& self.queue.wf()
        &&& self.observer.wf()
        &&& self.space.wf()
    }

    /// The part of the node that a lock-collection round reads.
    pub open spec fn model(&self) -> NodeModel {
        NodeModel { locks: lock_map(self.space@), observer: self.observer@ }
    }

    /// Whether the node owns `region` as the task describes it.
    pub open spec fn owns(&self, region: RegionView) -> bool {
        region_views(self.regions@).contains(region)
    }

    /// A node with `limit` task slots, an unarmed observer, an empty key
    /// space and no region.
    pub fn new(limit: usize) -> (node: GcNode)
        ensures
            node.wf(),
            node.queue@ == QueueModel::<GcTask>::empty(limit as nat),
            node.observer@ == ObserverModel::Unregistered,
            node.space@ == Seq::<KeyEntryView>::empty(),
            region_views(node.regions@) == Seq::<RegionView>::empty(),
    {
        let node = GcNode {
            queue: AdmissionQueue::new(limit),
            observer: LockObserver::new(),
            space: KeySpace::new(),
            regions: Vec::new(),
        };
        assert(region_views(node.regions@) =~= Seq::<RegionView>::empty());
        node
    }

    /// Records that the node now owns `region`, in place of any region of
    /// the same id that it owned.
    pub fn install_region(&mut self, region: Region)
        ensures
            region_views(final(self).regions@) == without_id(
                region_views(old(self).regions@),
                region.id,
            ).push(region@),
            final(self).queue == old(self).queue,
            final(self).observer == old(self).observer,
            final(self).space == old(self).space,
            old(self).wf() ==> final(self).wf(),
    {
        let ghost before = region_views(self.regions@);
        let mut kept: Vec<Region> = Vec::new();
        let mut rest: Vec<Region> = Vec::new();
        core::mem::swap(&mut self.regions, &mut rest);
        let n = rest.len();
        let mut i: usize = 0;
        assert(before.take(0) =~= Seq::<RegionView>::empty());
        assert(region_views(kept@) =~= Seq::<RegionView>::empty());
        while i < n
            invariant
                n == rest.len(),
                i <= n,
                region_views(rest@) == before,
                region_views(kept@) == without_id(before.take(i as int), region.id),
            decreases n - i,
        {
            proof {
                assert(before.take(i + 1).drop_last() =~= before.take(i as int));
                assert(before.take(i + 1).last() == before[i as int]);
            }
            if rest[i].id != region.id {
                let ghost was = region_views(kept@);
                kept.push(rest[i].duplicate());
                assert(region_views(kept@) =~= was.push(before[i as int]));
            }
            i += 1;
        }
        assert(before.take(n as int) =~= before);
        let ghost was = region_views(kept@);
        kept.push(region);
        assert(region_views(kept@) =~= was.push(region@));
        self.regions = kept;
    }

    /// Submits `task` to the queue of the node: admitted exactly when a
    /// slot is free, refused at once otherwise, with no other effect.
    pub fn submit(&mut self, task: GcTask) -> (admitted: Result<TaskHandle, TooBusy>)
        requires
            old(self).wf(),
            old(self).queue@.issued < u64::MAX,
        ensures
            final(self).wf(),
            final(self).queue@ == old(self).queue@.submit(task),
            admitted.is_ok() == old(self).queue@.admits(),
            admitted matches Ok(handle) ==> handle.id as nat == old(self).queue@.issued,
            final(self).observer == old(self).observer,
            final(self).space == old(self).space,
            final(self).regions == old(self).regions,
    {
        self.queue.submit(task)
    }

    /// Hands the oldest waiting task to the worker.
    pub fn start_next(&mut self) -> (started: Option<(TaskHandle, GcTask)>)
        requires
            old(self).wf(),
        ensures
            final(self).wf(),
            final(self).queue@ == old(self).queue@.start_next(),
            match started {
                Some((handle, task)) => old(self).queue@.queued.len() > 0 && (
                    handle.id as nat,
                    task,
                ) == old(self).queue@.queued[0],
                None => old(self).queue@.queued.len() == 0,
            },
            final(self).observer == old(self).observer,
            final(self).space == old(self).space,
            final(self).regions == old(self).regions,
    {
        self.queue.start_next()
    }

    /// Reports the completion of the task `handle` and frees its slot.
    pub fn complete(&mut self, handle: TaskHandle) -> (released: bool)
        requires
            old(self).wf(),
        ensures
            final(self).wf(),
            final(self).queue@ == old(self).queue@.complete(handle.id as nat),
            released == old(self).queue@.is_running(handle.id as nat),
            final(self).observer == old(self).observer,
            final(self).space == old(self).space,
            final(self).regions == old(self).regions,
    {
        self.queue.complete(handle)
    }

    /// Whether the node owns `region` as given.
    fn owns_region(&self, region: &Region) -> (owned: bool)
        ensures
            owned == self.owns(region@),
    {
        let mut i: usize = 0;
        while i < self.regions.len()
            invariant
                i <= self.regions.len(),
                forall|j: int| 0 <= j < i ==> region_views(self.regions@)[j] != region@,
            decreases self.regions.len() - i,
        {
            if same_region(&self.regions[i], region) {
                assert(region_views(self.regions@)[i as int] == region@);
                return true;
            }
            i += 1;
        }
        false
    }

    /// Does the work of `task`. Reclamation of a region that the node does
    /// not own as the task describes it fails with
    /// [`GcError::StaleEpoch`] and changes nothing; every other task
    /// succeeds.
    pub fn execute(&mut self, task: &GcTask) -> (done: Result<TaskOutput, GcError>)
        requires
            old(self).wf(),
        ensures
            final(self).wf(),
            final(self).queue == old(self).queue,
            final(self).regions == old(self).regions,
            match *task {
                GcTask::Gc { region, safe_point } => {
                    &&& final(self).observer == old(self).observer
                    &&& if old(self).owns(region@) {
                        &&& done matches Ok(TaskOutput::Reclaimed)
                        &&& final(self).space@ == reclaim(old(self).space@, region@, safe_point)
                    } else {
                        &&& done == Err::<TaskOutput, GcError>(GcError::StaleEpoch)
                        &&& final(self).space == old(self).space
                    }
                },
                GcTask::PhysicalScanLock { max_ts, start_key, limit } => {
                    &&& final(self).observer == old(self).observer
                    &&& final(self).space == old(self).space
                    &&& done matches Ok(TaskOutput::Locks(page))
                    &&& record_views(page@) == scan_page(
                        old(self).space@,
                        max_ts,
                        match start_key {
                            Some(k) => Some(k@),
                            None => None,
                        },
                        limit as nat,
                    )
                },
                GcTask::RegisterLockObserver { max_ts } => {
                    &&& final(self).space == old(self).space
                    &&& done matches Ok(TaskOutput::Registered)
                    &&& final(self).observer@ == old(self).observer@.register(max_ts)
                },
                GcTask::CheckLockObserver { max_ts, clear } => {
                    &&& final(self).space == old(self).space
                    &&& done matches Ok(TaskOutput::Observed(locks, clean))
                    &&& (record_views(locks@), clean) == old(self).observer@.check(max_ts)
                    &&& final(self).observer@ == if clear {
                        old(self).observer@.drain(max_ts)
                    } else {
                        old(self).observer@
                    }
                },
            },
    {
        match task {
            GcTask::Gc { region, safe_point } => {
                if self.owns_region(region) {
                    self.space.gc(region, *safe_point);
                    Ok(TaskOutput::Reclaimed)
                } else {
                    Err(GcError::StaleEpoch)
                }
            },
            GcTask::PhysicalScanLock { max_ts, start_key, limit } => {
                let page = self.space.physical_scan_lock(*max_ts, start_key.as_ref(), *limit);
                Ok(TaskOutput::Locks(page))
            },
            GcTask::RegisterLockObserver { max_ts } => {
                self.observer.register(*max_ts);
                Ok(TaskOutput::Registered)
            },
            GcTask::CheckLockObserver { max_ts, clear } => {
                if *clear {
                    let (locks, clean) = self.observer.check_and_clear(*max_ts);
                    Ok(TaskOutput::Observed(locks, clean))
                } else {
                    let (locks, clean) = self.observer.check(*max_ts);
                    Ok(TaskOutput::Observed(locks, clean))
                }
            },
        }
    }

    /// Applies a lock write: the lock is first made durable in the key
    /// space and only then reported to the observer. `delivered` says
    /// whether the report could be handed over; the write stands either
    /// way.
    pub fn apply_lock_write(&mut self, record: LockRecord, delivered: bool)
        requires
            old(self).wf(),
        ensures
            final(self).wf(),
            final(self).model() == old(self).model().apply(
                ApplyEvent::LockWrite { record: record@, delivered },
            ),
            forall|k: Seq<u8>|
                #[trigger] writes_at(final(self).space@, k) == writes_at(old(self).space@, k),
            final(self).queue == old(self).queue,
            final(self).regions == old(self).regions,
    {
        let report = record.duplicate();
        self.space.put_lock(record);
        self.observer.notify(report, delivered);
        assert(lock_map(self.space@) =~= lock_map(old(self).space@).insert(record@.key, record@));
    }

    /// Applies the removal of the pending lock on `key`, by a commit or a
    /// rollback, and hands the lock out.
    pub fn apply_unlock(&mut self, key: &Vec<u8>) -> (removed: Option<LockRecord>)
        requires
            old(self).wf(),
        ensures
            final(self).wf(),
            final(self).model() == old(self).model().apply(ApplyEvent::Unlock { key: key@ }),
            match removed {
                Some(l) => lock_at(old(self).space@, key@) == Some(l@),
                None => lock_at(old(self).space@, key@).is_none(),
            },
            forall|k: Seq<u8>|
                #[trigger] writes_at(final(self).space@, k) == writes_at(old(self).space@, k),
            final(self).queue == old(self).queue,
            final(self).regions == old(self).regions,
    {
        let removed = self.space.remove_lock(key);
        assert(lock_map(self.space@) =~= lock_map(old(self).space@).remove(key@));
        removed
    }

    /// Applies a record of the write family of `key`.
    pub fn apply_write(&mut self, key: &Vec<u8>, write: WriteRecord)
        requires
            old(self).wf(),
        ensures
            final(self).wf(),
            final(self).model() == old(self).model(),
            forall|k: Seq<u8>|
                #[trigger] writes_at(final(self).space@, k) == if k == key@ {
                    writes_at(old(self).space@, k).push(write)
                } else {
                    writes_at(old(self).space@, k)
                },
            final(self).queue == old(self).queue,
            final(self).regions == old(self).regions,
    {
        self.space.put_write(key, write);
        assert(lock_map(self.space@) =~= lock_map(old(self).space@));
    }
}

/// A scan without a lower bound reports exactly what the model of the
/// node says that a complete scan finds.
pub proof fn lemma_scan_matches_model(node: &GcNode, max_ts: TimeStamp, l: LockRecordView)
    requires
        node.wf(),
    ensures
        scan_all(node.space@, max_ts, None).contains(l) <==> node.model().scan(max_ts).contains(l),
{
    let entries = node.space@;
    lemma_scan_membership(entries, max_ts, None, l);
    if scan_all(entries, max_ts, None).contains(l) {
        let i = choose|i: int|
            0 <= i < entries.len() && visible_lock(#[trigger] entries[i], max_ts, None) == Some(l);
        lemma_lookup_at(entries, i);
    }
    if node.model().scan(max_ts).contains(l) {
        let p = place_of(entries, l.key);
        lemma_lookup_at(entries, p);
        assert(visible_lock(entries[p], max_ts, None) == Some(l));
    }
}

} // verus!
