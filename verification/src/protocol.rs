//! The lock-collection round of one node as a mathematical model, and the
//! laws that make the round trustworthy: arm the observer, scan the key
//! space, read the observer back, while lock writes go on being applied.

use vstd::prelude::*;
use crate::lock::{LockRecordView, TimeStamp};
use crate::observer::{holds_identity, lemma_accumulate, lemma_transitions_keep_wf, ObserverModel};

verus! {

/// What the apply path does to a node between the steps of a round.
pub enum ApplyEvent {
    /// A lock write was made durable, and then reported to the observer;
    /// `delivered` says whether the report could be handed over.
    LockWrite { record: LockRecordView, delivered: bool },
    /// The pending lock on `key` was removed by a commit or a rollback.
    Unlock { key: Seq<u8> },
}

/// The part of a node that the round reads: the pending locks by key, and
/// the observer.
pub struct NodeModel {
    pub locks: Map<Seq<u8>, LockRecordView>,
    pub observer: ObserverModel,
}

impl NodeModel {
    /// Whether `l` is a pending lock of the node.
    pub open spec fn has_lock(self, l: LockRecordView) -> bool {
        self.locks.dom().contains(l.key) && self.locks[l.key] == l
    }

    /// The node after its observer was armed for `max_ts`.
    pub open spec fn register(self, max_ts: TimeStamp) -> NodeModel {
        NodeModel { locks: self.locks, observer: self.observer.register(max_ts) }
    }

    /// The node after one event of the apply path. A lock write is first
    /// made durable and only then reported.
    pub open spec fn apply(self, event: ApplyEvent) -> NodeModel {
        match event {
            ApplyEvent::LockWrite { record, delivered } => NodeModel {
                locks: self.locks.insert(record.key, record),
                observer: self.observer.notify(record, delivered),
            },
            ApplyEvent::Unlock { key } => NodeModel {
                locks: self.locks.remove(key),
                observer: self.observer,
            },
        }
    }

    /// The node after `events`, applied in order.
    pub open spec fn run(self, events: Seq<ApplyEvent>) -> NodeModel
        decreases events.len(),
    {
        if events.len() == 0 {
            self
        } else {
            self.run(events.drop_last()).apply(events.last())
        }
    }

    /// What a complete physical scan for `max_ts` finds: the pending locks
    /// that started at or below `max_ts`.
    pub open spec fn scan(self, max_ts: TimeStamp) -> Set<LockRecordView> {
        Set::new(|l: LockRecordView| self.has_lock(l) && l.start_ts <= max_ts)
    }
}

impl ApplyEvent {
    /// Whether the event is a write of the lock `l`.
    pub open spec fn writes(self, l: LockRecordView) -> bool {
        match self {
            ApplyEvent::LockWrite { record, .. } => record == l,
            ApplyEvent::Unlock { .. } => false,
        }
    }

    /// Whether the event is a write of a lock at or below `max_ts` whose
    /// report was not delivered.
    pub open spec fn loses_report(self, max_ts: TimeStamp) -> bool {
        match self {
            ApplyEvent::LockWrite { record, delivered } => !delivered && record.start_ts <= max_ts,
            ApplyEvent::Unlock { .. } => false,
        }
    }
}

/// Whether `events` holds a write of the lock `l`.
pub open spec fn written(events: Seq<ApplyEvent>, l: LockRecordView) -> bool {
    exists|i: int| 0 <= i < events.len() && (#[trigger] events[i]).writes(l)
}

/// Whether `events` holds a write of some lock at or below `max_ts` whose
/// report was not delivered.
pub open spec fn lost_report(events: Seq<ApplyEvent>, max_ts: TimeStamp) -> bool {
    exists|i: int| 0 <= i < events.len() && (#[trigger] events[i]).loses_report(max_ts)
}

/// Whether an observer armed for `max_ts` is clean.
pub open spec fn clean_for(observer: ObserverModel, max_ts: TimeStamp) -> bool {
    observer.active_for(max_ts) && observer.check(max_ts).1
}

/// What an armed observer keeps through any run of events: it stays armed
/// for the same timestamp; it is clean afterwards only if it was clean
/// before and no report was lost; and while it is clean it holds every
/// identity that it held before and that of every lock written at or below
/// its threshold.
pub proof fn lemma_observer_through_run(
    node: NodeModel,
    max_ts: TimeStamp,
    events: Seq<ApplyEvent>,
)
    requires
        node.observer.wf(),
        node.observer.active_for(max_ts),
    ensures
        node.run(events).observer.wf(),
        node.run(events).observer.active_for(max_ts),
        clean_for(node.run(events).observer, max_ts) <==> (clean_for(node.observer, max_ts)
            && !lost_report(events, max_ts)),
        forall|id: (Seq<u8>, TimeStamp)|
            holds_identity(node.observer.check(max_ts).0, id) ==> holds_identity(
                node.run(events).observer.check(max_ts).0,
                id,
            ),
        clean_for(node.run(events).observer, max_ts) ==> forall|l: LockRecordView|
            written(events, l) && l.start_ts <= max_ts ==> holds_identity(
                node.run(events).observer.check(max_ts).0,
                l.identity(),
            ),
    decreases events.len(),
{
    if events.len() > 0 {
        let init = events.drop_last();
        let last = events.last();
        let n = events.len() - 1;
        lemma_observer_through_run(node, max_ts, init);
        let mid = node.run(init);
        let end = node.run(events);
        assert(end == mid.apply(last));
        let held_mid = mid.observer.check(max_ts).0;
        let held_end = end.observer.check(max_ts).0;
        match last {
            ApplyEvent::Unlock { key } => {},
            ApplyEvent::LockWrite { record, delivered } => {
                lemma_transitions_keep_wf(mid.observer, max_ts, record, delivered);
                if record.start_ts <= max_ts && delivered {
                    lemma_accumulate(held_mid, record);
                }
            },
        }
        assert(lost_report(events, max_ts) <==> (lost_report(init, max_ts) || last.loses_report(
            max_ts,
        ))) by {
            if lost_report(init, max_ts) {
                let i = choose|i: int|
                    0 <= i < init.len() && (#[trigger] init[i]).loses_report(max_ts);
                assert(events[i] == init[i]);
            }
            if lost_report(events, max_ts) {
                let i = choose|i: int|
                    0 <= i < events.len() && (#[trigger] events[i]).loses_report(max_ts);
                if i < n {
                    assert(init[i] == events[i]);
                }
            }
            if last.loses_report(max_ts) {
                assert(events[n] == last);
            }
        }
        if clean_for(end.observer, max_ts) {
            assert forall|l: LockRecordView|
                written(events, l) && l.start_ts <= max_ts implies holds_identity(
                held_end,
                l.identity(),
            ) by {
                let i = choose|i: int| 0 <= i < events.len() && (#[trigger] events[i]).writes(l);
                if i < n {
                    assert(init[i] == events[i]);
                    assert(written(init, l));
                    assert(holds_identity(held_mid, l.identity()));
                }
            }
        }
    }
}

/// Lock completeness. Arm the observer of a node for `max_ts`, let any
/// events be applied, scan, let any events be applied, and read the
/// observer back. If it reads clean, then every lock at or below `max_ts`
/// that was pending when the scan was made, or was written at any time
/// after the arming, is in what the scan found or has its identity in what
/// the observer accumulated.
///
/// A lock that was pending at the arming and removed before the scan is
/// in neither: it has been resolved by then.
pub proof fn lemma_lock_completeness(
    node: NodeModel,
    max_ts: TimeStamp,
    before_scan: Seq<ApplyEvent>,
    after_scan: Seq<ApplyEvent>,
    l: LockRecordView,
)
    requires
        node.observer.wf(),
        l.start_ts <= max_ts,
        node.register(max_ts).run(before_scan).run(after_scan).observer.check(max_ts).1,
        node.register(max_ts).run(before_scan).has_lock(l) || written(before_scan, l) || written(
            after_scan,
            l,
        ),
    ensures
        node.register(max_ts).run(before_scan).scan(max_ts).contains(l) || holds_identity(
            node.register(max_ts).run(before_scan).run(after_scan).observer.check(max_ts).0,
            l.identity(),
        ),
{
    let armed = node.register(max_ts);
    lemma_transitions_keep_wf(node.observer, max_ts, l, true);
    lemma_observer_through_run(armed, max_ts, before_scan);
    let at_scan = armed.run(before_scan);
    lemma_observer_through_run(at_scan, max_ts, after_scan);
}

/// Dirty semantics. If, after the observer was armed for `max_ts`, the
/// report of some lock write at or below `max_ts` could not be delivered,
/// the observer reads dirty from then on, whatever else is applied.
pub proof fn lemma_lost_report_leaves_dirty(
    node: NodeModel,
    max_ts: TimeStamp,
    events: Seq<ApplyEvent>,
)
    requires
        node.observer.wf(),
        lost_report(events, max_ts),
    ensures
        !node.register(max_ts).run(events).observer.check(max_ts).1,
{
    lemma_transitions_keep_wf(node.observer, max_ts, arbitrary(), true);
    lemma_observer_through_run(node.register(max_ts), max_ts, events);
}

} // verus!
