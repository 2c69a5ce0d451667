//! The lock observer: once armed for a threshold timestamp it accumulates
//! every lock write that the apply path reports, and remembers whether any
//! report was lost.

use vstd::prelude::*;
use crate::lock::{duplicate_records, record_views, LockRecord, LockRecordView, TimeStamp};

verus! {

/// Whether some record of `acc` has the identity `id`.
pub open spec fn holds_identity(acc: Seq<LockRecordView>, id: (Seq<u8>, TimeStamp)) -> bool {
    exists|i: int| 0 <= i < acc.len() && #[trigger] acc[i].identity() == id
}

/// No two records of `acc` share an identity.
pub open spec fn distinct_identities(acc: Seq<LockRecordView>) -> bool {
    forall|i: int, j: int|
        0 <= i < acc.len() && 0 <= j < acc.len() && #[trigger] acc[i].identity()
            == #[trigger] acc[j].identity() ==> i == j
}

/// `acc` after `record` was accumulated: a record of the same identity is
/// replaced where it stands, any other record is appended.
pub open spec fn accumulate(acc: Seq<LockRecordView>, record: LockRecordView) -> Seq<
    LockRecordView,
> {
    if holds_identity(acc, record.identity()) {
        let i = choose|i: int| 0 <= i < acc.len() && #[trigger] acc[i].identity() == record.identity();
        acc.update(i, record)
    } else {
        acc.push(record)
    }
}

/// The state of an observer as a mathematical value.
pub enum ObserverModel {
    /// Not armed: nothing is accumulated.
    Unregistered,
    /// Armed for `max_ts`.
    Active { max_ts: TimeStamp, accumulated: Seq<LockRecordView>, clean: bool },
}

impl ObserverModel {
    /// The accumulator holds each identity once, and only records at or
    /// below the threshold.
    pub open spec fn wf(self) -> bool {
        match self {
            ObserverModel::Unregistered => true,
            ObserverModel::Active { max_ts, accumulated, clean } => {
                &&& distinct_identities(accumulated)
                &&& forall|i: int| 0 <= i < accumulated.len() ==> accumulated[i].start_ts <= max_ts
            },
        }
    }

    /// Whether the observer is armed for exactly `max_ts`.
    pub open spec fn active_for(self, max_ts: TimeStamp) -> bool {
        match self {
            ObserverModel::Unregistered => false,
            ObserverModel::Active { max_ts: armed, .. } => armed == max_ts,
        }
    }

    /// Arming for `max_ts`: an observer already armed for that timestamp is
    /// left as it is, any other state is replaced by an empty, clean one.
    pub open spec fn register(self, max_ts: TimeStamp) -> ObserverModel {
        if self.active_for(max_ts) {
            self
        } else {
            ObserverModel::Active { max_ts, accumulated: Seq::empty(), clean: true }
        }
    }

    /// One report from the apply path. A record above the threshold, or a
    /// report to an unarmed observer, changes nothing. A record at or below
    /// the threshold is accumulated when the report was delivered; when it
    /// was not, the record is dropped and the observer becomes dirty.
    pub open spec fn notify(self, record: LockRecordView, delivered: bool) -> ObserverModel {
        match self {
            ObserverModel::Unregistered => self,
            ObserverModel::Active { max_ts, accumulated, clean } => {
                if record.start_ts > max_ts {
                    self
                } else if delivered {
                    ObserverModel::Active {
                        max_ts,
                        accumulated: accumulate(accumulated, record),
                        clean,
                    }
                } else {
                    ObserverModel::Active { max_ts, accumulated, clean: false }
                }
            },
        }
    }

    /// What a query for `max_ts` reads: the accumulated records and the
    /// reliability flag of an observer armed for `max_ts`, and nothing,
    /// reported as clean, of any other.
    pub open spec fn check(self, max_ts: TimeStamp) -> (Seq<LockRecordView>, bool) {
        match self {
            ObserverModel::Active { max_ts: armed, accumulated, clean } if armed == max_ts => (
                accumulated,
                clean,
            ),
            _ => (Seq::empty(), true),
        }
    }

    /// Emptying the accumulator of an observer armed for `max_ts`; the
    /// threshold and the reliability flag stay.
    pub open spec fn drain(self, max_ts: TimeStamp) -> ObserverModel {
        match self {
            ObserverModel::Active { max_ts: armed, accumulated, clean } if armed == max_ts => {
                ObserverModel::Active { max_ts: armed, accumulated: Seq::empty(), clean }
            },
            _ => self,
        }
    }

    /// Tearing down an observer armed for `max_ts`; any other is left alone.
    pub open spec fn remove(self, max_ts: TimeStamp) -> ObserverModel {
        if self.active_for(max_ts) {
            ObserverModel::Unregistered
        } else {
            self
        }
    }
}

/// Accumulating keeps identities distinct, keeps every identity that was
/// held, and holds the new record itself.
pub proof fn lemma_accumulate(acc: Seq<LockRecordView>, record: LockRecordView)
    requires
        distinct_identities(acc),
    ensures
        distinct_identities(accumulate(acc, record)),
        accumulate(acc, record).contains(record),
        forall|id: (Seq<u8>, TimeStamp)|
            holds_identity(accumulate(acc, record), id) <==> (holds_identity(acc, id) || id
                == record.identity()),
        forall|r: LockRecordView|
            accumulate(acc, record).contains(r) <==> (r == record || (acc.contains(r)
                && r.identity() != record.identity())),
{
    let out = accumulate(acc, record);
    if holds_identity(acc, record.identity()) {
        let i = choose|i: int| 0 <= i < acc.len() && #[trigger] acc[i].identity() == record.identity();
        assert(out[i] == record);
        assert forall|a: int, b: int|
            0 <= a < out.len() && 0 <= b < out.len() && #[trigger] out[a].identity()
                == #[trigger] out[b].identity() implies a == b by {
            assert(out[a].identity() == acc[a].identity());
            assert(out[b].identity() == acc[b].identity());
        }
        assert forall|id: (Seq<u8>, TimeStamp)|
            holds_identity(out, id) <==> (holds_identity(acc, id) || id
                == record.identity()) by {
            if holds_identity(out, id) {
                let k = choose|k: int| 0 <= k < out.len() && #[trigger] out[k].identity() == id;
                assert(acc[k].identity() == id);
            }
            if holds_identity(acc, id) {
                let k = choose|k: int| 0 <= k < acc.len() && #[trigger] acc[k].identity() == id;
                assert(out[k].identity() == id);
            }
            if id == record.identity() {
                assert(out[i].identity() == id);
            }
        }
        assert forall|r: LockRecordView|
            out.contains(r) <==> (r == record || (acc.contains(r) && r.identity()
                != record.identity())) by {
            if out.contains(r) {
                let k = choose|k: int| 0 <= k < out.len() && out[k] == r;
                if k != i {
                    assert(acc[k] == r);
                    assert(acc[k].identity() != acc[i].identity());
                }
            }
            if acc.contains(r) && r.identity() != record.identity() {
                let k = choose|k: int| 0 <= k < acc.len() && acc[k] == r;
                assert(out[k] == r);
            }
        }
    } else {
        assert(out[acc.len() as int] == record);
        assert forall|a: int, b: int|
            0 <= a < out.len() && 0 <= b < out.len() && #[trigger] out[a].identity()
                == #[trigger] out[b].identity() implies a == b by {
            if a < acc.len() {
                assert(acc[a].identity() == out[a].identity());
            }
            if b < acc.len() {
                assert(acc[b].identity() == out[b].identity());
            }
        }
        assert forall|id: (Seq<u8>, TimeStamp)|
            holds_identity(out, id) <==> (holds_identity(acc, id) || id
                == record.identity()) by {
            if holds_identity(out, id) {
                let k = choose|k: int| 0 <= k < out.len() && #[trigger] out[k].identity() == id;
                if k < acc.len() {
                    assert(acc[k].identity() == id);
                }
            }
            if holds_identity(acc, id) {
                let k = choose|k: int| 0 <= k < acc.len() && #[trigger] acc[k].identity() == id;
                assert(out[k].identity() == id);
            }
            if id == record.identity() {
                assert(out[acc.len() as int].identity() == id);
            }
        }
        assert forall|r: LockRecordView|
            out.contains(r) <==> (r == record || (acc.contains(r) && r.identity()
                != record.identity())) by {
            if out.contains(r) {
                let k = choose|k: int| 0 <= k < out.len() && out[k] == r;
                if k < acc.len() {
                    assert(acc[k] == r);
                    assert(acc[k].identity() != record.identity());
                }
            }
            if acc.contains(r) && r.identity() != record.identity() {
                let k = choose|k: int| 0 <= k < acc.len() && acc[k] == r;
                assert(out[k] == r);
            }
        }
    }
}

/// Each transition of the observer keeps its state well formed.
pub proof fn lemma_transitions_keep_wf(
    state: ObserverModel,
    max_ts: TimeStamp,
    record: LockRecordView,
    delivered: bool,
)
    requires
        state.wf(),
    ensures
        state.register(max_ts).wf(),
        state.notify(record, delivered).wf(),
        state.drain(max_ts).wf(),
        state.remove(max_ts).wf(),
{
    match state {
        ObserverModel::Unregistered => {},
        ObserverModel::Active { max_ts: armed, accumulated, clean } => {
            if record.start_ts <= armed && delivered {
                lemma_accumulate(accumulated, record);
                let out = accumulate(accumulated, record);
                assert forall|i: int| 0 <= i < out.len() implies out[i].start_ts <= armed by {
                    assert(out.contains(out[i]));
                    if out[i] != record {
                        assert(accumulated.contains(out[i]));
                    }
                }
            }
        },
    }
}

/// The place in `locks` of the record that has the identity of `record`.
fn find_identity(locks: &Vec<LockRecord>, record: &LockRecord) -> (found: Option<usize>)
    ensures
        match found {
            Some(at) => at < locks.len() && record_views(locks@)[at as int].identity()
                == record@.identity(),
            None => !holds_identity(record_views(locks@), record@.identity()),
        },
{
    let mut i: usize = 0;
    while i < locks.len()
        invariant
            i <= locks.len(),
            forall|j: int|
                0 <= j < i ==> (#[trigger] record_views(locks@)[j]).identity()
                    != record@.identity(),
        decreases locks.len() - i,
    {
        if locks[i].same_identity(record) {
            return Some(i);
        }
        i += 1;
    }
    None
}

/// What an armed observer holds.
pub struct Observation {
    max_ts: TimeStamp,
    locks: Vec<LockRecord>,
    clean: bool,
}

/// The lock observer of one node. It is owned by the node and lost with
/// it: a node that starts anew has an unarmed observer.
pub struct LockObserver {
    active: Option<Observation>,
}

impl View for LockObserver {
    type V = ObserverModel;

    closed spec fn view(&self) -> ObserverModel {
        match self.active {
            None => ObserverModel::Unregistered,
            Some(o) => ObserverModel::Active {
                max_ts: o.max_ts,
                accumulated: record_views(o.locks@),
                clean: o.clean,
            },
        }
    }
}

impl LockObserver {
    /// The invariant of the observer: see [`ObserverModel::wf`].
    pub open spec fn wf(&self) -> bool {
        self@.wf()
    }

    /// An unarmed observer.
    pub fn new() -> (observer: LockObserver)
        ensures
            observer@ == ObserverModel::Unregistered,
            observer.wf(),
    {
        LockObserver { active: None }
    }

    /// Arms the observer for `max_ts`.
    pub fn register(&mut self, max_ts: TimeStamp)
        requires
            old(self).wf(),
        ensures
            final(self)@ == old(self)@.register(max_ts),
            final(self).wf(),
    {
        let armed = match &self.active {
            Some(o) => o.max_ts == max_ts,
            None => false,
        };
        if !armed {
            self.active = Some(Observation { max_ts, locks: Vec::new(), clean: true });
            assert(record_views(Seq::<LockRecord>::empty()) =~= Seq::<LockRecordView>::empty());
        }
    }

    /// Takes one report of a lock write from the apply path. `delivered`
    /// says whether the report could be handed over; a report that could
    /// not is dropped and leaves the observer dirty. The write itself is
    /// never failed.
    pub fn notify(&mut self, record: LockRecord, delivered: bool)
        requires
            old(self).wf(),
        ensures
            final(self)@ == old(self)@.notify(record@, delivered),
            final(self).wf(),
    {
        proof {
            lemma_transitions_keep_wf(self@, 0, record@, delivered);
        }
        match self.active.take() {
            None => {},
            Some(mut o) => {
                if record.start_ts > o.max_ts {
                    self.active = Some(o);
                } else if !delivered {
                    o.clean = false;
                    self.active = Some(o);
                } else {
                    let ghost before = record_views(o.locks@);
                    let found = find_identity(&o.locks, &record);
                    match found {
                        Some(at) => {
                            assert(before[at as int].identity() == record@.identity());
                            assert(holds_identity(before, record@.identity()));
                            let ghost chosen = choose|k: int|
                                0 <= k < before.len() && #[trigger] before[k].identity()
                                    == record@.identity();
                            assert(chosen == at);
                            let ghost rv = record@;
                            o.locks.set(at, record);
                            assert(record_views(o.locks@) =~= before.update(at as int, rv));
                        },
                        None => {
                            let ghost rv = record@;
                            o.locks.push(record);
                            assert(record_views(o.locks@) =~= before.push(rv));
                        },
                    }
                    self.active = Some(o);
                }
            },
        }
    }

    /// Reads the accumulated records and the reliability flag for `max_ts`
    /// without changing the observer.
    pub fn check(&self, max_ts: TimeStamp) -> (found: (Vec<LockRecord>, bool))
        ensures
            (record_views(found.0@), found.1) == self@.check(max_ts),
    {
        match &self.active {
            Some(o) => {
                if o.max_ts == max_ts {
                    (duplicate_records(&o.locks), o.clean)
                } else {
                    let none: Vec<LockRecord> = Vec::new();
                    assert(record_views(none@) =~= Seq::<LockRecordView>::empty());
                    (none, true)
                }
            },
            None => {
                let none: Vec<LockRecord> = Vec::new();
                assert(record_views(none@) =~= Seq::<LockRecordView>::empty());
                (none, true)
            },
        }
    }

    /// Reads as [`LockObserver::check`] does and empties the accumulator.
    pub fn check_and_clear(&mut self, max_ts: TimeStamp) -> (found: (Vec<LockRecord>, bool))
        requires
            old(self).wf(),
        ensures
            (record_views(found.0@), found.1) == old(self)@.check(max_ts),
            final(self)@ == old(self)@.drain(max_ts),
            final(self).wf(),
    {
        match self.active.take() {
            Some(o) => {
                if o.max_ts == max_ts {
                    let Observation { max_ts: armed, locks, clean } = o;
                    self.active = Some(Observation { max_ts: armed, locks: Vec::new(), clean });
                    assert(record_views(Seq::<LockRecord>::empty()) =~= Seq::<
                        LockRecordView,
                    >::empty());
                    (locks, clean)
                } else {
                    self.active = Some(o);
                    let none: Vec<LockRecord> = Vec::new();
                    assert(record_views(none@) =~= Seq::<LockRecordView>::empty());
                    (none, true)
                }
            },
            None => {
                let none: Vec<LockRecord> = Vec::new();
                assert(record_views(none@) =~= Seq::<LockRecordView>::empty());
                (none, true)
            },
        }
    }

    /// Tears the observer down if it is armed for `max_ts`, and says
    /// whether it did.
    pub fn remove(&mut self, max_ts: TimeStamp) -> (removed: bool)
        ensures
            removed == old(self)@.active_for(max_ts),
            final(self)@ == old(self)@.remove(max_ts),
            old(self).wf() ==> final(self).wf(),
    {
        let armed = match &self.active {
            Some(o) => o.max_ts == max_ts,
            None => false,
        };
        if armed {
            self.active = None;
        }
        armed
    }
}

} // verus!
