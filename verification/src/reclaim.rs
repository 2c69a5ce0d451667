//! Version reclamation: what a key space may forget once no transaction
//! can start or continue below a safe point.

use vstd::prelude::*;
use crate::bytes_order::{bytes_less, copy_bytes, lex_lt};
use crate::keyspace::{
    locks_under_own_key, sorted_by_key, KeyEntry, KeyEntryView, KeySpace, WriteRecord,
};
use crate::lock::TimeStamp;

verus! {

/// A contiguous range of keys that is reclaimed as one unit. An empty
/// `end_key` leaves the range open above.
pub struct Region {
    pub id: u64,
    pub version: u64,
    pub start_key: Vec<u8>,
    pub end_key: Vec<u8>,
}

/// The mathematical value of a [`Region`].
pub struct RegionView {
    pub id: u64,
    pub version: u64,
    pub start_key: Seq<u8>,
    pub end_key: Seq<u8>,
}

impl RegionView {
    /// Whether `key` lies in the region: at or behind `start_key`, and
    /// before `end_key` where there is one.
    pub open spec fn covers(self, key: Seq<u8>) -> bool {
        !lex_lt(key, self.start_key) && (self.end_key.len() == 0 || lex_lt(key, self.end_key))
    }
}

impl View for Region {
    type V = RegionView;

    open spec fn view(&self) -> RegionView {
        RegionView {
            id: self.id,
            version: self.version,
            start_key: self.start_key@,
            end_key: self.end_key@,
        }
    }
}

impl Region {
    /// A copy that holds the same value.
    pub fn duplicate(&self) -> (copy: Region)
        ensures
            copy@ == self@,
    {
        Region {
            id: self.id,
            version: self.version,
            start_key: copy_bytes(&self.start_key),
            end_key: copy_bytes(&self.end_key),
        }
    }

    /// Whether `key` lies in the region.
    pub fn contains(&self, key: &Vec<u8>) -> (inside: bool)
        ensures
            inside == self@.covers(key@),
    {
        !bytes_less(key, &self.start_key) && (self.end_key.len() == 0 || bytes_less(
            key,
            &self.end_key,
        ))
    }
}

/// `w` is a committed version at or below `ts`, and no committed version
/// among `writes` at or below `ts` is newer: it is what a read at `ts`
/// sees.
pub open spec fn newest_version_at(writes: Seq<WriteRecord>, w: WriteRecord, ts: TimeStamp) -> bool {
    &&& w.is_version()
    &&& w.commit_ts <= ts
    &&& forall|j: int|
        0 <= j < writes.len() && (#[trigger] writes[j]).is_version() && writes[j].commit_ts <= ts
            ==> writes[j].commit_ts <= w.commit_ts
}

/// Whether reclamation below `safe_point` keeps the write record `w` of
/// `entry`. It keeps every record that is not strictly below the safe
/// point, the newest committed version at or below the safe point, and the
/// committed version that the transaction of a pending lock reads.
pub open spec fn retained(entry: KeyEntryView, w: WriteRecord, safe_point: TimeStamp) -> bool {
    ||| w.commit_ts >= safe_point
    ||| newest_version_at(entry.writes, w, safe_point)
    ||| match entry.lock {
        Some(l) => newest_version_at(entry.writes, w, l.start_ts),
        None => false,
    }
}

/// Those of `writes` that reclamation of `entry` below `safe_point` keeps,
/// in their order.
pub open spec fn kept_writes(writes: Seq<WriteRecord>, entry: KeyEntryView, safe_point: TimeStamp)
    -> Seq<WriteRecord>
    decreases writes.len(),
{
    if writes.len() == 0 {
        Seq::empty()
    } else {
        let rest = kept_writes(writes.drop_last(), entry, safe_point);
        if retained(entry, writes.last(), safe_point) {
            rest.push(writes.last())
        } else {
            rest
        }
    }
}

/// One entry after reclamation below `safe_point`: the key and the pending
/// lock stay, of the write records those that are retained.
pub open spec fn reclaim_entry(entry: KeyEntryView, safe_point: TimeStamp) -> KeyEntryView {
    KeyEntryView {
        key: entry.key,
        lock: entry.lock,
        writes: kept_writes(entry.writes, entry, safe_point),
    }
}

/// A key space after reclamation of `region` below `safe_point`: the
/// entries of the region are reclaimed, the others stay as they are.
pub open spec fn reclaim(entries: Seq<KeyEntryView>, region: RegionView, safe_point: TimeStamp)
    -> Seq<KeyEntryView> {
    Seq::new(
        entries.len(),
        |i: int|
            if region.covers(entries[i].key) {
                reclaim_entry(entries[i], safe_point)
            } else {
                entries[i]
            },
    )
}

/// Looking at one write record more keeps what was kept, and that record
/// if it is retained.
pub proof fn lemma_kept_step(
    writes: Seq<WriteRecord>,
    entry: KeyEntryView,
    safe_point: TimeStamp,
    i: int,
)
    requires
        0 <= i < writes.len(),
    ensures
        kept_writes(writes.take(i + 1), entry, safe_point) == if retained(
            entry,
            writes[i],
            safe_point,
        ) {
            kept_writes(writes.take(i), entry, safe_point).push(writes[i])
        } else {
            kept_writes(writes.take(i), entry, safe_point)
        },
{
    assert(writes.take(i + 1).drop_last() =~= writes.take(i));
    assert(writes.take(i + 1).last() == writes[i]);
}

/// The kept records are exactly those of `writes` that are retained.
pub proof fn lemma_kept_membership(
    writes: Seq<WriteRecord>,
    entry: KeyEntryView,
    safe_point: TimeStamp,
    w: WriteRecord,
)
    ensures
        kept_writes(writes, entry, safe_point).contains(w) <==> (writes.contains(w) && retained(
            entry,
            w,
            safe_point,
        )),
    decreases writes.len(),
{
    if writes.len() > 0 {
        let rest = writes.drop_last();
        let last = writes.last();
        lemma_kept_membership(rest, entry, safe_point, w);
        let before = kept_writes(rest, entry, safe_point);
        let all = kept_writes(writes, entry, safe_point);
        if all.contains(w) {
            let k = choose|k: int| 0 <= k < all.len() && all[k] == w;
            if k < before.len() {
                assert(before[k] == w);
                assert(before.contains(w));
                let j = choose|j: int| 0 <= j < rest.len() && rest[j] == w;
                assert(writes[j] == w);
            } else {
                assert(writes[writes.len() - 1] == w);
            }
        }
        if writes.contains(w) && retained(entry, w, safe_point) {
            let j = choose|j: int| 0 <= j < writes.len() && writes[j] == w;
            if j < rest.len() {
                assert(rest[j] == w);
                assert(before.contains(w));
                let k = choose|k: int| 0 <= k < before.len() && before[k] == w;
                assert(all[k] == w);
            } else {
                assert(all[all.len() - 1] == w);
            }
        }
    }
}

/// Where every record is retained, all are kept.
pub proof fn lemma_kept_all(writes: Seq<WriteRecord>, entry: KeyEntryView, safe_point: TimeStamp)
    requires
        forall|i: int| 0 <= i < writes.len() ==> retained(entry, #[trigger] writes[i], safe_point),
    ensures
        kept_writes(writes, entry, safe_point) == writes,
    decreases writes.len(),
{
    if writes.len() > 0 {
        let rest = writes.drop_last();
        assert forall|i: int| 0 <= i < rest.len() implies retained(
            entry,
            #[trigger] rest[i],
            safe_point,
        ) by {
            assert(rest[i] == writes[i]);
        }
        lemma_kept_all(rest, entry, safe_point);
        assert(retained(entry, writes[writes.len() - 1], safe_point));
        assert(rest.push(writes.last()) =~= writes);
    } else {
        assert(writes =~= Seq::<WriteRecord>::empty());
    }
}

/// Reclaiming an entry again, below the same safe point or a lower one,
/// changes nothing.
pub proof fn lemma_reclaim_entry_again(entry: KeyEntryView, safe_point: TimeStamp, lower: TimeStamp)
    requires
        lower <= safe_point,
    ensures
        reclaim_entry(reclaim_entry(entry, safe_point), lower) == reclaim_entry(entry, safe_point),
{
    let once = reclaim_entry(entry, safe_point);
    assert forall|i: int| 0 <= i < once.writes.len() implies retained(
        once,
        #[trigger] once.writes[i],
        lower,
    ) by {
        let w = once.writes[i];
        assert(once.writes.contains(w));
        lemma_kept_membership(entry.writes, entry, safe_point, w);
        assert forall|j: int| 0 <= j < once.writes.len() implies entry.writes.contains(
            #[trigger] once.writes[j],
        ) by {
            assert(once.writes.contains(once.writes[j]));
            lemma_kept_membership(entry.writes, entry, safe_point, once.writes[j]);
        }
        if w.commit_ts >= safe_point {
        } else if newest_version_at(entry.writes, w, safe_point) {
            if w.commit_ts < lower {
                assert forall|j: int|
                    0 <= j < once.writes.len() && (#[trigger] once.writes[j]).is_version()
                        && once.writes[j].commit_ts <= lower implies once.writes[j].commit_ts
                    <= w.commit_ts by {
                    let v = once.writes[j];
                    assert(entry.writes.contains(v));
                    let k = choose|k: int| 0 <= k < entry.writes.len() && entry.writes[k] == v;
                    assert(entry.writes[k].commit_ts <= w.commit_ts);
                }
                assert(newest_version_at(once.writes, w, lower));
            }
        } else {
            let l = entry.lock.unwrap();
            assert forall|j: int|
                0 <= j < once.writes.len() && (#[trigger] once.writes[j]).is_version()
                    && once.writes[j].commit_ts <= l.start_ts implies once.writes[j].commit_ts
                <= w.commit_ts by {
                let v = once.writes[j];
                assert(entry.writes.contains(v));
                let k = choose|k: int| 0 <= k < entry.writes.len() && entry.writes[k] == v;
                assert(entry.writes[k].commit_ts <= w.commit_ts);
            }
            assert(newest_version_at(once.writes, w, l.start_ts));
        }
    }
    lemma_kept_all(once.writes, once, lower);
}

/// Idempotence: reclaiming a region twice below one safe point, or again
/// below a lower one, leaves the key space as reclaiming it once does.
pub proof fn lemma_reclaim_idempotent(
    entries: Seq<KeyEntryView>,
    region: RegionView,
    safe_point: TimeStamp,
    lower: TimeStamp,
)
    requires
        lower <= safe_point,
    ensures
        reclaim(reclaim(entries, region, safe_point), region, lower) == reclaim(
            entries,
            region,
            safe_point,
        ),
{
    let once = reclaim(entries, region, safe_point);
    let twice = reclaim(once, region, lower);
    assert forall|i: int| 0 <= i < once.len() implies twice[i] == once[i] by {
        if region.covers(entries[i].key) {
            lemma_reclaim_entry_again(entries[i], safe_point, lower);
        }
    }
    assert(twice =~= once);
}

/// Safety of reclamation. No pending lock is removed or changed, whatever
/// its start timestamp; no key appears or disappears; every write record
/// that is not strictly below the safe point survives, and so does, for
/// every key, the newest committed version at or below the safe point;
/// and nothing survives that was not there.
pub proof fn lemma_reclaim_safe(
    entries: Seq<KeyEntryView>,
    region: RegionView,
    safe_point: TimeStamp,
    i: int,
    w: WriteRecord,
)
    requires
        0 <= i < entries.len(),
    ensures
        reclaim(entries, region, safe_point).len() == entries.len(),
        reclaim(entries, region, safe_point)[i].key == entries[i].key,
        reclaim(entries, region, safe_point)[i].lock == entries[i].lock,
        entries[i].writes.contains(w) && w.commit_ts >= safe_point ==> reclaim(
            entries,
            region,
            safe_point,
        )[i].writes.contains(w),
        entries[i].writes.contains(w) && newest_version_at(entries[i].writes, w, safe_point)
            ==> reclaim(entries, region, safe_point)[i].writes.contains(w),
        reclaim(entries, region, safe_point)[i].writes.contains(w) ==> entries[i].writes.contains(
            w,
        ),
{
    lemma_kept_membership(entries[i].writes, entries[i], safe_point, w);
}

/// Reclamation keeps the invariant of the key space.
pub proof fn lemma_reclaim_keeps_order(
    entries: Seq<KeyEntryView>,
    region: RegionView,
    safe_point: TimeStamp,
)
    requires
        sorted_by_key(entries),
        locks_under_own_key(entries),
    ensures
        sorted_by_key(reclaim(entries, region, safe_point)),
        locks_under_own_key(reclaim(entries, region, safe_point)),
{
    let out = reclaim(entries, region, safe_point);
    assert forall|a: int, b: int| 0 <= a < b < out.len() implies lex_lt(
        #[trigger] out[a].key,
        #[trigger] out[b].key,
    ) by {
        assert(out[a].key == entries[a].key);
        assert(out[b].key == entries[b].key);
    }
    assert forall|i: int| 0 <= i < out.len() implies match (#[trigger] out[i]).lock {
        Some(l) => l.key == out[i].key,
        None => true,
    } by {
        assert(out[i].lock == entries[i].lock);
        assert(out[i].key == entries[i].key);
    }
}

/// The commit timestamp of the newest committed version at or below `ts`.
fn newest_commit_at(writes: &Vec<WriteRecord>, ts: TimeStamp) -> (best: Option<TimeStamp>)
    ensures
        match best {
            Some(m) => {
                &&& exists|j: int|
                    0 <= j < writes@.len() && newest_version_at(writes@, #[trigger] writes@[j], ts)
                        && writes@[j].commit_ts == m
            },
            None => forall|j: int|
                0 <= j < writes@.len() ==> !((#[trigger] writes@[j]).is_version()
                    && writes@[j].commit_ts <= ts),
        },
{
    let mut best: Option<TimeStamp> = None;
    let ghost mut at: int = 0;
    let mut i: usize = 0;
    while i < writes.len()
        invariant
            i <= writes.len(),
            match best {
                Some(m) => {
                    &&& 0 <= at < i
                    &&& writes@[at].is_version()
                    &&& writes@[at].commit_ts == m
                    &&& m <= ts
                    &&& forall|j: int|
                        0 <= j < i && (#[trigger] writes@[j]).is_version() && writes@[j].commit_ts
                            <= ts ==> writes@[j].commit_ts <= m
                },
                None => forall|j: int|
                    0 <= j < i ==> !((#[trigger] writes@[j]).is_version() && writes@[j].commit_ts
                        <= ts),
            },
        decreases writes.len() - i,
    {
        let w = writes[i];
        if w.holds_version() && w.commit_ts <= ts {
            let newer = match best {
                Some(m) => m < w.commit_ts,
                None => true,
            };
            if newer {
                best = Some(w.commit_ts);
                proof {
                    at = i as int;
                }
            }
        }
        i += 1;
    }
    proof {
        if best.is_some() {
            assert(newest_version_at(writes@, writes@[at], ts));
        }
    }
    best
}

/// Whether `w` is the version that `best` names, `best` being the commit
/// timestamp of the newest committed version at or below `ts`.
fn is_newest(writes: &Vec<WriteRecord>, best: Option<TimeStamp>, w: &WriteRecord, ts: TimeStamp) -> (newest:
    bool)
    requires
        writes@.contains(*w),
        match best {
            Some(m) => exists|j: int|
                0 <= j < writes@.len() && newest_version_at(writes@, #[trigger] writes@[j], ts)
                    && writes@[j].commit_ts == m,
            None => forall|j: int|
                0 <= j < writes@.len() ==> !((#[trigger] writes@[j]).is_version()
                    && writes@[j].commit_ts <= ts),
        },
    ensures
        newest == newest_version_at(writes@, *w, ts),
{
    let ghost k = choose|k: int| 0 <= k < writes@.len() && writes@[k] == *w;
    match best {
        Some(m) => {
            proof {
                let j = choose|j: int|
                    0 <= j < writes@.len() && newest_version_at(writes@, #[trigger] writes@[j], ts)
                        && writes@[j].commit_ts == m;
                assert(writes@[k].is_version() && writes@[k].commit_ts <= ts ==> writes@[k].commit_ts
                    <= m);
                if newest_version_at(writes@, *w, ts) {
                    assert(writes@[j].commit_ts <= w.commit_ts);
                }
            }
            w.holds_version() && w.commit_ts <= ts && w.commit_ts == m
        },
        None => {
            assert(!(writes@[k].is_version() && writes@[k].commit_ts <= ts));
            false
        },
    }
}

/// Reclaims one entry below `safe_point`.
pub(crate) fn reclaim_in_place(entry: &mut KeyEntry, safe_point: TimeStamp)
    ensures
        final(entry)@ == reclaim_entry(old(entry)@, safe_point),
{
    let ghost before = entry@;
    let best = newest_commit_at(&entry.writes, safe_point);
    let lock_ts: Option<TimeStamp> = match &entry.lock {
        Some(l) => Some(l.start_ts),
        None => None,
    };
    let best_for_lock = match lock_ts {
        Some(ts) => newest_commit_at(&entry.writes, ts),
        None => None,
    };
    let mut kept: Vec<WriteRecord> = Vec::new();
    let mut i: usize = 0;
    assert(entry.writes@.take(0) =~= Seq::<WriteRecord>::empty());
    while i < entry.writes.len()
        invariant
            entry@ == before,
            i <= entry.writes.len(),
            kept@ == kept_writes(before.writes.take(i as int), before, safe_point),
            lock_ts == match before.lock {
                Some(l) => Some(l.start_ts),
                None => None,
            },
            match best {
                Some(m) => exists|j: int|
                    0 <= j < before.writes.len() && newest_version_at(
                        before.writes,
                        #[trigger] before.writes[j],
                        safe_point,
                    ) && before.writes[j].commit_ts == m,
                None => forall|j: int|
                    0 <= j < before.writes.len() ==> !((#[trigger] before.writes[j]).is_version()
                        && before.writes[j].commit_ts <= safe_point),
            },
            match lock_ts {
                Some(ts) => match best_for_lock {
                    Some(m) => exists|j: int|
                        0 <= j < before.writes.len() && newest_version_at(
                            before.writes,
                            #[trigger] before.writes[j],
                            ts,
                        ) && before.writes[j].commit_ts == m,
                    None => forall|j: int|
                        0 <= j < before.writes.len() ==> !((
                        #[trigger] before.writes[j]).is_version() && before.writes[j].commit_ts
                            <= ts),
                },
                None => true,
            },
        decreases entry.writes.len() - i,
    {
        let w = entry.writes[i];
        assert(entry.writes@.contains(w));
        proof {
            lemma_kept_step(before.writes, before, safe_point, i as int);
        }
        let read_by_lock = match lock_ts {
            Some(ts) => is_newest(&entry.writes, best_for_lock, &w, ts),
            None => false,
        };
        if w.commit_ts >= safe_point || is_newest(&entry.writes, best, &w, safe_point)
            || read_by_lock {
            kept.push(w);
        }
        i += 1;
    }
    assert(before.writes.take(i as int) =~= before.writes);
    entry.writes = kept;
}

impl KeySpace {
    /// Reclaims the entries of `region` below `safe_point`: of the write
    /// records of each key it keeps those at or above the safe point, the
    /// newest committed version at or below it, and the version that the
    /// transaction of a pending lock reads, and forgets the rest. Pending
    /// locks are never touched.
    pub fn gc(&mut self, region: &Region, safe_point: TimeStamp)
        requires
            old(self).wf(),
        ensures
            final(self)@ == reclaim(old(self)@, region@, safe_point),
            final(self).wf(),
    {
        let ghost before = self@;
        let n = self.len();
        let mut i: usize = 0;
        while i < n
            invariant
                n == before.len(),
                i <= n,
                self@.len() == n,
                forall|j: int| 0 <= j < i ==> self@[j] == reclaim(before, region@, safe_point)[j],
                forall|j: int| i <= j < n ==> self@[j] == before[j],
            decreases n - i,
        {
            self.reclaim_at(i, region, safe_point);
            i += 1;
        }
        proof {
            assert(self@ =~= reclaim(before, region@, safe_point));
            lemma_reclaim_keeps_order(before, region@, safe_point);
        }
    }
}

} // verus!
