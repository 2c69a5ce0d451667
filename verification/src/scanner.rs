//! The physical lock scanner: a paginated read of the pending locks of a
//! node, straight from its key space and in key order.

use vstd::prelude::*;
use crate::bytes_order::{
    bytes_less, lemma_lex_asymmetric, lemma_lex_irreflexive, lemma_lex_transitive, lex_lt,
};
use crate::keyspace::{locks_under_own_key, sorted_by_key, KeyEntryView, KeySpace};
use crate::lock::{record_views, LockRecord, LockRecordView, TimeStamp};

verus! {

/// Whether `key` lies behind the lower bound of a scan. Without a bound
/// every key does; with one, the keys that sort strictly after it.
pub open spec fn behind(start: Option<Seq<u8>>, key: Seq<u8>) -> bool {
    match start {
        None => true,
        Some(s) => lex_lt(s, key),
    }
}

/// The lock of `entry` that a scan reports: the pending lock, if it started
/// at or below `max_ts` and its key lies behind the lower bound.
pub open spec fn visible_lock(entry: KeyEntryView, max_ts: TimeStamp, start: Option<Seq<u8>>)
    -> Option<LockRecordView> {
    match entry.lock {
        Some(l) => if l.start_ts <= max_ts && behind(start, entry.key) {
            Some(l)
        } else {
            None
        },
        None => None,
    }
}

/// All the locks that a scan reports, in the order of the entries.
pub open spec fn scan_all(entries: Seq<KeyEntryView>, max_ts: TimeStamp, start: Option<Seq<u8>>)
    -> Seq<LockRecordView>
    decreases entries.len(),
{
    if entries.len() == 0 {
        Seq::empty()
    } else {
        let rest = scan_all(entries.drop_last(), max_ts, start);
        match visible_lock(entries.last(), max_ts, start) {
            Some(l) => rest.push(l),
            None => rest,
        }
    }
}

/// One page of a scan: the first `limit` of the locks that it reports,
/// and all of them where `limit` is 0, which stands for no limit.
pub open spec fn scan_page(
    entries: Seq<KeyEntryView>,
    max_ts: TimeStamp,
    start: Option<Seq<u8>>,
    limit: nat,
) -> Seq<LockRecordView> {
    let all = scan_all(entries, max_ts, start);
    if limit == 0 || all.len() <= limit {
        all
    } else {
        all.take(limit as int)
    }
}

/// Scanning one entry more reports what was reported, and then the lock of
/// that entry if it is visible.
pub proof fn lemma_scan_step(
    entries: Seq<KeyEntryView>,
    max_ts: TimeStamp,
    start: Option<Seq<u8>>,
    i: int,
)
    requires
        0 <= i < entries.len(),
    ensures
        scan_all(entries.take(i + 1), max_ts, start) == match visible_lock(
            entries[i],
            max_ts,
            start,
        ) {
            Some(l) => scan_all(entries.take(i), max_ts, start).push(l),
            None => scan_all(entries.take(i), max_ts, start),
        },
{
    assert(entries.take(i + 1).drop_last() =~= entries.take(i));
    assert(entries.take(i + 1).last() == entries[i]);
}

/// What a scan reports of the first `i` entries opens what it reports of
/// the first `j`, for `i` up to `j`.
pub proof fn lemma_scan_prefix(
    entries: Seq<KeyEntryView>,
    max_ts: TimeStamp,
    start: Option<Seq<u8>>,
    i: int,
    j: int,
)
    requires
        0 <= i <= j <= entries.len(),
    ensures
        scan_all(entries.take(i), max_ts, start).is_prefix_of(
            scan_all(entries.take(j), max_ts, start),
        ),
    decreases j - i,
{
    if i < j {
        lemma_scan_prefix(entries, max_ts, start, i, j - 1);
        lemma_scan_step(entries, max_ts, start, j - 1);
    }
}

/// A scan reports exactly the visible locks of the entries.
pub proof fn lemma_scan_membership(
    entries: Seq<KeyEntryView>,
    max_ts: TimeStamp,
    start: Option<Seq<u8>>,
    l: LockRecordView,
)
    ensures
        scan_all(entries, max_ts, start).contains(l) <==> exists|i: int|
            0 <= i < entries.len() && visible_lock(#[trigger] entries[i], max_ts, start) == Some(l),
    decreases entries.len(),
{
    if entries.len() > 0 {
        let rest = entries.drop_last();
        let last = entries.len() - 1;
        lemma_scan_membership(rest, max_ts, start, l);
        let before = scan_all(rest, max_ts, start);
        let all = scan_all(entries, max_ts, start);
        if all.contains(l) {
            let k = choose|k: int| 0 <= k < all.len() && all[k] == l;
            if k < before.len() {
                assert(before[k] == l);
                assert(before.contains(l));
                let i = choose|i: int|
                    0 <= i < rest.len() && visible_lock(#[trigger] rest[i], max_ts, start) == Some(
                        l,
                    );
                assert(entries[i] == rest[i]);
            } else {
                assert(visible_lock(entries[last], max_ts, start) == Some(l));
            }
        }
        if exists|i: int|
            0 <= i < entries.len() && visible_lock(#[trigger] entries[i], max_ts, start) == Some(
                l,
            ) {
            let i = choose|i: int|
                0 <= i < entries.len() && visible_lock(#[trigger] entries[i], max_ts, start)
                    == Some(l);
            if i < last {
                assert(rest[i] == entries[i]);
                assert(before.contains(l));
                let k = choose|k: int| 0 <= k < before.len() && before[k] == l;
                assert(all[k] == l);
            } else {
                assert(all[all.len() - 1] == l);
            }
        }
    }
}

/// A key space without its last entry is still in order.
proof fn lemma_shorter_keeps_order(entries: Seq<KeyEntryView>)
    requires
        entries.len() > 0,
        sorted_by_key(entries),
        locks_under_own_key(entries),
    ensures
        sorted_by_key(entries.drop_last()),
        locks_under_own_key(entries.drop_last()),
{
    let rest = entries.drop_last();
    assert forall|i: int, j: int| 0 <= i < j < rest.len() implies lex_lt(
        #[trigger] rest[i].key,
        #[trigger] rest[j].key,
    ) by {
        assert(rest[i] == entries[i]);
        assert(rest[j] == entries[j]);
    }
    assert forall|i: int| 0 <= i < rest.len() implies match (#[trigger] rest[i]).lock {
        Some(l) => l.key == rest[i].key,
        None => true,
    } by {
        assert(rest[i] == entries[i]);
    }
}

/// In a key space whose locks stand under their own keys and in key order,
/// a scan reports its locks in strictly increasing key order.
pub proof fn lemma_scan_in_key_order(
    entries: Seq<KeyEntryView>,
    max_ts: TimeStamp,
    start: Option<Seq<u8>>,
)
    requires
        sorted_by_key(entries),
        locks_under_own_key(entries),
    ensures
        forall|a: int, b: int|
            0 <= a < b < scan_all(entries, max_ts, start).len() ==> lex_lt(
                #[trigger] scan_all(entries, max_ts, start)[a].key,
                #[trigger] scan_all(entries, max_ts, start)[b].key,
            ),
    decreases entries.len(),
{
    if entries.len() > 0 {
        let rest = entries.drop_last();
        let last = entries.len() - 1;
        lemma_shorter_keeps_order(entries);
        lemma_scan_in_key_order(rest, max_ts, start);
        let before = scan_all(rest, max_ts, start);
        let all = scan_all(entries, max_ts, start);
        assert forall|a: int, b: int| 0 <= a < b < all.len() implies lex_lt(
            #[trigger] all[a].key,
            #[trigger] all[b].key,
        ) by {
            if b < before.len() {
                assert(all[a] == before[a]);
                assert(all[b] == before[b]);
            } else {
                assert(all[a] == before[a]);
                assert(before.contains(before[a]));
                lemma_scan_membership(rest, max_ts, start, before[a]);
                let i = choose|i: int|
                    0 <= i < rest.len() && visible_lock(#[trigger] rest[i], max_ts, start) == Some(
                        before[a],
                    );
                assert(rest[i] == entries[i]);
                assert(entries[i].lock == Some(before[a]));
                assert(entries[last].lock == Some(all[b]));
                assert(lex_lt(entries[i].key, entries[last].key));
            }
        }
    }
}

/// A scan that begins behind the key of the lock that an earlier scan
/// reported at place `j` reports what the earlier scan reported behind
/// that place.
pub proof fn lemma_scan_resumes(
    entries: Seq<KeyEntryView>,
    max_ts: TimeStamp,
    start: Option<Seq<u8>>,
    j: int,
)
    requires
        sorted_by_key(entries),
        locks_under_own_key(entries),
        0 <= j < scan_all(entries, max_ts, start).len(),
    ensures
        scan_all(entries, max_ts, Some(scan_all(entries, max_ts, start)[j].key)) == scan_all(
            entries,
            max_ts,
            start,
        ).skip(j + 1),
    decreases entries.len(),
{
    let all = scan_all(entries, max_ts, start);
    let k = all[j].key;
    let resumed = scan_all(entries, max_ts, Some(k));
    let init = entries.drop_last();
    let last = entries.len() - 1;
    let all_init = scan_all(init, max_ts, start);
    lemma_shorter_keeps_order(entries);
    if j < all_init.len() {
        assert(all[j] == all_init[j]);
        lemma_scan_resumes(init, max_ts, start, j);
        assert(all_init.contains(all_init[j]));
        lemma_scan_membership(init, max_ts, start, all_init[j]);
        let i = choose|i: int|
            0 <= i < init.len() && visible_lock(#[trigger] init[i], max_ts, start) == Some(
                all_init[j],
            );
        assert(init[i] == entries[i]);
        assert(entries[i].key == k);
        assert(lex_lt(entries[i].key, entries[last].key));
        match start {
            Some(s) => {
                lemma_lex_transitive(s, k, entries[last].key);
            },
            None => {},
        }
        assert(visible_lock(entries[last], max_ts, Some(k)) == visible_lock(
            entries[last],
            max_ts,
            start,
        ));
        assert(resumed =~= all.skip(j + 1));
    } else {
        assert(k == entries[last].key);
        if resumed.len() > 0 {
            assert(resumed.contains(resumed[0]));
            lemma_scan_membership(entries, max_ts, Some(k), resumed[0]);
            let i = choose|i: int|
                0 <= i < entries.len() && visible_lock(#[trigger] entries[i], max_ts, Some(k))
                    == Some(resumed[0]);
            lemma_lex_irreflexive(k);
            if i < last {
                assert(lex_lt(entries[i].key, entries[last].key));
                lemma_lex_asymmetric(entries[i].key, k);
            }
        }
        assert(resumed =~= all.skip(j + 1));
    }
}

/// Pagination. A full page, followed by a scan that begins behind the
/// last key of the page, reports what one scan without a limit reports.
pub proof fn lemma_pages_join(
    entries: Seq<KeyEntryView>,
    max_ts: TimeStamp,
    start: Option<Seq<u8>>,
    limit: nat,
)
    requires
        sorted_by_key(entries),
        locks_under_own_key(entries),
        limit > 0,
        scan_page(entries, max_ts, start, limit).len() == limit,
    ensures
        scan_all(entries, max_ts, start) == scan_page(entries, max_ts, start, limit) + scan_all(
            entries,
            max_ts,
            Some(scan_page(entries, max_ts, start, limit).last().key),
        ),
{
    let all = scan_all(entries, max_ts, start);
    let page = scan_page(entries, max_ts, start, limit);
    assert(page.last() == all[limit - 1]);
    lemma_scan_resumes(entries, max_ts, start, limit - 1);
    assert(all =~= page + all.skip(limit as int));
}

impl KeySpace {
    /// Reads one page of the pending locks that started at or below
    /// `max_ts`, in key order: at most `limit` of them, or all where
    /// `limit` is 0, beginning strictly behind `start_key`, or at the first
    /// key where there is no `start_key`. The key space is read as it
    /// stands at the call.
    pub fn physical_scan_lock(
        &self,
        max_ts: TimeStamp,
        start_key: Option<&Vec<u8>>,
        limit: usize,
    ) -> (page: Vec<LockRecord>)
        requires
            self.wf(),
        ensures
            record_views(page@) == scan_page(
                self@,
                max_ts,
                match start_key {
                    Some(k) => Some(k@),
                    None => None,
                },
                limit as nat,
            ),
    {
        let ghost start: Option<Seq<u8>> = match start_key {
            Some(k) => Some(k@),
            None => None,
        };
        let mut page: Vec<LockRecord> = Vec::new();
        let n = self.len();
        let mut i: usize = 0;
        assert(self@.take(0) =~= Seq::<KeyEntryView>::empty());
        assert(record_views(page@) =~= Seq::<LockRecordView>::empty());
        while i < n && (limit == 0 || page.len() < limit)
            invariant
                n == self@.len(),
                i <= n,
                limit == 0 || page.len() <= limit,
                record_views(page@) == scan_all(self@.take(i as int), max_ts, start),
                start == match start_key {
                    Some(k) => Some(k@),
                    None => None,
                },
            decreases n - i,
        {
            let entry = self.entry(i);
            proof {
                lemma_scan_step(self@, max_ts, start, i as int);
            }
            match &entry.lock {
                Some(l) => {
                    let behind_start = match start_key {
                        Some(k) => bytes_less(k, &entry.key),
                        None => true,
                    };
                    if l.start_ts <= max_ts && behind_start {
                        let ghost before = record_views(page@);
                        page.push(l.duplicate());
                        assert(record_views(page@) =~= before.push(l@));
                    }
                },
                None => {},
            }
            i += 1;
        }
        proof {
            let all = scan_all(self@, max_ts, start);
            assert(self@.take(n as int) =~= self@);
            lemma_scan_prefix(self@, max_ts, start, i as int, n as int);
            if i < n {
                assert(record_views(page@) =~= all.take(limit as int));
            }
        }
        page
    }
}

} // verus!
