//! The versioned key space of one node, as far as reclamation reads and
//! changes it: for each key the pending lock, if any, and the write
//! records that transactions left there.

use vstd::prelude::*;
use crate::bytes_order::{
    bytes_equal, bytes_less, copy_bytes, lemma_lex_irreflexive, lemma_lex_total,
    lemma_lex_transitive, lex_lt,
};
use crate::lock::{LockRecord, LockRecordView, TimeStamp};
use crate::reclaim::{reclaim_entry, reclaim_in_place, Region};

verus! {

/// What a write record stands for.
#[derive(Clone, Copy, Debug, PartialEq, Eq, Structural)]
pub enum WriteKind {
    /// A committed value.
    Put,
    /// A committed deletion.
    Delete,
    /// The trace of a committed transaction that only locked the key.
    Lock,
    /// The trace of a transaction that was rolled back.
    Rollback,
}

/// One record of the write family of a key.
#[derive(Clone, Copy, Debug, PartialEq, Eq, Structural)]
pub struct WriteRecord {
    pub commit_ts: TimeStamp,
    pub start_ts: TimeStamp,
    pub kind: WriteKind,
}

impl WriteRecord {
    /// Whether the record is a committed version of the key's data, as
    /// opposed to the trace of a resolved lock.
    pub open spec fn is_version(self) -> bool {
        self.kind == WriteKind::Put || self.kind == WriteKind::Delete
    }

    /// Executable form of [`WriteRecord::is_version`].
    pub fn holds_version(&self) -> (version: bool)
        ensures
            version == self.is_version(),
    {
        match self.kind {
            WriteKind::Put => true,
            WriteKind::Delete => true,
            WriteKind::Lock => false,
            WriteKind::Rollback => false,
        }
    }
}

/// All that the key space holds for one key.
pub struct KeyEntry {
    pub key: Vec<u8>,
    pub lock: Option<LockRecord>,
    pub writes: Vec<WriteRecord>,
}

/// The mathematical value of a [`KeyEntry`].
pub struct KeyEntryView {
    pub key: Seq<u8>,
    pub lock: Option<LockRecordView>,
    pub writes: Seq<WriteRecord>,
}

impl View for KeyEntry {
    type V = KeyEntryView;

    open spec fn view(&self) -> KeyEntryView {
        KeyEntryView {
            key: self.key@,
            lock: match self.lock {
                Some(l) => Some(l@),
                None => None,
            },
            writes: self.writes@,
        }
    }
}

/// The values of a run of entries, in order.
pub open spec fn entry_views(entries: Seq<KeyEntry>) -> Seq<KeyEntryView> {
    entries.map_values(|e: KeyEntry| e@)
}

/// The entries stand in strictly increasing key order.
pub open spec fn sorted_by_key(entries: Seq<KeyEntryView>) -> bool {
    forall|i: int, j: int|
        0 <= i < j < entries.len() ==> lex_lt(#[trigger] entries[i].key, #[trigger] entries[j].key)
}

/// Every pending lock stands under the key that it locks.
pub open spec fn locks_under_own_key(entries: Seq<KeyEntryView>) -> bool {
    forall|i: int|
        0 <= i < entries.len() ==> match (#[trigger] entries[i]).lock {
            Some(l) => l.key == entries[i].key,
            None => true,
        }
}

/// Whether `entries` has an entry for `key`.
pub open spec fn has_key(entries: Seq<KeyEntryView>, key: Seq<u8>) -> bool {
    exists|i: int| 0 <= i < entries.len() && (#[trigger] entries[i]).key == key
}

/// The place of the entry for `key`, where there is one.
pub open spec fn place_of(entries: Seq<KeyEntryView>, key: Seq<u8>) -> int {
    choose|i: int| 0 <= i < entries.len() && (#[trigger] entries[i]).key == key
}

/// The pending lock on `key`.
pub open spec fn lock_at(entries: Seq<KeyEntryView>, key: Seq<u8>) -> Option<LockRecordView> {
    if has_key(entries, key) {
        entries[place_of(entries, key)].lock
    } else {
        None
    }
}

/// The write records of `key`, in the order in which they were put.
pub open spec fn writes_at(entries: Seq<KeyEntryView>, key: Seq<u8>) -> Seq<WriteRecord> {
    if has_key(entries, key) {
        entries[place_of(entries, key)].writes
    } else {
        Seq::empty()
    }
}

/// In a sorted key space the entry at place `i` is the one that a lookup
/// of its key finds.
pub proof fn lemma_lookup_at(entries: Seq<KeyEntryView>, i: int)
    requires
        sorted_by_key(entries),
        0 <= i < entries.len(),
    ensures
        has_key(entries, entries[i].key),
        place_of(entries, entries[i].key) == i,
        lock_at(entries, entries[i].key) == entries[i].lock,
        writes_at(entries, entries[i].key) == entries[i].writes,
{
    let key = entries[i].key;
    assert(has_key(entries, key));
    let p = place_of(entries, key);
    lemma_lex_irreflexive(key);
    if p < i {
        assert(lex_lt(entries[p].key, entries[i].key));
    } else if i < p {
        assert(lex_lt(entries[i].key, entries[p].key));
    }
}

/// Replacing the entry at place `i` by one of the same key changes what a
/// lookup of that key finds, and nothing else.
pub proof fn lemma_replace_entry(entries: Seq<KeyEntryView>, i: int, entry: KeyEntryView)
    requires
        sorted_by_key(entries),
        0 <= i < entries.len(),
        entry.key == entries[i].key,
    ensures
        sorted_by_key(entries.update(i, entry)),
        forall|k: Seq<u8>|
            #[trigger] lock_at(entries.update(i, entry), k) == if k == entry.key {
                entry.lock
            } else {
                lock_at(entries, k)
            },
        forall|k: Seq<u8>|
            #[trigger] writes_at(entries.update(i, entry), k) == if k == entry.key {
                entry.writes
            } else {
                writes_at(entries, k)
            },
{
    let out = entries.update(i, entry);
    assert forall|a: int, b: int| 0 <= a < b < out.len() implies lex_lt(
        #[trigger] out[a].key,
        #[trigger] out[b].key,
    ) by {
        assert(out[a].key == entries[a].key);
        assert(out[b].key == entries[b].key);
    }
    assert forall|k: Seq<u8>|
        #[trigger] lock_at(out, k) == (if k == entry.key {
            entry.lock
        } else {
            lock_at(entries, k)
        }) by {
        if has_key(out, k) {
            let p = place_of(out, k);
            assert(entries[p].key == k);
            lemma_lookup_at(out, p);
            lemma_lookup_at(entries, p);
            lemma_lookup_at(entries, i);
        } else {
            assert(out[i].key == entry.key);
            if has_key(entries, k) {
                let p = place_of(entries, k);
                assert(out[p].key == k);
            }
        }
    }
    assert forall|k: Seq<u8>|
        #[trigger] writes_at(out, k) == (if k == entry.key {
            entry.writes
        } else {
            writes_at(entries, k)
        }) by {
        if has_key(out, k) {
            let p = place_of(out, k);
            assert(entries[p].key == k);
            lemma_lookup_at(out, p);
            lemma_lookup_at(entries, p);
            lemma_lookup_at(entries, i);
        } else {
            assert(out[i].key == entry.key);
            if has_key(entries, k) {
                let p = place_of(entries, k);
                assert(out[p].key == k);
            }
        }
    }
}

/// Putting a new entry where its key belongs adds what a lookup of that
/// key finds, and changes nothing else.
pub proof fn lemma_insert_entry(entries: Seq<KeyEntryView>, i: int, entry: KeyEntryView)
    requires
        sorted_by_key(entries),
        0 <= i <= entries.len(),
        forall|j: int| 0 <= j < i ==> lex_lt(#[trigger] entries[j].key, entry.key),
        forall|j: int| i <= j < entries.len() ==> lex_lt(entry.key, #[trigger] entries[j].key),
    ensures
        sorted_by_key(entries.insert(i, entry)),
        !has_key(entries, entry.key),
        forall|k: Seq<u8>|
            #[trigger] lock_at(entries.insert(i, entry), k) == if k == entry.key {
                entry.lock
            } else {
                lock_at(entries, k)
            },
        forall|k: Seq<u8>|
            #[trigger] writes_at(entries.insert(i, entry), k) == if k == entry.key {
                entry.writes
            } else {
                writes_at(entries, k)
            },
{
    let out = entries.insert(i, entry);
    lemma_lex_irreflexive(entry.key);
    assert forall|a: int, b: int| 0 <= a < b < out.len() implies lex_lt(
        #[trigger] out[a].key,
        #[trigger] out[b].key,
    ) by {
        if a < i {
            assert(out[a] == entries[a]);
        } else if a > i {
            assert(out[a] == entries[a - 1]);
        }
        if b < i {
            assert(out[b] == entries[b]);
        } else if b > i {
            assert(out[b] == entries[b - 1]);
        }
    }
    if has_key(entries, entry.key) {
        let p = place_of(entries, entry.key);
        assert(lex_lt(entries[p].key, entry.key) || lex_lt(entry.key, entries[p].key));
    }
    assert forall|k: Seq<u8>|
        #[trigger] lock_at(out, k) == (if k == entry.key {
            entry.lock
        } else {
            lock_at(entries, k)
        }) by {
        assert(out[i] == entry);
        if has_key(out, k) {
            let p = place_of(out, k);
            lemma_lookup_at(out, p);
            if p < i {
                assert(out[p] == entries[p]);
                lemma_lookup_at(entries, p);
            } else if p > i {
                assert(out[p] == entries[p - 1]);
                lemma_lookup_at(entries, p - 1);
            }
        } else {
            if has_key(entries, k) {
                let p = place_of(entries, k);
                if p < i {
                    assert(out[p] == entries[p]);
                } else {
                    assert(out[p + 1] == entries[p]);
                }
            }
        }
    }
    assert forall|k: Seq<u8>|
        #[trigger] writes_at(out, k) == (if k == entry.key {
            entry.writes
        } else {
            writes_at(entries, k)
        }) by {
        assert(out[i] == entry);
        if has_key(out, k) {
            let p = place_of(out, k);
            lemma_lookup_at(out, p);
            if p < i {
                assert(out[p] == entries[p]);
                lemma_lookup_at(entries, p);
            } else if p > i {
                assert(out[p] == entries[p - 1]);
                lemma_lookup_at(entries, p - 1);
            }
        } else {
            if has_key(entries, k) {
                let p = place_of(entries, k);
                if p < i {
                    assert(out[p] == entries[p]);
                } else {
                    assert(out[p + 1] == entries[p]);
                }
            }
        }
    }
}

/// The key space of one node.
pub struct KeySpace {
    entries: Vec<KeyEntry>,
}

impl View for KeySpace {
    type V = Seq<KeyEntryView>;

    closed spec fn view(&self) -> Seq<KeyEntryView> {
        entry_views(self.entries@)
    }
}

impl KeySpace {
    /// The invariant of the key space: one entry per key, in key order,
    /// each lock under its own key.
    pub open spec fn wf(&self) -> bool {
        &&& sorted_by_key(self@)
        &&& locks_under_own_key(self@)
    }

    /// An empty key space.
    pub fn new() -> (space: KeySpace)
        ensures
            space@ == Seq::<KeyEntryView>::empty(),
            space.wf(),
    {
        let space = KeySpace { entries: Vec::new() };
        assert(space@ =~= Seq::<KeyEntryView>::empty());
        space
    }

    /// The number of entries.
    pub fn len(&self) -> (n: usize)
        ensures
            n == self@.len(),
    {
        self.entries.len()
    }

    /// The entry at place `i` in key order.
    pub fn entry(&self, i: usize) -> (e: &KeyEntry)
        requires
            i < self@.len(),
        ensures
            e@ == self@[i as int],
    {
        &self.entries[i]
    }

    /// The number of keys below `key`, and whether `key` itself is there.
    fn find_slot(&self, key: &Vec<u8>) -> (slot: (usize, bool))
        requires
            self.wf(),
        ensures
            slot.0 <= self@.len(),
            forall|j: int| 0 <= j < slot.0 ==> lex_lt(#[trigger] self@[j].key, key@),
            slot.1 ==> slot.0 < self@.len() && self@[slot.0 as int].key == key@,
            !slot.1 ==> forall|j: int|
                slot.0 <= j < self@.len() ==> lex_lt(key@, #[trigger] self@[j].key),
            slot.1 == has_key(self@, key@),
    {
        let mut i: usize = 0;
        while i < self.entries.len() && bytes_less(&self.entries[i].key, key)
            invariant
                i <= self.entries.len(),
                forall|j: int| 0 <= j < i ==> lex_lt(#[trigger] self@[j].key, key@),
            decreases self.entries.len() - i,
        {
            i += 1;
        }
        let present = i < self.entries.len() && bytes_equal(&self.entries[i].key, key);
        proof {
            if present {
                assert(self@[i as int].key == key@);
            } else {
                assert forall|j: int| i <= j < self@.len() implies lex_lt(
                    key@,
                    #[trigger] self@[j].key,
                ) by {
                    lemma_lex_total(self@[i as int].key, key@);
                    if j > i {
                        assert(lex_lt(self@[i as int].key, self@[j].key));
                        lemma_lex_transitive(key@, self@[i as int].key, self@[j].key);
                    }
                }
                if has_key(self@, key@) {
                    lemma_lex_irreflexive(key@);
                }
            }
        }
        (i, present)
    }

    /// The pending lock on `key`, if there is one.
    pub fn lock_of(&self, key: &Vec<u8>) -> (found: Option<LockRecord>)
        requires
            self.wf(),
        ensures
            match found {
                Some(l) => lock_at(self@, key@) == Some(l@),
                None => lock_at(self@, key@).is_none(),
            },
    {
        let (i, present) = self.find_slot(key);
        if present {
            proof {
                lemma_lookup_at(self@, i as int);
            }
            match &self.entries[i].lock {
                Some(l) => Some(l.duplicate()),
                None => None,
            }
        } else {
            None
        }
    }

    /// The write records of `key`.
    pub fn writes_of(&self, key: &Vec<u8>) -> (found: Vec<WriteRecord>)
        requires
            self.wf(),
        ensures
            found@ == writes_at(self@, key@),
    {
        let (i, present) = self.find_slot(key);
        let mut out: Vec<WriteRecord> = Vec::new();
        if present {
            proof {
                lemma_lookup_at(self@, i as int);
            }
            let writes = &self.entries[i].writes;
            let mut k: usize = 0;
            while k < writes.len()
                invariant
                    k <= writes.len(),
                    out@ == writes@.subrange(0, k as int),
                decreases writes.len() - k,
            {
                out.push(writes[k]);
                assert(out@ =~= writes@.subrange(0, k + 1));
                k += 1;
            }
            assert(out@ =~= writes@);
        }
        out
    }
    /// Applies a lock write: `record` becomes the pending lock on its key,
    /// in place of any lock that was there.
    pub fn put_lock(&mut self, record: LockRecord)
        requires
            old(self).wf(),
        ensures
            final(self).wf(),
            forall|k: Seq<u8>|
                #[trigger] lock_at(final(self)@, k) == if k == record@.key {
                    Some(record@)
                } else {
                    lock_at(old(self)@, k)
                },
            forall|k: Seq<u8>| #[trigger] writes_at(final(self)@, k) == writes_at(old(self)@, k),
    {
        let (i, present) = self.find_slot(&record.key);
        let ghost before = self@;
        let ghost rv = record@;
        if present {
            self.entries[i].lock = Some(record);
            let ghost ev = self.entries@[i as int]@;
            proof {
                assert(self@ =~= before.update(i as int, ev));
                lemma_lookup_at(before, i as int);
                lemma_replace_entry(before, i as int, ev);
                assert forall|j: int| 0 <= j < self@.len() implies match (#[trigger] self@[j]).lock {
                    Some(l) => l.key == self@[j].key,
                    None => true,
                } by {
                    if j != i {
                        assert(self@[j] == before[j]);
                    }
                }
            }
        } else {
            let entry = KeyEntry {
                key: copy_bytes(&record.key),
                lock: Some(record),
                writes: Vec::new(),
            };
            let ghost ev = entry@;
            self.entries.insert(i, entry);
            proof {
                assert(self@ =~= before.insert(i as int, ev));
                lemma_insert_entry(before, i as int, ev);
                assert(writes_at(before, rv.key) =~= ev.writes);
                assert forall|j: int| 0 <= j < self@.len() implies match (#[trigger] self@[j]).lock {
                    Some(l) => l.key == self@[j].key,
                    None => true,
                } by {
                    if j < i {
                        assert(self@[j] == before[j]);
                    } else if j > i {
                        assert(self@[j] == before[j - 1]);
                    }
                }
            }
        }
    }

    /// Removes the pending lock on `key`, as a commit or a rollback does,
    /// and hands it out.
    pub fn remove_lock(&mut self, key: &Vec<u8>) -> (removed: Option<LockRecord>)
        requires
            old(self).wf(),
        ensures
            final(self).wf(),
            match removed {
                Some(l) => lock_at(old(self)@, key@) == Some(l@),
                None => lock_at(old(self)@, key@).is_none(),
            },
            forall|k: Seq<u8>|
                #[trigger] lock_at(final(self)@, k) == if k == key@ {
                    None
                } else {
                    lock_at(old(self)@, k)
                },
            forall|k: Seq<u8>| #[trigger] writes_at(final(self)@, k) == writes_at(old(self)@, k),
    {
        let (i, present) = self.find_slot(key);
        let ghost before = self@;
        if present {
            let removed = self.entries[i].lock.take();
            let ghost ev = self.entries@[i as int]@;
            proof {
                assert(self@ =~= before.update(i as int, ev));
                lemma_lookup_at(before, i as int);
                lemma_replace_entry(before, i as int, ev);
                assert forall|j: int| 0 <= j < self@.len() implies match (#[trigger] self@[j]).lock {
                    Some(l) => l.key == self@[j].key,
                    None => true,
                } by {
                    if j != i {
                        assert(self@[j] == before[j]);
                    }
                }
            }
            removed
        } else {
            None
        }
    }

    /// Appends `write` to the write records of `key`.
    pub fn put_write(&mut self, key: &Vec<u8>, write: WriteRecord)
        requires
            old(self).wf(),
        ensures
            final(self).wf(),
            forall|k: Seq<u8>| #[trigger] lock_at(final(self)@, k) == lock_at(old(self)@, k),
            forall|k: Seq<u8>|
                #[trigger] writes_at(final(self)@, k) == if k == key@ {
                    writes_at(old(self)@, k).push(write)
                } else {
                    writes_at(old(self)@, k)
                },
    {
        let (i, present) = self.find_slot(key);
        let ghost before = self@;
        if present {
            self.entries[i].writes.push(write);
            let ghost ev = self.entries@[i as int]@;
            proof {
                assert(self@ =~= before.update(i as int, ev));
                lemma_lookup_at(before, i as int);
                lemma_replace_entry(before, i as int, ev);
                assert forall|j: int| 0 <= j < self@.len() implies match (#[trigger] self@[j]).lock {
                    Some(l) => l.key == self@[j].key,
                    None => true,
                } by {
                    if j != i {
                        assert(self@[j] == before[j]);
                    }
                }
            }
        } else {
            let mut writes: Vec<WriteRecord> = Vec::new();
            writes.push(write);
            let entry = KeyEntry { key: copy_bytes(key), lock: None, writes };
            let ghost ev = entry@;
            self.entries.insert(i, entry);
            proof {
                assert(self@ =~= before.insert(i as int, ev));
                lemma_insert_entry(before, i as int, ev);
                assert(writes_at(before, key@).push(write) =~= ev.writes);
                assert forall|j: int| 0 <= j < self@.len() implies match (#[trigger] self@[j]).lock {
                    Some(l) => l.key == self@[j].key,
                    None => true,
                } by {
                    if j < i {
                        assert(self@[j] == before[j]);
                    } else if j > i {
                        assert(self@[j] == before[j - 1]);
                    }
                }
            }
        }
    }

    /// Reclaims the entry at place `i` if its key lies in `region`.
    pub(crate) fn reclaim_at(&mut self, i: usize, region: &Region, safe_point: TimeStamp)
        requires
            i < old(self)@.len(),
        ensures
            final(self)@.len() == old(self)@.len(),
            final(self)@[i as int] == if region@.covers(old(self)@[i as int].key) {
                reclaim_entry(old(self)@[i as int], safe_point)
            } else {
                old(self)@[i as int]
            },
            forall|j: int|
                0 <= j < old(self)@.len() && j != i ==> final(self)@[j] == old(self)@[j],
    {
        if region.contains(&self.entries[i].key) {
            reclaim_in_place(&mut self.entries[i], safe_point);
        }
    }
}

} // verus!
