//! Timestamps and the lock records that transactions leave behind.

use vstd::prelude::*;
use crate::bytes_order::{bytes_equal, copy_bytes};

verus! {

/// A totally ordered 64-bit value, used to identify a transaction and to
/// mark a version. Comparison is the only operation that reclamation uses.
pub type TimeStamp = u64;

/// What a pending transaction intends to do with the key it locked.
#[derive(Clone, Copy, Debug, PartialEq, Eq, Structural)]
pub enum LockType {
    Put,
    Delete,
    Lock,
    Pessimistic,
}

/// A pending transaction intent on one key.
#[derive(Debug)]
pub struct LockRecord {
    pub key: Vec<u8>,
    pub start_ts: TimeStamp,
    pub primary: Vec<u8>,
    pub lock_type: LockType,
}

/// The mathematical value of a [`LockRecord`].
pub struct LockRecordView {
    pub key: Seq<u8>,
    pub start_ts: TimeStamp,
    pub primary: Seq<u8>,
    pub lock_type: LockType,
}

impl LockRecordView {
    /// The owning key and the start timestamp, by which a record is told
    /// apart from every other.
    pub open spec fn identity(self) -> (Seq<u8>, TimeStamp) {
        (self.key, self.start_ts)
    }
}

impl View for LockRecord {
    type V = LockRecordView;

    open spec fn view(&self) -> LockRecordView {
        LockRecordView {
            key: self.key@,
            start_ts: self.start_ts,
            primary: self.primary@,
            lock_type: self.lock_type,
        }
    }
}

impl LockRecord {
    pub fn new(key: Vec<u8>, start_ts: TimeStamp, primary: Vec<u8>, lock_type: LockType) -> (record:
        LockRecord)
        ensures
            record@ == (LockRecordView { key: key@, start_ts, primary: primary@, lock_type }),
    {
        LockRecord { key, start_ts, primary, lock_type }
    }

    /// A copy that holds the same value.
    pub fn duplicate(&self) -> (copy: LockRecord)
        ensures
            copy@ == self@,
    {
        LockRecord {
            key: copy_bytes(&self.key),
            start_ts: self.start_ts,
            primary: copy_bytes(&self.primary),
            lock_type: self.lock_type,
        }
    }

    /// Whether `other` is the intent of the same transaction on the same key.
    pub fn same_identity(&self, other: &LockRecord) -> (same: bool)
        ensures
            same == (self@.identity() == other@.identity()),
    {
        self.start_ts == other.start_ts && bytes_equal(&self.key, &other.key)
    }
}

/// The values of a run of records, in order.
pub open spec fn record_views(records: Seq<LockRecord>) -> Seq<LockRecordView> {
    records.map_values(|r: LockRecord| r@)
}

/// Copies of `records`, in order.
pub fn duplicate_records(records: &Vec<LockRecord>) -> (copy: Vec<LockRecord>)
    ensures
        record_views(copy@) == record_views(records@),
{
    let mut out: Vec<LockRecord> = Vec::new();
    let mut i: usize = 0;
    while i < records.len()
        invariant
            i <= records.len(),
            out.len() == i,
            forall|j: int| 0 <= j < i ==> out@[j]@ == records@[j]@,
        decreases records.len() - i,
    {
        out.push(records[i].duplicate());
        i += 1;
    }
    assert(record_views(out@) =~= record_views(records@));
    out
}

} // verus!
