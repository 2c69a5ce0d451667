//! Counters of the operations that fetching data takes, per column family
//! and in total.

use vstd::prelude::*;
use vstd::string::StringExecFns;

verus! {

pub const STAT_TOTAL: &'static str = "total";

pub const STAT_PROCESSED: &'static str = "processed";

pub const STAT_GET: &'static str = "get";

pub const STAT_NEXT: &'static str = "next";

pub const STAT_PREV: &'static str = "prev";

pub const STAT_SEEK: &'static str = "seek";

pub const STAT_SEEK_FOR_PREV: &'static str = "seek_for_prev";

pub const STAT_OVER_SEEK_BOUND: &'static str = "over_seek_bound";

pub const STAT_NEXT_TOMBSTONE: &'static str = "next_tombstone";

pub const STAT_PREV_TOMBSTONE: &'static str = "prev_tombstone";

pub const STAT_SEEK_TOMBSTONE: &'static str = "seek_tombstone";

pub const STAT_SEEK_FOR_PREV_TOMBSTONE: &'static str = "seek_for_prev_tombstone";

/// The name of the column family of values.
pub const CF_DEFAULT: &'static str = "default";

/// The name of the column family of pending locks.
pub const CF_LOCK: &'static str = "lock";

/// The name of the column family of write records.
pub const CF_WRITE: &'static str = "write";

/// The sum of `a` and `b`, or the greatest number where the sum is beyond
/// it.
pub open spec fn saturating_sum(a: usize, b: usize) -> usize {
    if a + b > usize::MAX {
        usize::MAX
    } else {
        (a + b) as usize
    }
}

/// Executable form of [`saturating_sum`].
fn add_saturating(a: usize, b: usize) -> (sum: usize)
    ensures
        sum == saturating_sum(a, b),
{
    if a > usize::MAX - b {
        usize::MAX
    } else {
        a + b
    }
}

/// How much was read: keys and bytes.
#[derive(Clone, Copy, Debug, PartialEq, Eq, Structural)]
pub struct FlowStatistics {
    pub read_keys: usize,
    pub read_bytes: usize,
}

impl FlowStatistics {
    /// The sum of two flows, each counter saturating.
    pub open spec fn plus(self, other: FlowStatistics) -> FlowStatistics {
        FlowStatistics {
            read_keys: saturating_sum(self.read_keys, other.read_keys),
            read_bytes: saturating_sum(self.read_bytes, other.read_bytes),
        }
    }

    /// Adds `other` to this flow.
    pub fn add(&mut self, other: &FlowStatistics)
        ensures
            *final(self) == old(self).plus(*other),
    {
        self.read_bytes = add_saturating(self.read_bytes, other.read_bytes);
        self.read_keys = add_saturating(self.read_keys, other.read_keys);
    }
}

/// What a scan reports of one column family.
#[derive(Clone, Copy, Debug, PartialEq, Eq, Structural)]
pub struct ScanInfo {
    pub total: i64,
    pub processed: i64,
}

/// What a scan reports of the three column families.
#[derive(Clone, Copy, Debug, PartialEq, Eq, Structural)]
pub struct ScanDetail {
    pub write: ScanInfo,
    pub lock: ScanInfo,
    pub data: ScanInfo,
}

/// The operations taken on one column family when fetching data.
#[derive(Clone, Copy, Debug, PartialEq, Eq, Structural)]
pub struct CfStatistics {
    /// How many keys were of use to the reader. The caller counts them.
    pub processed: usize,
    pub get: usize,
    pub next: usize,
    pub prev: usize,
    pub seek: usize,
    pub seek_for_prev: usize,
    pub over_seek_bound: usize,
    pub flow_stats: FlowStatistics,
    pub next_tombstone: usize,
    pub prev_tombstone: usize,
    pub seek_tombstone: usize,
    pub seek_for_prev_tombstone: usize,
}

impl Default for CfStatistics {
    fn default() -> (stats: CfStatistics)
        ensures
            stats == CfStatistics::zero(),
    {
        CfStatistics {
            processed: 0,
            get: 0,
            next: 0,
            prev: 0,
            seek: 0,
            seek_for_prev: 0,
            over_seek_bound: 0,
            flow_stats: FlowStatistics { read_keys: 0, read_bytes: 0 },
            next_tombstone: 0,
            prev_tombstone: 0,
            seek_tombstone: 0,
            seek_for_prev_tombstone: 0,
        }
    }
}

impl CfStatistics {
    /// Statistics in which nothing is counted.
    pub open spec fn zero() -> CfStatistics {
        CfStatistics {
            processed: 0,
            get: 0,
            next: 0,
            prev: 0,
            seek: 0,
            seek_for_prev: 0,
            over_seek_bound: 0,
            flow_stats: FlowStatistics { read_keys: 0, read_bytes: 0 },
            next_tombstone: 0,
            prev_tombstone: 0,
            seek_tombstone: 0,
            seek_for_prev_tombstone: 0,
        }
    }

    /// The number of operations: gets, steps either way and seeks either
    /// way.
    pub open spec fn op_count(self) -> int {
        self.get + self.next + self.prev + self.seek + self.seek_for_prev
    }

    /// The sum of two statistics, each counter saturating.
    pub open spec fn plus(self, other: CfStatistics) -> CfStatistics {
        CfStatistics {
            processed: saturating_sum(self.processed, other.processed),
            get: saturating_sum(self.get, other.get),
            next: saturating_sum(self.next, other.next),
            prev: saturating_sum(self.prev, other.prev),
            seek: saturating_sum(self.seek, other.seek),
            seek_for_prev: saturating_sum(self.seek_for_prev, other.seek_for_prev),
            over_seek_bound: saturating_sum(self.over_seek_bound, other.over_seek_bound),
            flow_stats: self.flow_stats.plus(other.flow_stats),
            next_tombstone: saturating_sum(self.next_tombstone, other.next_tombstone),
            prev_tombstone: saturating_sum(self.prev_tombstone, other.prev_tombstone),
            seek_tombstone: saturating_sum(self.seek_tombstone, other.seek_tombstone),
            seek_for_prev_tombstone: saturating_sum(
                self.seek_for_prev_tombstone,
                other.seek_for_prev_tombstone,
            ),
        }
    }

    /// The counters under their names, the number of operations first.
    pub open spec fn named(self) -> Seq<(Seq<char>, int)> {
        seq![
            (STAT_TOTAL@, self.op_count()),
            (STAT_PROCESSED@, self.processed as int),
            (STAT_GET@, self.get as int),
            (STAT_NEXT@, self.next as int),
            (STAT_PREV@, self.prev as int),
            (STAT_SEEK@, self.seek as int),
            (STAT_SEEK_FOR_PREV@, self.seek_for_prev as int),
            (STAT_OVER_SEEK_BOUND@, self.over_seek_bound as int),
            (STAT_NEXT_TOMBSTONE@, self.next_tombstone as int),
            (STAT_PREV_TOMBSTONE@, self.prev_tombstone as int),
            (STAT_SEEK_TOMBSTONE@, self.seek_tombstone as int),
            (STAT_SEEK_FOR_PREV_TOMBSTONE@, self.seek_for_prev_tombstone as int),
        ]
    }

    /// The number of operations.
    #[inline]
    pub fn total_op_count(&self) -> (total: usize)
        requires
            self.op_count() <= usize::MAX,
        ensures
            total == self.op_count(),
    {
        self.get + self.next + self.prev + self.seek + self.seek_for_prev
    }

    /// The counters under their names, the number of operations first.
    pub fn details(&self) -> (list: [(&'static str, usize); 12])
        requires
            self.op_count() <= usize::MAX,
        ensures
            forall|i: int|
                0 <= i < 12 ==> (#[trigger] list@[i]).0@ == self.named()[i].0 && list@[i].1
                    == self.named()[i].1,
    {
        [
            (STAT_TOTAL, self.total_op_count()),
            (STAT_PROCESSED, self.processed),
            (STAT_GET, self.get),
            (STAT_NEXT, self.next),
            (STAT_PREV, self.prev),
            (STAT_SEEK, self.seek),
            (STAT_SEEK_FOR_PREV, self.seek_for_prev),
            (STAT_OVER_SEEK_BOUND, self.over_seek_bound),
            (STAT_NEXT_TOMBSTONE, self.next_tombstone),
            (STAT_PREV_TOMBSTONE, self.prev_tombstone),
            (STAT_SEEK_TOMBSTONE, self.seek_tombstone),
            (STAT_SEEK_FOR_PREV_TOMBSTONE, self.seek_for_prev_tombstone),
        ]
    }

    /// Adds `other` to these statistics, each counter saturating.
    pub fn add(&mut self, other: &CfStatistics)
        ensures
            *final(self) == old(self).plus(*other),
    {
        self.processed = add_saturating(self.processed, other.processed);
        self.get = add_saturating(self.get, other.get);
        self.next = add_saturating(self.next, other.next);
        self.prev = add_saturating(self.prev, other.prev);
        self.seek = add_saturating(self.seek, other.seek);
        self.seek_for_prev = add_saturating(self.seek_for_prev, other.seek_for_prev);
        self.over_seek_bound = add_saturating(self.over_seek_bound, other.over_seek_bound);
        self.flow_stats.add(&other.flow_stats);
        self.next_tombstone = add_saturating(self.next_tombstone, other.next_tombstone);
        self.prev_tombstone = add_saturating(self.prev_tombstone, other.prev_tombstone);
        self.seek_tombstone = add_saturating(self.seek_tombstone, other.seek_tombstone);
        self.seek_for_prev_tombstone = add_saturating(
            self.seek_for_prev_tombstone,
            other.seek_for_prev_tombstone,
        );
    }

    /// What a scan reports of this column family: the two counts as signed
    /// numbers, a count beyond the signed range wrapping round.
    pub fn scan_info(&self) -> (info: ScanInfo)
        requires
            self.op_count() <= usize::MAX,
        ensures
            info.processed == self.processed as i64,
            info.total == (self.op_count() as usize) as i64,
    {
        let total = self.total_op_count();
        ScanInfo {
            total: #[verifier::truncate] (total as i64),
            processed: #[verifier::truncate] (self.processed as i64),
        }
    }
}

/// The operations taken on the three column families.
#[derive(Clone, Copy, Debug, PartialEq, Eq, Structural)]
pub struct Statistics {
    pub lock: CfStatistics,
    pub write: CfStatistics,
    pub data: CfStatistics,
}

impl Default for Statistics {
    fn default() -> (stats: Statistics)
        ensures
            stats == Statistics::zero(),
    {
        Statistics {
            lock: CfStatistics::default(),
            write: CfStatistics::default(),
            data: CfStatistics::default(),
        }
    }
}

/// Whether `cf` names a column family: the empty name stands for that of
/// values.
pub open spec fn is_cf_name(cf: Seq<char>) -> bool {
    cf.len() == 0 || cf == CF_DEFAULT@ || cf == CF_LOCK@ || cf == CF_WRITE@
}

/// Whether two texts are the same.
fn same_text(a: &str, b: &str) -> (same: bool)
    ensures
        same == (a@ == b@),
{
    String::from_str(a) == String::from_str(b)
}

impl Statistics {
    /// Statistics in which nothing is counted.
    pub open spec fn zero() -> Statistics {
        Statistics {
            lock: CfStatistics::zero(),
            write: CfStatistics::zero(),
            data: CfStatistics::zero(),
        }
    }

    /// The number of operations on the three column families.
    pub open spec fn op_count(self) -> int {
        self.lock.op_count() + self.write.op_count() + self.data.op_count()
    }

    /// The number of keys that were of use, over the three column
    /// families.
    pub open spec fn processed(self) -> int {
        self.lock.processed + self.write.processed + self.data.processed
    }

    /// The sum of two statistics, family by family.
    pub open spec fn plus(self, other: Statistics) -> Statistics {
        Statistics {
            lock: self.lock.plus(other.lock),
            write: self.write.plus(other.write),
            data: self.data.plus(other.data),
        }
    }

    /// The number of operations on the three column families.
    pub fn total_op_count(&self) -> (total: usize)
        requires
            self.op_count() <= usize::MAX,
        ensures
            total == self.op_count(),
    {
        self.lock.total_op_count() + self.write.total_op_count() + self.data.total_op_count()
    }

    /// The number of keys that were of use.
    pub fn total_processed(&self) -> (total: usize)
        requires
            self.processed() <= usize::MAX,
        ensures
            total == self.processed(),
    {
        self.lock.processed + self.write.processed + self.data.processed
    }

    /// The counters of each column family under its name: values, locks,
    /// write records.
    pub fn details(&self) -> (list: [(&'static str, [(&'static str, usize); 12]); 3])
        requires
            self.lock.op_count() <= usize::MAX,
            self.write.op_count() <= usize::MAX,
            self.data.op_count() <= usize::MAX,
        ensures
            list@[0].0@ == CF_DEFAULT@,
            list@[1].0@ == CF_LOCK@,
            list@[2].0@ == CF_WRITE@,
            forall|i: int|
                0 <= i < 12 ==> (#[trigger] list@[0].1@[i]).0@ == self.data.named()[i].0
                    && list@[0].1@[i].1 == self.data.named()[i].1,
            forall|i: int|
                0 <= i < 12 ==> (#[trigger] list@[1].1@[i]).0@ == self.lock.named()[i].0
                    && list@[1].1@[i].1 == self.lock.named()[i].1,
            forall|i: int|
                0 <= i < 12 ==> (#[trigger] list@[2].1@[i]).0@ == self.write.named()[i].0
                    && list@[2].1@[i].1 == self.write.named()[i].1,
    {
        [
            (CF_DEFAULT, self.data.details()),
            (CF_LOCK, self.lock.details()),
            (CF_WRITE, self.write.details()),
        ]
    }

    /// Adds `other` to these statistics, each counter saturating.
    pub fn add(&mut self, other: &Statistics)
        ensures
            *final(self) == old(self).plus(*other),
    {
        self.lock.add(&other.lock);
        self.write.add(&other.write);
        self.data.add(&other.data);
    }

    /// What a scan reports of the three column families.
    pub fn scan_detail(&self) -> (detail: ScanDetail)
        requires
            self.lock.op_count() <= usize::MAX,
            self.write.op_count() <= usize::MAX,
            self.data.op_count() <= usize::MAX,
        ensures
            detail.data.processed == self.data.processed as i64,
            detail.data.total == (self.data.op_count() as usize) as i64,
            detail.lock.processed == self.lock.processed as i64,
            detail.lock.total == (self.lock.op_count() as usize) as i64,
            detail.write.processed == self.write.processed as i64,
            detail.write.total == (self.write.op_count() as usize) as i64,
    {
        ScanDetail {
            data: self.data.scan_info(),
            lock: self.lock.scan_info(),
            write: self.write.scan_info(),
        }
    }

    /// The statistics of the column family `cf`, to be changed in place.
    /// The empty name stands for the family of values.
    pub fn mut_cf_statistics(&mut self, cf: &str) -> (stats: &mut CfStatistics)
        requires
            is_cf_name(cf@),
        ensures
            cf@.len() == 0 || cf@ == CF_DEFAULT@ ==> *stats == old(self).data && *final(self) == (
            Statistics { data: *final(stats), ..*old(self) }),
            cf@ == CF_LOCK@ ==> *stats == old(self).lock && *final(self) == (Statistics {
                lock: *final(stats),
                ..*old(self)
            }),
            cf@ == CF_WRITE@ ==> *stats == old(self).write && *final(self) == (Statistics {
                write: *final(stats),
                ..*old(self)
            }),
    {
        proof {
            reveal_strlit("default");
            reveal_strlit("lock");
            reveal_strlit("write");
        }
        if cf.is_empty() {
            return &mut self.data;
        }
        if same_text(cf, CF_DEFAULT) {
            &mut self.data
        } else if same_text(cf, CF_LOCK) {
            &mut self.lock
        } else {
            &mut self.write
        }
    }
}

/// Statistics summed over a number of requests.
#[derive(Clone, Copy, Debug, PartialEq, Eq, Structural)]
pub struct StatisticsSummary {
    pub stat: Statistics,
    pub count: u64,
}

impl Default for StatisticsSummary {
    fn default() -> (summary: StatisticsSummary)
        ensures
            summary.stat == Statistics::zero(),
            summary.count == 0,
    {
        StatisticsSummary { stat: Statistics::default(), count: 0 }
    }
}

impl StatisticsSummary {
    /// Adds the statistics of one more request.
    pub fn add_statistics(&mut self, v: &Statistics)
        requires
            old(self).count < u64::MAX,
        ensures
            final(self).stat == old(self).stat.plus(*v),
            final(self).count == old(self).count + 1,
    {
        self.stat.add(v);
        self.count += 1;
    }
}

} // verus!
