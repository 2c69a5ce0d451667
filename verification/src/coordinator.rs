//! The coordinator's side of a lock-collection round: in which order the
//! nodes are asked, what is made of their answers, and when the round may
//! be called complete.

use vstd::prelude::*;
use crate::bytes_order::copy_bytes;
use crate::lock::{record_views, LockRecord, LockRecordView, TimeStamp};
use crate::node::GcError;

verus! {

/// What the coordinator does next.
pub enum RoundAction {
    /// Arm the observer of `node`.
    Register { node: usize },
    /// Read the next page of the locks of `node`, behind `start_key`.
    Scan { node: usize, start_key: Option<Vec<u8>>, limit: usize },
    /// Read the observer of `node` back.
    Check { node: usize },
    /// Have the collected locks resolved.
    Resolve,
    /// Reclaim the region `region` below the safe point.
    Reclaim { region: usize },
    /// Nothing is left to do. `complete` says whether every node answered
    /// every question, every observer read clean, the locks were resolved
    /// and every region was reclaimed.
    Finish { complete: bool },
}

/// One round over the nodes `0 .. nodes` and the regions `0 .. regions`,
/// for the threshold `max_ts`.
///
/// The nodes are asked in three passes, each in the order of their
/// numbers: every observer is armed, then every node is scanned page by
/// page, then every observer is read back. If no node is affected, the
/// collected locks are resolved, and then the regions are reclaimed one
/// by one. The first failure of these two steps ends the round.
pub struct Round {
    pub max_ts: TimeStamp,
    pub nodes: usize,
    pub regions: usize,
    /// How many locks a page of a scan may hold; 0 stands for no limit.
    pub page_limit: usize,
    /// The number of nodes whose arming was answered.
    pub registered: usize,
    /// The number of nodes whose scan has ended.
    pub scanned: usize,
    /// The number of nodes whose observer was read back.
    pub checked: usize,
    /// Where the scan of the node in turn goes on.
    pub cursor: Option<Vec<u8>>,
    /// The locks collected so far, in the order of their arrival.
    pub locks: Vec<LockRecord>,
    /// For each node, whether an answer of it failed or read dirty.
    pub affected: Vec<bool>,
    /// Whether the collected locks were resolved.
    pub resolved: bool,
    /// The number of regions that were reclaimed.
    pub reclaimed: usize,
    /// Whether the resolving of the locks, or the reclaiming of a region,
    /// failed.
    pub failed: bool,
}

impl Round {
    /// The invariant of a round: no scan was answered before every node
    /// was armed, no observer was read back before every scan ended,
    /// nothing was resolved before every observer was read back and found
    /// no node affected, and no region was reclaimed before the locks were
    /// resolved.
    pub open spec fn wf(&self) -> bool {
        &&& self.registered <= self.nodes
        &&& self.scanned <= self.nodes
        &&& self.checked <= self.nodes
        &&& self.reclaimed <= self.regions
        &&& self.affected@.len() == self.nodes
        &&& (self.scanned > 0 || self.cursor.is_some()) ==> self.registered == self.nodes
        &&& self.checked > 0 ==> self.scanned == self.nodes
        &&& self.scanned == self.nodes ==> self.cursor.is_none()
        &&& (self.resolved || self.failed) ==> self.collected() && self.unaffected()
        &&& self.reclaimed > 0 ==> self.resolved
    }

    /// Whether every node was armed, scanned to the end and read back.
    pub open spec fn collected(&self) -> bool {
        &&& self.registered == self.nodes
        &&& self.scanned == self.nodes
        &&& self.checked == self.nodes
    }

    /// Whether no node is marked as affected.
    pub open spec fn unaffected(&self) -> bool {
        forall|i: int| 0 <= i < self.affected@.len() ==> !self.affected@[i]
    }

    /// Whether the round may be called complete: every node was armed,
    /// scanned to the end and read back, none of them is affected, the
    /// collected locks were resolved, and every region was reclaimed
    /// without a failure.
    pub open spec fn is_complete(&self) -> bool {
        &&& self.collected()
        &&& self.unaffected()
        &&& self.resolved
        &&& !self.failed
        &&& self.reclaimed == self.regions
    }

    /// A round that has asked nothing yet.
    pub fn new(max_ts: TimeStamp, nodes: usize, regions: usize, page_limit: usize) -> (round: Round)
        ensures
            round.wf(),
            round.max_ts == max_ts,
            round.nodes == nodes,
            round.regions == regions,
            round.page_limit == page_limit,
            !round.resolved,
            round.reclaimed == 0,
            !round.failed,
            round.registered == 0,
            round.scanned == 0,
            round.checked == 0,
            round.cursor.is_none(),
            record_views(round.locks@) == Seq::<LockRecordView>::empty(),
            round.unaffected(),
    {
        let mut affected: Vec<bool> = Vec::new();
        let mut i: usize = 0;
        while i < nodes
            invariant
                i <= nodes,
                affected@.len() == i,
                forall|j: int| 0 <= j < i ==> !affected@[j],
            decreases nodes - i,
        {
            affected.push(false);
            i += 1;
        }
        let round = Round {
            max_ts,
            nodes,
            regions,
            page_limit,
            registered: 0,
            scanned: 0,
            checked: 0,
            cursor: None,
            locks: Vec::new(),
            affected,
            resolved: false,
            reclaimed: 0,
            failed: false,
        };
        assert(record_views(round.locks@) =~= Seq::<LockRecordView>::empty());
        round
    }

    /// Whether any node is marked as affected.
    fn any_affected(&self) -> (any: bool)
        ensures
            any == !self.unaffected(),
    {
        let mut i: usize = 0;
        while i < self.affected.len()
            invariant
                i <= self.affected.len(),
                forall|j: int| 0 <= j < i ==> !self.affected@[j],
            decreases self.affected.len() - i,
        {
            if self.affected[i] {
                return true;
            }
            i += 1;
        }
        false
    }

    /// What to do next. A scan is asked for only when every node was
    /// armed, a reading of an observer only when every scan has ended, the
    /// resolving of the locks only when every observer was read back and
    /// no node is affected, and the reclaiming of a region only when the
    /// locks were resolved. The round finishes as complete only if all of
    /// this was done and nothing failed.
    pub fn next_action(&self) -> (action: RoundAction)
        requires
            self.wf(),
        ensures
            match action {
                RoundAction::Register { node } => self.registered < self.nodes && node
                    == self.registered,
                RoundAction::Scan { node, start_key, limit } => {
                    &&& self.registered == self.nodes
                    &&& self.scanned < self.nodes
                    &&& node == self.scanned
                    &&& limit == self.page_limit
                    &&& match (start_key, self.cursor) {
                        (Some(k), Some(c)) => k@ == c@,
                        (None, None) => true,
                        _ => false,
                    }
                },
                RoundAction::Check { node } => {
                    &&& self.registered == self.nodes
                    &&& self.scanned == self.nodes
                    &&& self.checked < self.nodes
                    &&& node == self.checked
                },
                RoundAction::Resolve => {
                    &&& self.collected()
                    &&& self.unaffected()
                    &&& !self.failed
                    &&& !self.resolved
                },
                RoundAction::Reclaim { region } => {
                    &&& self.collected()
                    &&& self.unaffected()
                    &&& !self.failed
                    &&& self.resolved
                    &&& self.reclaimed < self.regions
                    &&& region == self.reclaimed
                },
                RoundAction::Finish { complete } => {
                    &&& self.collected()
                    &&& complete == self.is_complete()
                    &&& !complete ==> !self.unaffected() || self.failed
                },
            },
    {
        if self.registered < self.nodes {
            RoundAction::Register { node: self.registered }
        } else if self.scanned < self.nodes {
            let start_key = match &self.cursor {
                Some(c) => Some(copy_bytes(c)),
                None => None,
            };
            RoundAction::Scan { node: self.scanned, start_key, limit: self.page_limit }
        } else if self.checked < self.nodes {
            RoundAction::Check { node: self.checked }
        } else if self.failed || self.any_affected() {
            RoundAction::Finish { complete: false }
        } else if !self.resolved {
            RoundAction::Resolve
        } else if self.reclaimed < self.regions {
            RoundAction::Reclaim { region: self.reclaimed }
        } else {
            RoundAction::Finish { complete: true }
        }
    }

    /// Takes the answer of the node in turn to the arming of its
    /// observer. A failure marks the node as affected. Says whether an
    /// answer was due; if none was, nothing changes.
    pub fn on_registered(&mut self, outcome: Result<(), GcError>) -> (due: bool)
        requires
            old(self).wf(),
        ensures
            final(self).wf(),
            due == (old(self).registered < old(self).nodes),
            if due {
                &&& final(self).registered == old(self).registered + 1
                &&& final(self).affected@ == if outcome.is_err() {
                    old(self).affected@.update(old(self).registered as int, true)
                } else {
                    old(self).affected@
                }
            } else {
                &&& final(self).registered == old(self).registered
                &&& final(self).affected == old(self).affected
            },
            final(self).max_ts == old(self).max_ts,
            final(self).nodes == old(self).nodes,
            final(self).regions == old(self).regions,
            final(self).page_limit == old(self).page_limit,
            final(self).resolved == old(self).resolved,
            final(self).reclaimed == old(self).reclaimed,
            final(self).failed == old(self).failed,
            final(self).scanned == old(self).scanned,
            final(self).checked == old(self).checked,
            final(self).cursor == old(self).cursor,
            final(self).locks == old(self).locks,
    {
        if self.registered < self.nodes {
            if outcome.is_err() {
                self.affected.set(self.registered, true);
            }
            self.registered = self.registered + 1;
            true
        } else {
            false
        }
    }

    /// Takes the answer of the node in turn to a scan. A page is added to
    /// the collected locks; a page that is full, under a limit that is not
    /// 0, leaves the scan of the node open behind its last key, any other
    /// page ends it.
    /// A failure ends it too and marks the node as affected. Says whether
    /// an answer was due; if none was, nothing changes.
    pub fn on_scanned(&mut self, outcome: Result<Vec<LockRecord>, GcError>) -> (due: bool)
        requires
            old(self).wf(),
        ensures
            final(self).wf(),
            due == (old(self).registered == old(self).nodes && old(self).scanned < old(
                self,
            ).nodes),
            if due {
                match outcome {
                    Ok(page) => {
                        &&& record_views(final(self).locks@) == record_views(old(self).locks@)
                            + record_views(page@)
                        &&& final(self).affected == old(self).affected
                        &&& if old(self).page_limit > 0 && page@.len() >= old(self).page_limit {
                            &&& final(self).scanned == old(self).scanned
                            &&& final(self).cursor matches Some(c)
                            &&& c@ == page@.last()@.key
                        } else {
                            &&& final(self).scanned == old(self).scanned + 1
                            &&& final(self).cursor.is_none()
                        }
                    },
                    Err(_) => {
                        &&& final(self).locks == old(self).locks
                        &&& final(self).affected@ == old(self).affected@.update(
                            old(self).scanned as int,
                            true,
                        )
                        &&& final(self).scanned == old(self).scanned + 1
                        &&& final(self).cursor.is_none()
                    },
                }
            } else {
                &&& final(self).locks == old(self).locks
                &&& final(self).affected == old(self).affected
                &&& final(self).scanned == old(self).scanned
                &&& final(self).cursor == old(self).cursor
            },
            final(self).max_ts == old(self).max_ts,
            final(self).nodes == old(self).nodes,
            final(self).regions == old(self).regions,
            final(self).page_limit == old(self).page_limit,
            final(self).resolved == old(self).resolved,
            final(self).reclaimed == old(self).reclaimed,
            final(self).failed == old(self).failed,
            final(self).registered == old(self).registered,
            final(self).checked == old(self).checked,
    {
        if self.registered == self.nodes && self.scanned < self.nodes {
            match outcome {
                Ok(mut page) => {
                    let n = page.len();
                    if self.page_limit > 0 && n >= self.page_limit {
                        self.cursor = Some(copy_bytes(&page[n - 1].key));
                    } else {
                        self.cursor = None;
                        self.scanned = self.scanned + 1;
                    }
                    let ghost before = record_views(self.locks@);
                    let ghost added = record_views(page@);
                    self.locks.append(&mut page);
                    assert(record_views(self.locks@) =~= before + added);
                },
                Err(_) => {
                    self.affected.set(self.scanned, true);
                    self.cursor = None;
                    self.scanned = self.scanned + 1;
                },
            }
            true
        } else {
            false
        }
    }

    /// Takes the answer of the node in turn to the reading of its
    /// observer. The accumulated locks are added to the collected ones. A
    /// failure, or an observer that reads dirty, marks the node as
    /// affected: what it accumulated may be incomplete. Says whether an
    /// answer was due; if none was, nothing changes.
    pub fn on_checked(&mut self, outcome: Result<(Vec<LockRecord>, bool), GcError>) -> (due: bool)
        requires
            old(self).wf(),
        ensures
            final(self).wf(),
            due == (old(self).scanned == old(self).nodes && old(self).checked < old(self).nodes),
            if due {
                &&& final(self).checked == old(self).checked + 1
                &&& match outcome {
                    Ok((found, clean)) => {
                        &&& record_views(final(self).locks@) == record_views(old(self).locks@)
                            + record_views(found@)
                        &&& final(self).affected@ == if clean {
                            old(self).affected@
                        } else {
                            old(self).affected@.update(old(self).checked as int, true)
                        }
                    },
                    Err(_) => {
                        &&& final(self).locks == old(self).locks
                        &&& final(self).affected@ == old(self).affected@.update(
                            old(self).checked as int,
                            true,
                        )
                    },
                }
            } else {
                &&& final(self).checked == old(self).checked
                &&& final(self).locks == old(self).locks
                &&& final(self).affected == old(self).affected
            },
            final(self).max_ts == old(self).max_ts,
            final(self).nodes == old(self).nodes,
            final(self).regions == old(self).regions,
            final(self).page_limit == old(self).page_limit,
            final(self).resolved == old(self).resolved,
            final(self).reclaimed == old(self).reclaimed,
            final(self).failed == old(self).failed,
            final(self).registered == old(self).registered,
            final(self).scanned == old(self).scanned,
            final(self).cursor == old(self).cursor,
    {
        if self.scanned == self.nodes && self.checked < self.nodes {
            match outcome {
                Ok((mut found, clean)) => {
                    if !clean {
                        self.affected.set(self.checked, true);
                    }
                    let ghost before = record_views(self.locks@);
                    let ghost added = record_views(found@);
                    self.locks.append(&mut found);
                    assert(record_views(self.locks@) =~= before + added);
                },
                Err(_) => {
                    self.affected.set(self.checked, true);
                },
            }
            self.checked = self.checked + 1;
            true
        } else {
            false
        }
    }

    /// Takes the answer to the resolving of the collected locks. A failure
    /// ends the round. Says whether an answer was due; if none was,
    /// nothing changes.
    pub fn on_resolved(&mut self, outcome: Result<(), GcError>) -> (due: bool)
        requires
            old(self).wf(),
        ensures
            final(self).wf(),
            due == (old(self).collected() && old(self).unaffected() && !old(self).failed && !old(
                self,
            ).resolved),
            final(self).resolved == (old(self).resolved || (due && outcome.is_ok())),
            final(self).failed == (old(self).failed || (due && outcome.is_err())),
            final(self).max_ts == old(self).max_ts,
            final(self).nodes == old(self).nodes,
            final(self).regions == old(self).regions,
            final(self).page_limit == old(self).page_limit,
            final(self).registered == old(self).registered,
            final(self).scanned == old(self).scanned,
            final(self).checked == old(self).checked,
            final(self).cursor == old(self).cursor,
            final(self).locks == old(self).locks,
            final(self).affected == old(self).affected,
            final(self).reclaimed == old(self).reclaimed,
    {
        if self.registered == self.nodes && self.scanned == self.nodes && self.checked
            == self.nodes && !self.failed && !self.resolved && !self.any_affected() {
            if outcome.is_ok() {
                self.resolved = true;
            } else {
                self.failed = true;
            }
            true
        } else {
            false
        }
    }

    /// Takes the outcome of the reclaiming of the region in turn. A
    /// failure, be it a busy node or a region that changed hands, ends the
    /// round: it will not be complete. Says whether an outcome was due; if
    /// none was, nothing changes.
    pub fn on_reclaimed(&mut self, outcome: Result<(), GcError>) -> (due: bool)
        requires
            old(self).wf(),
        ensures
            final(self).wf(),
            due == (old(self).resolved && !old(self).failed && old(self).reclaimed < old(
                self,
            ).regions),
            final(self).reclaimed == if due && outcome.is_ok() {
                old(self).reclaimed + 1
            } else {
                old(self).reclaimed as int
            },
            final(self).failed == (old(self).failed || (due && outcome.is_err())),
            final(self).max_ts == old(self).max_ts,
            final(self).nodes == old(self).nodes,
            final(self).regions == old(self).regions,
            final(self).page_limit == old(self).page_limit,
            final(self).registered == old(self).registered,
            final(self).scanned == old(self).scanned,
            final(self).checked == old(self).checked,
            final(self).cursor == old(self).cursor,
            final(self).locks == old(self).locks,
            final(self).affected == old(self).affected,
            final(self).resolved == old(self).resolved,
    {
        if self.resolved && !self.failed && self.reclaimed < self.regions {
            if outcome.is_ok() {
                self.reclaimed = self.reclaimed + 1;
            } else {
                self.failed = true;
            }
            true
        } else {
            false
        }
    }

    /// The safe point up to which reclamation may be announced as done,
    /// `published` being what was announced before: the safe point of this
    /// round if the round is complete and goes beyond `published`, and
    /// `published` otherwise. What is announced never goes back, and a
    /// round with an affected node or with a failed step announces
    /// nothing new.
    pub fn publish(&self, published: TimeStamp, safe_point: TimeStamp) -> (announced: TimeStamp)
        requires
            self.wf(),
        ensures
            announced == if self.is_complete() && safe_point > published {
                safe_point
            } else {
                published
            },
            announced >= published,
    {
        if self.registered == self.nodes && self.scanned == self.nodes && self.checked
            == self.nodes && self.resolved && !self.failed && self.reclaimed == self.regions
            && !self.any_affected() && safe_point > published {
            safe_point
        } else {
            published
        }
    }
}

/// A round with an affected node is not complete, and neither is one in
/// which the resolving of the locks or the reclaiming of a region failed:
/// such a round announces nothing new.
pub proof fn lemma_affected_is_incomplete(round: &Round, node: int)
    requires
        round.failed || (0 <= node < round.affected@.len() && round.affected@[node]),
    ensures
        !round.is_complete(),
{
}

} // verus!
