//! The admission-controlled task queue: a bounded number of admitted tasks,
//! started in the order in which they were admitted, and refusal on the
//! spot of whatever exceeds the bound.

use vstd::prelude::*;

verus! {

/// Names one admitted task from its admission to its completion.
#[derive(Clone, Copy, Debug, PartialEq, Eq, Structural)]
pub struct TaskHandle {
    pub id: u64,
}

/// The refusal of a task because every slot is taken. Nothing was changed
/// and nothing will be called back; the task may be submitted again later.
#[derive(Clone, Copy, Debug, PartialEq, Eq, Structural)]
pub struct TooBusy;

/// The state of a queue as a mathematical value.
pub struct QueueModel<T> {
    /// The number of slots.
    pub limit: nat,
    /// The number of handles given out so far.
    pub issued: nat,
    /// The admitted tasks that were not started yet, oldest first.
    pub queued: Seq<(nat, T)>,
    /// The handles of the tasks that were started and have not completed.
    pub running: Seq<nat>,
}

impl<T> QueueModel<T> {
    /// The number of slots taken: a task holds its slot from admission
    /// until its completion is reported.
    pub open spec fn occupied(self) -> nat {
        self.queued.len() + self.running.len()
    }

    /// Whether the task with handle `id` waits to be started.
    pub open spec fn is_queued(self, id: nat) -> bool {
        exists|i: int| 0 <= i < self.queued.len() && (#[trigger] self.queued[i]).0 == id
    }

    /// Whether the task with handle `id` was started and has not completed.
    pub open spec fn is_running(self, id: nat) -> bool {
        self.running.contains(id)
    }

    /// The place of `id` among the running tasks, where it is there.
    pub open spec fn place_of(self, id: nat) -> int {
        choose|i: int| 0 <= i < self.running.len() && self.running[i] == id
    }

    /// The invariant of the queue: no more slots are taken than there are,
    /// and the handles in use are distinct and were all given out.
    pub open spec fn wf(self) -> bool {
        &&& self.occupied() <= self.limit
        &&& forall|i: int| 0 <= i < self.queued.len() ==> (#[trigger] self.queued[i]).0 < self.issued
        &&& forall|i: int| 0 <= i < self.running.len() ==> (#[trigger] self.running[i]) < self.issued
        &&& forall|i: int, j: int|
            0 <= i < j < self.queued.len() ==> (#[trigger] self.queued[i]).0
                != (#[trigger] self.queued[j]).0
        &&& forall|i: int, j: int|
            0 <= i < j < self.running.len() ==> (#[trigger] self.running[i])
                != (#[trigger] self.running[j])
        &&& forall|i: int, j: int|
            0 <= i < self.queued.len() && 0 <= j < self.running.len() ==> (
            #[trigger] self.queued[i]).0 != (#[trigger] self.running[j])
    }

    /// A queue of `limit` slots that holds nothing.
    pub open spec fn empty(limit: nat) -> QueueModel<T> {
        QueueModel { limit, issued: 0, queued: Seq::empty(), running: Seq::empty() }
    }

    /// Whether a submission is admitted: exactly when a slot is free.
    pub open spec fn admits(self) -> bool {
        self.occupied() < self.limit
    }

    /// The queue after the submission of `task`: an admitted task joins
    /// the end of the waiting tasks under a fresh handle, a refused one
    /// leaves no trace.
    pub open spec fn submit(self, task: T) -> QueueModel<T> {
        if self.admits() {
            QueueModel {
                limit: self.limit,
                issued: self.issued + 1,
                queued: self.queued.push((self.issued, task)),
                running: self.running,
            }
        } else {
            self
        }
    }

    /// The queue after the worker took the oldest waiting task, if there
    /// was one.
    pub open spec fn start_next(self) -> QueueModel<T> {
        if self.queued.len() > 0 {
            QueueModel {
                limit: self.limit,
                issued: self.issued,
                queued: self.queued.drop_first(),
                running: self.running.push(self.queued[0].0),
            }
        } else {
            self
        }
    }

    /// The queue after the completion of the running task `id` was
    /// reported: its slot is free. For any other `id` nothing changes.
    pub open spec fn complete(self, id: nat) -> QueueModel<T> {
        if self.is_running(id) {
            QueueModel {
                limit: self.limit,
                issued: self.issued,
                queued: self.queued,
                running: self.running.remove(self.place_of(id)),
            }
        } else {
            self
        }
    }

    /// The queue after the submission of each of `tasks` in turn.
    pub open spec fn submit_all(self, tasks: Seq<T>) -> QueueModel<T>
        decreases tasks.len(),
    {
        if tasks.len() == 0 {
            self
        } else {
            self.submit_all(tasks.drop_last()).submit(tasks.last())
        }
    }

    /// The queue after the worker started waiting tasks `n` times.
    pub open spec fn start_many(self, n: nat) -> QueueModel<T>
        decreases n,
    {
        if n == 0 {
            self
        } else {
            self.start_many((n - 1) as nat).start_next()
        }
    }
}

/// Every transition keeps the invariant, so at no time do more tasks hold
/// a slot than there are slots.
pub proof fn lemma_transitions_keep_bound<T>(q: QueueModel<T>, task: T, id: nat)
    requires
        q.wf(),
    ensures
        q.submit(task).wf(),
        q.start_next().wf(),
        q.complete(id).wf(),
        q.running.len() <= q.limit,
{
    if q.admits() {
        let s = q.submit(task);
        assert forall|i: int, j: int| 0 <= i < j < s.queued.len() implies (#[trigger] s.queued[i]).0
            != (#[trigger] s.queued[j]).0 by {
            if j < q.queued.len() {
                assert(s.queued[i] == q.queued[i]);
                assert(s.queued[j] == q.queued[j]);
            } else {
                assert(s.queued[i] == q.queued[i]);
            }
        }
        assert forall|i: int| 0 <= i < s.queued.len() implies (#[trigger] s.queued[i]).0
            < s.issued by {
            if i < q.queued.len() {
                assert(s.queued[i] == q.queued[i]);
            }
        }
        assert forall|i: int, j: int|
            0 <= i < s.queued.len() && 0 <= j < s.running.len() implies (#[trigger] s.queued[i]).0
            != (#[trigger] s.running[j]) by {
            if i < q.queued.len() {
                assert(s.queued[i] == q.queued[i]);
            }
        }
    }
    if q.queued.len() > 0 {
        let s = q.start_next();
        assert forall|i: int| 0 <= i < s.queued.len() implies (#[trigger] s.queued[i]).0
            < s.issued by {
            assert(s.queued[i] == q.queued[i + 1]);
        }
        assert forall|i: int| 0 <= i < s.running.len() implies (#[trigger] s.running[i])
            < s.issued by {
            if i < q.running.len() {
                assert(s.running[i] == q.running[i]);
            } else {
                assert(s.running[i] == q.queued[0].0);
            }
        }
        assert forall|i: int, j: int| 0 <= i < j < s.queued.len() implies (#[trigger] s.queued[i]).0
            != (#[trigger] s.queued[j]).0 by {
            assert(s.queued[i] == q.queued[i + 1]);
            assert(s.queued[j] == q.queued[j + 1]);
        }
        assert forall|i: int, j: int| 0 <= i < j < s.running.len() implies (#[trigger] s.running[i])
            != (#[trigger] s.running[j]) by {
            assert(s.running[i] == q.running[i]);
            if j < q.running.len() {
                assert(s.running[j] == q.running[j]);
            } else {
                assert(s.running[j] == q.queued[0].0);
            }
        }
        assert forall|i: int, j: int|
            0 <= i < s.queued.len() && 0 <= j < s.running.len() implies (#[trigger] s.queued[i]).0
            != (#[trigger] s.running[j]) by {
            assert(s.queued[i] == q.queued[i + 1]);
            if j < q.running.len() {
                assert(s.running[j] == q.running[j]);
            } else {
                assert(s.running[j] == q.queued[0].0);
            }
        }
    }
    if q.is_running(id) {
        let s = q.complete(id);
        let at = q.place_of(id);
        assert forall|i: int| 0 <= i < s.running.len() implies (#[trigger] s.running[i])
            < s.issued by {
            if i < at {
                assert(s.running[i] == q.running[i]);
            } else {
                assert(s.running[i] == q.running[i + 1]);
            }
        }
        assert forall|i: int, j: int| 0 <= i < j < s.running.len() implies (#[trigger] s.running[i])
            != (#[trigger] s.running[j]) by {
            let a = if i < at {
                i
            } else {
                i + 1
            };
            let b = if j < at {
                j
            } else {
                j + 1
            };
            assert(s.running[i] == q.running[a]);
            assert(s.running[j] == q.running[b]);
        }
        assert forall|i: int, j: int|
            0 <= i < s.queued.len() && 0 <= j < s.running.len() implies (#[trigger] s.queued[i]).0
            != (#[trigger] s.running[j]) by {
            let b = if j < at {
                j
            } else {
                j + 1
            };
            assert(s.running[j] == q.running[b]);
        }
    }
}

/// A completion is reported once: after the completion of a running task
/// its handle names no task, so a second report changes nothing.
pub proof fn lemma_completion_is_final<T>(q: QueueModel<T>, id: nat)
    requires
        q.wf(),
        q.is_running(id),
    ensures
        !q.complete(id).is_running(id),
        !q.complete(id).is_queued(id),
        q.complete(id).complete(id) == q.complete(id),
        q.complete(id).occupied() == q.occupied() - 1,
{
    let s = q.complete(id);
    let at = q.place_of(id);
    if s.is_running(id) {
        let k = choose|k: int| 0 <= k < s.running.len() && s.running[k] == id;
        let b = if k < at {
            k
        } else {
            k + 1
        };
        assert(s.running[k] == q.running[b]);
        assert(q.running[at] == id);
    }
    if s.is_queued(id) {
        let k = choose|k: int| 0 <= k < s.queued.len() && (#[trigger] s.queued[k]).0 == id;
        assert(q.running[at] == id);
        assert(q.queued[k].0 != q.running[at]);
    }
}

/// While no task completes, submissions are admitted until every slot is
/// taken: after `tasks` were submitted to a queue that held nothing, as
/// many slots are taken as there are tasks or slots, whichever is fewer.
pub proof fn lemma_submissions_fill<T>(limit: nat, tasks: Seq<T>)
    ensures
        QueueModel::<T>::empty(limit).submit_all(tasks).wf(),
        QueueModel::<T>::empty(limit).submit_all(tasks).limit == limit,
        QueueModel::<T>::empty(limit).submit_all(tasks).occupied() == if tasks.len() <= limit {
            tasks.len()
        } else {
            limit
        },
    decreases tasks.len(),
{
    if tasks.len() > 0 {
        lemma_submissions_fill(limit, tasks.drop_last());
        lemma_transitions_keep_bound(
            QueueModel::<T>::empty(limit).submit_all(tasks.drop_last()),
            tasks.last(),
            0,
        );
    }
}

/// Starting tasks frees no slot.
pub proof fn lemma_starting_keeps_slots<T>(q: QueueModel<T>, n: nat)
    requires
        q.wf(),
    ensures
        q.start_many(n).wf(),
        q.start_many(n).limit == q.limit,
        q.start_many(n).occupied() == q.occupied(),
    decreases n,
{
    if n > 0 {
        lemma_starting_keeps_slots(q, (n - 1) as nat);
        lemma_transitions_keep_bound(q.start_many((n - 1) as nat), arbitrary(), 0);
    }
}

/// The admission bound. When as many tasks as there are slots were
/// submitted to a queue that held nothing, and none has completed however
/// many were started, one more submission is refused and leaves the queue
/// as it was; and once any running task completes, a submission is
/// admitted again.
pub proof fn lemma_admission_bound<T>(limit: nat, tasks: Seq<T>, started: nat, extra: T, id: nat)
    requires
        tasks.len() == limit,
    ensures
        !QueueModel::<T>::empty(limit).submit_all(tasks).start_many(started).admits(),
        QueueModel::<T>::empty(limit).submit_all(tasks).start_many(started).submit(extra)
            == QueueModel::<T>::empty(limit).submit_all(tasks).start_many(started),
        QueueModel::<T>::empty(limit).submit_all(tasks).start_many(started).is_running(id)
            ==> QueueModel::<T>::empty(limit).submit_all(tasks).start_many(started).complete(
            id,
        ).admits(),
{
    lemma_submissions_fill(limit, tasks);
    let full = QueueModel::<T>::empty(limit).submit_all(tasks);
    lemma_starting_keeps_slots(full, started);
    let busy = full.start_many(started);
    if busy.is_running(id) {
        lemma_completion_is_final(busy, id);
    }
}

/// The task queue of one node.
pub struct AdmissionQueue<T> {
    limit: usize,
    issued: u64,
    queued: Vec<(u64, T)>,
    running: Vec<u64>,
}

impl<T> View for AdmissionQueue<T> {
    type V = QueueModel<T>;

    closed spec fn view(&self) -> QueueModel<T> {
        QueueModel {
            limit: self.limit as nat,
            issued: self.issued as nat,
            queued: self.queued@.map_values(|p: (u64, T)| (p.0 as nat, p.1)),
            running: self.running@.map_values(|id: u64| id as nat),
        }
    }
}

impl<T> AdmissionQueue<T> {
    /// The invariant of the queue: see [`QueueModel::wf`].
    pub open spec fn wf(&self) -> bool {
        self@.wf()
    }

    /// A queue of `limit` slots that holds nothing.
    pub fn new(limit: usize) -> (queue: AdmissionQueue<T>)
        ensures
            queue@ == QueueModel::<T>::empty(limit as nat),
            queue.wf(),
    {
        let queue = AdmissionQueue { limit, issued: 0, queued: Vec::new(), running: Vec::new() };
        assert(queue@.queued =~= Seq::empty());
        assert(queue@.running =~= Seq::empty());
        queue
    }

    /// The number of handles given out so far. A submission needs it to
    /// be below the greatest number.
    pub fn issued(&self) -> (n: u64)
        ensures
            n as nat == self@.issued,
    {
        self.issued
    }

    /// The number of slots taken.
    pub fn occupied(&self) -> (n: usize)
        requires
            self.wf(),
        ensures
            n == self@.occupied(),
    {
        self.queued.len() + self.running.len()
    }

    /// Submits `task`. It is admitted, and its handle returned, exactly
    /// when a slot is free; otherwise it is refused at once and the queue
    /// stays as it was.
    pub fn submit(&mut self, task: T) -> (admitted: Result<TaskHandle, TooBusy>)
        requires
            old(self).wf(),
            old(self)@.issued < u64::MAX,
        ensures
            final(self).wf(),
            final(self)@ == old(self)@.submit(task),
            admitted.is_ok() == old(self)@.admits(),
            admitted matches Ok(handle) ==> handle.id as nat == old(self)@.issued,
    {
        proof {
            lemma_transitions_keep_bound(self@, task, 0);
        }
        if self.queued.len() + self.running.len() < self.limit {
            let id = self.issued;
            self.queued.push((id, task));
            self.issued = id + 1;
            assert(self@.queued =~= old(self)@.queued.push((id as nat, task)));
            Ok(TaskHandle { id })
        } else {
            Err(TooBusy)
        }
    }

    /// Hands the oldest waiting task to the worker. The task keeps its
    /// slot until [`AdmissionQueue::complete`] is called with its handle.
    pub fn start_next(&mut self) -> (started: Option<(TaskHandle, T)>)
        requires
            old(self).wf(),
        ensures
            final(self).wf(),
            final(self)@ == old(self)@.start_next(),
            match started {
                Some((handle, task)) => old(self)@.queued.len() > 0 && (handle.id as nat, task)
                    == old(self)@.queued[0],
                None => old(self)@.queued.len() == 0,
            },
    {
        proof {
            lemma_transitions_keep_bound(self@, arbitrary(), 0);
        }
        if self.queued.len() == 0 {
            None
        } else {
            let (id, task) = self.queued.remove(0);
            self.running.push(id);
            assert(self@.queued =~= old(self)@.queued.drop_first());
            assert(self@.running =~= old(self)@.running.push(id as nat));
            Some((TaskHandle { id }, task))
        }
    }

    /// Reports the completion of a running task and frees its slot. Says
    /// whether `handle` named a running task; if it did not, nothing
    /// changes.
    pub fn complete(&mut self, handle: TaskHandle) -> (released: bool)
        requires
            old(self).wf(),
        ensures
            final(self).wf(),
            final(self)@ == old(self)@.complete(handle.id as nat),
            released == old(self)@.is_running(handle.id as nat),
    {
        proof {
            lemma_transitions_keep_bound(self@, arbitrary(), handle.id as nat);
        }
        let mut i: usize = 0;
        while i < self.running.len()
            invariant
                *self == *old(self),
                self.wf(),
                i <= self.running.len(),
                forall|j: int| 0 <= j < i ==> self.running@[j] != handle.id,
            decreases self.running.len() - i,
        {
            if self.running[i] == handle.id {
                proof {
                    let id = handle.id as nat;
                    lemma_transitions_keep_bound(self@, arbitrary(), id);
                    assert(self@.running[i as int] == id);
                    assert(self@.is_running(id));
                    let at = self@.place_of(id);
                    assert(self@.running[at] == id);
                    assert(at == i);
                }
                self.running.remove(i);
                assert(self@.running =~= old(self)@.running.remove(i as int));
                return true;
            }
            i += 1;
        }
        proof {
            let id = handle.id as nat;
            if self@.is_running(id) {
                let k = choose|k: int| 0 <= k < self@.running.len() && self@.running[k] == id;
                assert(self.running@[k] == handle.id);
            }
        }
        false
    }
}

} // verus!
