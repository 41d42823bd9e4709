//! The cooperative task executor's bookkeeping: the live tasks and their
//! priorities, the two work queues (interrupt work is always taken before
//! normal work, each queue in arrival order), and what the run loop does
//! with each queued item. Polling the futures, and waiting for work, is
//! left to the caller: `Executor::step` says what to do next.

use vstd::prelude::*;
use std::collections::{BTreeMap, VecDeque};

verus! {

broadcast use vstd::std_specs::btree::group_btree_axioms, vstd::std_specs::vecdeque::group_vec_dequeue_axioms;

/// The first identifier handed to a cooperative task.
pub const FIRST_TASK_ID: u64 = 0;

/// Identifier of a cooperative task.
#[derive(Debug, Clone, Copy, PartialEq, Eq, Structural)]
pub struct TaskID(pub u64);

impl TaskID {
    /// Takes the next identifier from the counter `next_id` (which starts at
    /// `FIRST_TASK_ID`), which then moves on by one (wrapping).
    pub fn new(next_id: &mut u64) -> (id: TaskID)
        ensures
            id.0 == *old(next_id),
            *final(next_id) == crate::multitasking::after_take(*old(next_id)),
    {
        let id = *next_id;
        *next_id = next_id.wrapping_add(1);
        TaskID(id)
    }
}

/// Task identifiers start at 0 and go up by one: after `k` identifiers are
/// taken from a counter that starts at `FIRST_TASK_ID`, the next one is
/// `k`, so no two are alike (while the counter does not wrap).
pub proof fn law_task_ids_start_at_zero(k: nat, j: nat)
    requires
        k < j < u64::MAX,
    ensures
        crate::multitasking::counter_after(FIRST_TASK_ID, k) == k,
        crate::multitasking::counter_after(FIRST_TASK_ID, k) < crate::multitasking::counter_after(FIRST_TASK_ID, j),
{
    lemma_counter_from_zero(k);
    lemma_counter_from_zero(j);
}

proof fn lemma_counter_from_zero(k: nat)
    requires
        k < u64::MAX,
    ensures
        crate::multitasking::counter_after(FIRST_TASK_ID, k) == k,
    decreases k,
{
    if k > 0 {
        lemma_counter_from_zero((k - 1) as nat);
    }
}

/// The queue a task is scheduled on; interrupt tasks run first.
#[derive(Debug, Clone, Copy, PartialEq, Eq, Structural)]
pub enum TaskPriority {
    Interrupt,
    Normal,
}

/// A piece of work for the executor: start a task with a priority, poll a
/// task, or drop a task.
#[derive(Debug, Clone, Copy, PartialEq, Eq, Structural)]
pub enum QueueItem {
    Spawn(TaskID, TaskPriority),
    Poll(TaskID),
    Kill(TaskID),
}

/// Wake-up flag of the executor: set when work was queued, consumed when
/// the executor goes to sleep.
#[derive(Debug, Clone, Copy, PartialEq, Eq, Structural)]
pub struct Sleep {
    pub woken: bool,
}

impl Sleep {
    /// A flag with no wake-up pending.
    pub fn new() -> (s: Sleep)
        ensures
            !s.woken,
    {
        Sleep { woken: false }
    }

    /// One round of waiting: takes a pending wake-up. Returns `true` when
    /// there was one (the wait is over); otherwise the caller yields the CPU
    /// and calls again.
    pub fn sleep(&mut self) -> (awake: bool)
        ensures
            awake == old(self).woken,
            !final(self).woken,
    {
        let awake = self.woken;
        self.woken = false;
        awake
    }

    /// Records a wake-up.
    pub fn wake(&mut self)
        ensures
            final(self).woken,
    {
        self.woken = true;
    }
}

/// The two work queues, in arrival order.
pub struct TaskQueue {
    pub interrupt: VecDeque<QueueItem>,
    pub normal: VecDeque<QueueItem>,
}

/// The contents of the work queues.
pub struct QueueState {
    pub interrupt: Seq<QueueItem>,
    pub normal: Seq<QueueItem>,
}

impl View for TaskQueue {
    type V = QueueState;

    open spec fn view(&self) -> QueueState {
        QueueState { interrupt: self.interrupt@, normal: self.normal@ }
    }
}

/// `item` joins the back of the queue of `priority`.
pub open spec fn queued(q: QueueState, priority: TaskPriority, item: QueueItem) -> QueueState {
    match priority {
        TaskPriority::Interrupt => QueueState { interrupt: q.interrupt.push(item), ..q },
        TaskPriority::Normal => QueueState { normal: q.normal.push(item), ..q },
    }
}

/// The next piece of work: the front of the interrupt queue, or, when that
/// is empty, the front of the normal queue; and the queues without it.
pub open spec fn next_item(q: QueueState) -> (Option<QueueItem>, QueueState) {
    if q.interrupt.len() > 0 {
        (Some(q.interrupt[0]), QueueState { interrupt: q.interrupt.drop_first(), ..q })
    } else if q.normal.len() > 0 {
        (Some(q.normal[0]), QueueState { normal: q.normal.drop_first(), ..q })
    } else {
        (None, q)
    }
}

impl TaskQueue {
    /// Empty queues.
    pub fn new() -> (q: TaskQueue)
        ensures
            q@.interrupt == Seq::<QueueItem>::empty(),
            q@.normal == Seq::<QueueItem>::empty(),
    {
        TaskQueue { interrupt: VecDeque::with_capacity(25), normal: VecDeque::with_capacity(50) }
    }

    /// Puts `item` at the back of the queue of `priority`.
    pub fn push(&mut self, priority: TaskPriority, item: QueueItem)
        ensures
            final(self)@ == queued(old(self)@, priority, item),
    {
        match priority {
            TaskPriority::Interrupt => self.interrupt.push_back(item),
            TaskPriority::Normal => self.normal.push_back(item),
        }
    }

    /// Asks for the task `id` to be started with `priority`.
    pub fn spawn_task(&mut self, id: TaskID, priority: TaskPriority)
        ensures
            final(self)@ == queued(old(self)@, priority, QueueItem::Spawn(id, priority)),
    {
        self.push(priority, QueueItem::Spawn(id, priority));
    }

    /// Asks for a new task to be started with `priority`: its identifier is
    /// taken from `next_id` (see `TaskID::new`) and returned.
    pub fn spawn(&mut self, next_id: &mut u64, priority: TaskPriority) -> (id: TaskID)
        ensures
            id.0 == *old(next_id),
            *final(next_id) == (if *old(next_id) == u64::MAX { 0 } else { *old(next_id) + 1 }),
            final(self)@ == queued(old(self)@, priority, QueueItem::Spawn(id, priority)),
    {
        let id = TaskID::new(next_id);
        self.push(priority, QueueItem::Spawn(id, priority));
        id
    }

    /// Asks for the task `id` to be dropped; the request goes to the normal
    /// queue.
    pub fn kill(&mut self, id: TaskID)
        ensures
            final(self)@ == queued(old(self)@, TaskPriority::Normal, QueueItem::Kill(id)),
    {
        self.push(TaskPriority::Normal, QueueItem::Kill(id));
    }

    /// What a task's waker does: the task is queued for a poll on its own
    /// queue, and the executor is woken.
    pub fn wake_task(&mut self, id: TaskID, priority: TaskPriority, sleep: &mut Sleep)
        ensures
            final(self)@ == queued(old(self)@, priority, QueueItem::Poll(id)),
            final(sleep).woken,
    {
        self.push(priority, QueueItem::Poll(id));
        sleep.wake();
    }

    /// Takes the next piece of work (see `next_item`).
    pub fn get_next_task(&mut self) -> (item: Option<QueueItem>)
        ensures
            (item, final(self)@) == next_item(old(self)@),
    {
        match self.interrupt.pop_front() {
            Some(item) => Some(item),
            None => self.normal.pop_front(),
        }
    }
}

/// What the run loop has to do after one piece of work was taken.
#[derive(Debug, Clone, Copy, PartialEq, Eq, Structural)]
pub enum Step {
    /// Both queues are empty: wait for a wake-up (see `Sleep`).
    Sleep,
    /// Poll the future of this live task, then report with `finish_poll`.
    Poll(TaskID),
    /// The task was started: attach its future and waker.
    Spawned(TaskID, TaskPriority),
    /// A task with this identifier is already live; starting it again is a
    /// fatal error.
    Duplicate(TaskID),
    /// The task was dropped (`true`), or was not live (`false`).
    Killed(TaskID, bool),
    /// A poll for a task that is no longer live: nothing to do.
    Skip,
}

/// The executor's state: the live tasks with their priorities.
pub struct Executor {
    tasks: BTreeMap<u64, TaskPriority>,
}

impl View for Executor {
    type V = Map<u64, TaskPriority>;

    closed spec fn view(&self) -> Map<u64, TaskPriority> {
        self.tasks@
    }
}

/// One step of the run loop on the live tasks `t` and the queues `q`: the
/// next piece of work is taken (see `next_item`); a poll of a live task is
/// handed to the caller; a spawn of a new task makes it live and queues its
/// first poll on its own queue; a kill drops the task.
pub open spec fn step_spec(t: Map<u64, TaskPriority>, q: QueueState) -> (Map<u64, TaskPriority>, QueueState, Step) {
    let (item, q1) = next_item(q);
    match item {
        None => (t, q1, Step::Sleep),
        Some(QueueItem::Poll(id)) => (t, q1, if t.contains_key(id.0) { Step::Poll(id) } else { Step::Skip }),
        Some(QueueItem::Spawn(id, p)) => if t.contains_key(id.0) {
            (t, q1, Step::Duplicate(id))
        } else {
            (t.insert(id.0, p), queued(q1, p, QueueItem::Poll(id)), Step::Spawned(id, p))
        },
        Some(QueueItem::Kill(id)) => (t.remove(id.0), q1, Step::Killed(id, t.contains_key(id.0))),
    }
}

impl Executor {
    /// No live tasks.
    pub fn new() -> (e: Executor)
        ensures
            e@ == Map::<u64, TaskPriority>::empty(),
    {
        Executor { tasks: BTreeMap::new() }
    }

    /// Whether no task is live; the run loop ends then.
    pub fn is_empty(&self) -> (b: bool)
        ensures
            b == self@.is_empty(),
    {
        self.tasks.is_empty()
    }

    /// Whether task `id` is live.
    pub fn contains(&self, id: TaskID) -> (b: bool)
        ensures
            b == self@.contains_key(id.0),
    {
        self.tasks.contains_key(&id.0)
    }

    /// Makes task `id` live with `priority` and queues its first poll.
    /// Returns `false`, changing nothing, when a task with that identifier
    /// is already live.
    fn spawn(&mut self, id: TaskID, priority: TaskPriority, queue: &mut TaskQueue) -> (fresh: bool)
        ensures
            fresh == !old(self)@.contains_key(id.0),
            fresh ==> final(self)@ == old(self)@.insert(id.0, priority) && final(queue)@ == queued(
                old(queue)@,
                priority,
                QueueItem::Poll(id),
            ),
            !fresh ==> final(self)@ == old(self)@ && final(queue)@ == old(queue)@,
    {
        if self.tasks.contains_key(&id.0) {
            return false;
        }
        self.tasks.insert(id.0, priority);
        queue.push(priority, QueueItem::Poll(id));
        true
    }

    /// Drops task `id` if it is live; returns whether it was.
    pub fn kill_task(&mut self, id: TaskID) -> (killed: bool)
        ensures
            killed == old(self)@.contains_key(id.0),
            final(self)@ == old(self)@.remove(id.0),
    {
        let killed = self.tasks.contains_key(&id.0);
        if killed {
            self.tasks.remove(&id.0);
        }
        assert(final(self)@ =~= old(self)@.remove(id.0));
        killed
    }

    /// Reports the poll of task `id`: a finished task is dropped.
    pub fn finish_poll(&mut self, id: TaskID, ready: bool)
        ensures
            final(self)@ == (if ready { old(self)@.remove(id.0) } else { old(self)@ }),
    {
        if ready {
            self.kill_task(id);
        }
    }

    /// One step of the run loop (see `step_spec`).
    pub fn step(&mut self, queue: &mut TaskQueue) -> (s: Step)
        ensures
            (final(self)@, final(queue)@, s) == step_spec(old(self)@, old(queue)@),
    {
        match queue.get_next_task() {
            None => Step::Sleep,
            Some(QueueItem::Poll(id)) => if self.contains(id) {
                Step::Poll(id)
            } else {
                Step::Skip
            },
            Some(QueueItem::Spawn(id, priority)) => if self.spawn(id, priority, queue) {
                Step::Spawned(id, priority)
            } else {
                Step::Duplicate(id)
            },
            Some(QueueItem::Kill(id)) => {
                let killed = self.kill_task(id);
                Step::Killed(id, killed)
            },
        }
    }
}

/// The state of a future that gives way once: the first poll asks to be
/// woken and is pending, the next one is ready.
#[derive(Debug, Clone, Copy, PartialEq, Eq, Structural)]
pub struct YieldNow(pub bool);

impl YieldNow {
    /// A future that has not given way yet.
    pub fn new() -> (y: YieldNow)
        ensures
            y.0,
    {
        YieldNow(true)
    }

    /// One poll: returns `true` (ready) when it has given way already;
    /// otherwise it records giving way and returns `false` (pending), and
    /// the caller wakes the task.
    pub fn poll(&mut self) -> (ready: bool)
        ensures
            ready == !old(self).0,
            !final(self).0,
    {
        if self.0 {
            self.0 = false;
            false
        } else {
            true
        }
    }
}

/// Interrupt work goes first: while the interrupt queue holds anything, the
/// next piece of work is its front, whatever the normal queue holds; the
/// normal queue's front is taken only when the interrupt queue is empty.
pub proof fn law_interrupt_work_first(q: QueueState)
    ensures
        q.interrupt.len() > 0 ==> next_item(q).0 == Some(q.interrupt[0]) && next_item(q).1.normal
            == q.normal,
        q.interrupt.len() == 0 && q.normal.len() > 0 ==> next_item(q).0 == Some(q.normal[0]),
        q.interrupt.len() == 0 && q.normal.len() == 0 ==> next_item(q).0 is None,
{
}

/// Each queue keeps arrival order: queued work goes behind the items
/// already waiting, which keep their order in front of it, and the other
/// queue is untouched.
pub proof fn law_work_in_arrival_order(q: QueueState, priority: TaskPriority, item: QueueItem)
    ensures
        ({
            let q1 = queued(q, priority, item);
            match priority {
                TaskPriority::Interrupt => q1.interrupt.subrange(0, q.interrupt.len() as int)
                    == q.interrupt && q1.interrupt.last() == item && q1.normal == q.normal,
                TaskPriority::Normal => q1.normal.subrange(0, q.normal.len() as int) == q.normal
                    && q1.normal.last() == item && q1.interrupt == q.interrupt,
            }
        }),
{
    match priority {
        TaskPriority::Interrupt => assert(q.interrupt.push(item).subrange(0, q.interrupt.len() as int) =~= q.interrupt),
        TaskPriority::Normal => assert(q.normal.push(item).subrange(0, q.normal.len() as int) =~= q.normal),
    }
}

/// A killed task is never polled: once task `id` is not live, a queued poll
/// of it is skipped, and the step leaves it dead.
pub proof fn law_dead_task_not_polled(t: Map<u64, TaskPriority>, q: QueueState, id: TaskID)
    requires
        !t.contains_key(id.0),
        next_item(q).0 == Some(QueueItem::Poll(id)),
    ensures
        step_spec(t, q).2 == Step::Skip,
        !step_spec(t, q).0.contains_key(id.0),
{
}

/// Only spawns add live tasks, and a spawn never replaces a live task: a
/// step's live tasks are the old ones, less the killed one, plus the
/// spawned one, whose priority is kept as requested.
pub proof fn law_step_changes_tasks_only_by_request(t: Map<u64, TaskPriority>, q: QueueState)
    ensures
        ({
            let (t1, _, s) = step_spec(t, q);
            match s {
                Step::Spawned(id, p) => !t.contains_key(id.0) && t1 == t.insert(id.0, p),
                Step::Killed(id, _) => t1 == t.remove(id.0),
                _ => t1 == t,
            }
        }),
{
}

/// A spawned task is polled once its turn comes: the spawn queues a poll of
/// it behind the work already waiting on its own queue.
pub proof fn law_spawn_queues_first_poll(t: Map<u64, TaskPriority>, q: QueueState)
    ensures
        ({
            let (_, q2, s) = step_spec(t, q);
            let q1 = next_item(q).1;
            s matches Step::Spawned(id, p) ==> q2 == queued(q1, p, QueueItem::Poll(id))
        }),
{
}

} // verus!
