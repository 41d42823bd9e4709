//! Preemptive round-robin threads: each task keeps the CPU state it was
//! interrupted in; the timer interrupt saves the running task, queues it at
//! the back, and resumes the task at the front of the queue.

use vstd::prelude::*;
use std::collections::{BTreeMap, VecDeque};

verus! {

broadcast use vstd::std_specs::btree::group_btree_axioms, vstd::std_specs::vecdeque::group_vec_dequeue_axioms;

/// Bytes of stack each thread gets.
pub const STACK_SIZE: u64 = 4096;

/// The unmapped gap left after each thread stack.
pub const GUARD_SIZE: u64 = 4096;

/// Address of the first thread stack.
pub const STACK_START: u64 = 0x80_000;

/// The first identifier handed to a thread (0 is the idle task's).
pub const FIRST_TASK_ID: u64 = 1;

/// The counter after an identifier is taken from it: one more, wrapping.
pub open spec fn after_take(c: u64) -> u64 {
    if c == u64::MAX {
        0
    } else {
        (c + 1) as u64
    }
}

/// The counter after `k` identifiers are taken from one at `c`.
pub open spec fn counter_after(c: u64, k: nat) -> u64
    decreases k,
{
    if k == 0 {
        c
    } else {
        after_take(counter_after(c, (k - 1) as nat))
    }
}

/// The address of the next thread stack after the one at `addr`: past the
/// stack and its guard gap, wrapping.
pub open spec fn next_stack_spec(addr: u64) -> u64 {
    ((addr + STACK_SIZE + GUARD_SIZE) % 0x1_0000_0000_0000_0000) as u64
}

/// The address of the next thread stack after the one at `addr` (see
/// `next_stack_spec`).
pub fn next_stack_addr(addr: u64) -> (next: u64)
    ensures
        next == next_stack_spec(addr),
{
    addr.wrapping_add(STACK_SIZE + GUARD_SIZE)
}

/// The address of the `k`-th thread stack (counting from 0).
pub open spec fn stack_addr(k: nat) -> int {
    STACK_START + k * (STACK_SIZE + GUARD_SIZE)
}

/// Thread stacks never overlap: taking stack addresses from `STACK_START`
/// on with `next_stack_addr` gives the `k`-th stack at `stack_addr(k)`
/// (while the addresses do not wrap), and a stack ends a full guard gap
/// before any later one begins.
pub proof fn law_thread_stacks_apart(k: nat, j: nat)
    requires
        k < j,
        stack_addr(j) + STACK_SIZE + GUARD_SIZE <= u64::MAX,
    ensures
        stack_addr(k) + STACK_SIZE + GUARD_SIZE <= stack_addr(j),
        next_stack_spec(stack_addr(k) as u64) == stack_addr(k + 1),
        k == 0 ==> stack_addr(k) == STACK_START,
{
    assert(k * 8192 + 8192 <= j * 8192) by (nonlinear_arith)
        requires
            k < j,
    ;
    assert(stack_addr(k + 1) == stack_addr(k) + 8192) by (nonlinear_arith);
    assert(k * 8192 >= 0) by (nonlinear_arith);
}

/// Thread identifiers start at 1 and go up by one: after `k` identifiers
/// are taken from a counter that starts at `FIRST_TASK_ID`, the next one is
/// `k + 1`, never the idle task's 0 (while the counter does not wrap).
pub proof fn law_thread_ids_start_at_one(k: nat)
    requires
        k < u64::MAX,
    ensures
        counter_after(FIRST_TASK_ID, k) == k + 1,
        counter_after(FIRST_TASK_ID, k) != 0,
    decreases k,
{
    if k > 0 {
        law_thread_ids_start_at_one((k - 1) as nat);
    }
}

/// Identifier of a thread; 0 stands for "no task" (the idle task).
#[derive(Debug, Clone, Copy, PartialEq, Eq, Structural)]
pub struct TaskID(pub u64);

impl TaskID {
    /// Takes the next identifier from the counter `next_id` (which starts at
    /// `FIRST_TASK_ID`), which then moves on by one (wrapping).
    pub fn new(next_id: &mut u64) -> (id: TaskID)
        ensures
            id.0 == *old(next_id),
            *final(next_id) == after_take(*old(next_id)),
    {
        let id = *next_id;
        *next_id = next_id.wrapping_add(1);
        TaskID(id)
    }

    /// Whether this is the "no task" identifier.
    pub fn is_none(&self) -> (b: bool)
        ensures
            b == (self.0 == 0),
    {
        if self.0 == 0 {
            return true;
        }
        false
    }

    /// The "no task" identifier.
    pub fn none_task() -> (id: TaskID)
        ensures
            id.0 == 0,
    {
        TaskID(0)
    }
}

/// The general-purpose registers saved on an interrupt.
#[derive(Debug, Clone, Copy, PartialEq, Eq, Structural)]
pub struct Registers {
    pub r15: usize,
    pub r14: usize,
    pub r13: usize,
    pub r12: usize,
    pub r11: usize,
    pub r10: usize,
    pub r9: usize,
    pub r8: usize,
    pub rdi: usize,
    pub rsi: usize,
    pub rdx: usize,
    pub rcx: usize,
    pub rbx: usize,
    pub rax: usize,
    pub rbp: usize,
}

impl Registers {
    /// All registers zero.
    pub fn zeroed() -> (r: Registers)
        ensures
            r == (Registers {
                r15: 0,
                r14: 0,
                r13: 0,
                r12: 0,
                r11: 0,
                r10: 0,
                r9: 0,
                r8: 0,
                rdi: 0,
                rsi: 0,
                rdx: 0,
                rcx: 0,
                rbx: 0,
                rax: 0,
                rbp: 0,
            }),
    {
        Registers {
            r15: 0,
            r14: 0,
            r13: 0,
            r12: 0,
            r11: 0,
            r10: 0,
            r9: 0,
            r8: 0,
            rdi: 0,
            rsi: 0,
            rdx: 0,
            rcx: 0,
            rbx: 0,
            rax: 0,
            rbp: 0,
        }
    }
}

/// The interrupt stack frame pushed by the CPU.
#[derive(Debug, Clone, Copy, PartialEq, Eq, Structural)]
pub struct StackFrame {
    pub instruction_pointer: u64,
    pub code_segment: u64,
    pub cpu_flags: u64,
    pub stack_pointer: u64,
    pub stack_segment: u64,
}

/// A thread: its identifier and the CPU state to resume it with.
#[derive(Debug, Clone, Copy, PartialEq, Eq, Structural)]
pub struct Task {
    pub id: TaskID,
    pub state_isf: StackFrame,
    pub state_reg: Registers,
}

impl Task {
    /// A thread with identifier `id` whose stack is the page at `stack_addr`:
    /// it starts at address 0 in the kernel code segment with interrupts
    /// enabled, the stack pointer at the top of the stack, and zeroed
    /// registers.
    pub fn new(id: TaskID, stack_addr: u64) -> (t: Task)
        requires
            stack_addr + STACK_SIZE <= u64::MAX,
        ensures
            t.id == id,
            t.state_isf == (StackFrame {
                instruction_pointer: 0,
                code_segment: 8,
                cpu_flags: 0x202,
                stack_pointer: (stack_addr + STACK_SIZE) as u64,
                stack_segment: 0,
            }),
            t.state_reg == Registers::zeroed_spec(),
    {
        let state_isf = StackFrame {
            instruction_pointer: 0,
            code_segment: 8,
            cpu_flags: 0x202,
            stack_pointer: stack_addr + STACK_SIZE,
            stack_segment: 0,
        };
        Task { id, state_isf, state_reg: Registers::zeroed() }
    }

    /// Records the CPU state the thread was interrupted in.
    pub fn save(&mut self, stack_frame: &StackFrame, regs: &Registers)
        ensures
            final(self).id == old(self).id,
            final(self).state_isf == *stack_frame,
            final(self).state_reg == *regs,
    {
        self.state_isf = *stack_frame;
        self.state_reg = *regs;
    }
}

impl Registers {
    pub open spec fn zeroed_spec() -> Registers {
        Registers {
            r15: 0,
            r14: 0,
            r13: 0,
            r12: 0,
            r11: 0,
            r10: 0,
            r9: 0,
            r8: 0,
            rdi: 0,
            rsi: 0,
            rdx: 0,
            rcx: 0,
            rbx: 0,
            rax: 0,
            rbp: 0,
        }
    }
}


/// The scheduler's state: the threads by identifier, the run queue, and the
/// running thread.
pub struct SchedState {
    pub tasks: Map<u64, Task>,
    pub queue: Seq<TaskID>,
    pub current: TaskID,
}

/// The scheduler.
pub struct TaskManager {
    tasks: BTreeMap<u64, Task>,
    task_queue: VecDeque<TaskID>,
    current_task: TaskID,
}

impl View for TaskManager {
    type V = SchedState;

    closed spec fn view(&self) -> SchedState {
        SchedState { tasks: self.tasks@, queue: self.task_queue@, current: self.current_task }
    }
}

/// `t` with the CPU state `(frame, regs)` recorded.
pub open spec fn saved(t: Task, frame: StackFrame, regs: Registers) -> Task {
    Task { state_isf: frame, state_reg: regs, ..t }
}

/// The timer tick: unless the idle task runs, the running thread's state is
/// saved and it goes to the back of the queue; then the front of the queue
/// is taken; if it is another thread, it becomes the running one and its
/// saved state is loaded into the frame and the registers.
pub open spec fn switch_spec(s: SchedState, frame: StackFrame, regs: Registers) -> (SchedState, StackFrame, Registers) {
    let s1 = if s.current.0 != 0 {
        SchedState {
            tasks: s.tasks.insert(s.current.0, saved(s.tasks[s.current.0], frame, regs)),
            queue: s.queue.push(s.current),
            ..s
        }
    } else {
        s
    };
    if s1.queue.len() == 0 {
        (s1, frame, regs)
    } else {
        let next = s1.queue[0];
        let s2 = SchedState { queue: s1.queue.subrange(1, s1.queue.len() as int), ..s1 };
        if next == s.current {
            (s2, frame, regs)
        } else {
            (SchedState { current: next, ..s2 }, s2.tasks[next.0].state_isf, s2.tasks[next.0].state_reg)
        }
    }
}

/// The tick can run: the running thread, unless idle, is known, and the
/// thread it switches to is known.
pub open spec fn switch_ok(s: SchedState) -> bool {
    let s1_queue = if s.current.0 != 0 { s.queue.push(s.current) } else { s.queue };
    &&& s.current.0 != 0 ==> s.tasks.contains_key(s.current.0)
    &&& s1_queue.len() > 0 && s1_queue[0] != s.current ==> s.tasks.contains_key(s1_queue[0].0)
}

/// A voluntary yield: the running thread goes to the back of the queue and
/// the front is taken; the running thread's state is saved; if it took
/// itself, the idle task runs instead and the thread is queued once more.
pub open spec fn yield_spec(s: SchedState, frame: StackFrame, regs: Registers) -> (SchedState, StackFrame, Registers) {
    let q = s.queue.push(s.current);
    let next0 = q[0];
    let q1 = q.subrange(1, q.len() as int);
    let tasks = s.tasks.insert(s.current.0, saved(s.tasks[s.current.0], frame, regs));
    let (next, q2) = if s.current == next0 { (TaskID(0), q1.push(s.current)) } else { (next0, q1) };
    (SchedState { tasks, queue: q2, current: next }, tasks[next.0].state_isf, tasks[next.0].state_reg)
}

/// The yield can run: the running thread and the one switched to are known.
pub open spec fn yield_ok(s: SchedState) -> bool {
    let q = s.queue.push(s.current);
    let next = if s.current == q[0] { TaskID(0) } else { q[0] };
    &&& s.tasks.contains_key(s.current.0)
    &&& s.tasks.contains_key(next.0)
}

impl TaskManager {
    /// An empty scheduler with the idle task running.
    pub fn new() -> (m: TaskManager)
        ensures
            m@.tasks == Map::<u64, Task>::empty(),
            m@.queue == Seq::<TaskID>::empty(),
            m@.current.0 == 0,
    {
        TaskManager {
            tasks: BTreeMap::new(),
            task_queue: VecDeque::with_capacity(100),
            current_task: TaskID::none_task(),
        }
    }

    /// Installs the idle task: `nop_task` under the "no task" identifier,
    /// starting at `nop_function`.
    pub fn init(&mut self, nop_task: Task, nop_function: u64)
        ensures
            final(self)@ == (SchedState {
                tasks: old(self)@.tasks.insert(
                    0,
                    Task {
                        id: TaskID(0),
                        state_isf: StackFrame { instruction_pointer: nop_function, ..nop_task.state_isf },
                        ..nop_task
                    },
                ),
                ..old(self)@
            }),
    {
        let mut nop_task = nop_task;
        nop_task.id = TaskID::none_task();
        nop_task.state_isf.instruction_pointer = nop_function;
        self.tasks.insert(0, nop_task);
    }

    /// Adds a thread and queues it. Returns `false` when a thread with the
    /// same identifier was already there (it is replaced and queued again).
    pub fn spawn(&mut self, task: Task) -> (fresh: bool)
        ensures
            fresh == !old(self)@.tasks.contains_key(task.id.0),
            final(self)@ == (SchedState {
                tasks: old(self)@.tasks.insert(task.id.0, task),
                queue: old(self)@.queue.push(task.id),
                ..old(self)@
            }),
    {
        let task_id = task.id;
        let previous = self.tasks.insert(task.id.0, task);
        self.task_queue.push_back(task_id);
        previous.is_none()
    }

    /// Spawns a thread on request of the running one: `task` (with a fresh
    /// stack) starts at `bootstrapper` with the closure address from `r8`
    /// as its first argument, and its identifier is returned in `rax`.
    /// Returns `false` when the identifier was already taken.
    pub fn spawn_thread_sys(&mut self, regs: &mut Registers, task: Task, bootstrapper: u64) -> (fresh: bool)
        ensures
            *final(regs) == (Registers { rax: task.id.0 as usize, ..*old(regs) }),
            fresh == !old(self)@.tasks.contains_key(task.id.0),
            final(self)@ == (SchedState {
                tasks: old(self)@.tasks.insert(
                    task.id.0,
                    Task {
                        state_isf: StackFrame { instruction_pointer: bootstrapper, ..task.state_isf },
                        state_reg: Registers { rdi: old(regs).r8, ..task.state_reg },
                        ..task
                    },
                ),
                queue: old(self)@.queue.push(task.id),
                ..old(self)@
            }),
    {
        let mut task = task;
        let task_id = task.id;
        regs.rax = task_id.0 as usize;
        task.state_isf.instruction_pointer = bootstrapper;
        task.state_reg.rdi = regs.r8;
        let previous = self.tasks.insert(task.id.0, task);
        self.task_queue.push_back(task_id);
        previous.is_none()
    }

    /// Loads the saved state of thread `task_id` into the frame and the
    /// registers.
    fn set_registers(&self, stack_frame: &mut StackFrame, regs: &mut Registers, task_id: TaskID)
        requires
            self@.tasks.contains_key(task_id.0),
        ensures
            *final(stack_frame) == self@.tasks[task_id.0].state_isf,
            *final(regs) == self@.tasks[task_id.0].state_reg,
    {
        let task = self.tasks.get(&task_id.0).unwrap();
        *stack_frame = task.state_isf;
        *regs = task.state_reg;
    }

    /// Saves the CPU state into thread `id`.
    fn save_task(&mut self, id: TaskID, stack_frame: &StackFrame, regs: &Registers)
        requires
            old(self)@.tasks.contains_key(id.0),
        ensures
            final(self)@ == (SchedState {
                tasks: old(self)@.tasks.insert(id.0, saved(old(self)@.tasks[id.0], *stack_frame, *regs)),
                ..old(self)@
            }),
    {
        let mut task = *self.tasks.get(&id.0).unwrap();
        task.save(stack_frame, regs);
        self.tasks.insert(id.0, task);
    }

    /// The timer tick (see `switch_spec`).
    pub fn switch_task_interrupt(&mut self, stack_frame: &mut StackFrame, regs: &mut Registers)
        requires
            switch_ok(old(self)@),
        ensures
            (final(self)@, *final(stack_frame), *final(regs)) == switch_spec(old(self)@, *old(stack_frame), *old(regs)),
    {
        let ghost s = self@;
        if !self.current_task.is_none() {
            let cur = self.current_task;
            self.save_task(cur, stack_frame, regs);
            self.task_queue.push_back(cur);
        }
        match self.task_queue.pop_front() {
            Some(next_task_id) => {
                if self.current_task == next_task_id {
                    return;
                }
                self.current_task = next_task_id;
                self.set_registers(stack_frame, regs, next_task_id);
            },
            None => {},
        }
    }

    /// A voluntary yield (see `yield_spec`).
    pub fn yield_now(&mut self, stack_frame: &mut StackFrame, regs: &mut Registers)
        requires
            yield_ok(old(self)@),
        ensures
            (final(self)@, *final(stack_frame), *final(regs)) == yield_spec(old(self)@, *old(stack_frame), *old(regs)),
    {
        let cur = self.current_task;
        self.task_queue.push_back(cur);
        let next = self.task_queue.pop_front();
        let mut next_task = next.unwrap();
        self.save_task(cur, stack_frame, regs);
        if cur == next_task {
            next_task = TaskID::none_task();
            self.task_queue.push_back(cur);
        }
        self.current_task = next_task;
        self.set_registers(stack_frame, regs, next_task);
    }

    /// Whether the timer tick can run now (see `switch_ok`); a caller checks
    /// this before `switch_task_interrupt`.
    pub fn can_switch(&self) -> (ok: bool)
        ensures
            ok == switch_ok(self@),
    {
        let cur = self.current_task;
        if cur.0 != 0 && !self.tasks.contains_key(&cur.0) {
            return false;
        }
        if self.task_queue.len() > 0 {
            let next = self.task_queue[0];
            if next != cur && !self.tasks.contains_key(&next.0) {
                return false;
            }
        }
        true
    }

    /// Whether a yield can run now (see `yield_ok`).
    pub fn can_yield(&self) -> (ok: bool)
        ensures
            ok == yield_ok(self@),
    {
        let cur = self.current_task;
        let front = if self.task_queue.len() > 0 {
            self.task_queue[0]
        } else {
            cur
        };
        let next = if front == cur {
            TaskID::none_task()
        } else {
            front
        };
        self.tasks.contains_key(&cur.0) && self.tasks.contains_key(&next.0)
    }

    /// Whether the running thread can quit now: the tick that follows finds
    /// the thread it switches to.
    pub fn can_quit(&self) -> (ok: bool)
        ensures
            ok == switch_ok(
                SchedState { tasks: self@.tasks.remove(self@.current.0), current: TaskID(0), ..self@ },
            ),
    {
        if self.task_queue.len() > 0 {
            let next = self.task_queue[0];
            if next.0 != 0 && (next.0 == self.current_task.0 || !self.tasks.contains_key(&next.0)) {
                return false;
            }
        }
        true
    }

    /// The running thread ends: it is removed, the idle task takes its
    /// place, and the tick switches to the next thread.
    pub fn quit(&mut self, stack_frame: &mut StackFrame, regs: &mut Registers)
        requires
            switch_ok(SchedState { tasks: old(self)@.tasks.remove(old(self)@.current.0), current: TaskID(0), ..old(self)@ }),
        ensures
            (final(self)@, *final(stack_frame), *final(regs)) == switch_spec(
                SchedState { tasks: old(self)@.tasks.remove(old(self)@.current.0), current: TaskID(0), ..old(self)@ },
                *old(stack_frame),
                *old(regs),
            ),
    {
        let cur = self.current_task;
        self.tasks.remove(&cur.0);
        self.current_task = TaskID::none_task();
        self.switch_task_interrupt(stack_frame, regs)
    }
}


/// A timer tick keeps every thread: the set of known threads does not change.
pub proof fn law_switch_keeps_threads(s: SchedState, frame: StackFrame, regs: Registers)
    requires
        switch_ok(s),
    ensures
        switch_spec(s, frame, regs).0.tasks.dom() == s.tasks.dom(),
{
    if s.current.0 != 0 {
        assert(s.tasks.insert(s.current.0, saved(s.tasks[s.current.0], frame, regs)).dom() =~= s.tasks.dom());
    }
}

/// Round robin: when a thread is running, a tick puts it at the back of the
/// queue and runs the thread at the front; the queue keeps its length.
pub proof fn law_switch_round_robin(s: SchedState, frame: StackFrame, regs: Registers)
    requires
        switch_ok(s),
        s.current.0 != 0,
    ensures
        ({
            let q = s.queue.push(s.current);
            let (s2, _, _) = switch_spec(s, frame, regs);
            &&& s2.current == q[0]
            &&& s2.queue == q.subrange(1, q.len() as int)
            &&& s2.queue.len() == s.queue.len()
        }),
{
}

/// A tick records the interrupted thread's CPU state, and the thread it
/// switches to resumes with exactly the state recorded for it.
pub proof fn law_switch_saves_and_restores(s: SchedState, frame: StackFrame, regs: Registers)
    requires
        switch_ok(s),
        s.current.0 != 0,
    ensures
        ({
            let (s2, f2, r2) = switch_spec(s, frame, regs);
            &&& s2.tasks[s.current.0].state_isf == frame
            &&& s2.tasks[s.current.0].state_reg == regs
            &&& s2.current != s.current ==> f2 == s2.tasks[s2.current.0].state_isf && r2 == s2.tasks[s2.current.0].state_reg
        }),
{
}

/// With the idle task running, a tick on an empty queue changes nothing.
pub proof fn law_idle_empty_queue(s: SchedState, frame: StackFrame, regs: Registers)
    requires
        s.current.0 == 0,
        s.queue.len() == 0,
    ensures
        switch_spec(s, frame, regs) == (s, frame, regs),
{
}

} // verus!

verus! {

/// A yield records the yielding thread's state: whatever thread runs next,
/// the yielding one is kept with the frame and registers it yielded with
/// (under its own identifier), every other thread keeps its recorded state,
/// and the yielding thread waits at the back of the queue. The thread at
/// the front of the queue, if another one, runs next and resumes from its
/// recorded state; with nobody else waiting, the idle task runs.
pub proof fn law_yield_records_yielding_thread(s: SchedState, frame: StackFrame, regs: Registers)
    requires
        yield_ok(s),
    ensures
        ({
            let (t, f, r) = yield_spec(s, frame, regs);
            &&& t.tasks.contains_key(s.current.0)
            &&& t.tasks[s.current.0].state_isf == frame
            &&& t.tasks[s.current.0].state_reg == regs
            &&& t.tasks[s.current.0].id == s.tasks[s.current.0].id
            &&& t.tasks.dom() == s.tasks.dom()
            &&& forall|k: u64| k != s.current.0 && #[trigger] s.tasks.contains_key(k) ==> t.tasks[k] == s.tasks[k]
            &&& t.queue.len() > 0 && t.queue.last() == s.current
            &&& s.queue.len() > 0 && s.queue[0] != s.current ==> {
                &&& t.current == s.queue[0]
                &&& f == s.tasks[s.queue[0].0].state_isf
                &&& r == s.tasks[s.queue[0].0].state_reg
                &&& t.queue == s.queue.drop_first().push(s.current)
            }
            &&& s.queue.len() == 0 ==> t.current.0 == 0 && t.queue == seq![s.current]
        }),
{
    let q = s.queue.push(s.current);
    if s.queue.len() > 0 {
        assert(q[0] == s.queue[0]);
        assert(q.subrange(1, q.len() as int) =~= s.queue.drop_first().push(s.current));
    } else {
        assert(q.subrange(1, q.len() as int) =~= Seq::<TaskID>::empty());
    }
    let (t, f, r) = yield_spec(s, frame, regs);
    assert(t.tasks.dom() =~= s.tasks.dom());
}

/// A timer tick records the running thread's state: a thread (not the
/// idle task) that is interrupted is kept with the frame and registers it
/// was interrupted in, every other thread keeps its recorded state, and the
/// thread at the front of the queue (the interrupted one waiting at its
/// back) runs next, resuming from its recorded state.
pub proof fn law_tick_records_running_thread(s: SchedState, frame: StackFrame, regs: Registers)
    requires
        switch_ok(s),
        s.current.0 != 0,
    ensures
        ({
            let (t, f, r) = switch_spec(s, frame, regs);
            &&& t.tasks.contains_key(s.current.0)
            &&& t.tasks[s.current.0].state_isf == frame
            &&& t.tasks[s.current.0].state_reg == regs
            &&& t.tasks.dom() == s.tasks.dom()
            &&& forall|k: u64| k != s.current.0 && #[trigger] s.tasks.contains_key(k) ==> t.tasks[k] == s.tasks[k]
            &&& s.queue.len() > 0 && s.queue[0] != s.current ==> {
                &&& t.current == s.queue[0]
                &&& f == s.tasks[s.queue[0].0].state_isf
                &&& r == s.tasks[s.queue[0].0].state_reg
                &&& t.queue == s.queue.drop_first().push(s.current)
            }
            &&& s.queue.len() == 0 ==> t.current == s.current && f == frame && r == regs
        }),
{
    let q = s.queue.push(s.current);
    if s.queue.len() > 0 {
        assert(q[0] == s.queue[0]);
        assert(q.subrange(1, q.len() as int) =~= s.queue.drop_first().push(s.current));
    }
    let (t, f, r) = switch_spec(s, frame, regs);
    assert(t.tasks.dom() =~= s.tasks.dom());
}

} // verus!
