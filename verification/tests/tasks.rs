use crafty_os::executor::{
    Executor, QueueItem, Sleep, Step, TaskID as ExecTaskID, TaskPriority, TaskQueue, YieldNow,
    FIRST_TASK_ID as FIRST_EXEC_TASK_ID,
};
use crafty_os::multitasking::{
    next_stack_addr, Registers, StackFrame, Task, TaskID, TaskManager, FIRST_TASK_ID, GUARD_SIZE, STACK_SIZE,
    STACK_START,
};

fn frame(rip: u64) -> StackFrame {
    StackFrame { instruction_pointer: rip, code_segment: 8, cpu_flags: 0x202, stack_pointer: 0, stack_segment: 0 }
}

#[test]
fn task_id_counter_moves_on_and_wraps() {
    let mut next = 7u64;
    assert_eq!(TaskID::new(&mut next), TaskID(7));
    assert_eq!(next, 8);
    let mut last = u64::MAX;
    assert_eq!(ExecTaskID::new(&mut last), ExecTaskID(u64::MAX));
    assert_eq!(last, 0);
    assert!(TaskID::none_task().is_none());
    assert!(!TaskID(3).is_none());
}

#[test]
fn new_thread_starts_on_its_stack_top() {
    let t = Task::new(TaskID(4), 0x9000);
    assert_eq!(t.id, TaskID(4));
    assert_eq!(t.state_isf.stack_pointer, 0x9000 + STACK_SIZE);
    assert_eq!(t.state_isf.cpu_flags, 0x202);
    assert_eq!(t.state_isf.code_segment, 8);
    assert_eq!(t.state_reg, Registers::zeroed());
}

#[test]
fn timer_ticks_run_threads_round_robin() {
    let mut tm = TaskManager::new();
    tm.init(Task::new(TaskID(0), 0x100000), 0xDEAD);
    assert!(tm.spawn(Task::new(TaskID(1), 0x1000)));
    assert!(tm.spawn(Task::new(TaskID(2), 0x2000)));
    let mut f = frame(0x50);
    let mut r = Registers::zeroed();
    tm.switch_task_interrupt(&mut f, &mut r);
    assert_eq!(f.stack_pointer, 0x1000 + STACK_SIZE);
    f.instruction_pointer = 0x111;
    r.rax = 42;
    tm.switch_task_interrupt(&mut f, &mut r);
    assert_eq!(f.stack_pointer, 0x2000 + STACK_SIZE);
    assert_eq!(r.rax, 0);
    tm.switch_task_interrupt(&mut f, &mut r);
    assert_eq!(f.instruction_pointer, 0x111);
    assert_eq!(r.rax, 42);
}

#[test]
fn idle_tick_with_empty_queue_changes_nothing() {
    let mut tm = TaskManager::new();
    let mut f = frame(0x77);
    let mut r = Registers::zeroed();
    r.rbx = 5;
    tm.switch_task_interrupt(&mut f, &mut r);
    assert_eq!(f, frame(0x77));
    assert_eq!(r.rbx, 5);
}

#[test]
fn respawning_an_id_reports_it() {
    let mut tm = TaskManager::new();
    assert!(tm.spawn(Task::new(TaskID(1), 0x1000)));
    assert!(!tm.spawn(Task::new(TaskID(1), 0x3000)));
}

#[test]
fn yield_alone_runs_idle_task() {
    let mut tm = TaskManager::new();
    tm.init(Task::new(TaskID(0), 0x100000), 0xDEAD);
    tm.spawn(Task::new(TaskID(1), 0x1000));
    let mut f = frame(0);
    let mut r = Registers::zeroed();
    tm.switch_task_interrupt(&mut f, &mut r);
    tm.yield_now(&mut f, &mut r);
    assert_eq!(f.instruction_pointer, 0xDEAD);
}

#[test]
fn yield_hands_over_to_next_thread() {
    let mut tm = TaskManager::new();
    tm.init(Task::new(TaskID(0), 0x100000), 0xDEAD);
    tm.spawn(Task::new(TaskID(1), 0x1000));
    tm.spawn(Task::new(TaskID(2), 0x2000));
    let mut f = frame(0);
    let mut r = Registers::zeroed();
    tm.switch_task_interrupt(&mut f, &mut r);
    tm.yield_now(&mut f, &mut r);
    assert_eq!(f.stack_pointer, 0x2000 + STACK_SIZE);
}

#[test]
fn spawned_thread_gets_bootstrap_and_closure_argument() {
    let mut tm = TaskManager::new();
    tm.init(Task::new(TaskID(0), 0x100000), 0xDEAD);
    let mut regs = Registers::zeroed();
    regs.r8 = 0xC105;
    assert!(tm.spawn_thread_sys(&mut regs, Task::new(TaskID(9), 0x4000), 0xB007));
    assert_eq!(regs.rax, 9);
    let mut f = frame(0);
    let mut r = Registers::zeroed();
    tm.switch_task_interrupt(&mut f, &mut r);
    assert_eq!(f.instruction_pointer, 0xB007);
    assert_eq!(r.rdi, 0xC105);
}

#[test]
fn quitting_thread_is_dropped() {
    let mut tm = TaskManager::new();
    tm.init(Task::new(TaskID(0), 0x100000), 0xDEAD);
    tm.spawn(Task::new(TaskID(1), 0x1000));
    tm.spawn(Task::new(TaskID(2), 0x2000));
    let mut f = frame(0);
    let mut r = Registers::zeroed();
    tm.switch_task_interrupt(&mut f, &mut r);
    tm.quit(&mut f, &mut r);
    assert_eq!(f.stack_pointer, 0x2000 + STACK_SIZE);
    tm.switch_task_interrupt(&mut f, &mut r);
    assert_eq!(f.stack_pointer, 0x2000 + STACK_SIZE);
}

#[test]
fn executor_takes_interrupt_work_first() {
    let mut q = TaskQueue::new();
    let mut e = Executor::new();
    let mut next = 0u64;
    let a = q.spawn(&mut next, TaskPriority::Normal);
    let b = q.spawn(&mut next, TaskPriority::Interrupt);
    assert_eq!((a, b), (ExecTaskID(0), ExecTaskID(1)));
    assert_eq!(e.step(&mut q), Step::Spawned(b, TaskPriority::Interrupt));
    assert_eq!(e.step(&mut q), Step::Poll(b));
    assert_eq!(e.step(&mut q), Step::Spawned(a, TaskPriority::Normal));
    assert_eq!(e.step(&mut q), Step::Poll(a));
    assert_eq!(e.step(&mut q), Step::Sleep);
}

#[test]
fn executor_finishes_and_kills_tasks() {
    let mut q = TaskQueue::new();
    let mut e = Executor::new();
    let mut next = 10u64;
    let a = q.spawn(&mut next, TaskPriority::Normal);
    let b = q.spawn(&mut next, TaskPriority::Normal);
    e.step(&mut q);
    e.step(&mut q);
    assert!(e.contains(a) && e.contains(b));
    assert_eq!(e.step(&mut q), Step::Poll(a));
    e.finish_poll(a, false);
    assert!(e.contains(a));
    e.finish_poll(a, true);
    assert!(!e.contains(a));
    q.kill(b);
    assert_eq!(e.step(&mut q), Step::Poll(b));
    assert_eq!(e.step(&mut q), Step::Killed(b, true));
    assert!(e.is_empty());
    q.kill(b);
    assert_eq!(e.step(&mut q), Step::Killed(b, false));
}

#[test]
fn executor_skips_polls_of_dead_tasks_and_flags_duplicates() {
    let mut q = TaskQueue::new();
    let mut e = Executor::new();
    q.push(TaskPriority::Normal, QueueItem::Poll(ExecTaskID(9)));
    assert_eq!(e.step(&mut q), Step::Skip);
    q.spawn_task(ExecTaskID(5), TaskPriority::Normal);
    q.spawn_task(ExecTaskID(5), TaskPriority::Normal);
    assert_eq!(e.step(&mut q), Step::Spawned(ExecTaskID(5), TaskPriority::Normal));
    assert_eq!(e.step(&mut q), Step::Duplicate(ExecTaskID(5)));
    assert_eq!(e.step(&mut q), Step::Poll(ExecTaskID(5)));
}

#[test]
fn waking_queues_a_poll_and_sets_flag() {
    let mut q = TaskQueue::new();
    let mut s = Sleep::new();
    assert!(!s.sleep());
    q.wake_task(ExecTaskID(3), TaskPriority::Interrupt, &mut s);
    assert_eq!(q.get_next_task(), Some(QueueItem::Poll(ExecTaskID(3))));
    assert_eq!(q.get_next_task(), None);
    assert!(s.sleep());
    assert!(!s.sleep());
    s.wake();
    assert!(s.woken);
}

#[test]
fn yield_now_is_pending_once() {
    let mut y = YieldNow::new();
    assert!(!y.poll());
    assert!(y.poll());
    assert!(y.poll());
}

#[test]
fn thread_ids_start_at_one_and_executor_ids_at_zero() {
    let mut next = FIRST_TASK_ID;
    let a = TaskID::new(&mut next);
    let b = TaskID::new(&mut next);
    assert_eq!((a.0, b.0), (1, 2));
    assert!(!a.is_none());
    assert!(TaskID::none_task().is_none());
    let mut exec_next = FIRST_EXEC_TASK_ID;
    assert_eq!(ExecTaskID::new(&mut exec_next).0, 0);
    assert_eq!(ExecTaskID::new(&mut exec_next).0, 1);
    let mut last = u64::MAX;
    assert_eq!(TaskID::new(&mut last).0, u64::MAX);
    assert_eq!(last, 0);
}

#[test]
fn thread_stacks_are_a_guard_page_apart() {
    assert_eq!(STACK_START, 0x80_000);
    let first = STACK_START;
    let second = next_stack_addr(first);
    assert_eq!(second, first + 8192);
    assert_eq!(second - (first + STACK_SIZE), GUARD_SIZE);
    let t1 = Task::new(TaskID(1), first);
    let t2 = Task::new(TaskID(2), second);
    assert_eq!(t2.state_isf.stack_pointer, t1.state_isf.stack_pointer + 8192);
    assert_eq!(t1.state_isf.code_segment, 8);
    assert_eq!(t1.state_isf.cpu_flags, 0x202);
    assert_eq!(next_stack_addr(u64::MAX - 4095), 4096);
}
