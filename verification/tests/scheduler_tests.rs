use pippopp::frame::Frame;
use pippopp::memory::USER_START;
use pippopp::process::{Process, ProcessId};
use pippopp::scheduler::Scheduler;
use pippopp::stack::Stack;
use pippopp::task::{Pin, Task, TaskId};

fn mk_task(id: usize, pin: Pin) -> Task {
    let process = Process::from_slice(ProcessId::from(id), &[0x6f, 0x00, 0x00, 0x00]);
    let frame = Frame::empty(process.memory.user_start);
    Task { id: TaskId::new(id), pin, frame, stack: Stack::new(), process }
}

#[test]
fn next_task_returns_unpinned_in_fifo_order() {
    let mut sched = Scheduler::new();
    sched.add_task(mk_task(0, Pin::Unpinned));
    sched.add_task(mk_task(1, Pin::Unpinned));
    sched.add_task(mk_task(2, Pin::Unpinned));

    // Two cores pulling work interleaved still drain the queue in order.
    let a = sched.next_task(0).expect("first task");
    let b = sched.next_task(1).expect("second task");
    let c = sched.next_task(0).expect("third task");
    assert_eq!(a.id.id(), 0);
    assert_eq!(b.id.id(), 1);
    assert_eq!(c.id.id(), 2);
    assert!(sched.next_task(0).is_none());
}

#[test]
fn next_task_skips_task_pinned_to_other_core() {
    let mut sched = Scheduler::new();
    sched.add_task(mk_task(0, Pin::Core(1)));
    sched.add_task(mk_task(1, Pin::Unpinned));

    let got = sched.next_task(0).expect("the unpinned task");
    assert_eq!(got.id.id(), 1);

    // Only the task pinned to core 1 remains; core 0 gets nothing.
    assert!(sched.next_task(0).is_none());
    let pinned = sched.next_task(1).expect("its own core takes it");
    assert_eq!(pinned.id.id(), 0);
}

#[test]
fn next_task_none_when_all_pinned_elsewhere_keeps_queue() {
    let mut sched = Scheduler::new();
    sched.add_task(mk_task(10, Pin::Core(1)));
    sched.add_task(mk_task(11, Pin::Core(1)));
    sched.add_task(mk_task(12, Pin::Core(1)));

    // No task is eligible on core 0: none is returned, none is lost.
    assert!(sched.next_task(0).is_none());

    // The queue still holds all three, in their original order.
    let ids: Vec<usize> = (0..3)
        .map(|_| sched.next_task(1).expect("still queued").id.id())
        .collect();
    assert_eq!(ids, vec![10, 11, 12]);
    assert!(sched.next_task(1).is_none());
}

#[test]
fn repeated_next_task_never_repeats_a_task() {
    let mut sched = Scheduler::new();
    for id in 0..4 {
        sched.add_task(mk_task(id, if id % 2 == 0 { Pin::Unpinned } else { Pin::Core(0) }));
    }
    let mut seen: Vec<usize> = Vec::new();
    while let Some(task) = sched.next_task(0) {
        let id = task.id.id();
        assert!(!seen.contains(&id), "a task came back twice in one sweep");
        seen.push(id);
    }
    assert_eq!(seen.len(), 4);
}

#[test]
fn new_test_task_enqueues_an_unpinned_task() {
    let mut sched = Scheduler::new();
    sched.new_test_task(3, &[1, 2, 3]);
    let task = sched.next_task(0).expect("the new task");
    assert_eq!(task.id.id(), 3);
    assert!(matches!(task.pin, Pin::Unpinned));
    assert_eq!(task.frame.pc as usize, USER_START);
    assert_eq!(task.frame.user_mode, 1);
    let image = task.process.memory.slice(USER_START, 3).expect("image mapped");
    assert_eq!(image, vec![1, 2, 3]);
}
