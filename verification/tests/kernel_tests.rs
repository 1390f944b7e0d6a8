use pippopp::frame::Frame;
use pippopp::kernel::{
    HaltReason, Kernel, TrapCtx, TrapOutcome, TrapReason, Transfer, TIMER_THRESHOLD,
};
use pippopp::process::{Process, ProcessId};
use pippopp::scheduler::Scheduler;
use pippopp::stack::Stack;
use pippopp::task::{Pin, Task, TaskId};

fn mk_task(id: usize, pin: Pin) -> Task {
    let process = Process::from_slice(ProcessId::from(id), &[0x6f, 0x00, 0x00, 0x00]);
    let frame = Frame::empty(process.memory.user_start);
    Task { id: TaskId::new(id), pin, frame, stack: Stack::new(), process }
}

#[test]
fn start_dispatches_the_first_task() {
    let mut sched = Scheduler::new();
    sched.add_task(mk_task(0, Pin::Unpinned));
    let mut kernel = Kernel::new(0);
    kernel.init();

    let expected = Frame::empty(pippopp::memory::USER_START);
    match kernel.start(&mut sched) {
        Transfer::Dispatch(frame) => assert_eq!(frame, expected),
        other => panic!("expected a dispatch, got {:?}", other),
    }
    assert!(!kernel.waiting);
    assert_eq!(kernel.current_running.as_ref().unwrap().id.id(), 0);
}

#[test]
fn start_with_no_work_parks_the_core() {
    let mut sched = Scheduler::new();
    let mut kernel = Kernel::new(2);
    assert_eq!(kernel.start(&mut sched), Transfer::Wfi);
    assert!(kernel.waiting);
    assert!(kernel.current_running.is_none());
    assert_eq!(kernel.switch_from_waiting(&mut sched), Transfer::Wfi);
}

#[test]
fn syscall_print_emits_the_character_and_resumes_the_same_frame() {
    let mut sched = Scheduler::new();
    let mut kernel = Kernel::new(0);
    kernel.current_running = Some(mk_task(4, Pin::Unpinned));
    let mut timer: usize = 0;

    // The entry path has already advanced the pc past the ecall.
    let mut frame = Frame::empty(pippopp::memory::USER_START);
    frame.set_pc(pippopp::memory::USER_START + 4);

    let ctx = TrapCtx { frame, reason: TrapReason::SysCall(0, 'A' as usize, 0, 0) };
    let outcome = kernel.trap(&mut sched, &mut timer, ctx);
    assert_eq!(outcome.output, Some('A'));
    match outcome.transfer {
        Transfer::Dispatch(resumed) => {
            assert_eq!(resumed, frame);
            assert_eq!(resumed.pc as usize, pippopp::memory::USER_START + 4);
        },
        other => panic!("expected a dispatch, got {:?}", other),
    }
    // The same task is still the running one; the scheduler was not touched.
    assert_eq!(kernel.current_running.as_ref().unwrap().id.id(), 4);
    assert!(sched.next_task(0).is_none());
}

#[test]
fn syscall_with_unknown_number_halts() {
    let mut sched = Scheduler::new();
    let mut kernel = Kernel::new(0);
    let mut timer: usize = 0;
    let frame = Frame::empty(pippopp::memory::USER_START);
    let ctx = TrapCtx { frame, reason: TrapReason::SysCall(7, 0, 0, 0) };
    let outcome = kernel.trap(&mut sched, &mut timer, ctx);
    assert_eq!(
        outcome,
        TrapOutcome { output: None, transfer: Transfer::Halt(HaltReason::BadSysCall) },
    );
}

#[test]
fn syscall_print_with_surrogate_code_halts() {
    let mut sched = Scheduler::new();
    let mut kernel = Kernel::new(0);
    let mut timer: usize = 0;
    let frame = Frame::empty(pippopp::memory::USER_START);
    let ctx = TrapCtx { frame, reason: TrapReason::SysCall(0, 0xD800, 0, 0) };
    let outcome = kernel.trap(&mut sched, &mut timer, ctx);
    assert_eq!(outcome.transfer, Transfer::Halt(HaltReason::BadSysCall));
}

#[test]
fn syscall_yield_is_a_distinguishable_stub() {
    let mut sched = Scheduler::new();
    let mut kernel = Kernel::new(0);
    let mut timer: usize = 0;
    let frame = Frame::empty(pippopp::memory::USER_START);
    let ctx = TrapCtx { frame, reason: TrapReason::SysCall(1, 0, 0, 0) };
    let outcome = kernel.trap(&mut sched, &mut timer, ctx);
    assert_eq!(outcome.transfer, Transfer::Halt(HaltReason::NotImplemented));
}

#[test]
fn segfault_halts_with_the_diagnostic() {
    let mut sched = Scheduler::new();
    let mut kernel = Kernel::new(1);
    let mut timer: usize = 0;
    let frame = Frame::empty(pippopp::memory::USER_START);
    let ctx = TrapCtx { frame, reason: TrapReason::SegFault { pc_addr: 0x1234, addr: 0x99 } };
    let outcome = kernel.trap(&mut sched, &mut timer, ctx);
    assert_eq!(
        outcome.transfer,
        Transfer::Halt(HaltReason::SegFault { pc: 0x1234, addr: 0x99 }),
    );
}

#[test]
fn timer_quantum_fires_once_after_threshold_plus_one_ticks() {
    let mut sched = Scheduler::new();
    let mut kernel = Kernel::new(0);
    let mut timer: usize = 0;
    let frame = Frame::empty(pippopp::memory::USER_START);

    // The first threshold + 1 timer traps only count and resume.
    for _ in 0..(TIMER_THRESHOLD + 1) {
        let ctx = TrapCtx { frame, reason: TrapReason::Timer };
        let outcome = kernel.trap(&mut sched, &mut timer, ctx);
        assert_eq!(outcome.transfer, Transfer::Dispatch(frame));
    }
    assert_eq!(timer, TIMER_THRESHOLD + 1);

    // The next one fires the preemption check and resets the counter.
    kernel.current_running = Some(mk_task(6, Pin::Unpinned));
    let ctx = TrapCtx { frame, reason: TrapReason::Timer };
    let outcome = kernel.trap(&mut sched, &mut timer, ctx);
    assert_eq!(timer, 0);
    // The preempted task was the only runnable one: it is dispatched again,
    // with the interrupted frame it was saved with.
    assert_eq!(outcome.transfer, Transfer::Dispatch(frame));
    let rebound = kernel.current_running.as_ref().unwrap();
    assert_eq!(rebound.id.id(), 6);
    assert!(matches!(rebound.pin, Pin::Unpinned));
}

#[test]
fn timer_preemption_in_kernel_mode_pins_the_task_to_its_core() {
    let mut sched = Scheduler::new();
    let mut kernel = Kernel::new(3);
    kernel.current_running = Some(mk_task(8, Pin::Unpinned));
    let mut timer: usize = TIMER_THRESHOLD + 1;

    let mut frame = Frame::empty(pippopp::memory::USER_START);
    frame.set_is_user_mode(false);
    let ctx = TrapCtx { frame, reason: TrapReason::Timer };
    let outcome = kernel.trap(&mut sched, &mut timer, ctx);
    assert_eq!(timer, 0);
    assert_eq!(outcome.transfer, Transfer::Dispatch(frame));
    let rebound = kernel.current_running.as_ref().unwrap();
    assert_eq!(rebound.id.id(), 8);
    assert!(matches!(rebound.pin, Pin::Core(3)));
}

#[test]
fn kernel_yield_trap_switches_to_the_next_task() {
    let mut sched = Scheduler::new();
    sched.add_task(mk_task(0, Pin::Unpinned));
    sched.add_task(mk_task(1, Pin::Unpinned));
    let mut kernel = Kernel::new(0);
    let mut timer: usize = 0;

    kernel.start(&mut sched);
    assert_eq!(kernel.current_running.as_ref().unwrap().id.id(), 0);

    // The running task yields; its frame is saved and it goes to the tail.
    let mut yielded = Frame::empty(pippopp::memory::USER_START);
    yielded.set_pc(pippopp::memory::USER_START + 64);
    let ctx = TrapCtx { frame: yielded, reason: TrapReason::KernelYield };
    let outcome = kernel.trap(&mut sched, &mut timer, ctx);
    match outcome.transfer {
        Transfer::Dispatch(_) => {},
        other => panic!("expected a dispatch, got {:?}", other),
    }
    assert_eq!(kernel.current_running.as_ref().unwrap().id.id(), 1);

    // Yielding again brings back the first task, with the frame it saved.
    let second = Frame::empty(pippopp::memory::USER_START);
    let ctx = TrapCtx { frame: second, reason: TrapReason::KernelYield };
    let outcome = kernel.trap(&mut sched, &mut timer, ctx);
    match outcome.transfer {
        Transfer::Dispatch(frame) => assert_eq!(frame, yielded),
        other => panic!("expected a dispatch, got {:?}", other),
    }
    assert_eq!(kernel.current_running.as_ref().unwrap().id.id(), 0);
}

#[test]
fn kernel_yield_pins_the_running_task() {
    let mut kernel = Kernel::new(5);
    kernel.current_running = Some(mk_task(2, Pin::Unpinned));
    kernel.kernel_yield();
    assert!(matches!(kernel.current_running.as_ref().unwrap().pin, Pin::Core(5)));
}

#[test]
fn boot_runs_every_task_once_before_any_runs_twice() {
    // Four runnable tasks, two cores: an end-to-end round of preemptions.
    let mut sched = Scheduler::new();
    for id in 0..4 {
        sched.add_task(mk_task(id, Pin::Unpinned));
    }
    let mut k0 = Kernel::new(0);
    let mut k1 = Kernel::new(1);
    let mut timer: usize = 0;

    let mut order: Vec<usize> = Vec::new();
    k0.start(&mut sched);
    order.push(k0.current_running.as_ref().unwrap().id.id());
    k1.start(&mut sched);
    order.push(k1.current_running.as_ref().unwrap().id.id());

    // Each core is preempted and switches; the replaced tasks re-enter the
    // queue behind the ones that have not yet run.
    let frame = Frame::empty(pippopp::memory::USER_START);
    for kernel in [&mut k0, &mut k1] {
        let ctx = TrapCtx { frame, reason: TrapReason::KernelYield };
        kernel.trap(&mut sched, &mut timer, ctx);
        order.push(kernel.current_running.as_ref().unwrap().id.id());
    }
    assert_eq!(order, vec![0, 1, 2, 3]);
}
