//! The per-core kernel control block and its trap/dispatch state machine.
//!
//! Trap handling and context switching end in a one-way transfer of control,
//! never a return to the interrupted call site.  Here that terminal act is a
//! `Transfer` value: the hardware layer driving the kernel installs the
//! chosen task's page table and stack, and resumes the chosen frame, idles
//! the core, or halts it with a diagnostic.

use vstd::prelude::*;
use crate::csr::Scause;
use crate::frame::Frame;
use crate::scheduler::{after_next, next_result, queue_has_id, Scheduler};
use crate::syscall::{trap_syscall, SystemCall};
use crate::task::{Pin, Task};

verus! {

/// How many timer ticks a task may run before a forced preemption.
pub const TIMER_THRESHOLD: usize = 1000;

/// Why a trap fired, classified from the hardware's cause registers.
#[derive(Debug, Clone, Copy, PartialEq, Eq, Structural)]
pub enum TrapReason {
    SysCall(usize, usize, usize, usize),
    SegFault { pc_addr: usize, addr: usize },
    Timer,
    KernelYield,
}

impl TrapReason {
    /// Classifies a trap from the three observable signals: the cause
    /// register, the faulting address, and the interrupted frame.  An
    /// environment call advances the frame past the trapping instruction
    /// and carries the call number and arguments; only the timer interrupt
    /// is recognized, and an unknown cause or interrupt code is fatal and
    /// yields no classification.
    pub fn classify(scause: Scause, stval: usize, frame: &mut Frame) -> (r: Option<TrapReason>)
        requires
            scause == Scause::Ecall ==> old(frame).pc + 4 <= u32::MAX,
        ensures
            scause matches Scause::Interrupt(code) ==> *final(frame) == *old(frame) && (if code
                == 5 {
                r == Some(TrapReason::Timer)
            } else {
                r is None
            }),
            scause == Scause::Ecall ==> *final(frame) == (Frame {
                pc: (old(frame).pc + 4) as u32,
                ..*old(frame)
            }) && r == Some(
                TrapReason::SysCall(
                    old(frame).a7 as usize,
                    old(frame).a0 as usize,
                    old(frame).a1 as usize,
                    old(frame).a2 as usize,
                ),
            ),
            scause == Scause::SegFault ==> *final(frame) == *old(frame) && r == Some(
                (TrapReason::SegFault { pc_addr: old(frame).pc as usize, addr: stval }),
            ),
            scause matches Scause::Unknown(_) ==> *final(frame) == *old(frame) && r is None,
    {
        match scause {
            Scause::Interrupt(code) => {
                if code == 5 {
                    Some(TrapReason::Timer)
                } else {
                    None
                }
            },
            Scause::Ecall => {
                frame.pc = frame.pc + 4;
                Some(
                    TrapReason::SysCall(
                        frame.a7 as usize,
                        frame.a0 as usize,
                        frame.a1 as usize,
                        frame.a2 as usize,
                    ),
                )
            },
            Scause::SegFault => {
                Some(TrapReason::SegFault { pc_addr: frame.pc as usize, addr: stval })
            },
            Scause::Unknown(_) => None,
        }
    }
}

/// A trap in flight: the interrupted frame and the classified reason.
#[derive(Debug, Clone, Copy, PartialEq, Eq, Structural)]
pub struct TrapCtx {
    pub frame: Frame,
    pub reason: TrapReason,
}

/// Why a core halts: all of these are unrecoverable by design.
#[derive(Debug, Clone, Copy, PartialEq, Eq, Structural)]
pub enum HaltReason {
    /// A task touched memory outside its address space; there is no
    /// recovery policy.
    SegFault { pc: usize, addr: usize },
    /// A syscall failed to decode.
    BadSysCall,
    /// The syscall is in the decode table but has no assigned behavior yet.
    NotImplemented,
}

/// The terminal act of trap handling: what the core does next.
#[derive(Debug, Clone, Copy, PartialEq, Eq, Structural)]
pub enum Transfer {
    /// Resume this frame, under the current task's page table and stack.
    Dispatch(Frame),
    /// No eligible task: run the idle program with interrupts enabled.
    Wfi,
    /// Halt the core with a diagnostic.
    Halt(HaltReason),
}

/// What one trap decided: a character for the debug console, if any, and
/// the control transfer to perform.
#[derive(Debug, Clone, Copy, PartialEq, Eq, Structural)]
pub struct TrapOutcome {
    pub output: Option<char>,
    pub transfer: Transfer,
}

/// Whether a timer trap arriving at counter value `c` forces a preemption.
pub open spec fn timer_fires(c: nat) -> bool {
    c > TIMER_THRESHOLD
}

/// The timer-interrupt counter after one timer trap at value `c`.
pub open spec fn timer_tick(c: nat) -> nat {
    if timer_fires(c) {
        0
    } else {
        c + 1
    }
}

/// The timer-interrupt counter after `n` timer traps starting from `c`.
pub open spec fn timer_ticks(c: nat, n: nat) -> nat
    decreases n,
{
    if n == 0 {
        c
    } else {
        timer_tick(timer_ticks(c, (n - 1) as nat))
    }
}

/// As long as the counter stays in quantum, each trap just counts.
proof fn lemma_timer_ticks_count(c: nat, n: nat)
    requires
        c + n <= TIMER_THRESHOLD + 1,
    ensures
        timer_ticks(c, n) == c + n,
    decreases n,
{
    if n > 0 {
        lemma_timer_ticks_count(c, (n - 1) as nat);
    }
}

/// The timer quantum, from a fresh counter: the first `TIMER_THRESHOLD + 1`
/// timer traps only count, with the preemption check firing on none of
/// them; the very next trap fires the check, exactly once, and resets the
/// counter to zero.
pub proof fn lemma_timer_quantum()
    ensures
        forall|k: nat| k <= TIMER_THRESHOLD + 1 ==> #[trigger] timer_ticks(0, k) == k,
        forall|k: nat| k <= TIMER_THRESHOLD ==> !timer_fires(#[trigger] timer_ticks(0, k)),
        timer_fires(timer_ticks(0, (TIMER_THRESHOLD + 1) as nat)),
        timer_ticks(0, (TIMER_THRESHOLD + 2) as nat) == 0,
{
    assert forall|k: nat| k <= TIMER_THRESHOLD + 1 implies #[trigger] timer_ticks(0, k) == k by {
        lemma_timer_ticks_count(0, k);
    }
    lemma_timer_ticks_count(0, (TIMER_THRESHOLD + 1) as nat);
    assert(timer_ticks(0, (TIMER_THRESHOLD + 2) as nat) == timer_tick(
        timer_ticks(0, (TIMER_THRESHOLD + 1) as nat),
    ));
}

/// The queue after the task `t` is re-enqueued with its saved frame set to
/// `f` and its pin set to `p`.
pub open spec fn requeue(q: Seq<Task>, t: Task, f: Frame, p: Pin) -> Seq<Task> {
    q.push((Task { frame: f, pin: p, ..t }))
}

/// The per-core control block: exactly zero or one task is held as
/// currently running on a given core at any instant.
///
/// The scheduler is shared by every core under its spinlock; here each
/// operation takes it as an argument, standing for one critical section
/// under that lock.  The per-core scratch words and stack-pointer cell that
/// the trap-entry assembly addresses directly belong to the hardware layer,
/// not to this model.
#[derive(Debug)]
pub struct Kernel {
    pub core: usize,
    pub waiting: bool,
    pub current_running: Option<Task>,
}

impl Kernel {
    /// A fresh control block for `core`, idle and with no task bound.
    pub fn new(core: usize) -> (k: Kernel)
        ensures
            k.core == core,
            k.waiting,
            k.current_running is None,
    {
        Kernel { core, waiting: true, current_running: None }
    }

    /// Per-core setup; nothing is needed beyond construction.
    pub fn init(&self) {
    }

    /// Parks this core until an interrupt: the idle stack is installed and
    /// interrupts are re-enabled by the layer performing the transfer.
    fn wfi(&mut self) -> (r: Transfer)
        ensures
            final(self).core == old(self).core,
            final(self).current_running == old(self).current_running,
            final(self).waiting,
            r == Transfer::Wfi,
    {
        self.waiting = true;
        Transfer::Wfi
    }

    /// Asks the scheduler for work and binds it as the running task, or
    /// parks the core.
    fn dispatch_next(&mut self, sched: &mut Scheduler) -> (r: Transfer)
        requires
            old(sched).wf(),
        ensures
            final(sched).wf(),
            final(sched)@ == after_next(old(sched)@, old(self).core),
            final(self).core == old(self).core,
            match next_result(old(sched)@, old(self).core) {
                Some(t) => {
                    &&& r == Transfer::Dispatch(t.frame)
                    &&& final(self).current_running == Some(t)
                    &&& !final(self).waiting
                },
                None => {
                    &&& r == Transfer::Wfi
                    &&& final(self).current_running == old(self).current_running
                    &&& final(self).waiting
                },
            },
    {
        match sched.next_task(self.core) {
            Some(task) => {
                let frame = task.frame;
                self.current_running = Some(task);
                self.waiting = false;
                Transfer::Dispatch(frame)
            },
            None => self.wfi(),
        }
    }

    /// Boots this core: takes the first task and transfers into it, or
    /// parks until an interrupt arrives.
    pub fn start(&mut self, sched: &mut Scheduler) -> (r: Transfer)
        requires
            old(sched).wf(),
        ensures
            final(sched).wf(),
            final(sched)@ == after_next(old(sched)@, old(self).core),
            final(self).core == old(self).core,
            match next_result(old(sched)@, old(self).core) {
                Some(t) => {
                    &&& r == Transfer::Dispatch(t.frame)
                    &&& final(self).current_running == Some(t)
                    &&& !final(self).waiting
                },
                None => {
                    &&& r == Transfer::Wfi
                    &&& final(self).current_running == old(self).current_running
                    &&& final(self).waiting
                },
            },
    {
        self.dispatch_next(sched)
    }

    /// Wakes this core out of the idle loop: an interrupt arrived, so ask
    /// the scheduler for work.
    pub fn switch_from_waiting(&mut self, sched: &mut Scheduler) -> (r: Transfer)
        requires
            old(sched).wf(),
        ensures
            final(sched).wf(),
            final(sched)@ == after_next(old(sched)@, old(self).core),
            final(self).core == old(self).core,
            match next_result(old(sched)@, old(self).core) {
                Some(t) => {
                    &&& r == Transfer::Dispatch(t.frame)
                    &&& final(self).current_running == Some(t)
                    &&& !final(self).waiting
                },
                None => {
                    &&& r == Transfer::Wfi
                    &&& final(self).current_running == old(self).current_running
                    &&& final(self).waiting
                },
            },
    {
        self.dispatch_next(sched)
    }

    /// Suspends the bound task behind `old_frame`, hands it back to the
    /// scheduler, and transfers into the next task for this core, or parks.
    pub fn context_switch(&mut self, sched: &mut Scheduler, old_frame: &Frame) -> (r: Transfer)
        requires
            old(sched).wf(),
            old(self).current_running matches Some(t) ==> !queue_has_id(old(sched)@, t.id),
        ensures
            final(sched).wf(),
            final(self).core == old(self).core,
            ({
                let q2 = match old(self).current_running {
                    Some(t) => requeue(old(sched)@, t, *old_frame, t.pin),
                    None => old(sched)@,
                };
                &&& final(sched)@ == after_next(q2, old(self).core)
                &&& match next_result(q2, old(self).core) {
                    Some(t) => {
                        &&& r == Transfer::Dispatch(t.frame)
                        &&& final(self).current_running == Some(t)
                        &&& !final(self).waiting
                    },
                    None => {
                        &&& r == Transfer::Wfi
                        &&& final(self).current_running is None
                        &&& final(self).waiting
                    },
                }
            }),
    {
        let cur = self.current_running.take();
        match cur {
            Some(mut task) => {
                task.frame = *old_frame;
                sched.add_task(task);
            },
            None => {},
        }
        self.dispatch_next(sched)
    }

    /// Handles one classified trap.  A syscall is decoded and delegated; a
    /// segmentation fault and an undecodable syscall halt the core; a timer
    /// tick advances the shared interrupt counter and, past the preemption
    /// threshold, resets it and forces a context switch — unpinning the task
    /// if it was interrupted in user mode, pinning it to this core if it was
    /// interrupted in kernel mode; below the threshold the tick is a no-op
    /// resume.  A voluntary kernel yield always performs a full switch.
    pub fn trap(
        &mut self,
        sched: &mut Scheduler,
        timer_interrupts: &mut usize,
        ctx: TrapCtx,
    ) -> (r: TrapOutcome)
        requires
            old(sched).wf(),
            old(self).current_running matches Some(t) ==> !queue_has_id(old(sched)@, t.id),
            *old(timer_interrupts) < usize::MAX,
            (ctx.reason matches TrapReason::Timer && *old(timer_interrupts) > TIMER_THRESHOLD)
                ==> old(self).current_running is Some,
        ensures
            final(sched).wf(),
            final(self).core == old(self).core,
            ctx.reason matches TrapReason::Timer ==> *final(timer_interrupts) == timer_tick(
                *old(timer_interrupts) as nat,
            ),
            !(ctx.reason matches TrapReason::Timer) ==> *final(timer_interrupts) == *old(
                timer_interrupts,
            ),
            ctx.reason matches TrapReason::SysCall(r1, r2, r3, r4) ==> {
                &&& *final(self) == *old(self)
                &&& final(sched)@ == old(sched)@
                &&& (r1 == 0 && crate::syscall::valid_char_code(r2 as u32)) ==> (
                r.output matches Some(c) && c as u32 == r2 as u32 && r.transfer
                    == Transfer::Dispatch(ctx.frame))
                &&& r1 == 1 ==> r == (TrapOutcome {
                    output: None,
                    transfer: Transfer::Halt(HaltReason::NotImplemented),
                })
                &&& !(r1 == 1 || (r1 == 0 && crate::syscall::valid_char_code(r2 as u32))) ==> r
                    == (TrapOutcome { output: None, transfer: Transfer::Halt(HaltReason::BadSysCall) })
            },
            ctx.reason matches TrapReason::SegFault { pc_addr, addr } ==> {
                &&& *final(self) == *old(self)
                &&& final(sched)@ == old(sched)@
                &&& r == (TrapOutcome {
                    output: None,
                    transfer: Transfer::Halt((HaltReason::SegFault { pc: pc_addr, addr })),
                })
            },
            ctx.reason matches TrapReason::KernelYield ==> r.output is None && ({
                let q2 = match old(self).current_running {
                    Some(t) => requeue(old(sched)@, t, ctx.frame, t.pin),
                    None => old(sched)@,
                };
                &&& final(sched)@ == after_next(q2, old(self).core)
                &&& match next_result(q2, old(self).core) {
                    Some(t) => r.transfer == Transfer::Dispatch(t.frame)
                        && final(self).current_running == Some(t) && !final(self).waiting,
                    None => r.transfer == Transfer::Wfi && final(self).current_running is None
                        && final(self).waiting,
                }
            }),
            (ctx.reason matches TrapReason::Timer && *old(timer_interrupts) <= TIMER_THRESHOLD)
                ==> {
                &&& *final(self) == *old(self)
                &&& final(sched)@ == old(sched)@
                &&& r == (TrapOutcome { output: None, transfer: Transfer::Dispatch(ctx.frame) })
            },
            (ctx.reason matches TrapReason::Timer && *old(timer_interrupts) > TIMER_THRESHOLD)
                ==> r.output is None && ({
                let pin = if ctx.frame.is_user_mode_spec() {
                    Pin::Unpinned
                } else {
                    Pin::Core(old(self).core)
                };
                let q2 = match old(self).current_running {
                    Some(t) => requeue(old(sched)@, t, ctx.frame, pin),
                    None => old(sched)@,
                };
                &&& final(sched)@ == after_next(q2, old(self).core)
                &&& match next_result(q2, old(self).core) {
                    Some(t) => r.transfer == Transfer::Dispatch(t.frame)
                        && final(self).current_running == Some(t) && !final(self).waiting,
                    None => r.transfer == Transfer::Wfi && final(self).current_running is None
                        && final(self).waiting,
                }
            }),
    {
        match ctx.reason {
            TrapReason::SysCall(r1, r2, r3, r4) => {
                match SystemCall::from_regs(r1, r2, r3, r4) {
                    Some(v) => trap_syscall(self, v, ctx),
                    None => TrapOutcome {
                        output: None,
                        transfer: Transfer::Halt(HaltReason::BadSysCall),
                    },
                }
            },
            TrapReason::SegFault { pc_addr, addr } => TrapOutcome {
                output: None,
                transfer: Transfer::Halt(HaltReason::SegFault { pc: pc_addr, addr }),
            },
            TrapReason::KernelYield => {
                let transfer = self.context_switch(sched, &ctx.frame);
                TrapOutcome { output: None, transfer }
            },
            TrapReason::Timer => {
                let was = *timer_interrupts;
                *timer_interrupts = was + 1;
                if was > TIMER_THRESHOLD {
                    *timer_interrupts = 0;
                    if ctx.frame.is_user_mode() {
                        match &mut self.current_running {
                            Some(task) => {
                                task.pin(Pin::Unpinned);
                            },
                            None => {},
                        }
                        let transfer = self.context_switch(sched, &ctx.frame);
                        TrapOutcome { output: None, transfer }
                    } else {
                        self.kernel_yield();
                        let transfer = self.context_switch(sched, &ctx.frame);
                        TrapOutcome { output: None, transfer }
                    }
                } else {
                    TrapOutcome { output: None, transfer: Transfer::Dispatch(ctx.frame) }
                }
            },
        }
    }

    /// A voluntary yield from kernel-mode code: pins the running task back
    /// to this core, since kernel-mode code must resume where it was
    /// interrupted.  The trap that performs the switch follows separately.
    pub fn kernel_yield(&mut self)
        requires
            old(self).current_running is Some,
        ensures
            final(self).core == old(self).core,
            final(self).waiting == old(self).waiting,
            old(self).current_running matches Some(t) ==> final(self).current_running == Some(
                (Task { pin: Pin::Core(old(self).core), ..t }),
            ),
    {
        let core = self.core;
        match &mut self.current_running {
            Some(task) => {
                task.pin(Pin::Core(core));
            },
            None => {},
        }
    }
}

} // verus!
