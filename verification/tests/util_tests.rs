use pippopp::csr::{Satp, Scause, Sepc, Sscratch, Sstatus, Stvec};
use pippopp::environment::wfi_program;
use pippopp::frame::Frame;
use pippopp::kernel::TrapReason;
use pippopp::mutex::Mutex;
use pippopp::pages::{UserPages, PAGE_SIZE};
use pippopp::ring_buffer::RingBuffer;
use pippopp::stack::{Stack, STACK_SIZE};
use pippopp::syscall::SystemCall;
use pippopp::task::Pin;
use pippopp::utils::{align_up, is_aligned};

#[test]
fn align_up_rounds_to_the_next_multiple() {
    assert_eq!(align_up(0, 8), 0);
    assert_eq!(align_up(1, 8), 8);
    assert_eq!(align_up(8, 8), 8);
    assert_eq!(align_up(9, 8), 16);
    assert_eq!(align_up(4095, 4096), 4096);
    assert_eq!(align_up(4096, 4096), 4096);
    assert_eq!(align_up(4097, 4096), 8192);
}

#[test]
fn is_aligned_checks_the_low_bits() {
    assert!(is_aligned(0, 4));
    assert!(is_aligned(4096, 4096));
    assert!(!is_aligned(4095, 4096));
    assert!(!is_aligned(2, 4));
    assert!(!is_aligned(7, 0), "zero alignment is never valid");
}

#[test]
fn sstatus_bits_round_trip() {
    let s = Sstatus { SPIE: true, SIE: false, SPP: true, SUM: false };
    let bits = s.to_bits();
    assert_eq!(bits, 32 + 256);
    assert_eq!(Sstatus::from_bits(bits), s);

    let all = Sstatus { SPIE: true, SIE: true, SPP: true, SUM: true };
    assert_eq!(all.to_bits(), 32 + 2 + 256 + 262144);
    assert_eq!(Sstatus::from_bits(all.to_bits()), all);
}

#[test]
fn scause_classifies_the_cause_bits() {
    assert_eq!(Scause::from_bits(0x8), Scause::Ecall);
    assert_eq!(Scause::from_bits(0xd), Scause::SegFault);
    assert_eq!(Scause::from_bits(0x8000_0005), Scause::Interrupt(5));
    assert_eq!(Scause::from_bits(0x8000_0009), Scause::Interrupt(9));
    assert_eq!(Scause::from_bits(0x3), Scause::Unknown(3));
}

#[test]
fn csr_value_types_keep_their_values() {
    assert_eq!(Sscratch::new(77).as_u32(), 77);
    assert_eq!(Sepc::new(0x80000000).as_usize(), 0x80000000);
    assert_eq!(Stvec::new(0x1000).as_usize(), 0x1000);
    assert_eq!(Satp::new(0x80001234).as_usize(), 0x80001234);
}

#[test]
fn classify_ecall_advances_the_pc_and_carries_the_registers() {
    let mut frame = Frame::empty(0x1000);
    frame.a7 = 0;
    frame.a0 = 65;
    frame.a1 = 2;
    frame.a2 = 3;
    let reason = TrapReason::classify(Scause::Ecall, 0, &mut frame);
    assert_eq!(frame.pc, 0x1004);
    assert_eq!(reason, Some(TrapReason::SysCall(0, 65, 2, 3)));
}

#[test]
fn classify_recognizes_only_the_timer_interrupt() {
    let mut frame = Frame::empty(0x1000);
    assert_eq!(
        TrapReason::classify(Scause::Interrupt(5), 0, &mut frame),
        Some(TrapReason::Timer),
    );
    assert_eq!(TrapReason::classify(Scause::Interrupt(9), 0, &mut frame), None);
    assert_eq!(TrapReason::classify(Scause::Unknown(3), 0, &mut frame), None);
    assert_eq!(
        TrapReason::classify(Scause::SegFault, 0xbeef, &mut frame),
        Some(TrapReason::SegFault { pc_addr: 0x1000, addr: 0xbeef }),
    );
}

#[test]
fn syscall_decode_accepts_only_known_numbers() {
    assert_eq!(SystemCall::from_regs(1, 0, 0, 0), Some(SystemCall::Yield));
    assert_eq!(
        SystemCall::from_regs(0, 'Z' as usize, 0, 0),
        Some(SystemCall::UartDebugPrint('Z')),
    );
    assert_eq!(SystemCall::from_regs(0, 0xD800, 0, 0), None);
    assert_eq!(SystemCall::from_regs(0, 0x110000, 0, 0), None);
    assert_eq!(SystemCall::from_regs(2, 0, 0, 0), None);
}

#[test]
fn frame_result_registers() {
    let mut frame = Frame::empty(0x2000);
    frame.a0 = 11;
    frame.a1 = 22;
    frame.set_success((Some(1), None, Some(3)));
    assert_eq!((frame.a0, frame.a1, frame.a2, frame.a7), (1, 22, 3, 0));
    frame.set_error((None, Some(5), None));
    assert_eq!((frame.a0, frame.a1, frame.a2, frame.a7), (1, 5, 3, 1));
    assert!(frame.is_user_mode());
    frame.set_is_user_mode(false);
    assert!(!frame.is_user_mode());
}

#[test]
fn pin_admits_only_its_core() {
    assert!(Pin::Unpinned.can_take(0));
    assert!(Pin::Unpinned.can_take(7));
    assert!(Pin::Core(2).can_take(2));
    assert!(!Pin::Core(2).can_take(3));
}

#[test]
fn mutex_guards_its_data() {
    let mut m = Mutex::new(10usize);
    assert!(!m.is_locked());
    assert!(m.try_lock());
    assert!(m.is_locked());
    assert!(!m.try_lock(), "a held lock cannot be taken again");
    assert_eq!(*m.borrow_data(), 10);
    m.set_data(11);
    m.unlock();
    assert!(!m.is_locked());
    m.lock();
    assert_eq!(*m.borrow_data(), 11);
    m.unlock();
}

#[test]
fn ring_buffer_is_first_in_first_out() {
    let mut rb: RingBuffer<u32> = RingBuffer::new(4);
    assert!(rb.is_empty());
    assert!(rb.pop().is_err());
    assert!(rb.push(1).is_ok());
    assert!(rb.push(2).is_ok());
    assert!(rb.push(3).is_ok());
    assert!(rb.is_full(), "capacity 4 holds three items");
    assert!(rb.push(4).is_err());
    assert_eq!(rb.pop(), Ok(1));
    assert!(rb.push(4).is_ok());
    assert_eq!(rb.pop(), Ok(2));
    assert_eq!(rb.pop(), Ok(3));
    assert_eq!(rb.pop(), Ok(4));
    assert!(rb.is_empty());
}

#[test]
fn ring_buffer_wraps_around_many_times() {
    let mut rb: RingBuffer<u8> = RingBuffer::new(3);
    for round in 0..10u8 {
        assert!(rb.push(round).is_ok());
        assert!(rb.push(round + 100).is_ok());
        assert_eq!(rb.pop(), Ok(round));
        assert_eq!(rb.pop(), Ok(round + 100));
    }
}

#[test]
fn stack_base_is_the_top_of_the_block() {
    let stack = Stack::new();
    assert_eq!(stack.get_base(), STACK_SIZE);
    assert_eq!(Stack::alignment(), 4);
    assert_eq!(Stack::size_from_len(16), 64);
}

#[test]
fn user_pages_round_up_to_whole_pages() {
    let block = UserPages::new(2);
    assert_eq!(block.len(), 2);
    assert_eq!(block.size(), 2 * PAGE_SIZE);
    assert_eq!(block.page(0), Some(0));
    assert_eq!(block.page(1), Some(PAGE_SIZE));
    assert_eq!(block.page(2), None);

    let fitted = UserPages::with_capacity(PAGE_SIZE + 1);
    assert_eq!(fitted.len(), 2);
    assert_eq!(UserPages::with_capacity(0).len(), 0);
    assert_eq!(UserPages::empty().len(), 0);

    let mut z = UserPages::zeroed(1);
    z.write_byte(5, 9);
    assert_eq!(z.read_byte(5), 9);
    z.clear();
    assert_eq!(z.read_byte(5), 0);
}

#[test]
fn wfi_program_is_a_jump_to_self() {
    assert_eq!(wfi_program(), vec![0x6f, 0x00, 0x00, 0x00]);
}
