use pippopp::memory::{Memory, USER_START};
use pippopp::pages::{UserPages, PAGE_SIZE};
use pippopp::page_table::Mode;
use pippopp::process::{Process, ProcessId, ProcessState};

#[test]
fn grow_advances_user_end_by_one_page_per_page() {
    let mut mem = Memory::new();
    assert_eq!(mem.user_start, USER_START);
    assert_eq!(mem.user_end, USER_START);

    mem.grow(UserPages::zeroed(2));
    assert_eq!(mem.user_end, USER_START + 2 * PAGE_SIZE);

    mem.grow(UserPages::zeroed(3));
    assert_eq!(mem.user_end, USER_START + 5 * PAGE_SIZE);
}

#[test]
fn grow_maps_every_new_page_in_the_extended_range() {
    let mut mem = Memory::new();
    mem.grow(UserPages::zeroed(2));
    mem.grow(UserPages::zeroed(2));

    let rwxu = Mode::rwxu();
    for k in 0..4 {
        let entry = mem.page_table.get(USER_START + k * PAGE_SIZE).expect("page mapped");
        assert_eq!(entry.phys, k);
        assert!(entry.mode.contains(Mode::read()));
        assert!(entry.mode.contains(Mode::write()));
        assert!(entry.mode.contains(Mode::execute()));
        assert!(entry.mode.contains(Mode::user()));
        assert_eq!(entry.mode, rwxu);
    }
    assert!(mem.page_table.get(USER_START + 4 * PAGE_SIZE).is_none());
    assert!(!mem.page_table.is_mapped(USER_START - PAGE_SIZE));
}

#[test]
fn default_memory_is_an_empty_address_space() {
    let mem = Memory::default();
    assert_eq!(mem.user_start, USER_START);
    assert_eq!(mem.user_end, USER_START);
    assert!(mem.slice(USER_START, 0).is_ok());
    assert!(mem.slice(USER_START, 1).is_err());
}

#[test]
fn from_image_copies_the_image_and_zeroes_the_tail() {
    let mem = Memory::from_image(&[1, 2, 3]);
    assert_eq!(mem.user_end, USER_START + PAGE_SIZE);
    assert_eq!(mem.slice(USER_START, 3).unwrap(), vec![1, 2, 3]);
    assert_eq!(mem.slice(USER_START + 3, 2).unwrap(), vec![0, 0]);
}

#[test]
fn slice_rejects_ranges_outside_the_user_window() {
    let mem = Memory::from_image(&[7; 10]);
    assert!(mem.slice(USER_START - 1, 1).is_err());
    assert!(mem.slice(USER_START, PAGE_SIZE + 1).is_err());
    assert!(mem.slice(USER_START + PAGE_SIZE, 1).is_err());
    assert!(mem.slice(USER_START, PAGE_SIZE).is_ok());
}

#[test]
fn slice_mut_writes_in_bounds_and_rejects_out_of_bounds() {
    let mut mem = Memory::from_image(&[0; 8]);
    assert!(mem.slice_mut(USER_START + 2, &[5, 6]).is_ok());
    assert_eq!(mem.slice(USER_START, 5).unwrap(), vec![0, 0, 5, 6, 0]);
    assert!(mem.slice_mut(USER_START + PAGE_SIZE - 1, &[1, 2]).is_err());
    assert_eq!(mem.slice(USER_START + PAGE_SIZE - 1, 1).unwrap(), vec![0]);
}

#[test]
fn clone_copies_contents_byte_for_byte() {
    let mut mem = Memory::from_image(&[9, 8, 7, 6]);
    mem.grow(UserPages::zeroed(1));
    let copy = mem.clone();
    assert_eq!(copy.user_start, mem.user_start);
    assert_eq!(copy.user_end, mem.user_end);
    assert_eq!(
        copy.slice(USER_START, 2 * PAGE_SIZE).unwrap(),
        mem.slice(USER_START, 2 * PAGE_SIZE).unwrap(),
    );
}

#[test]
fn writes_after_clone_are_not_shared() {
    let mem = Memory::from_image(&[1, 1, 1, 1]);
    let mut copy = mem.clone();

    copy.slice_mut(USER_START, &[42]).unwrap();
    assert_eq!(copy.slice(USER_START, 4).unwrap(), vec![42, 1, 1, 1]);
    assert_eq!(mem.slice(USER_START, 4).unwrap(), vec![1, 1, 1, 1]);

    let mut original = mem;
    original.slice_mut(USER_START + 1, &[17]).unwrap();
    assert_eq!(original.slice(USER_START, 4).unwrap(), vec![1, 17, 1, 1]);
    assert_eq!(copy.slice(USER_START, 4).unwrap(), vec![42, 1, 1, 1]);
}

#[test]
fn fork_duplicates_the_address_space() {
    let parent = Process::from_slice(ProcessId::from(1), &[3, 1, 4, 1, 5]);
    let child = parent.fork(ProcessId::from(2));
    assert_eq!(child.id.as_usize(), 2);
    assert_eq!(
        child.memory.slice(USER_START, 5).unwrap(),
        parent.memory.slice(USER_START, 5).unwrap(),
    );
    let mut child = child;
    child.memory.slice_mut(USER_START, &[99]).unwrap();
    assert_eq!(parent.memory.slice(USER_START, 1).unwrap(), vec![3]);
    assert_eq!(child.memory.slice(USER_START, 1).unwrap(), vec![99]);
}

#[test]
fn new_wfi_process_holds_the_idle_image() {
    let mut idle = Process::new_wfi();
    assert_eq!(idle.id.as_usize(), 0);
    assert_eq!(idle.memory.slice(USER_START, 4).unwrap(), vec![0x6f, 0, 0, 0]);
    idle.state.lock();
    assert!(matches!(idle.state.borrow_data(), &ProcessState::Idle));
    idle.state.unlock();
}
