//! A runnable program instance: identity, lifecycle state, and ownership of
//! an address space.

use vstd::prelude::*;
use crate::environment::{wfi_image, wfi_program};
use crate::memory::{Memory, USER_START};
use crate::mutex::Mutex;
use crate::pages::PAGE_SIZE;

verus! {

/// A stable process identity, assigned at process creation.
#[derive(Debug, Clone, Copy, PartialEq, Eq, Structural)]
pub struct ProcessId(pub usize);

impl ProcessId {
    pub fn from(id: usize) -> (r: ProcessId)
        ensures
            r.0 == id,
    {
        ProcessId(id)
    }

    pub fn as_usize(&self) -> (r: usize)
        ensures
            r == self.0,
    {
        self.0
    }
}

/// The lifecycle state of a process.
#[derive(Debug, Clone, Copy, PartialEq, Eq, Structural)]
pub enum ProcessState {
    Running,
    Idle,
    Exited,
}

/// A process: identity, lifecycle state under its own lock, and its address
/// space.
#[derive(Debug)]
pub struct Process {
    pub id: ProcessId,
    pub state: Mutex<ProcessState>,
    pub memory: Memory,
}

impl Process {
    /// The process's address space is well formed.
    pub open spec fn wf(self) -> bool {
        self.memory.wf()
    }

    /// A new process whose address space holds a copy of the program image
    /// in `slice`, in the `Idle` state.
    pub fn from_slice(id: ProcessId, slice: &[u8]) -> (p: Process)
        requires
            USER_START + slice@.len() + PAGE_SIZE <= usize::MAX,
        ensures
            p.wf(),
            p.id == id,
            !p.state.locked_spec(),
            p.state.inner() == ProcessState::Idle,
            p.memory.user_start == USER_START,
            p.memory.user_end == USER_START + p.memory.mapped_bytes().len(),
            slice@.len() <= p.memory.mapped_bytes().len() < slice@.len() + PAGE_SIZE,
            p.memory.mapped_bytes().subrange(0, slice@.len() as int) == slice@,
            forall|i: int|
                slice@.len() <= i < p.memory.mapped_bytes().len() ==> p.memory.mapped_bytes()[i]
                    == 0,
    {
        let memory = Memory::from_image(slice);
        Process { id, state: Mutex::new(ProcessState::Idle), memory }
    }

    /// A new identity with a duplicated address space, in the `Idle` state.
    /// Scheduler queue membership is not copied: the caller must create and
    /// enqueue new tasks separately.
    pub fn fork(&self, id: ProcessId) -> (p: Process)
        requires
            self.wf(),
        ensures
            p.wf(),
            p.id == id,
            !p.state.locked_spec(),
            p.state.inner() == ProcessState::Idle,
            p.memory.user_start == self.memory.user_start,
            p.memory.user_end == self.memory.user_end,
            p.memory.mapped_bytes() == self.memory.mapped_bytes(),
    {
        Process { id, state: Mutex::new(ProcessState::Idle), memory: self.memory.clone() }
    }

    /// The idle process: it runs the wait-for-interrupt program.
    pub fn new_wfi() -> (p: Process)
        ensures
            p.wf(),
            p.id.0 == 0,
            p.state.inner() == ProcessState::Idle,
            p.memory.mapped_bytes().subrange(0, wfi_image().len() as int) == wfi_image(),
    {
        let image = wfi_program();
        Process::from_slice(ProcessId::from(0), image.as_slice())
    }
}

} // verus!
