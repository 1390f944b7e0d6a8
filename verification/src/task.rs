//! A schedulable unit: identity, core-affinity pin, the suspended context,
//! a private stack, and the process it runs.

use vstd::prelude::*;
use crate::frame::Frame;
use crate::process::Process;
use crate::stack::Stack;

verus! {

/// A stable task identity, unique among live tasks.
#[derive(Debug, Clone, Copy, PartialEq, Eq, Structural)]
pub struct TaskId(pub usize);

impl TaskId {
    pub fn new(id: usize) -> (r: TaskId)
        ensures
            r.0 == id,
    {
        TaskId(id)
    }

    pub fn id(&self) -> (r: usize)
        ensures
            r == self.0,
    {
        self.0
    }
}

/// A core-affinity constraint: the task may run anywhere, or only on one
/// core.
#[derive(Debug, Clone, Copy, PartialEq, Eq, Structural)]
pub enum Pin {
    Core(usize),
    Unpinned,
}

impl Pin {
    /// Whether a task with this pin may execute on `core`.
    pub open spec fn can_take_spec(self, core: usize) -> bool {
        match self {
            Pin::Core(c) => c == core,
            Pin::Unpinned => true,
        }
    }

    pub fn can_take(&self, core: usize) -> (r: bool)
        ensures
            r == self.can_take_spec(core),
    {
        match self {
            Pin::Core(c) => *c == core,
            Pin::Unpinned => true,
        }
    }
}

/// A schedulable execution.  The stored frame is valid only while the task
/// is not the one currently running.
#[derive(Debug)]
pub struct Task {
    pub id: TaskId,
    pub pin: Pin,
    pub frame: Frame,
    pub stack: Stack,
    pub process: Process,
}

impl Task {
    /// The owned process and stack are well formed.
    pub open spec fn wf(self) -> bool {
        self.process.wf() && self.stack.wf()
    }

    /// Replaces the task's core-affinity pin.
    pub fn pin(&mut self, pin: Pin)
        ensures
            *final(self) == (Task { pin, ..*old(self) }),
    {
        self.pin = pin;
    }
}

} // verus!
