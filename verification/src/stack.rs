//! A fixed-size, page-aligned block of memory used as a task's execution
//! stack, exclusively owned by one task for its lifetime.

use vstd::prelude::*;

verus! {

/// The size of a task stack, in bytes.
pub const STACK_SIZE: usize = 8 * 1024;

/// Which way the hardware pushes onto a stack from its base.
#[derive(Debug, Clone, Copy, PartialEq, Eq, Structural)]
pub enum GrowDirection {
    Down,
    Up,
}

/// A task's private execution stack.
#[derive(Debug)]
pub struct Stack {
    bytes: Vec<u8>,
}

impl Stack {
    /// The stack owns exactly `STACK_SIZE` bytes.
    pub closed spec fn wf(self) -> bool {
        self.bytes@.len() == STACK_SIZE
    }

    /// A fresh, zeroed stack.
    pub fn new() -> (s: Stack)
        ensures
            s.wf(),
    {
        let mut bytes: Vec<u8> = Vec::new();
        let mut i: usize = 0;
        while i < STACK_SIZE
            invariant
                bytes@.len() == i,
                i <= STACK_SIZE,
            decreases STACK_SIZE - i,
        {
            bytes.push(0);
            i = i + 1;
        }
        Stack { bytes }
    }

    /// The alignment the hardware requires of stack pointers.
    pub fn alignment() -> (r: usize)
        ensures
            r == 4,
    {
        4
    }

    /// The size in bytes of a stack of `len` words.
    pub fn size_from_len(len: usize) -> (r: usize)
        requires
            len * 4 <= usize::MAX,
        ensures
            r == len * 4,
    {
        len * 4
    }

    /// The direction this architecture's stacks grow.
    pub fn grow_direction() -> (d: GrowDirection)
        ensures
            d == GrowDirection::Down,
    {
        GrowDirection::Down
    }

    /// The byte offset within the block at which the stack pointer starts:
    /// the top of the block, since the stack grows down.
    pub fn get_base(&self) -> (r: usize)
        ensures
            r == STACK_SIZE,
    {
        match Stack::grow_direction() {
            GrowDirection::Down => STACK_SIZE,
            GrowDirection::Up => 0,
        }
    }
}

} // verus!
