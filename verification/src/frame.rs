//! A saved CPU execution context: the general-purpose registers, the program
//! counter and the user/kernel-mode flag, in the fixed riscv32im layout that
//! the raw save/restore code addresses by offset.

use vstd::prelude::*;

verus! {

/// A task's suspended register state.  The stored frame is authoritative only
/// while the task is not running; it is overwritten on every context switch.
#[derive(Debug, Clone, Copy, PartialEq, Eq, Structural)]
pub struct Frame {
    pub ra: u32,
    pub sp: u32,
    pub gp: u32,
    pub tp: u32,
    pub t0: u32,
    pub t1: u32,
    pub t2: u32,
    pub s0: u32,
    pub s1: u32,
    pub a0: u32,
    pub a1: u32,
    pub a2: u32,
    pub a3: u32,
    pub a4: u32,
    pub a5: u32,
    pub a6: u32,
    pub a7: u32,
    pub s2: u32,
    pub s3: u32,
    pub s4: u32,
    pub s5: u32,
    pub s6: u32,
    pub s7: u32,
    pub s8: u32,
    pub s9: u32,
    pub s10: u32,
    pub s11: u32,
    pub t3: u32,
    pub t4: u32,
    pub t5: u32,
    pub t6: u32,
    pub pc: u32,
    pub user_mode: u32,
}

impl Frame {
    /// The frame `empty` builds: every register zero, entering user mode
    /// at `pc`.
    pub open spec fn empty_spec(pc: usize) -> Frame {
        Frame {
            ra: 0,
            sp: 0,
            gp: 0,
            tp: 0,
            t0: 0,
            t1: 0,
            t2: 0,
            s0: 0,
            s1: 0,
            a0: 0,
            a1: 0,
            a2: 0,
            a3: 0,
            a4: 0,
            a5: 0,
            a6: 0,
            a7: 0,
            s2: 0,
            s3: 0,
            s4: 0,
            s5: 0,
            s6: 0,
            s7: 0,
            s8: 0,
            s9: 0,
            s10: 0,
            s11: 0,
            t3: 0,
            t4: 0,
            t5: 0,
            t6: 0,
            pc: pc as u32,
            user_mode: 1,
        }
    }

    /// A zeroed frame that enters user mode at `pc`.
    pub fn empty(pc: usize) -> (f: Frame)
        requires
            pc <= u32::MAX,
        ensures
            f == Frame::empty_spec(pc),
            f.pc == pc,
            f.is_user_mode_spec(),
    {
        Frame {
            ra: 0,
            sp: 0,
            gp: 0,
            tp: 0,
            t0: 0,
            t1: 0,
            t2: 0,
            s0: 0,
            s1: 0,
            a0: 0,
            a1: 0,
            a2: 0,
            a3: 0,
            a4: 0,
            a5: 0,
            a6: 0,
            a7: 0,
            s2: 0,
            s3: 0,
            s4: 0,
            s5: 0,
            s6: 0,
            s7: 0,
            s8: 0,
            s9: 0,
            s10: 0,
            s11: 0,
            t3: 0,
            t4: 0,
            t5: 0,
            t6: 0,
            pc: pc as u32,
            user_mode: 1,
        }
    }

    pub fn set_pc(&mut self, pc: usize)
        requires
            pc <= u32::MAX,
        ensures
            *final(self) == (Frame { pc: pc as u32, ..*old(self) }),
    {
        self.pc = pc as u32;
    }

    /// Whether the frame was captured while executing user-mode code.
    pub open spec fn is_user_mode_spec(self) -> bool {
        self.user_mode != 0
    }

    pub fn is_user_mode(&self) -> (r: bool)
        ensures
            r == self.is_user_mode_spec(),
    {
        self.user_mode != 0
    }

    pub fn set_is_user_mode(&mut self, is_user_mode: bool)
        ensures
            *final(self) == (Frame {
                user_mode: if is_user_mode { 1 as u32 } else { 0 as u32 },
                ..*old(self)
            }),
    {
        self.user_mode = if is_user_mode { 1 } else { 0 };
    }

    /// Writes a success result into the frame's result registers: each given
    /// word replaces the matching argument register, and the discriminant
    /// register is cleared.
    pub fn set_success(&mut self, args: (Option<usize>, Option<usize>, Option<usize>))
        requires
            forall|v: usize| args.0 == Some(v) ==> v <= u32::MAX,
            forall|v: usize| args.1 == Some(v) ==> v <= u32::MAX,
            forall|v: usize| args.2 == Some(v) ==> v <= u32::MAX,
        ensures
            *final(self) == (Frame {
                a0: (match args.0 { Some(v) => v as u32, None => old(self).a0 }),
                a1: (match args.1 { Some(v) => v as u32, None => old(self).a1 }),
                a2: (match args.2 { Some(v) => v as u32, None => old(self).a2 }),
                a7: 0 as u32,
                ..*old(self)
            }),
    {
        self.a0 = match args.0 {
            Some(v) => v as u32,
            None => self.a0,
        };
        self.a1 = match args.1 {
            Some(v) => v as u32,
            None => self.a1,
        };
        self.a2 = match args.2 {
            Some(v) => v as u32,
            None => self.a2,
        };
        self.a7 = 0;
    }

    /// Writes an error result into the frame's result registers: each given
    /// word replaces the matching argument register, and the discriminant
    /// register is set.
    pub fn set_error(&mut self, args: (Option<usize>, Option<usize>, Option<usize>))
        requires
            forall|v: usize| args.0 == Some(v) ==> v <= u32::MAX,
            forall|v: usize| args.1 == Some(v) ==> v <= u32::MAX,
            forall|v: usize| args.2 == Some(v) ==> v <= u32::MAX,
        ensures
            *final(self) == (Frame {
                a0: (match args.0 { Some(v) => v as u32, None => old(self).a0 }),
                a1: (match args.1 { Some(v) => v as u32, None => old(self).a1 }),
                a2: (match args.2 { Some(v) => v as u32, None => old(self).a2 }),
                a7: 1 as u32,
                ..*old(self)
            }),
    {
        self.a0 = match args.0 {
            Some(v) => v as u32,
            None => self.a0,
        };
        self.a1 = match args.1 {
            Some(v) => v as u32,
            None => self.a1,
        };
        self.a2 = match args.2 {
            Some(v) => v as u32,
            None => self.a2,
        };
        self.a7 = 1;
    }
}

} // verus!
