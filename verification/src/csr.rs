//! Values of the supervisor control and status registers.
//!
//! Loading and storing the registers themselves is a hardware act performed
//! by the layer driving the kernel; here live the register values and the
//! bit encodings the kernel decodes and builds.

use vstd::prelude::*;

verus! {

/// The supervisor status register, by field.
#[allow(non_snake_case)]
#[derive(Debug, Clone, Copy, PartialEq, Eq, Structural)]
pub struct Sstatus {
    /// Supervisor Previous Interrupt Enable
    pub SPIE: bool,
    /// Supervisor Interrupt Enable
    pub SIE: bool,
    /// Supervisor Previous Supervisor Mode
    pub SPP: bool,
    /// Supervisor Supervisor memory access
    pub SUM: bool,
}

impl Sstatus {
    /// Decodes the status fields from the register's bits.
    pub fn from_bits(bits: usize) -> (r: Sstatus)
        ensures
            r.SPIE == (bits & (1usize << 5) != 0),
            r.SIE == (bits & (1usize << 1) != 0),
            r.SPP == (bits & (1usize << 8) != 0),
            r.SUM == (bits & (1usize << 18) != 0),
    {
        Sstatus {
            SPIE: (bits & (1 << 5)) != 0,
            SIE: (bits & (1 << 1)) != 0,
            SPP: (bits & (1 << 8)) != 0,
            SUM: (bits & (1 << 18)) != 0,
        }
    }

    /// Encodes the status fields into the register's bits; every other bit
    /// is left clear.
    pub fn to_bits(&self) -> (r: usize)
        ensures
            r == (if self.SPIE {
                32usize
            } else {
                0usize
            }) + (if self.SIE {
                2usize
            } else {
                0usize
            }) + (if self.SPP {
                256usize
            } else {
                0usize
            }) + (if self.SUM {
                262144usize
            } else {
                0usize
            }),
    {
        let mut sstatus: usize = 0;
        if self.SPIE {
            sstatus = sstatus + 32;
        }
        if self.SIE {
            sstatus = sstatus + 2;
        }
        if self.SPP {
            sstatus = sstatus + 256;
        }
        if self.SUM {
            sstatus = sstatus + 262144;
        }
        sstatus
    }
}

/// The supervisor scratch register, which carries the per-core kernel
/// pointer through a trap.
#[derive(Debug, Clone, Copy, PartialEq, Eq, Structural)]
pub struct Sscratch(pub u32);

impl Sscratch {
    pub fn new(value: u32) -> (r: Sscratch)
        ensures
            r.0 == value,
    {
        Sscratch(value)
    }

    pub fn as_u32(&self) -> (r: u32)
        ensures
            r == self.0,
    {
        self.0
    }
}

/// Stores the return address from an exception or interrupt.
#[derive(Debug, Clone, Copy, PartialEq, Eq, Structural)]
pub struct Sepc(pub u32);

impl Sepc {
    pub fn new(pc: u32) -> (r: Sepc)
        ensures
            r.0 == pc,
    {
        Sepc(pc)
    }

    pub fn as_usize(&self) -> (r: usize)
        ensures
            r == self.0,
    {
        self.0 as usize
    }
}

/// The classified trap cause.
#[derive(Debug, Clone, Copy, PartialEq, Eq, Structural)]
pub enum Scause {
    Ecall,
    SegFault,
    Interrupt(u32),
    Unknown(u32),
}

impl Scause {
    /// Classifies the cause register's bits: the top bit marks an
    /// interrupt, and of the exceptions only the environment call and the
    /// store fault are recognized.
    pub fn from_bits(scause: u32) -> (r: Scause)
        ensures
            scause & (1u32 << 31) != 0 ==> r == Scause::Interrupt(scause & !(1u32 << 31)),
            scause & (1u32 << 31) == 0 && scause == 0x8 ==> r == Scause::Ecall,
            scause & (1u32 << 31) == 0 && scause == 0xd ==> r == Scause::SegFault,
            scause & (1u32 << 31) == 0 && scause != 0x8 && scause != 0xd ==> r
                == Scause::Unknown(scause),
    {
        if scause & (1 << 31) != 0 {
            let interrupt_code = scause & !(1 << 31);
            Scause::Interrupt(interrupt_code)
        } else {
            // Exception
            match scause {
                0x8 => Scause::Ecall,
                0xd => Scause::SegFault,
                _ => Scause::Unknown(scause),
            }
        }
    }
}

/// The supervisor trap-vector base address.
#[derive(Debug, Clone, Copy, PartialEq, Eq, Structural)]
pub struct Stvec(pub u32);

impl Stvec {
    pub fn new(addr: u32) -> (r: Stvec)
        ensures
            r.0 == addr,
    {
        Stvec(addr)
    }

    pub fn as_usize(&self) -> (r: usize)
        ensures
            r == self.0,
    {
        self.0 as usize
    }
}

/// The supervisor address-translation register value.
#[derive(Debug, Clone, Copy, PartialEq, Eq, Structural)]
pub struct Satp(pub u32);

impl Satp {
    pub fn new(satp: usize) -> (r: Satp)
        requires
            satp <= u32::MAX,
        ensures
            r.0 == satp,
    {
        Satp(satp as u32)
    }

    pub fn as_usize(&self) -> (r: usize)
        ensures
            r == self.0,
    {
        self.0 as usize
    }
}

} // verus!
