//! A model of a small multi-core preemptive kernel for a 32-bit RISC-V
//! target: a round-robin scheduler with core-affinity pinning, a per-core
//! trap/dispatch state machine, and a process/address-space model built on a
//! page-table abstraction.
//!
//! Hardware access (CSR instructions, SBI firmware calls, the trap-entry
//! assembly) is out of scope here: the types in this crate carry the decoded
//! values and decisions, and a host-side driver performs the actual control
//! transfers.

pub mod csr;
pub mod environment;
pub mod frame;
pub mod kernel;
pub mod memory;
pub mod mutex;
pub mod page_table;
pub mod pages;
pub mod process;
pub mod ring_buffer;
pub mod scheduler;
pub mod stack;
pub mod syscall;
pub mod task;
pub mod utils;
