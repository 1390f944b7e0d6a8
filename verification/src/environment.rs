//! What the execution environment supplies to the kernel core: the byte
//! image of a minimal "wait for interrupt" program, run by a core that has no
//! eligible task.

use vstd::prelude::*;

verus! {

/// The image of the idle program: a single jump-to-self instruction,
/// little-endian.
pub open spec fn wfi_image() -> Seq<u8> {
    seq![0x6fu8, 0x00u8, 0x00u8, 0x00u8]
}

/// The idle program image as bytes.
pub fn wfi_program() -> (r: Vec<u8>)
    ensures
        r@ == wfi_image(),
{
    let mut r: Vec<u8> = Vec::new();
    r.push(0x6f);
    r.push(0x00);
    r.push(0x00);
    r.push(0x00);
    proof {
        assert(r@ =~= wfi_image());
    }
    r
}

} // verus!
