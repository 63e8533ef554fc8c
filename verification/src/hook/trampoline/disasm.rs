//! Which instructions cannot be moved as they are.
use crate::arm64::pc_relative;
use vstd::prelude::*;

verus! {

/// Whether `instruction` is one of the six PC-relative families: B and BL, B.cond, CBZ and
/// CBNZ, TBZ and TBNZ, ADR and ADRP, and the literal loads.
pub fn is_pc_relative(instruction: u32) -> (r: bool)
    ensures
        r == pc_relative(instruction),
{
    // b/bl
    if (instruction >> 26) == 0b000101 || (instruction >> 26) == 0b100101 {
        return true;
    }
    // b.cond
    if (instruction >> 24) == 0b01010100 {
        return true;
    }
    // cbz/cbnz
    if ((instruction >> 25) & 0b111111) == 0b011010 {
        return true;
    }
    // tbz/tbnz
    if ((instruction >> 25) & 0b111111) == 0b011011 {
        return true;
    }
    // adr/adrp
    if (instruction & 0x9F000000) == 0x10000000 || (instruction & 0x9F000000) == 0x90000000 {
        return true;
    }
    // ldr literal
    (instruction & 0x3B000000) == 0x18000000
}

} // verus!
