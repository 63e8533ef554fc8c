//! Moving one instruction: bytes that do elsewhere what it did at its own address.
use super::disasm::is_pc_relative;
use crate::arm64;
use crate::encoding::{le32, le64, offset64, push_le32, push_le64, wrap64};
use vstd::prelude::*;

verus! {

/// ldr x16, #8
pub const LDR_X16_8: u32 = 0x58000050;

/// ldr x16, #16
pub const LDR_X16_16: u32 = 0x58000090;

/// ldr x30, #12
pub const LDR_X30_12: u32 = 0x5800007E;

/// br x16
pub const BR_X16: u32 = 0xD61F0200;

/// b #12
pub const B_12: u32 = 0x14000003;

/// The bytes that jump to `target` from wherever they stand: ldr x16, #8; br x16; .dword target
pub open spec fn absolute_jump(target: u64) -> Seq<u8> {
    le32(LDR_X16_8) + le32(BR_X16) + le64(target)
}

/// The inverse of a compare-and-branch or test-and-branch with its immediate, which `mask`
/// covers, set to skip five words.
pub open spec fn inverted_branch(instruction: u32, mask: u32) -> u32 {
    ((instruction ^ 0x0100_0000) & !mask) | (5u32 << 5)
}

/// The bytes that stand for `instruction`, read at `pc`. `literal` is the double word that a
/// literal load points at.
pub open spec fn relocated(instruction: u32, pc: u64, literal: u64) -> Seq<u8> {
    let target = arm64::pc_target(instruction, pc);
    if !arm64::pc_relative(instruction) {
        le32(instruction)
    } else if arm64::is_adr(instruction) || arm64::is_adrp(instruction) {
        le32(0x58000040 | arm64::rd(instruction)) + le32(B_12) + le64(target)
    } else if arm64::is_b(instruction) {
        absolute_jump(target)
    } else if arm64::is_bl(instruction) {
        le32(LDR_X30_12) + le32(LDR_X16_16) + le32(BR_X16) + le64(wrap64(pc + 4)) + le64(target)
    } else if arm64::is_b_cond(instruction) {
        le32(0x54000000 | (5u32 << 5) | (arm64::cond(instruction) ^ 1)) + absolute_jump(target)
    } else if arm64::is_compare_branch(instruction) {
        le32(inverted_branch(instruction, 0x00FFFFE0)) + absolute_jump(target)
    } else if arm64::is_test_branch(instruction) {
        le32(inverted_branch(instruction, 0x0007FFE0)) + absolute_jump(target)
    } else {
        le32((instruction & 0xFF00001F) | (2u32 << 5)) + le32(B_12) + le64(literal)
    }
}

/// Appends ldr x16, #8; br x16; .dword target.
pub fn push_absolute_jump(out_buffer: &mut Vec<u8>, target: u64)
    ensures
        final(out_buffer)@ == old(out_buffer)@ + absolute_jump(target),
{
    push_le32(out_buffer, LDR_X16_8);
    push_le32(out_buffer, BR_X16);
    push_le64(out_buffer, target);
    assert(out_buffer@ =~= old(out_buffer)@ + absolute_jump(target));
}

/// `field`, read as a two's complement number of which `half` is the sign bit.
fn signed_field(field: u32, half: u32) -> (r: i64)
    requires
        half <= 0x2000000,
        field < 2 * half,
    ensures
        r == arm64::signed(field, half as int),
{
    if field < half {
        field as i64
    } else {
        field as i64 - 2 * (half as i64)
    }
}

/// The address that a PC-relative instruction at `pc` forms.
pub fn target_address(instruction: u32, pc: u64) -> (r: u64)
    requires
        arm64::pc_relative(instruction),
    ensures
        r == arm64::pc_target(instruction, pc),
{
    if (instruction & 0x9F000000) == 0x10000000 || (instruction & 0x9F000000) == 0x90000000 {
        let immlo: u32 = (instruction >> 29) & 3;
        let immhi: u32 = (instruction >> 5) & 0x7FFFF;
        let imm: u32 = (immhi << 2) | immlo;
        assert(imm < 0x200000) by (bit_vector)
            requires
                imm == (((instruction >> 5) & 0x7FFFF) << 2) | ((instruction >> 29) & 3),
        ;
        let imm: i64 = signed_field(imm, 0x100000);
        assert(((instruction & 0x9F000000) == 0x10000000 ==> (instruction & 0x9F000000)
            != 0x90000000 && instruction & 0x80000000 == 0) && ((instruction & 0x9F000000)
            == 0x90000000 ==> instruction & 0x80000000 != 0)) by (bit_vector);
        let is_adrp = (instruction & 0x80000000) != 0;
        if is_adrp {
            offset64(pc & !0xFFFu64, imm * 4096)
        } else {
            offset64(pc, imm)
        }
    } else if (instruction >> 26) == 0b000101 || (instruction >> 26) == 0b100101 {
        let imm: u32 = instruction & 0x03FFFFFF;
        assert(imm < 0x4000000) by (bit_vector)
            requires
                imm == instruction & 0x03FFFFFF,
        ;
        offset64(pc, signed_field(imm, 0x2000000) * 4)
    } else if ((instruction >> 25) & 0b111111) == 0b011011 {
        let imm: u32 = (instruction >> 5) & 0x3FFF;
        assert(imm < 0x4000) by (bit_vector)
            requires
                imm == (instruction >> 5) & 0x3FFF,
        ;
        offset64(pc, signed_field(imm, 0x2000) * 4)
    } else {
        let imm: u32 = (instruction >> 5) & 0x7FFFF;
        assert(imm < 0x80000) by (bit_vector)
            requires
                imm == (instruction >> 5) & 0x7FFFF,
        ;
        offset64(pc, signed_field(imm, 0x40000) * 4)
    }
}

/// The address of the literal that has to be read before `instruction` at `pc` can be moved.
pub fn literal_address(instruction: u32, original_pc: usize) -> (r: Option<u64>)
    ensures
        r == if arm64::is_load_literal(instruction) {
            Some(arm64::pc_target(instruction, original_pc as u64))
        } else {
            None
        },
{
    if (instruction & 0x3B000000) == 0x18000000 {
        Some(target_address(instruction, original_pc as u64))
    } else {
        None
    }
}

/// Appends the bytes that do elsewhere what `instruction` did at `original_pc`. `literal` is the
/// double word at `literal_address`, and is looked at for a literal load alone.
pub fn relocate_instruction(
    instruction: u32,
    original_pc: usize,
    literal: u64,
    out_buffer: &mut Vec<u8>,
)
    ensures
        final(out_buffer)@ == old(out_buffer)@ + relocated(
            instruction,
            original_pc as u64,
            literal,
        ),
{
    proof {
        arm64::pc_relative_classes_are_disjoint(instruction);
    }
    if !is_pc_relative(instruction) {
        push_le32(out_buffer, instruction);
        return;
    }
    let target: u64 = target_address(instruction, original_pc as u64);

    // 1. adr/adrp
    if (instruction & 0x9F000000) == 0x10000000 || (instruction & 0x9F000000) == 0x90000000 {
        // ldr xd, #8; b #12; .dword target
        let rd: u32 = instruction & 0x1F;
        push_le32(out_buffer, 0x58000040 | rd);
        push_le32(out_buffer, B_12);
        push_le64(out_buffer, target);
        return;
    }
    // 2. b/bl

    if (instruction >> 26) == 0b000101 {
        // ldr x16, #8; br x16; .dword target
        push_absolute_jump(out_buffer, target);
        return;
    }
    if (instruction >> 26) == 0b100101 {
        // ldr x30, #12; ldr x16, #16; br x16; .dword ret; .dword target
        push_le32(out_buffer, LDR_X30_12);
        push_le32(out_buffer, LDR_X16_16);
        push_le32(out_buffer, BR_X16);
        push_le64(out_buffer, offset64(original_pc as u64, 4));
        push_le64(out_buffer, target);
        return;
    }
    // 3. b.cond

    if (instruction >> 24) == 0b01010100 {
        // b.inv_cond #20; ldr x16, #8; br x16; .dword target
        let inv_cond: u32 = (instruction & 0xF) ^ 1;
        push_le32(out_buffer, 0x54000000 | (5u32 << 5) | inv_cond);
        push_absolute_jump(out_buffer, target);
        return;
    }
    // 4. cbz/cbnz

    if ((instruction >> 25) & 0b111111) == 0b011010 {
        let inv_inst: u32 = ((instruction ^ 0x0100_0000) & !0x00FFFFE0u32) | (5u32 << 5);
        push_le32(out_buffer, inv_inst);
        push_absolute_jump(out_buffer, target);
        return;
    }
    // 5. tbz/tbnz

    if ((instruction >> 25) & 0b111111) == 0b011011 {
        let inv_inst: u32 = ((instruction ^ 0x0100_0000) & !0x0007FFE0u32) | (5u32 << 5);
        push_le32(out_buffer, inv_inst);
        push_absolute_jump(out_buffer, target);
        return;
    }
    // 6. ldr literal

    push_le32(out_buffer, (instruction & 0xFF00001F) | (2u32 << 5));
    push_le32(out_buffer, B_12);
    push_le64(out_buffer, literal);
}

} // verus!
