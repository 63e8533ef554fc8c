//! What instruction words mean, told from the bits that they are made of.
use crate::arm64::{
    cond, condition_holds, double_at, execute, is_adr, is_adrp, is_b, is_b_cond, is_bl,
    is_branch_register, is_compare_branch, is_load_literal, is_mov_keep, is_mov_zero,
    is_test_branch, load_size, load_vector, mov_shift, on_nonzero, pc_relative,
    pc_relative_classes_are_disjoint, pc_target, rd, test_bit, wide, word_at, Cpu, Memory,
};
use crate::encoding::{double_of, le32, le64, lemma_le32_of_word, lemma_wrap_add, wrap64};
use crate::hook::manager::stub;
use crate::hook::trampoline::builder::stolen_word;
use crate::hook::trampoline::relocator::{absolute_jump, relocated};
use vstd::prelude::*;

verus! {

/// The number that four bytes from `i` on stand for, least significant first.
pub open spec fn word_in(s: Seq<u8>, i: int) -> int {
    s[i] + 0x100 * s[i + 1] + 0x1_0000 * s[i + 2] + 0x100_0000 * s[i + 3]
}

/// The number that eight bytes from `i` on stand for, least significant first.
pub open spec fn double_in(s: Seq<u8>, i: int) -> int {
    word_in(s, i) + 0x1_0000_0000 * word_in(s, i + 4)
}

/// Bytes tell the number that they were made of.
pub proof fn bytes_tell_the_number(w: u32, v: u64)
    ensures
        le32(w).len() == 4,
        word_in(le32(w), 0) == w,
        le64(v).len() == 8,
        double_in(le64(v), 0) == v,
{
    assert(((w & 0xff) as u8) + 0x100 * (((w >> 8) & 0xff) as u8) + 0x1_0000 * (((w >> 16)
        & 0xff) as u8) + 0x100_0000 * (((w >> 24) & 0xff) as u8) == w && ((v & 0xff) as u8) + 0x100
        * (((v >> 8) & 0xff) as u8) + 0x1_0000 * (((v >> 16) & 0xff) as u8) + 0x100_0000 * (((v
        >> 24) & 0xff) as u8) + 0x1_0000_0000 * ((((v >> 32) & 0xff) as u8) + 0x100 * (((v >> 40)
        & 0xff) as u8) + 0x1_0000 * (((v >> 48) & 0xff) as u8) + 0x100_0000 * (((v >> 56)
        & 0xff) as u8)) == v) by (bit_vector);
}


/// A field of 16 bits, moved to one of four places, alone or over what a register holds.
proof fn lemma_moves(w: u32, v: u64)
    ensures
        (w >> 5) & 0xFFFF == (w / 0x20) % 0x1_0000,
        (w >> 21) & 3 == (w / 0x20_0000) % 4,
        (((w >> 5) & 0xFFFF) as u64) << 0u64 == 1 * ((w / 0x20) % 0x1_0000),
        (v & !(0xFFFFu64 << 0u64)) | ((((w >> 5) & 0xFFFF) as u64) << 0u64) == v - 1 * ((v / 1) % 0x1_0000) + 1 * ((w / 0x20) % 0x1_0000),
        (((w >> 5) & 0xFFFF) as u64) << 16u64 == 0x1_0000 * ((w / 0x20) % 0x1_0000),
        (v & !(0xFFFFu64 << 16u64)) | ((((w >> 5) & 0xFFFF) as u64) << 16u64) == v - 0x1_0000 * ((v / 0x1_0000) % 0x1_0000) + 0x1_0000 * ((w / 0x20) % 0x1_0000),
        (((w >> 5) & 0xFFFF) as u64) << 32u64 == 0x1_0000_0000 * ((w / 0x20) % 0x1_0000),
        (v & !(0xFFFFu64 << 32u64)) | ((((w >> 5) & 0xFFFF) as u64) << 32u64) == v - 0x1_0000_0000 * ((v / 0x1_0000_0000) % 0x1_0000) + 0x1_0000_0000 * ((w / 0x20) % 0x1_0000),
        (((w >> 5) & 0xFFFF) as u64) << 48u64 == 0x1_0000_0000_0000 * ((w / 0x20) % 0x1_0000),
        (v & !(0xFFFFu64 << 48u64)) | ((((w >> 5) & 0xFFFF) as u64) << 48u64) == v - 0x1_0000_0000_0000 * ((v / 0x1_0000_0000_0000) % 0x1_0000) + 0x1_0000_0000_0000 * ((w / 0x20) % 0x1_0000),
{
    assert((w >> 5) & 0xFFFF == (w / 0x20) % 0x1_0000
        && (w >> 21) & 3 == (w / 0x20_0000) % 4
        && (((w >> 5) & 0xFFFF) as u64) << 0u64 == 1 * ((w / 0x20) % 0x1_0000)
        && (v & !(0xFFFFu64 << 0u64)) | ((((w >> 5) & 0xFFFF) as u64) << 0u64) == v - 1 * ((v / 1) % 0x1_0000) + 1 * ((w / 0x20) % 0x1_0000)
        && (((w >> 5) & 0xFFFF) as u64) << 16u64 == 0x1_0000 * ((w / 0x20) % 0x1_0000)
        && (v & !(0xFFFFu64 << 16u64)) | ((((w >> 5) & 0xFFFF) as u64) << 16u64) == v - 0x1_0000 * ((v / 0x1_0000) % 0x1_0000) + 0x1_0000 * ((w / 0x20) % 0x1_0000)
        && (((w >> 5) & 0xFFFF) as u64) << 32u64 == 0x1_0000_0000 * ((w / 0x20) % 0x1_0000)
        && (v & !(0xFFFFu64 << 32u64)) | ((((w >> 5) & 0xFFFF) as u64) << 32u64) == v - 0x1_0000_0000 * ((v / 0x1_0000_0000) % 0x1_0000) + 0x1_0000_0000 * ((w / 0x20) % 0x1_0000)
        && (((w >> 5) & 0xFFFF) as u64) << 48u64 == 0x1_0000_0000_0000 * ((w / 0x20) % 0x1_0000)
        && (v & !(0xFFFFu64 << 48u64)) | ((((w >> 5) & 0xFFFF) as u64) << 48u64) == v - 0x1_0000_0000_0000 * ((v / 0x1_0000_0000_0000) % 0x1_0000) + 0x1_0000_0000_0000 * ((w / 0x20) % 0x1_0000)) by (bit_vector);
}

/// Which instruction a word is, and what its fields are, in terms of the bits of the word: bit `k`
/// is `w / 2^k % 2`.
pub proof fn words_are_their_bits(w: u32)
    ensures
        is_adr(w) <==> (w / 0x100_0000) % 0x20 == 16 && w / 0x8000_0000 == 0,
        is_adrp(w) <==> (w / 0x100_0000) % 0x20 == 16 && w / 0x8000_0000 == 1,
        is_b(w) <==> w / 0x400_0000 == 5,
        is_bl(w) <==> w / 0x400_0000 == 37,
        is_b_cond(w) <==> w / 0x100_0000 == 84,
        is_compare_branch(w) <==> (w / 0x200_0000) % 0x40 == 26,
        is_test_branch(w) <==> (w / 0x200_0000) % 0x40 == 27,
        is_load_literal(w) <==> (w / 0x800_0000) % 8 == 3 && (w / 0x100_0000) % 4 == 0,
        is_branch_register(w) <==> w / 0x400 == 0x35_87C0 && w % 0x20 == 0,
        is_mov_zero(w) <==> w / 0x80_0000 == 0x1A5,
        is_mov_keep(w) <==> w / 0x80_0000 == 0x1E5,
        rd(w) == w % 0x20,
        cond(w) == w % 0x10,
        load_size(w) == w / 0x4000_0000,
        load_vector(w) <==> (w / 0x400_0000) % 2 == 1,
        on_nonzero(w) <==> (w / 0x100_0000) % 2 == 1,
        wide(w) <==> w / 0x8000_0000 == 1,
        test_bit(w) == 0x20 * (w / 0x8000_0000) + (w / 0x8_0000) % 0x20,
{
    lemma_bits(w, 0, 0);
}

proof fn lemma_bits(w: u32, pc: u64, v: u64)
    ensures
        (w & 0x9F000000 == 0x10000000) == ((w / 0x100_0000) % 0x20 == 16 && w / 0x8000_0000 == 0),
        (w & 0x9F000000 == 0x90000000) == ((w / 0x100_0000) % 0x20 == 16 && w / 0x8000_0000 == 1),
        w >> 26 == w / 0x400_0000,
        w >> 24 == w / 0x100_0000,
        (w >> 25) & 0b111111 == (w / 0x200_0000) % 0x40,
        (w & 0x3B000000 == 0x18000000) == ((w / 0x800_0000) % 8 == 3 && (w / 0x100_0000) % 4 == 0),
        (w & 0xFFFFFC1F == 0xD61F0000) == (w / 0x400 == 0x35_87C0 && w % 0x20 == 0),
        (w & 0xFF800000 == 0xD2800000) == (w / 0x80_0000 == 0x1A5),
        (w & 0xFF800000 == 0xF2800000) == (w / 0x80_0000 == 0x1E5),
        w & 0x1F == w % 0x20,
        w & 0xF == w % 0x10,
        w >> 30 == w / 0x4000_0000,
        (w >> 26) & 1 == (w / 0x400_0000) % 2,
        (w >> 24) & 1 == (w / 0x100_0000) % 2,
        (w >> 31) & 1 == w / 0x8000_0000,
        ((w >> 31) << 5) | ((w >> 19) & 0x1F) == 0x20 * (w / 0x8000_0000) + (w / 0x8_0000) % 0x20,
        (((w >> 5) & 0x7FFFF) << 2) | ((w >> 29) & 3) == 4 * ((w / 0x20) % 0x8_0000) + (w
            / 0x2000_0000) % 4,
        w & 0x03FFFFFF == w % 0x400_0000,
        (w >> 5) & 0x7FFFF == (w / 0x20) % 0x8_0000,
        (w >> 5) & 0x3FFF == (w / 0x20) % 0x4000,
        (w >> 5) & 0x1F == (w / 0x20) % 0x20,
        pc & !0xFFFu64 == pc - pc % 0x1000,
        0x58000040 | (w & 0x1F) == 0x58000040 + w % 0x20,
        0x54000000 | (5u32 << 5) | ((w & 0xF) ^ 1) == 0x540000A0 + (if w % 2 == 0 {
            w % 0x10 + 1
        } else {
            w % 0x10 - 1
        }),
        ((w ^ 0x0100_0000) & !0x00FFFFE0u32) | (5u32 << 5) == 0x100_0000 * (if (w / 0x100_0000) % 2
            == 0 {
            w / 0x100_0000 + 1
        } else {
            w / 0x100_0000 - 1
        }) + 0xA0 + w % 0x20,
        ((w ^ 0x0100_0000) & !0x0007FFE0u32) | (5u32 << 5) == 0x100_0000 * (if (w / 0x100_0000) % 2
            == 0 {
            w / 0x100_0000 + 1
        } else {
            w / 0x100_0000 - 1
        }) + 0x8_0000 * ((w / 0x8_0000) % 0x20) + 0xA0 + w % 0x20,
        (w & 0xFF00001F) | (2u32 << 5) == 0x100_0000 * (w / 0x100_0000) + 0x40 + w % 0x20,
        v as u32 == v % 0x1_0000_0000,
        ((v as u32) as u64) | 0xFFFF_FFFF_0000_0000 == v % 0x1_0000_0000 + 0xFFFF_FFFF_0000_0000,
{
    assert((w & 0x9F000000 == 0x10000000) == ((w / 0x100_0000) % 0x20 == 16 && w / 0x8000_0000 == 0)
        && (w & 0x9F000000 == 0x90000000) == ((w / 0x100_0000) % 0x20 == 16 && w / 0x8000_0000 == 1)
        && w >> 26 == w / 0x400_0000 && w >> 24 == w / 0x100_0000 && (w >> 25) & 0b111111 == (w
        / 0x200_0000) % 0x40 && (w & 0x3B000000 == 0x18000000) == ((w / 0x800_0000) % 8 == 3 && (w
        / 0x100_0000) % 4 == 0) && (w & 0xFFFFFC1F == 0xD61F0000) == (w / 0x400 == 0x35_87C0 && w
        % 0x20 == 0) && (w & 0xFF800000 == 0xD2800000) == (w / 0x80_0000 == 0x1A5) && (w
        & 0xFF800000 == 0xF2800000) == (w / 0x80_0000 == 0x1E5) && w & 0x1F == w % 0x20 && w & 0xF
        == w % 0x10 && w >> 30 == w / 0x4000_0000 && (w >> 26) & 1 == (w / 0x400_0000) % 2 && (w
        >> 24) & 1 == (w / 0x100_0000) % 2 && (w >> 31) & 1 == w / 0x8000_0000 && ((w >> 31) << 5)
        | ((w >> 19) & 0x1F) == 0x20 * (w / 0x8000_0000) + (w / 0x8_0000) % 0x20 && (((w >> 5)
        & 0x7FFFF) << 2) | ((w >> 29) & 3) == 4 * ((w / 0x20) % 0x8_0000) + (w / 0x2000_0000) % 4
        && w & 0x03FFFFFF == w % 0x400_0000 && (w >> 5) & 0x7FFFF == (w / 0x20) % 0x8_0000 && (w
        >> 5) & 0x3FFF == (w / 0x20) % 0x4000 && (w >> 5) & 0x1F == (w / 0x20) % 0x20 && pc
        & !0xFFFu64 == pc - pc % 0x1000 && 0x58000040 | (w & 0x1F) == 0x58000040 + w % 0x20
        && 0x54000000 | (5u32 << 5) | ((w & 0xF) ^ 1) == 0x540000A0 + (if w % 2 == 0 {
        w % 0x10 + 1
    } else {
        w % 0x10 - 1
    }) && ((w ^ 0x0100_0000) & !0x00FFFFE0u32) | (5u32 << 5) == 0x100_0000 * (if (w / 0x100_0000)
        % 2 == 0 {
        w / 0x100_0000 + 1
    } else {
        w / 0x100_0000 - 1
    }) + 0xA0 + w % 0x20 && ((w ^ 0x0100_0000) & !0x0007FFE0u32) | (5u32 << 5) == 0x100_0000 * (
    if (w / 0x100_0000) % 2 == 0 {
        w / 0x100_0000 + 1
    } else {
        w / 0x100_0000 - 1
    }) + 0x8_0000 * ((w / 0x8_0000) % 0x20) + 0xA0 + w % 0x20 && (w & 0xFF00001F) | (2u32 << 5)
        == 0x100_0000 * (w / 0x100_0000) + 0x40 + w % 0x20 && v as u32 == v % 0x1_0000_0000 && ((v
        as u32) as u64) | 0xFFFF_FFFF_0000_0000 == v % 0x1_0000_0000 + 0xFFFF_FFFF_0000_0000)
        by (bit_vector);
}

/// The address that a PC-relative instruction at `pc` speaks of, from the bits of its word: a
/// distance in two's complement, in bytes, pages or words, from the instruction or from its page,
/// round the address space.
pub proof fn targets_are_distances(w: u32, pc: u64)
    ensures
        ({
            let n = 4 * ((w / 0x20) % 0x8_0000) + (w / 0x2000_0000) % 4;
            let s = if n < 0x10_0000 {
                n as int
            } else {
                n - 0x20_0000
            };
            &&& (w / 0x100_0000) % 0x20 == 16 && w / 0x8000_0000 == 0 ==> pc_target(w, pc) == (pc
                + s) % 0x1_0000_0000_0000_0000
            &&& (w / 0x100_0000) % 0x20 == 16 && w / 0x8000_0000 == 1 ==> pc_target(w, pc) == (pc
                - pc % 0x1000 + 0x1000 * s) % 0x1_0000_0000_0000_0000
        }),
        ({
            let n = w % 0x400_0000;
            let s = if n < 0x200_0000 {
                n as int
            } else {
                n - 0x400_0000
            };
            (w / 0x400_0000) % 0x20 == 5 ==> pc_target(w, pc) == (pc + 4 * s)
                % 0x1_0000_0000_0000_0000
        }),
        ({
            let n = (w / 0x20) % 0x4000;
            let s = if n < 0x2000 {
                n as int
            } else {
                n - 0x4000
            };
            (w / 0x200_0000) % 0x40 == 27 ==> pc_target(w, pc) == (pc + 4 * s)
                % 0x1_0000_0000_0000_0000
        }),
        ({
            let n = (w / 0x20) % 0x8_0000;
            let s = if n < 0x4_0000 {
                n as int
            } else {
                n - 0x8_0000
            };
            w / 0x100_0000 == 84 || (w / 0x200_0000) % 0x40 == 26 || ((w / 0x800_0000) % 8 == 3
                && (w / 0x100_0000) % 4 == 0) ==> pc_target(w, pc) == (pc + 4 * s)
                % 0x1_0000_0000_0000_0000
        }),
{
    lemma_bits(w, pc, 0);
    pc_relative_classes_are_disjoint(w);
}

proof fn lemma_reads(a: u32, b: u32, v: u64)
    ensures
        ({
            let s = le32(a) + le32(b) + le64(v);
            s.len() == 16 && word_in(s, 0) == a && word_in(s, 4) == b && double_in(s, 8) == v
        }),
{
    bytes_tell_the_number(a, v);
    bytes_tell_the_number(b, v);
    let s = le32(a) + le32(b) + le64(v);
    assert(forall|i: int| 0 <= i < 4 ==> s[i] == le32(a)[i]);
    assert(forall|i: int| 0 <= i < 4 ==> s[4 + i] == #[trigger] le32(b)[i]);
    assert(forall|i: int| 0 <= i < 8 ==> s[8 + i] == #[trigger] le64(v)[i]);
}

/// Reading behind a word is reading what stands behind it.
proof fn lemma_reads_behind(a: u32, rest: Seq<u8>)
    requires
        rest.len() >= 16,
    ensures
        word_in(le32(a) + rest, 0) == a,
        word_in(le32(a) + rest, 4) == word_in(rest, 0),
        word_in(le32(a) + rest, 8) == word_in(rest, 4),
        double_in(le32(a) + rest, 12) == double_in(rest, 8),
        rest.len() >= 24 ==> double_in(le32(a) + rest, 20) == double_in(rest, 16),
{
    bytes_tell_the_number(a, 0);
    let s = le32(a) + rest;
    assert(forall|i: int| 0 <= i < 4 ==> s[i] == le32(a)[i]);
    assert(forall|i: int| 0 <= i < rest.len() ==> s[4 + i] == #[trigger] rest[i]);
}

spec fn jumps_behind(s: Seq<u8>, first: u32, to: u64) -> bool {
    s.len() == 20 && word_in(s, 0) == first && word_in(s, 4) == 0x58000050 && word_in(s, 8)
        == 0xD61F0200 && double_in(s, 12) == to
}

proof fn lemma_jumps_behind(first: u32, to: u64)
    ensures
        jumps_behind(le32(first) + absolute_jump(to), first, to),
{
    lemma_reads(0x58000050, 0xD61F0200, to);
    lemma_reads_behind(first, absolute_jump(to));
    bytes_tell_the_number(first, to);
}

proof fn lemma_moved_call(pc: u64, to: u64)
    ensures
        ({
            let s = le32(0x5800007E) + le32(0x58000090) + le32(0xD61F0200) + le64(wrap64(pc + 4))
                + le64(to);
            s.len() == 28 && word_in(s, 0) == 0x5800007E && word_in(s, 4) == 0x58000090 && word_in(
                s,
                8,
            ) == 0xD61F0200 && double_in(s, 12) == wrap64(pc + 4) && double_in(s, 20) == to
        }),
{
    let s = le32(0x5800007E) + le32(0x58000090) + le32(0xD61F0200) + le64(wrap64(pc + 4)) + le64(
        to,
    );
    let front = le32(0x58000090u32) + le32(0xD61F0200u32) + le64(wrap64(pc + 4));
    let tail = front + le64(to);
    lemma_reads(0x58000090, 0xD61F0200, wrap64(pc + 4));
    bytes_tell_the_number(0x5800007E, to);
    assert(forall|i: int| 0 <= i < 16 ==> tail[i] == #[trigger] front[i]);
    assert(forall|i: int| 0 <= i < 8 ==> tail[16 + i] == #[trigger] le64(to)[i]);
    assert(double_in(tail, 16) == to);
    lemma_reads_behind(0x5800007E, tail);
    assert(s =~= le32(0x5800007Eu32) + tail);
}

proof fn lemma_moved(w: u32, pc: u64, literal: u64)
    ensures
        ({
            let s = relocated(w, pc, literal);
            let to = pc_target(w, pc);
            if is_adr(w) || is_adrp(w) {
                s.len() == 16 && word_in(s, 0) == 0x58000040 | (w & 0x1F) && word_in(s, 4)
                    == 0x14000003 && double_in(s, 8) == to
            } else if is_b(w) {
                s.len() == 16 && word_in(s, 0) == 0x58000050 && word_in(s, 4) == 0xD61F0200
                    && double_in(s, 8) == to
            } else if is_bl(w) {
                s.len() == 28 && word_in(s, 0) == 0x5800007E && word_in(s, 4) == 0x58000090
                    && word_in(s, 8) == 0xD61F0200 && double_in(s, 12) == wrap64(pc + 4)
                    && double_in(s, 20) == to
            } else if is_b_cond(w) {
                jumps_behind(s, 0x54000000 | (5u32 << 5) | ((w & 0xF) ^ 1), to)
            } else if is_compare_branch(w) {
                jumps_behind(s, ((w ^ 0x0100_0000) & !0x00FFFFE0u32) | (5u32 << 5), to)
            } else if is_test_branch(w) {
                jumps_behind(s, ((w ^ 0x0100_0000) & !0x0007FFE0u32) | (5u32 << 5), to)
            } else if is_load_literal(w) {
                s.len() == 16 && word_in(s, 0) == (w & 0xFF00001F) | (2u32 << 5) && word_in(s, 4)
                    == 0x14000003 && double_in(s, 8) == literal
            } else {
                s.len() == 4 && word_in(s, 0) == w
            }
        }),
{
    let to = pc_target(w, pc);
    if is_adr(w) || is_adrp(w) {
        lemma_reads(0x58000040 | (w & 0x1F), 0x14000003, to);
    } else if is_b(w) {
        lemma_reads(0x58000050, 0xD61F0200, to);
    } else if is_bl(w) {
        lemma_moved_call(pc, to);
    } else if is_b_cond(w) {
        lemma_jumps_behind(0x54000000 | (5u32 << 5) | ((w & 0xF) ^ 1), to);
    } else if is_compare_branch(w) {
        lemma_jumps_behind(((w ^ 0x0100_0000) & !0x00FFFFE0u32) | (5u32 << 5), to);
    } else if is_test_branch(w) {
        lemma_jumps_behind(((w ^ 0x0100_0000) & !0x0007FFE0u32) | (5u32 << 5), to);
    } else if is_load_literal(w) {
        lemma_reads((w & 0xFF00001F) | (2u32 << 5), 0x14000003, literal);
    } else {
        assert(!pc_relative(w));
        bytes_tell_the_number(w, 0);
    }
}

/// The code that an instruction is moved to, from the bits of its word. ADR and ADRP become a load
/// of the address that they form; B a jump, and BL a call, to the address; a conditional branch the
/// opposite branch round a jump; a load the same load of the literal beside it. Anything else stays
/// as it is.
pub proof fn moved_words_are_their_bits(w: u32, pc: u64, literal: u64)
    ensures
        ({
            let s = relocated(w, pc, literal);
            let to = pc_target(w, pc);
            let top = w / 0x100_0000;
            let opposite = if top % 2 == 0 {
                top + 1
            } else {
                top - 1
            };
            let moved_jump = word_in(s, 4) == 0x58000050 && word_in(s, 8) == 0xD61F0200
                && double_in(s, 12) == to && s.len() == 20;
            if top % 0x20 == 16 {
                s.len() == 16 && word_in(s, 0) == 0x58000040 + w % 0x20 && word_in(s, 4)
                    == 0x14000003 && double_in(s, 8) == to
            } else if w / 0x400_0000 == 5 {
                s.len() == 16 && word_in(s, 0) == 0x58000050 && word_in(s, 4) == 0xD61F0200
                    && double_in(s, 8) == to
            } else if w / 0x400_0000 == 37 {
                s.len() == 28 && word_in(s, 0) == 0x5800007E && word_in(s, 4) == 0x58000090
                    && word_in(s, 8) == 0xD61F0200 && double_in(s, 12) == (pc + 4)
                    % 0x1_0000_0000_0000_0000 && double_in(s, 20) == to
            } else if top == 84 {
                moved_jump && word_in(s, 0) == 0x540000A0 + (if w % 2 == 0 {
                    w % 0x10 + 1
                } else {
                    w % 0x10 - 1
                })
            } else if (w / 0x200_0000) % 0x40 == 26 {
                moved_jump && word_in(s, 0) == 0x100_0000 * opposite + 0xA0 + w % 0x20
            } else if (w / 0x200_0000) % 0x40 == 27 {
                moved_jump && word_in(s, 0) == 0x100_0000 * opposite + 0x8_0000 * ((w / 0x8_0000)
                    % 0x20) + 0xA0 + w % 0x20
            } else if (w / 0x800_0000) % 8 == 3 && top % 4 == 0 {
                s.len() == 16 && word_in(s, 0) == 0x100_0000 * top + 0x40 + w % 0x20 && word_in(
                    s,
                    4,
                ) == 0x14000003 && double_in(s, 8) == literal
            } else {
                s.len() == 4 && word_in(s, 0) == w
            }
        }),
{
    pc_relative_classes_are_disjoint(w);
    lemma_moved(w, pc, literal);
    lemma_bits(w, pc, 0);
}

/// The conditions, one by one; each odd one is the opposite of the one before it, but for the last
/// two, which always hold.
pub proof fn conditions_are_flags(cpu: Cpu)
    ensures
        condition_holds(0, cpu) == cpu.z,
        condition_holds(1, cpu) == !cpu.z,
        condition_holds(2, cpu) == cpu.c,
        condition_holds(3, cpu) == !cpu.c,
        condition_holds(4, cpu) == cpu.n,
        condition_holds(5, cpu) == !cpu.n,
        condition_holds(6, cpu) == cpu.v,
        condition_holds(7, cpu) == !cpu.v,
        condition_holds(8, cpu) == (cpu.c && !cpu.z),
        condition_holds(9, cpu) == (!cpu.c || cpu.z),
        condition_holds(10, cpu) == (cpu.n == cpu.v),
        condition_holds(11, cpu) == (cpu.n != cpu.v),
        condition_holds(12, cpu) == (!cpu.z && cpu.n == cpu.v),
        condition_holds(13, cpu) == (cpu.z || cpu.n != cpu.v),
        condition_holds(14, cpu),
        condition_holds(15, cpu),
{
    assert(0u32 >> 1 == 0 && 1u32 >> 1 == 0 && 2u32 >> 1 == 1 && 3u32 >> 1 == 1 && 4u32 >> 1 == 2
        && 5u32 >> 1 == 2 && 6u32 >> 1 == 3 && 7u32 >> 1 == 3 && 8u32 >> 1 == 4 && 9u32 >> 1 == 4
        && 10u32 >> 1 == 5 && 11u32 >> 1 == 5 && 12u32 >> 1 == 6 && 13u32 >> 1 == 6 && 14u32 >> 1
        == 7 && 15u32 >> 1 == 7 && 0u32 & 1 == 0 && 1u32 & 1 == 1 && 2u32 & 1 == 0 && 3u32 & 1 == 1
        && 4u32 & 1 == 0 && 5u32 & 1 == 1 && 6u32 & 1 == 0 && 7u32 & 1 == 1 && 8u32 & 1 == 0 && 9u32
        & 1 == 1 && 10u32 & 1 == 0 && 11u32 & 1 == 1 && 12u32 & 1 == 0 && 13u32 & 1 == 1 && 14u32
        & 1 == 0) by (bit_vector);
}

/// What the instructions do that load an address and go to it, from the bits of their words: BR goes
/// where a register says; MOVZ writes 16 bits to one of four places in a register and clears the
/// others, and MOVK keeps them.
pub proof fn moves_do_what_they_say(w: u32, mem: Memory, cpu: Cpu)
    requires
        cpu.wf(),
    ensures
        ({
            let next = ((cpu.pc + 4) % 0x1_0000_0000_0000_0000) as u64;
            let d = (w % 0x20) as int;
            let n = ((w / 0x20) % 0x20) as int;
            let held = if d == 31 {
                0
            } else {
                cpu.x[d]
            };
            let place: int = match (w / 0x20_0000) % 4 {
                0 => 1,
                1 => 0x1_0000,
                2 => 0x1_0000_0000,
                _ => 0x1_0000_0000_0000,
            };
            let imm = ((w / 0x20) % 0x1_0000) as int;
            let written = |v: int|
                if d == 31 {
                    Cpu { pc: next, ..cpu }
                } else {
                    Cpu { pc: next, x: cpu.x.update(d, v as u64), ..cpu }
                };
            if w / 0x400 == 0x35_87C0 && w % 0x20 == 0 {
                execute(w, mem, cpu) == Some(
                    Cpu {
                        pc: if n == 31 {
                            0
                        } else {
                            cpu.x[n]
                        },
                        ..cpu
                    },
                )
            } else if w / 0x80_0000 == 0x1A5 {
                execute(w, mem, cpu) == Some(written(place * imm))
            } else if w / 0x80_0000 == 0x1E5 {
                execute(w, mem, cpu) == Some(
                    written(held - place * ((held as int / place) % 0x1_0000) + place * imm),
                )
            } else {
                true
            }
        }),
{
    lemma_bits(w, cpu.pc, 0);
    lemma_moves(w, cpu.reg(rd(w)));
    pc_relative_classes_are_disjoint(w);
    reveal(execute);
    let k = (w >> 21) & 3;
    assert(k == 0 || k == 1 || k == 2 || k == 3);
    assert(mov_shift(w) == 0 || mov_shift(w) == 16 || mov_shift(w) == 32 || mov_shift(w) == 48);
}

/// What the instructions do that are moved, from the bits of their words: where they go on, which
/// register they write, and that they change nothing else.
pub proof fn instructions_do_what_they_say(w: u32, mem: Memory, cpu: Cpu)
    requires
        cpu.wf(),
    ensures
        ({
            let next = ((cpu.pc + 4) % 0x1_0000_0000_0000_0000) as u64;
            let to = pc_target(w, cpu.pc);
            let d = (w % 0x20) as int;
            let top = w / 0x100_0000;
            let value = double_at(mem, to);
            let low = (value % 0x1_0000_0000) as u64;
            let d_value = if d == 31 {
                0
            } else {
                cpu.x[d]
            };
            let written = |v: u64|
                if d == 31 {
                    Cpu { pc: next, ..cpu }
                } else {
                    Cpu { pc: next, x: cpu.x.update(d, v), ..cpu }
                };
            let goes = |taken: bool|
                Some(
                    Cpu {
                        pc: if taken {
                            to
                        } else {
                            next
                        },
                        ..cpu
                    },
                );
            if top % 0x20 == 16 {
                execute(w, mem, cpu) == Some(written(to))
            } else if w / 0x400_0000 == 5 {
                execute(w, mem, cpu) == Some(Cpu { pc: to, ..cpu })
            } else if w / 0x400_0000 == 37 {
                execute(w, mem, cpu) == Some(Cpu { pc: to, x: cpu.x.update(30, next), ..cpu })
            } else if top == 84 {
                execute(w, mem, cpu) == goes(condition_holds((w % 0x10) as u32, cpu))
            } else if (w / 0x200_0000) % 0x40 == 26 {
                execute(w, mem, cpu) == goes(
                    (top % 2 == 1) == ((if w / 0x8000_0000 == 1 {
                        d_value
                    } else {
                        d_value % 0x1_0000_0000
                    }) != 0),
                )
            } else if (w / 0x200_0000) % 0x40 == 27 {
                let bit = (0x20 * (w / 0x8000_0000) + (w / 0x8_0000) % 0x20) as u64;
                execute(w, mem, cpu) == goes((top % 2 == 1) == ((d_value >> bit) & 1 == 1))
            } else if (w / 0x800_0000) % 8 == 3 && top % 4 == 0 {
                if (w / 0x400_0000) % 2 == 1 {
                    match w / 0x4000_0000 {
                        0 => execute(w, mem, cpu) == Some(
                            Cpu { pc: next, q: cpu.q.update(d, low as u128), ..cpu },
                        ),
                        1 => execute(w, mem, cpu) == Some(
                            Cpu { pc: next, q: cpu.q.update(d, value as u128), ..cpu },
                        ),
                        _ => execute(w, mem, cpu) is None,
                    }
                } else {
                    match w / 0x4000_0000 {
                        0 => execute(w, mem, cpu) == Some(written(low)),
                        1 => execute(w, mem, cpu) == Some(written(value)),
                        2 => execute(w, mem, cpu) == Some(
                            written(
                                if low < 0x8000_0000 {
                                    low
                                } else {
                                    (low + 0xFFFF_FFFF_0000_0000) as u64
                                },
                            ),
                        ),
                        _ => execute(w, mem, cpu) == Some(Cpu { pc: next, ..cpu }),
                    }
                }
            } else {
                true
            }
        }),
{
    lemma_bits(w, cpu.pc, double_at(mem, pc_target(w, cpu.pc)));
    lemma_bits(w, cpu.pc, cpu.reg(rd(w)));
    pc_relative_classes_are_disjoint(w);
    reveal(execute);
}

/// The stolen instructions are the words of the stolen bytes, in their order.
pub proof fn stolen_words_are_read(stolen: Seq<u8>, i: int)
    requires
        0 <= i < 4,
        stolen.len() == 16,
    ensures
        stolen_word(stolen, i) == word_in(stolen, 4 * i),
{
    let w = stolen_word(stolen, i);
    lemma_le32_of_word(
        stolen[4 * i],
        stolen[4 * i + 1],
        stolen[4 * i + 2],
        stolen[4 * i + 3],
    );
    bytes_tell_the_number(w, 0);
}

/// The code that jumps, and the stub of a hook: loads of the numbers that stand behind them.
pub proof fn jumps_and_stubs_hold_their_numbers(target: u64, hook_id: u64, thunk: u64)
    ensures
        ({
            let s = absolute_jump(target);
            s.len() == 16 && word_in(s, 0) == 0x58000050 && word_in(s, 4) == 0xD61F0200
                && double_in(s, 8) == target
        }),
        ({
            let s = stub(hook_id, thunk);
            s.len() == 32 && word_in(s, 0) == 0x58000070 && word_in(s, 4) == 0x58000091 && word_in(
                s,
                8,
            ) == 0xD61F0220 && double_in(s, 12) == hook_id && double_in(s, 20) == thunk && word_in(
                s,
                28,
            ) == 0
        }),
{
    lemma_reads(0x58000050, 0xD61F0200, target);
    let s = stub(hook_id, thunk);
    let front = le32(0x58000091) + le32(0xD61F0220) + le64(hook_id);
    let rest = front + (le64(thunk) + seq![0u8, 0, 0, 0]);
    lemma_reads(0x58000091, 0xD61F0220, hook_id);
    bytes_tell_the_number(0, thunk);
    assert(forall|i: int| 0 <= i < 16 ==> rest[i] == #[trigger] front[i]);
    assert(forall|i: int| 0 <= i < 8 ==> rest[16 + i] == #[trigger] le64(thunk)[i]);
    assert(double_in(rest, 16) == thunk);
    lemma_reads_behind(0x58000070, rest);
    assert(s =~= le32(0x58000070) + rest);
}

/// Words and double words lie in memory with their least significant byte first.
pub proof fn memory_is_little_endian(mem: Memory, a: u64)
    ensures
        ({
            let byte = |k: int| mem(((a + k) % 0x1_0000_0000_0000_0000) as u64) as int;
            let low = byte(0) + 0x100 * byte(1) + 0x1_0000 * byte(2) + 0x100_0000 * byte(3);
            let high = byte(4) + 0x100 * byte(5) + 0x1_0000 * byte(6) + 0x100_0000 * byte(7);
            &&& word_at(mem, a) == low
            &&& double_at(mem, a) == low + 0x1_0000_0000 * high
        }),
{
    lemma_word_in_memory(mem, a);
    lemma_word_in_memory(mem, wrap64(a + 4));
    lemma_wrap_add(a + 4, 1);
    lemma_wrap_add(a + 4, 2);
    lemma_wrap_add(a + 4, 3);
    reveal(double_at);
    let lo = word_at(mem, a);
    let hi = word_at(mem, wrap64(a + 4));
    lemma_halves(lo, hi);
    assert(wrap64(a as int) == a);
}

proof fn lemma_word_in_memory(mem: Memory, a: u64)
    ensures
        word_at(mem, a) == mem(a) + 0x100 * mem(wrap64(a + 1)) + 0x1_0000 * mem(wrap64(a + 2))
            + 0x100_0000 * mem(wrap64(a + 3)),
{
    reveal(word_at);
    lemma_le32_of_word(mem(a), mem(wrap64(a + 1)), mem(wrap64(a + 2)), mem(wrap64(a + 3)));
    bytes_tell_the_number(word_at(mem, a), 0);
}

proof fn lemma_halves(lo: u32, hi: u32)
    ensures
        double_of(lo, hi) == lo + 0x1_0000_0000 * hi,
{
    assert((lo as u64) | ((hi as u64) << 32) == lo + 0x1_0000_0000 * hi) by (bit_vector);
}

} // verus!
