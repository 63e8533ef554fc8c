//! What the bootstrap stub does when it runs.
use super::bootstrap::{
    entry_words, mov_words, park, start_words, stub_words, Symbols, BLR_X16, B_BACK_7, MOVZ_X1_0,
    MOV_X19_X0, SLOT_OFF, START_OFF, STUB_OFF, TIMESPEC_OFF,
};
use crate::arm64::{
    execute, holds, imm26, is_adr, is_adrp, is_b, is_b_cond, is_bl, is_branch_register,
    is_compare_branch, is_load_literal, is_mov_keep, is_mov_zero, is_test_branch, lemma_run_add,
    lemma_run_one, lemma_word_at, pc_target, rd, run, step, word_at, Cpu, Memory,
};
use crate::encoding::{le_words, lemma_le_words_index, lemma_wrap_add, wrap64};
use vstd::prelude::*;

verus! {

/// Whether the words `ws` stand in `mem` from `base` on.
pub open spec fn holds_words(mem: Memory, base: u64, ws: Seq<u32>) -> bool {
    forall|i: int| 0 <= i < ws.len() ==> word_at(mem, wrap64(base + 4 * i)) == #[trigger] ws[i]
}

/// Words whose bytes stand in memory stand there as words.
pub proof fn lemma_holds_words(mem: Memory, base: u64, ws: Seq<u32>)
    requires
        holds(mem, base, le_words(ws)),
    ensures
        holds_words(mem, base, ws),
{
    lemma_le_words_index(ws);
    assert forall|i: int| 0 <= i < ws.len() implies word_at(mem, wrap64(base + 4 * i))
        == #[trigger] ws[i] by {
        lemma_word_at(mem, base, le_words(ws), 4 * i, ws[i]);
    }
}

/// A run of words inside a larger one.
pub proof fn lemma_holds_words_part(mem: Memory, base: u64, ws: Seq<u32>, i: int, part: Seq<u32>)
    requires
        holds_words(mem, base, ws),
        0 <= i,
        i + part.len() <= ws.len(),
        forall|j: int| 0 <= j < part.len() ==> ws[i + j] == part[j],
    ensures
        holds_words(mem, wrap64(base + 4 * i), part),
{
    assert forall|j: int| 0 <= j < part.len() implies word_at(
        mem,
        wrap64(wrap64(base + 4 * i) + 4 * j),
    ) == #[trigger] part[j] by {
        lemma_wrap_add(base + 4 * i, 4 * j);
        assert(ws[i + j] == part[j]);
    }
}

/// MOVZ of `imm`, unshifted.
pub proof fn lemma_step_movz(mem: Memory, cpu: Cpu, reg: u32, imm: u32)
    requires
        reg < 32,
        imm < 0x10000,
        word_at(mem, cpu.pc) == 0xD2800000u32 | (imm << 5) | reg,
    ensures
        step(mem, cpu) == Some(cpu.write(reg, imm as u64, wrap64(cpu.pc + 4))),
{
    reveal(execute);
    let w = word_at(mem, cpu.pc);
    assert(!is_adr(w) && !is_adrp(w) && !is_b(w) && !is_bl(w) && !is_b_cond(w)
        && !is_compare_branch(w) && !is_test_branch(w) && !is_load_literal(w)
        && !is_branch_register(w) && is_mov_zero(w) && rd(w) == reg && (w >> 5) & 0xFFFF == imm && (w
        >> 21) & 3 == 0) by (bit_vector)
        requires
            w == 0xD2800000u32 | (imm << 5) | reg,
            imm < 0x10000,
            reg < 32,
    ;
    let v = imm as u64;
    assert(v << 0u64 == v) by (bit_vector);
}

/// MOVK of `imm`, shifted by `16 * hw`.
proof fn lemma_step_movk(mem: Memory, cpu: Cpu, reg: u32, imm: u32, hw: u32)
    requires
        reg < 32,
        imm < 0x10000,
        hw < 4,
        word_at(mem, cpu.pc) == 0xF2800000u32 | (hw << 21) | (imm << 5) | reg,
    ensures
        step(mem, cpu) == Some(
            cpu.write(
                reg,
                (cpu.reg(reg) & !(0xFFFFu64 << ((16 * hw) as u64))) | ((imm as u64) << ((16
                    * hw) as u64)),
                wrap64(cpu.pc + 4),
            ),
        ),
{
    reveal(execute);
    let w = word_at(mem, cpu.pc);
    assert(!is_adr(w) && !is_adrp(w) && !is_b(w) && !is_bl(w) && !is_b_cond(w)
        && !is_compare_branch(w) && !is_test_branch(w) && !is_load_literal(w)
        && !is_branch_register(w) && !is_mov_zero(w) && is_mov_keep(w) && rd(w) == reg && (w >> 5)
        & 0xFFFF == imm && (w >> 21) & 3 == hw) by (bit_vector)
        requires
            w == 0xF2800000u32 | (hw << 21) | (imm << 5) | reg,
            imm < 0x10000,
            reg < 32,
            hw < 4,
    ;
}

/// The four moves load the address into the register, and change nothing else.
pub proof fn mov_addr_loads_address(mem: Memory, cpu: Cpu, reg: u32, addr: u64)
    requires
        cpu.wf(),
        reg < 31,
        holds_words(mem, cpu.pc, mov_words(reg, addr)),
    ensures
        run(mem, cpu, 4) == Some(cpu.write(reg, addr, wrap64(cpu.pc + 16))),
{
    let ws = mov_words(reg, addr);
    let base = cpu.pc;
    let i0 = (addr & 0xFFFF) as u32;
    let i1 = ((addr >> 16) & 0xFFFF) as u32;
    let i2 = ((addr >> 32) & 0xFFFF) as u32;
    let i3 = ((addr >> 48) & 0xFFFF) as u32;
    let v0 = i0 as u64;
    let v1 = (v0 & !(0xFFFFu64 << 16u64)) | ((i1 as u64) << 16u64);
    let v2 = (v1 & !(0xFFFFu64 << 32u64)) | ((i2 as u64) << 32u64);
    let v3 = (v2 & !(0xFFFFu64 << 48u64)) | ((i3 as u64) << 48u64);
    assert(i0 < 0x10000 && i1 < 0x10000 && i2 < 0x10000 && i3 < 0x10000 && v3 == addr)
        by (bit_vector)
        requires
            i0 == (addr & 0xFFFF) as u32,
            i1 == ((addr >> 16) & 0xFFFF) as u32,
            i2 == ((addr >> 32) & 0xFFFF) as u32,
            i3 == ((addr >> 48) & 0xFFFF) as u32,
            v0 == i0 as u64,
            v1 == (v0 & !(0xFFFFu64 << 16u64)) | ((i1 as u64) << 16u64),
            v2 == (v1 & !(0xFFFFu64 << 32u64)) | ((i2 as u64) << 32u64),
            v3 == (v2 & !(0xFFFFu64 << 48u64)) | ((i3 as u64) << 48u64),
    ;
    assert(wrap64(base + 4 * 0) == base);
    assert(word_at(mem, wrap64(base + 4 * 0)) == ws[0]);
    assert(word_at(mem, wrap64(base + 4 * 1)) == ws[1]);
    assert(word_at(mem, wrap64(base + 4 * 2)) == ws[2]);
    assert(word_at(mem, wrap64(base + 4 * 3)) == ws[3]);
    lemma_wrap_add(base + 4, 4);
    lemma_wrap_add(base + 8, 4);
    lemma_wrap_add(base + 12, 4);
    let s1 = cpu.write(reg, v0, wrap64(base + 4));
    let s2 = cpu.write(reg, v1, wrap64(base + 8));
    let s3 = cpu.write(reg, v2, wrap64(base + 12));
    let s4 = cpu.write(reg, v3, wrap64(base + 16));
    lemma_step_movz(mem, cpu, reg, i0);
    lemma_step_movk(mem, s1, reg, i1, 1);
    assert(s1.write(reg, v1, wrap64(base + 8)) =~= s2);
    lemma_step_movk(mem, s2, reg, i2, 2);
    assert(s2.write(reg, v2, wrap64(base + 12)) =~= s3);
    lemma_step_movk(mem, s3, reg, i3, 3);
    assert(s3.write(reg, v3, wrap64(base + 16)) =~= s4);
    lemma_run_one(mem, cpu);
    lemma_run_one(mem, s1);
    lemma_run_one(mem, s2);
    lemma_run_one(mem, s3);
    lemma_run_add(mem, cpu, s1, 1, 3);
    lemma_run_add(mem, s1, s2, 1, 2);
    lemma_run_add(mem, s2, s3, 1, 1);
}

/// The routine of the loading thread stands where the stub's first part says: behind the entry
/// and its park loop.
pub proof fn start_routine_stands_where_told(remote: u64, symbols: Symbols)
    ensures
        START_OFF == 4 * (entry_words(remote, symbols) + park(wrap64(remote + TIMESPEC_OFF))).len(),
        forall|i: int|
            0 <= i < start_words(remote, symbols).len() ==> stub_words(remote, symbols)[START_OFF
                / 4 + i] == #[trigger] start_words(remote, symbols)[i],
        stub_words(remote, symbols)[START_OFF / 4 + 0] == MOV_X19_X0,
{
    assert(start_words(remote, symbols)[0] == MOV_X19_X0);
}

/// The branch that ends a park loop goes back to the loop's first instruction.
pub proof fn park_goes_round(timespec: u64, base: u64)
    ensures
        park(timespec).len() == 8,
        park(timespec)[7] == B_BACK_7,
        is_b(B_BACK_7),
        pc_target(B_BACK_7, wrap64(base + 4 * 7)) == base,
{
    assert(is_b(0x17FFFFF9) && imm26(0x17FFFFF9) == 0x3FFFFF9 && !is_adr(0x17FFFFF9) && !is_adrp(
        0x17FFFFF9,
    )) by (bit_vector);
    lemma_wrap_add(base + 28, -28);
    assert(wrap64(base + 0) == base);
}

/// Where the blocks of the stub's first part stand.
proof fn lemma_entry_layout(
    mem: Memory,
    base: u64,
    a: Seq<u32>,
    b: Seq<u32>,
    c: Seq<u32>,
    d: Seq<u32>,
    rest: Seq<u32>,
)
    requires
        a.len() == 4,
        b.len() == 4,
        c.len() == 4,
        d.len() == 4,
        holds_words(mem, base, a + seq![MOVZ_X1_0] + b + c + d + seq![BLR_X16] + rest),
    ensures
        holds_words(mem, base, a),
        word_at(mem, wrap64(base + 16)) == MOVZ_X1_0,
        holds_words(mem, wrap64(base + 20), b),
        holds_words(mem, wrap64(base + 36), c),
        holds_words(mem, wrap64(base + 52), d),
        word_at(mem, wrap64(base + 68)) == BLR_X16,
{
    let ws = a + seq![MOVZ_X1_0] + b + c + d + seq![BLR_X16] + rest;
    assert(wrap64(base + 4 * 0) == base);
    lemma_holds_words_part(mem, base, ws, 0, a);
    lemma_holds_words_part(mem, base, ws, 5, b);
    lemma_holds_words_part(mem, base, ws, 9, c);
    lemma_holds_words_part(mem, base, ws, 13, d);
    assert(ws[4] == MOVZ_X1_0);
    assert(ws[17] == BLR_X16);
    assert(word_at(mem, wrap64(base + 4 * 4)) == ws[4]);
    assert(word_at(mem, wrap64(base + 4 * 17)) == ws[17]);
}

/// Four loaded registers and a zeroed one.
proof fn lemma_entry_run(mem: Memory, cpu: Cpu, slot: u64, start: u64, path: u64, create: u64)
    requires
        cpu.wf(),
        holds_words(mem, cpu.pc, mov_words(0, slot)),
        word_at(mem, wrap64(cpu.pc + 16)) == MOVZ_X1_0,
        holds_words(mem, wrap64(cpu.pc + 20), mov_words(2, start)),
        holds_words(mem, wrap64(cpu.pc + 36), mov_words(3, path)),
        holds_words(mem, wrap64(cpu.pc + 52), mov_words(16, create)),
    ensures
        run(mem, cpu, 17) == Some(
            cpu.write(0, slot, cpu.pc).write(1, 0, cpu.pc).write(2, start, cpu.pc).write(
                3,
                path,
                cpu.pc,
            ).write(16, create, wrap64(cpu.pc + 68)),
        ),
{
    let base = cpu.pc;
    lemma_wrap_add(base + 16, 4);
    lemma_wrap_add(base + 20, 16);
    lemma_wrap_add(base + 36, 16);
    lemma_wrap_add(base + 52, 16);
    let s1 = cpu.write(0, slot, wrap64(base + 16));
    let s2 = s1.write(1, 0, wrap64(base + 20));
    let s3 = s2.write(2, start, wrap64(base + 36));
    let s4 = s3.write(3, path, wrap64(base + 52));
    mov_addr_loads_address(mem, cpu, 0, slot);
    assert(0xD2800001u32 == 0xD2800000u32 | (0u32 << 5) | 1) by (bit_vector);
    lemma_step_movz(mem, s1, 1, 0);
    mov_addr_loads_address(mem, s2, 2, start);
    mov_addr_loads_address(mem, s3, 3, path);
    mov_addr_loads_address(mem, s4, 16, create);
    lemma_run_one(mem, s1);
    lemma_run_add(mem, cpu, s1, 4, 13);
    lemma_run_add(mem, s1, s2, 1, 12);
    lemma_run_add(mem, s2, s3, 4, 8);
    lemma_run_add(mem, s3, s4, 4, 4);
}

/// The stub's first part calls `pthread_create_from_mach_thread` with the slot for the thread,
/// no attributes, the routine of the loading thread, and the path.
pub proof fn entry_passes_arguments(mem: Memory, cpu: Cpu, remote: u64, symbols: Symbols)
    requires
        cpu.wf(),
        cpu.pc == wrap64(remote + STUB_OFF),
        holds(mem, cpu.pc, le_words(stub_words(remote, symbols))),
    ensures
        run(mem, cpu, 17) == Some(
            cpu.write(0, wrap64(remote + SLOT_OFF), cpu.pc).write(1, 0, cpu.pc).write(
                2,
                wrap64(remote + STUB_OFF + START_OFF),
                cpu.pc,
            ).write(3, remote, cpu.pc).write(16, symbols.create, wrap64(cpu.pc + 68)),
        ),
        word_at(mem, wrap64(cpu.pc + 68)) == BLR_X16,
{
    let base = cpu.pc;
    lemma_holds_words(mem, base, stub_words(remote, symbols));
    let slot = wrap64(remote + SLOT_OFF);
    let start = wrap64(remote + STUB_OFF + START_OFF);
    let rest = park(wrap64(remote + TIMESPEC_OFF)) + start_words(remote, symbols) + park(
        wrap64(remote + TIMESPEC_OFF),
    );
    assert(stub_words(remote, symbols) =~= mov_words(0, slot) + seq![MOVZ_X1_0] + mov_words(2, start)
        + mov_words(3, remote) + mov_words(16, symbols.create) + seq![BLR_X16] + rest);
    lemma_entry_layout(
        mem,
        base,
        mov_words(0, slot),
        mov_words(2, start),
        mov_words(3, remote),
        mov_words(16, symbols.create),
        rest,
    );
    lemma_entry_run(mem, cpu, slot, start, remote, symbols.create);
}

} // verus!
