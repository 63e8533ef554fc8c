//! What the loading thread does between its calls.
use super::behaviour::{
    holds_words, lemma_holds_words, lemma_holds_words_part, lemma_step_movz, mov_addr_loads_address,
};
use super::bootstrap::{
    mov_words, start_words, stub_words, Symbols, ACK_OFF, BLR_X16, ERR_OFF, MARKER_OFF, MOVZ_W0_D,
    MOVZ_W0_R, MOVZ_X1_RTLD_NOW, MOV_X0_X19, MOV_X19_X0, RTLD_NOW, START_OFF, STRB_W0_X1,
    STR_X0_X1, STUB_OFF,
};
use crate::arm64::{
    class, execute, holds, is_adr, is_adrp, is_b, is_b_cond, is_bl, is_branch_register,
    is_compare_branch, is_load_literal, is_mov_keep, is_mov_zero, is_test_branch, rd,
    run, step, word_at, Cpu, Memory,
};
use crate::encoding::{le64, le_words, lemma_wrap_add, wrap64};
use vstd::prelude::*;

verus! {

/// A processor and the memory that it writes to.
#[verifier::ext_equal]
pub struct Machine {
    pub cpu: Cpu,
    pub mem: Memory,
}

/// `mem` with `bytes` at `a`.
pub open spec fn stored(mem: Memory, a: u64, bytes: Seq<u8>) -> Memory {
    |b: u64|
        if wrap64(b - a) < bytes.len() {
            bytes[wrap64(b - a) as int]
        } else {
            mem(b)
        }
}

/// MOV of one general register to another, on 64 bits.
pub open spec fn is_mov_register(w: u32) -> bool {
    w & 0xFFE0FFE0 == 0xAA0003E0
}

/// STRB of the low byte of a register, without an offset.
pub open spec fn is_store_byte(w: u32) -> bool {
    w & 0xFFFFFC00 == 0x39000000
}

/// STR of all 64 bits of a register, without an offset.
pub open spec fn is_store_double(w: u32) -> bool {
    w & 0xFFFFFC00 == 0xF9000000
}

/// The register in bits 5 to 9.
pub open spec fn rn(w: u32) -> u32 {
    (w >> 5) & 0x1F
}

/// One step, with the moves and stores that the loading thread is made of beside what the
/// processor alone can do.
pub open spec fn machine_step(m: Machine) -> Option<Machine> {
    let w = word_at(m.mem, m.cpu.pc);
    let next = wrap64(m.cpu.pc + 4);
    match execute(w, m.mem, m.cpu) {
        Some(cpu) => Some(Machine { cpu, ..m }),
        None => if is_mov_register(w) {
            Some(Machine { cpu: m.cpu.write(rd(w), m.cpu.reg((w >> 16) & 0x1F), next), ..m })
        } else if is_store_byte(w) && rn(w) != 31 {
            Some(
                Machine {
                    cpu: m.cpu.at(next),
                    mem: stored(
                        m.mem,
                        m.cpu.reg(rn(w)),
                        seq![(m.cpu.reg(rd(w)) & 0xff) as u8],
                    ),
                },
            )
        } else if is_store_double(w) && rn(w) != 31 {
            Some(
                Machine {
                    cpu: m.cpu.at(next),
                    mem: stored(m.mem, m.cpu.reg(rn(w)), le64(m.cpu.reg(rd(w)))),
                },
            )
        } else {
            None
        },
    }
}

/// `n` steps.
pub open spec fn machine_run(m: Machine, n: nat) -> Option<Machine>
    decreases n,
{
    if n == 0 {
        Some(m)
    } else {
        match machine_step(m) {
            Some(after) => machine_run(after, (n - 1) as nat),
            None => None,
        }
    }
}

/// What the processor does alone it does with memory at its side.
proof fn lemma_lift(m: Machine, n: nat)
    requires
        run(m.mem, m.cpu, n) is Some,
    ensures
        machine_run(m, n) == Some(Machine { cpu: run(m.mem, m.cpu, n)->0, ..m }),
    decreases n,
{
    if n > 0 {
        let after = Machine { cpu: step(m.mem, m.cpu)->0, ..m };
        lemma_lift(after, (n - 1) as nat);
    }
}

proof fn lemma_machine_run_add(m: Machine, mid: Machine, n: nat, k: nat)
    requires
        machine_run(m, n) == Some(mid),
    ensures
        machine_run(m, n + k) == machine_run(mid, k),
    decreases n,
{
    if n > 0 {
        lemma_machine_run_add(machine_step(m)->0, mid, (n - 1) as nat, k);
        assert(((n + k) - 1) as nat == ((n - 1) as nat) + k);
    }
}

proof fn lemma_machine_run_one(m: Machine)
    ensures
        machine_run(m, 1) == machine_step(m),
{
    reveal_with_fuel(machine_run, 2);
}

/// The words of the loading thread that the processor alone does not know.
proof fn lemma_own_words()
    ensures
        class(MOV_X19_X0) is Other,
        class(MOV_X0_X19) is Other,
        class(STRB_W0_X1) is Other,
        class(STR_X0_X1) is Other,
        is_mov_register(MOV_X19_X0) && rd(MOV_X19_X0) == 19 && (MOV_X19_X0 >> 16) & 0x1F == 0,
        is_mov_register(MOV_X0_X19) && rd(MOV_X0_X19) == 0 && (MOV_X0_X19 >> 16) & 0x1F == 19,
        !is_mov_register(STRB_W0_X1) && is_store_byte(STRB_W0_X1) && rd(STRB_W0_X1) == 0 && rn(
            STRB_W0_X1,
        ) == 1,
        !is_mov_register(STR_X0_X1) && !is_store_byte(STR_X0_X1) && is_store_double(STR_X0_X1)
            && rd(STR_X0_X1) == 0 && rn(STR_X0_X1) == 1,
{
    assert(forall|w: u32|
        #![auto]
        w == 0xAA0003F3 || w == 0xAA1303E0 || w == 0x39000020 || w == 0xF9000020 ==> !is_adr(w)
            && !is_adrp(w) && !is_b(w) && !is_bl(w) && !is_b_cond(w) && !is_compare_branch(w)
            && !is_test_branch(w) && !is_load_literal(w) && !is_branch_register(w) && !is_mov_zero(w)
            && !is_mov_keep(w)) by (bit_vector);
    assert(is_mov_register(0xAA0003F3) && rd(0xAA0003F3) == 19 && (0xAA0003F3u32 >> 16) & 0x1F == 0
        && is_mov_register(0xAA1303E0) && rd(0xAA1303E0) == 0 && (0xAA1303E0u32 >> 16) & 0x1F == 19
        && !is_mov_register(0x39000020) && is_store_byte(0x39000020) && rd(0x39000020) == 0 && rn(
        0x39000020,
    ) == 1 && !is_mov_register(0xF9000020) && !is_store_byte(0xF9000020) && is_store_double(
        0xF9000020,
    ) && rd(0xF9000020) == 0 && rn(0xF9000020) == 1) by (bit_vector);
}

/// MOV x19, x0.
proof fn lemma_step_save(m: Machine)
    requires
        word_at(m.mem, m.cpu.pc) == MOV_X19_X0,
    ensures
        machine_step(m) == Some(
            Machine { cpu: m.cpu.write(19, m.cpu.reg(0), wrap64(m.cpu.pc + 4)), ..m },
        ),
{
    reveal(execute);
    lemma_own_words();
}

/// MOV x0, x19.
proof fn lemma_step_restore(m: Machine)
    requires
        word_at(m.mem, m.cpu.pc) == MOV_X0_X19,
    ensures
        machine_step(m) == Some(
            Machine { cpu: m.cpu.write(0, m.cpu.reg(19), wrap64(m.cpu.pc + 4)), ..m },
        ),
{
    reveal(execute);
    lemma_own_words();
}

/// STRB w0, [x1].
proof fn lemma_step_strb(m: Machine)
    requires
        word_at(m.mem, m.cpu.pc) == STRB_W0_X1,
    ensures
        machine_step(m) == Some(
            Machine {
                cpu: m.cpu.at(wrap64(m.cpu.pc + 4)),
                mem: stored(m.mem, m.cpu.reg(1), seq![(m.cpu.reg(0) & 0xff) as u8]),
            },
        ),
{
    reveal(execute);
    lemma_own_words();
}

/// STR x0, [x1].
proof fn lemma_step_str(m: Machine)
    requires
        word_at(m.mem, m.cpu.pc) == STR_X0_X1,
    ensures
        machine_step(m) == Some(
            Machine {
                cpu: m.cpu.at(wrap64(m.cpu.pc + 4)),
                mem: stored(m.mem, m.cpu.reg(1), le64(m.cpu.reg(0))),
            },
        ),
{
    reveal(execute);
    lemma_own_words();
}

/// The four moves of an address.
proof fn lemma_step_mov(m: Machine, reg: u32, addr: u64)
    requires
        m.cpu.wf(),
        reg < 31,
        holds_words(m.mem, m.cpu.pc, mov_words(reg, addr)),
    ensures
        machine_run(m, 4) == Some(
            Machine { cpu: m.cpu.write(reg, addr, wrap64(m.cpu.pc + 16)), ..m },
        ),
{
    mov_addr_loads_address(m.mem, m.cpu, reg, addr);
    lemma_lift(m, 4);
}

/// MOVZ of a small number.
proof fn lemma_step_small(m: Machine, reg: u32, imm: u32)
    requires
        reg < 32,
        imm < 0x10000,
        word_at(m.mem, m.cpu.pc) == 0xD2800000u32 | (imm << 5) | reg,
    ensures
        machine_step(m) == Some(
            Machine { cpu: m.cpu.write(reg, imm as u64, wrap64(m.cpu.pc + 4)), ..m },
        ),
{
    lemma_step_movz(m.mem, m.cpu, reg, imm);
}

/// Two places less than 2^64 apart are as far apart as their addresses.
proof fn lemma_apart(x: int, y: int)
    requires
        0 <= x - y < 0x1_0000_0000_0000_0000,
    ensures
        wrap64(wrap64(x) - wrap64(y)) == x - y,
{
}

/// A store in the data part of the allocation leaves the code as it is.
proof fn lemma_code_stays(
    mem: Memory,
    remote: u64,
    ws: Seq<u32>,
    off: int,
    bytes: Seq<u8>,
)
    requires
        holds_words(mem, wrap64(remote + STUB_OFF + START_OFF), ws),
        ws.len() <= 64,
        0 <= off,
        off + bytes.len() <= STUB_OFF,
    ensures
        holds_words(
            stored(mem, wrap64(remote + off), bytes),
            wrap64(remote + STUB_OFF + START_OFF),
            ws,
        ),
{
    let start = wrap64(remote + STUB_OFF + START_OFF);
    let a = wrap64(remote + off);
    let after = stored(mem, a, bytes);
    assert forall|i: int| 0 <= i < ws.len() implies word_at(after, wrap64(start + 4 * i))
        == #[trigger] ws[i] by {
        let at = remote + STUB_OFF + START_OFF + 4 * i;
        lemma_wrap_add(remote + STUB_OFF + START_OFF, 4 * i);
        assert(wrap64(start + 4 * i) == wrap64(at));
        lemma_wrap_add(at, 1);
        lemma_wrap_add(at, 2);
        lemma_wrap_add(at, 3);
        lemma_apart(at, remote + off);
        lemma_apart(at + 1, remote + off);
        lemma_apart(at + 2, remote + off);
        lemma_apart(at + 3, remote + off);
        reveal(word_at);
        assert(after(wrap64(at)) == mem(wrap64(at)));
        assert(after(wrap64(at + 1)) == mem(wrap64(at + 1)));
        assert(after(wrap64(at + 2)) == mem(wrap64(at + 2)));
        assert(after(wrap64(at + 3)) == mem(wrap64(at + 3)));
    }
}

/// The routine stands in a stub that does.
proof fn lemma_routine_stands(mem: Memory, remote: u64, symbols: Symbols)
    requires
        holds(mem, wrap64(remote + STUB_OFF), le_words(stub_words(remote, symbols))),
    ensures
        holds_words(
            mem,
            wrap64(remote + STUB_OFF + START_OFF),
            start_words(remote, symbols),
        ),
{
    let base = wrap64(remote + STUB_OFF);
    lemma_holds_words(mem, base, stub_words(remote, symbols));
    lemma_holds_words_part(mem, base, stub_words(remote, symbols), 26, start_words(remote, symbols));
    lemma_wrap_add(remote + STUB_OFF, 104);
}

/// Where the parts of the routine stand.
#[verifier::opaque]
spec fn routine_layout(mem: Memory, start: u64, remote: u64, symbols: Symbols) -> bool {
    &&& word_at(mem, wrap64(start + 0)) == MOV_X19_X0
    &&& holds_words(mem, wrap64(start + 4), mov_words(1, wrap64(remote + MARKER_OFF)))
    &&& word_at(mem, wrap64(start + 20)) == MOVZ_W0_R
    &&& word_at(mem, wrap64(start + 24)) == STRB_W0_X1
    &&& word_at(mem, wrap64(start + 28)) == MOV_X0_X19
    &&& word_at(mem, wrap64(start + 32)) == MOVZ_X1_RTLD_NOW
    &&& holds_words(mem, wrap64(start + 36), mov_words(16, symbols.dlopen))
    &&& word_at(mem, wrap64(start + 52)) == BLR_X16
    &&& holds_words(mem, wrap64(start + 56), mov_words(1, wrap64(remote + ACK_OFF)))
    &&& word_at(mem, wrap64(start + 72)) == STR_X0_X1
    &&& holds_words(mem, wrap64(start + 76), mov_words(16, symbols.dlerror))
    &&& word_at(mem, wrap64(start + 92)) == BLR_X16
    &&& holds_words(mem, wrap64(start + 96), mov_words(1, wrap64(remote + ERR_OFF)))
    &&& word_at(mem, wrap64(start + 112)) == STR_X0_X1
    &&& holds_words(mem, wrap64(start + 116), mov_words(1, wrap64(remote + MARKER_OFF + 1)))
    &&& word_at(mem, wrap64(start + 132)) == MOVZ_W0_D
    &&& word_at(mem, wrap64(start + 136)) == STRB_W0_X1
}

proof fn lemma_word(mem: Memory, start: u64, ws: Seq<u32>, i: int, at: int, w: u32)
    requires
        holds_words(mem, start, ws),
        0 <= i < ws.len(),
        ws[i] == w,
        at == 4 * i,
    ensures
        word_at(mem, wrap64(start + at)) == w,
{
    assert(word_at(mem, wrap64(start + 4 * i)) == ws[i]);
}

proof fn lemma_block(mem: Memory, start: u64, ws: Seq<u32>, i: int, at: int, part: Seq<u32>)
    requires
        holds_words(mem, start, ws),
        0 <= i,
        i + part.len() <= ws.len(),
        forall|j: int| 0 <= j < part.len() ==> ws[i + j] == #[trigger] part[j],
        at == 4 * i,
    ensures
        holds_words(mem, wrap64(start + at), part),
{
    lemma_holds_words_part(mem, start, ws, i, part);
}

proof fn lemma_routine_layout(mem: Memory, start: u64, remote: u64, symbols: Symbols)
    requires
        holds_words(mem, start, start_words(remote, symbols)),
    ensures
        routine_layout(mem, start, remote, symbols),
{
    reveal(routine_layout);
    let ws = start_words(remote, symbols);
    lemma_word(mem, start, ws, 0, 0, MOV_X19_X0);
    lemma_block(mem, start, ws, 1, 4, mov_words(1, wrap64(remote + MARKER_OFF)));
    lemma_word(mem, start, ws, 5, 20, MOVZ_W0_R);
    lemma_word(mem, start, ws, 6, 24, STRB_W0_X1);
    lemma_word(mem, start, ws, 7, 28, MOV_X0_X19);
    lemma_word(mem, start, ws, 8, 32, MOVZ_X1_RTLD_NOW);
    lemma_block(mem, start, ws, 9, 36, mov_words(16, symbols.dlopen));
    lemma_word(mem, start, ws, 13, 52, BLR_X16);
    lemma_block(mem, start, ws, 14, 56, mov_words(1, wrap64(remote + ACK_OFF)));
    lemma_word(mem, start, ws, 18, 72, STR_X0_X1);
    lemma_block(mem, start, ws, 19, 76, mov_words(16, symbols.dlerror));
    lemma_word(mem, start, ws, 23, 92, BLR_X16);
    lemma_block(mem, start, ws, 24, 96, mov_words(1, wrap64(remote + ERR_OFF)));
    lemma_word(mem, start, ws, 28, 112, STR_X0_X1);
    lemma_block(mem, start, ws, 29, 116, mov_words(1, wrap64(remote + MARKER_OFF + 1)));
    lemma_word(mem, start, ws, 33, 132, MOVZ_W0_D);
    lemma_word(mem, start, ws, 34, 136, STRB_W0_X1);
}

/// The address of a marker is loaded and a letter stored there.
proof fn lemma_mark(m: Machine, addr: u64, letter: u32)
    requires
        m.cpu.wf(),
        letter < 0x80,
        holds_words(m.mem, m.cpu.pc, mov_words(1, addr)),
        word_at(m.mem, wrap64(m.cpu.pc + 16)) == 0xD2800000u32 | (letter << 5) | 0,
        word_at(m.mem, wrap64(m.cpu.pc + 20)) == STRB_W0_X1,
    ensures
        machine_run(m, 6) == Some(
            Machine {
                cpu: m.cpu.write(1, addr, m.cpu.pc).write(
                    0,
                    letter as u64,
                    wrap64(m.cpu.pc + 24),
                ),
                mem: stored(m.mem, addr, seq![letter as u8]),
            },
        ),
{
    let pc = m.cpu.pc;
    lemma_wrap_add(pc + 16, 4);
    lemma_wrap_add(pc + 20, 4);
    let s1 = Machine { cpu: m.cpu.write(1, addr, wrap64(pc + 16)), ..m };
    let s2 = Machine { cpu: s1.cpu.write(0, letter as u64, wrap64(pc + 20)), ..m };
    lemma_step_mov(m, 1, addr);
    lemma_step_small(s1, 0, letter);
    assert(((letter as u64) & 0xff) as u8 == letter as u8) by (bit_vector)
        requires
            letter < 0x80,
    ;
    lemma_step_strb(s2);
    lemma_machine_run_one(s1);
    lemma_machine_run_one(s2);
    lemma_machine_run_add(m, s1, 4, 2);
    lemma_machine_run_add(s1, s2, 1, 1);
}

/// An address is loaded and x0 stored there.
proof fn lemma_keep(m: Machine, addr: u64)
    requires
        m.cpu.wf(),
        holds_words(m.mem, m.cpu.pc, mov_words(1, addr)),
        word_at(m.mem, wrap64(m.cpu.pc + 16)) == STR_X0_X1,
    ensures
        machine_run(m, 5) == Some(
            Machine {
                cpu: m.cpu.write(1, addr, wrap64(m.cpu.pc + 20)),
                mem: stored(m.mem, addr, le64(m.cpu.reg(0))),
            },
        ),
{
    let pc = m.cpu.pc;
    lemma_wrap_add(pc + 16, 4);
    let s1 = Machine { cpu: m.cpu.write(1, addr, wrap64(pc + 16)), ..m };
    lemma_step_mov(m, 1, addr);
    lemma_step_str(s1);
    lemma_machine_run_one(s1);
    lemma_machine_run_add(m, s1, 4, 1);
}

/// The arguments of `dlopen` are put in place.
proof fn lemma_pass_path(m: Machine, dlopen: u64)
    requires
        m.cpu.wf(),
        word_at(m.mem, m.cpu.pc) == MOV_X0_X19,
        word_at(m.mem, wrap64(m.cpu.pc + 4)) == MOVZ_X1_RTLD_NOW,
        holds_words(m.mem, wrap64(m.cpu.pc + 8), mov_words(16, dlopen)),
    ensures
        machine_run(m, 6) == Some(
            Machine {
                cpu: m.cpu.write(0, m.cpu.reg(19), m.cpu.pc).write(1, RTLD_NOW, m.cpu.pc).write(
                    16,
                    dlopen,
                    wrap64(m.cpu.pc + 24),
                ),
                ..m
            },
        ),
{
    let pc = m.cpu.pc;
    lemma_wrap_add(pc + 4, 4);
    lemma_wrap_add(pc + 8, 16);
    let s1 = Machine { cpu: m.cpu.write(0, m.cpu.reg(19), wrap64(pc + 4)), ..m };
    let s2 = Machine { cpu: s1.cpu.write(1, RTLD_NOW, wrap64(pc + 8)), ..m };
    lemma_step_restore(m);
    assert(0xD2800041u32 == 0xD2800000u32 | (2u32 << 5) | 1) by (bit_vector);
    lemma_step_small(s1, 1, 2);
    lemma_step_mov(s2, 16, dlopen);
    lemma_machine_run_one(m);
    lemma_machine_run_one(s1);
    lemma_machine_run_add(m, s1, 1, 5);
    lemma_machine_run_add(s1, s2, 1, 4);
}

/// The letters of the markers.
proof fn lemma_letters()
    ensures
        MOVZ_W0_R == 0xD2800000u32 | (0x52u32 << 5) | 0,
        MOVZ_W0_D == 0xD2800000u32 | (0x44u32 << 5) | 0,
{
    assert(0xD2800A40u32 == 0xD2800000u32 | (0x52u32 << 5) | 0 && 0xD2800880u32 == 0xD2800000u32 | (
    0x44u32 << 5) | 0) by (bit_vector);
}

/// The routine stands where it should, and does so still when something was stored in the data
/// part of the allocation.
proof fn lemma_layout_stays(mem: Memory, remote: u64, symbols: Symbols, off: int, bytes: Seq<u8>)
    requires
        holds(mem, wrap64(remote + STUB_OFF), le_words(stub_words(remote, symbols))),
        0 <= off,
        off + bytes.len() <= STUB_OFF,
    ensures
        routine_layout(mem, wrap64(remote + STUB_OFF + START_OFF), remote, symbols),
        routine_layout(
            stored(mem, wrap64(remote + off), bytes),
            wrap64(remote + STUB_OFF + START_OFF),
            remote,
            symbols,
        ),
{
    let start = wrap64(remote + STUB_OFF + START_OFF);
    lemma_routine_stands(mem, remote, symbols);
    lemma_routine_layout(mem, start, remote, symbols);
    lemma_code_stays(mem, remote, start_words(remote, symbols), off, bytes);
    lemma_routine_layout(stored(mem, wrap64(remote + off), bytes), start, remote, symbols);
}

/// The routine up to the call of `dlopen`.
proof fn lemma_layout_first(mem: Memory, start: u64, remote: u64, symbols: Symbols)
    requires
        routine_layout(mem, start, remote, symbols),
    ensures
        word_at(mem, wrap64(start + 0)) == MOV_X19_X0,
        holds_words(mem, wrap64(start + 4), mov_words(1, wrap64(remote + MARKER_OFF))),
        word_at(mem, wrap64(start + 20)) == MOVZ_W0_R,
        word_at(mem, wrap64(start + 24)) == STRB_W0_X1,
        word_at(mem, wrap64(start + 28)) == MOV_X0_X19,
        word_at(mem, wrap64(start + 32)) == MOVZ_X1_RTLD_NOW,
        holds_words(mem, wrap64(start + 36), mov_words(16, symbols.dlopen)),
        word_at(mem, wrap64(start + 52)) == BLR_X16,
{
    reveal(routine_layout);
}

/// The routine from there to the call of `dlerror`.
proof fn lemma_layout_second(mem: Memory, start: u64, remote: u64, symbols: Symbols)
    requires
        routine_layout(mem, start, remote, symbols),
    ensures
        holds_words(mem, wrap64(start + 56), mov_words(1, wrap64(remote + ACK_OFF))),
        word_at(mem, wrap64(start + 72)) == STR_X0_X1,
        holds_words(mem, wrap64(start + 76), mov_words(16, symbols.dlerror)),
        word_at(mem, wrap64(start + 92)) == BLR_X16,
{
    reveal(routine_layout);
}

/// The routine from there to its end.
proof fn lemma_layout_third(mem: Memory, start: u64, remote: u64, symbols: Symbols)
    requires
        routine_layout(mem, start, remote, symbols),
    ensures
        holds_words(mem, wrap64(start + 96), mov_words(1, wrap64(remote + ERR_OFF))),
        word_at(mem, wrap64(start + 112)) == STR_X0_X1,
        holds_words(mem, wrap64(start + 116), mov_words(1, wrap64(remote + MARKER_OFF + 1))),
        word_at(mem, wrap64(start + 132)) == MOVZ_W0_D,
        word_at(mem, wrap64(start + 136)) == STRB_W0_X1,
{
    reveal(routine_layout);
}

/// From the start of the routine to where its first marker is set.
#[verifier::rlimit(40)]
proof fn lemma_to_marker(m: Machine, start: u64, remote: u64)
    requires
        m.cpu.wf(),
        m.cpu.pc == start,
        word_at(m.mem, wrap64(start + 0)) == MOV_X19_X0,
        holds_words(m.mem, wrap64(start + 4), mov_words(1, wrap64(remote + MARKER_OFF))),
        word_at(m.mem, wrap64(start + 20)) == MOVZ_W0_R,
        word_at(m.mem, wrap64(start + 24)) == STRB_W0_X1,
    ensures
        machine_run(m, 7) == Some(
            Machine {
                cpu: m.cpu.write(19, m.cpu.reg(0), wrap64(start + 4)).write(
                    1,
                    wrap64(remote + MARKER_OFF),
                    wrap64(start + 4),
                ).write(0, 0x52, wrap64(start + 28)),
                mem: stored(m.mem, wrap64(remote + MARKER_OFF), seq![0x52u8]),
            },
        ),
{
    let s1 = Machine { cpu: m.cpu.write(19, m.cpu.reg(0), wrap64(start + 4)), ..m };
    lemma_letters();
    assert(wrap64(start + 0) == start);
    lemma_wrap_add(start + 4, 16);
    lemma_wrap_add(start + 4, 20);
    lemma_wrap_add(start + 4, 24);
    lemma_step_save(m);
    lemma_mark(s1, wrap64(remote + MARKER_OFF), 0x52);
    lemma_machine_run_one(m);
    lemma_machine_run_add(m, s1, 1, 6);
}

/// From there to the call of `dlopen`.
#[verifier::rlimit(40)]
proof fn lemma_to_dlopen(m: Machine, start: u64, dlopen: u64)
    requires
        m.cpu.wf(),
        m.cpu.pc == wrap64(start + 28),
        word_at(m.mem, wrap64(start + 28)) == MOV_X0_X19,
        word_at(m.mem, wrap64(start + 32)) == MOVZ_X1_RTLD_NOW,
        holds_words(m.mem, wrap64(start + 36), mov_words(16, dlopen)),
    ensures
        machine_run(m, 6) == Some(
            Machine {
                cpu: m.cpu.write(0, m.cpu.reg(19), m.cpu.pc).write(1, RTLD_NOW, m.cpu.pc).write(
                    16,
                    dlopen,
                    wrap64(start + 52),
                ),
                ..m
            },
        ),
{
    lemma_wrap_add(start + 28, 4);
    lemma_wrap_add(start + 28, 8);
    lemma_wrap_add(start + 28, 24);
    lemma_pass_path(m, dlopen);
}

/// The loading thread, started on a path, sets the first marker and comes to the call of `dlopen`
/// with the path and `RTLD_NOW`.
#[verifier::rlimit(40)]
pub proof fn routine_calls_dlopen(m: Machine, remote: u64, symbols: Symbols)
    requires
        m.cpu.wf(),
        m.cpu.pc == wrap64(remote + STUB_OFF + START_OFF),
        holds(m.mem, wrap64(remote + STUB_OFF), le_words(stub_words(remote, symbols))),
    ensures
        machine_run(m, 13) matches Some(after) && {
            &&& after.mem == stored(m.mem, wrap64(remote + MARKER_OFF), seq![0x52u8])
            &&& after.cpu.reg(0) == m.cpu.reg(0)
            &&& after.cpu.reg(1) == RTLD_NOW
            &&& after.cpu.reg(16) == symbols.dlopen
            &&& word_at(after.mem, after.cpu.pc) == BLR_X16
        },
{
    let start = m.cpu.pc;
    lemma_layout_stays(m.mem, remote, symbols, MARKER_OFF as int, seq![0x52u8]);
    lemma_layout_first(m.mem, start, remote, symbols);
    lemma_to_marker(m, start, remote);
    let mid = machine_run(m, 7)->0;
    lemma_layout_first(mid.mem, start, remote, symbols);
    lemma_to_dlopen(mid, start, symbols.dlopen);
    lemma_machine_run_add(m, mid, 7, 6);
}

/// An address is loaded and x0 stored there, at a place in the routine.
proof fn lemma_keep_at(m: Machine, start: u64, at: int, addr: u64)
    requires
        m.cpu.wf(),
        m.cpu.pc == wrap64(start + at),
        holds_words(m.mem, wrap64(start + at), mov_words(1, addr)),
        word_at(m.mem, wrap64(start + at + 16)) == STR_X0_X1,
    ensures
        machine_run(m, 5) == Some(
            Machine {
                cpu: m.cpu.write(1, addr, wrap64(start + at + 20)),
                mem: stored(m.mem, addr, le64(m.cpu.reg(0))),
            },
        ),
{
    lemma_wrap_add(start + at, 16);
    lemma_wrap_add(start + at, 20);
    lemma_keep(m, addr);
}

/// Once `dlopen` has returned, the loading thread stores what it returned where the
/// acknowledgement is read, and comes to the call of `dlerror`.
#[verifier::rlimit(40)]
pub proof fn routine_acknowledges(m: Machine, remote: u64, symbols: Symbols)
    requires
        m.cpu.wf(),
        m.cpu.pc == wrap64(remote + STUB_OFF + START_OFF + 56),
        holds(m.mem, wrap64(remote + STUB_OFF), le_words(stub_words(remote, symbols))),
    ensures
        machine_run(m, 9) matches Some(after) && {
            &&& after.mem == stored(m.mem, wrap64(remote + ACK_OFF), le64(m.cpu.reg(0)))
            &&& after.cpu.reg(16) == symbols.dlerror
            &&& word_at(after.mem, after.cpu.pc) == BLR_X16
        },
{
    let start = wrap64(remote + STUB_OFF + START_OFF);
    lemma_wrap_add(remote + STUB_OFF + START_OFF, 56);
    lemma_layout_stays(m.mem, remote, symbols, ACK_OFF as int, le64(m.cpu.reg(0)));
    lemma_layout_second(m.mem, start, remote, symbols);
    lemma_keep_at(m, start, 56, wrap64(remote + ACK_OFF));
    let mid = machine_run(m, 5)->0;
    lemma_layout_second(mid.mem, start, remote, symbols);
    lemma_wrap_add(start + 76, 16);
    lemma_step_mov(mid, 16, symbols.dlerror);
    lemma_machine_run_add(m, mid, 5, 4);
}

/// Once `dlerror` has returned, the loading thread stores what it returned where the error text's
/// address is read, sets the second marker, and comes to its park loop.
#[verifier::rlimit(40)]
pub proof fn routine_reports_its_end(m: Machine, remote: u64, symbols: Symbols)
    requires
        m.cpu.wf(),
        m.cpu.pc == wrap64(remote + STUB_OFF + START_OFF + 96),
        holds(m.mem, wrap64(remote + STUB_OFF), le_words(stub_words(remote, symbols))),
    ensures
        machine_run(m, 11) matches Some(after) && {
            &&& after.mem == stored(
                stored(m.mem, wrap64(remote + ERR_OFF), le64(m.cpu.reg(0))),
                wrap64(remote + MARKER_OFF + 1),
                seq![0x44u8],
            )
            &&& after.cpu.pc == wrap64(remote + STUB_OFF + START_OFF + 140)
        },
{
    let start = wrap64(remote + STUB_OFF + START_OFF);
    lemma_wrap_add(remote + STUB_OFF + START_OFF, 96);
    lemma_wrap_add(remote + STUB_OFF + START_OFF, 140);
    lemma_layout_stays(m.mem, remote, symbols, ERR_OFF as int, le64(m.cpu.reg(0)));
    lemma_layout_third(m.mem, start, remote, symbols);
    lemma_keep_at(m, start, 96, wrap64(remote + ERR_OFF));
    let mid = machine_run(m, 5)->0;
    lemma_layout_third(mid.mem, start, remote, symbols);
    lemma_letters();
    lemma_wrap_add(start + 116, 16);
    lemma_wrap_add(start + 116, 20);
    lemma_wrap_add(start + 116, 24);
    lemma_mark(mid, wrap64(remote + MARKER_OFF + 1), 0x44);
    lemma_machine_run_add(m, mid, 5, 6);
}

/// What the moves and stores of the loading thread do, from the bits of their words: a register is
/// copied to another; or its low byte, or all eight of its bytes, are stored where another points.
/// Nothing else changes.
pub proof fn moves_and_stores_do_what_they_say(m: Machine)
    requires
        m.cpu.wf(),
        execute(word_at(m.mem, m.cpu.pc), m.mem, m.cpu) is None,
    ensures
        ({
            let w = word_at(m.mem, m.cpu.pc);
            let next = ((m.cpu.pc + 4) % 0x1_0000_0000_0000_0000) as u64;
            let held = |r: u32|
                if r == 31 {
                    0
                } else {
                    m.cpu.x[r as int]
                };
            let d = w % 0x20;
            let n = (w / 0x20) % 0x20;
            if w / 0x20_0000 == 0x550 && (w / 0x20) % 0x800 == 31 {
                machine_step(m) == Some(
                    Machine {
                        cpu: if d == 31 {
                            Cpu { pc: next, ..m.cpu }
                        } else {
                            Cpu {
                                pc: next,
                                x: m.cpu.x.update(d as int, held((w / 0x1_0000) % 0x20)),
                                ..m.cpu
                            }
                        },
                        mem: m.mem,
                    },
                )
            } else if w / 0x400 == 0xE_4000 && n != 31 {
                machine_step(m) matches Some(after) && after.cpu == (Cpu { pc: next, ..m.cpu })
                    && forall|b: u64| #[trigger]
                    (after.mem)(b) == (if b == held(n) {
                        (held(d) % 0x100) as u8
                    } else {
                        (m.mem)(b)
                    })
            } else if w / 0x400 == 0x3E_4000 && n != 31 {
                machine_step(m) matches Some(after) && after.cpu == (Cpu { pc: next, ..m.cpu })
                    && forall|b: u64| #[trigger]
                    (after.mem)(b) == (if (b - held(n)) % 0x1_0000_0000_0000_0000 < 8 {
                        le64(held(d))[(b - held(n)) % 0x1_0000_0000_0000_0000]
                    } else {
                        (m.mem)(b)
                    })
            } else {
                machine_step(m) is None
            }
        }),
{
    let w = word_at(m.mem, m.cpu.pc);
    let v = m.cpu.reg(rd(w));
    assert((w & 0xFFE0FFE0 == 0xAA0003E0) == (w / 0x20_0000 == 0x550 && (w / 0x20) % 0x800 == 31)
        && (w & 0xFFFFFC00 == 0x39000000) == (w / 0x400 == 0xE_4000) && (w & 0xFFFFFC00
        == 0xF9000000) == (w / 0x400 == 0x3E_4000) && (w >> 5) & 0x1F == (w / 0x20) % 0x20 && (w
        >> 16) & 0x1F == (w / 0x1_0000) % 0x20 && w & 0x1F == w % 0x20 && v & 0xff == v % 0x100)
        by (bit_vector);
    if is_store_byte(w) && rn(w) != 31 {
        let a = m.cpu.reg(rn(w));
        assert forall|b: u64| (#[trigger] wrap64(b - a) < 1) == (b == a) by {}
    }
}

} // verus!
