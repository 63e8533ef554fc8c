//! What moved code does when it runs: relocation keeps the behaviour of each instruction.
use super::builder::{moved_prologue, stolen_word, trampoline};
use super::relocator::{
    absolute_jump, inverted_branch, relocated, BR_X16, B_12, LDR_X16_16, LDR_X16_8, LDR_X30_12,
};
use crate::arm64::{
    branches, class, cond, double_at, execute, holds, imm14, imm19, imm26, is_adr, is_adrp, is_b,
    is_b_cond, is_bl, is_branch_register, is_compare_branch, is_load_literal, 
    is_test_branch, lemma_double_at, lemma_run_add, lemma_run_one, lemma_run_with, lemma_run_with_add, lemma_run_with_one, lemma_word_at, load, load_size,
    load_vector, on_nonzero, pc_relative, pc_relative_classes_are_disjoint, pc_target, rd, run,
    run_with, step, step_with, test_bit, wide, word_at, Cpu, Memory, Others, SCRATCH,
};
use crate::encoding::{le32, le64, lemma_le32_of_word, lemma_wrap_add, wrap64};
use crate::hook::manager::stub;
use vstd::prelude::*;

verus! {

/// `code` stands somewhere inside a larger block that stands in memory.
pub proof fn lemma_holds_part(mem: Memory, base: u64, code: Seq<u8>, i: int, part: Seq<u8>)
    requires
        holds(mem, base, code),
        0 <= i,
        i + part.len() <= code.len(),
        code.subrange(i, i + part.len()) == part,
    ensures
        holds(mem, wrap64(base + i), part),
{
    assert forall|j: int| 0 <= j < part.len() implies mem(wrap64(wrap64(base + i) + j))
        == #[trigger] part[j] by {
        lemma_wrap_add(base + i, j);
        assert(part[j] == code[i + j]);
    }
}

/// A 64-bit literal load of the double word `4 * k` bytes on.
proof fn lemma_step_load(mem: Memory, cpu: Cpu, rt: u32, k: u32)
    requires
        rt < 32,
        k < 0x40000,
        word_at(mem, cpu.pc) == 0x58000000 | (k << 5) | rt,
    ensures
        step(mem, cpu) == Some(
            cpu.write(rt, double_at(mem, wrap64(cpu.pc + 4 * k)), wrap64(cpu.pc + 4)),
        ),
{
    reveal(execute);
    let w = word_at(mem, cpu.pc);
    assert(is_load_literal(w) && load_size(w) == 1 && !load_vector(w) && rd(w) == rt && imm19(w)
        == k && !is_adr(w) && !is_adrp(w) && !is_b(w) && !is_bl(w) && !is_test_branch(w))
        by (bit_vector)
        requires
            w == 0x58000000 | (k << 5) | rt,
            rt < 32,
            k < 0x40000,
    ;
    pc_relative_classes_are_disjoint(w);
}

/// BR x`rn`.
proof fn lemma_step_br(mem: Memory, cpu: Cpu, rn: u32)
    requires
        rn < 32,
        word_at(mem, cpu.pc) == 0xD61F0000 | (rn << 5),
    ensures
        step(mem, cpu) == Some(cpu.at(cpu.reg(rn))),
{
    reveal(execute);
    let w = word_at(mem, cpu.pc);
    assert(!is_adr(w) && !is_adrp(w) && !is_b(w) && !is_bl(w) && !is_b_cond(w)
        && !is_compare_branch(w) && !is_test_branch(w) && !is_load_literal(w)
        && is_branch_register(w) && (w >> 5) & 0x1F == rn) by (bit_vector)
        requires
            w == 0xD61F0000 | (rn << 5),
            rn < 32,
    ;
}

/// B #12.
proof fn lemma_step_b12(mem: Memory, cpu: Cpu)
    requires
        word_at(mem, cpu.pc) == B_12,
    ensures
        step(mem, cpu) == Some(cpu.at(wrap64(cpu.pc + 12))),
{
    reveal(execute);
    assert(is_b(0x14000003) && imm26(0x14000003) == 3 && !is_adr(0x14000003) && !is_adrp(0x14000003))
        by (bit_vector);
    pc_relative_classes_are_disjoint(B_12);
}

/// An absolute jump goes to its target, and changes nothing but the scratch register.
pub proof fn absolute_jump_reaches_target(mem: Memory, cpu: Cpu, target: u64)
    requires
        cpu.wf(),
        holds(mem, cpu.pc, absolute_jump(target)),
    ensures
        run(mem, cpu, 2) == Some(cpu.write(SCRATCH, target, target)),
{
    let code = absolute_jump(target);
    assert(code.subrange(0, 4) =~= le32(LDR_X16_8));
    assert(code.subrange(4, 8) =~= le32(BR_X16));
    assert(code.subrange(8, 16) =~= le64(target));
    lemma_word_at(mem, cpu.pc, code, 0, LDR_X16_8);
    lemma_word_at(mem, cpu.pc, code, 4, BR_X16);
    lemma_double_at(mem, cpu.pc, code, 8, target);
    assert(wrap64(cpu.pc + 0) == cpu.pc);
    assert(0x58000050u32 == 0x58000000 | (2u32 << 5) | 16) by (bit_vector);
    assert(0xD61F0200u32 == 0xD61F0000 | (16u32 << 5)) by (bit_vector);
    lemma_step_load(mem, cpu, 16, 2);
    let mid = cpu.write(16, target, wrap64(cpu.pc + 4));
    lemma_step_br(mem, mid, 16);
    reveal_with_fuel(run, 3);
    assert(mid.at(mid.reg(16)) =~= cpu.write(SCRATCH, target, target));
}

/// The instructions whose moved form does what they did: all but a conditional branch that
/// always goes (its inverse always goes too), and a literal load of more than eight bytes.
pub open spec fn movable(w: u32) -> bool {
    &&& is_b_cond(w) ==> cond(w) < 14
    &&& is_load_literal(w) ==> !(load_vector(w) && load_size(w) >= 2)
}

/// How many steps the moved form of `w` takes in `cpu`.
pub open spec fn moved_steps(w: u32, cpu: Cpu) -> nat {
    if !pc_relative(w) {
        1
    } else if is_adr(w) || is_adrp(w) || is_load_literal(w) || is_b(w) {
        2
    } else if is_bl(w) {
        3
    } else if branches(w, cpu) {
        3
    } else {
        1
    }
}

/// `moved` does what `original` does: where that branched, it is at the same place in the same
/// state but for the scratch register; where it went on in a straight line, it stands behind the
/// moved code in the very same state.
pub open spec fn same_behaviour(
    original: Option<Cpu>,
    moved: Option<Cpu>,
    branched: bool,
    end: u64,
) -> bool {
    match (original, moved) {
        (Some(o), Some(m)) => if branched {
            m.agrees(o) && m.pc == o.pc
        } else {
            m == o.at(end)
        },
        _ => false,
    }
}

/// The inverse conditions of a skipping branch.
proof fn lemma_step_skip(mem: Memory, cpu: Cpu, w: u32)
    requires
        word_at(mem, cpu.pc) == w,
        is_b_cond(w) || is_compare_branch(w) || is_test_branch(w),
        is_test_branch(w) ==> imm14(w) == 5,
        !is_test_branch(w) ==> imm19(w) == 5,
    ensures
        step(mem, cpu) == Some(
            cpu.at(
                wrap64(
                    cpu.pc + (if branches(w, cpu) {
                        20int
                    } else {
                        4
                    }),
                ),
            ),
        ),
{
    reveal(execute);
    pc_relative_classes_are_disjoint(w);
}

/// The skipping branch in front of a moved conditional branch goes exactly when that does not.
proof fn lemma_inverse(w: u32, inverse: u32, cpu: Cpu)
    requires
        movable(w),
        is_b_cond(w) ==> inverse == 0x54000000 | (5u32 << 5) | (cond(w) ^ 1),
        is_compare_branch(w) ==> inverse == inverted_branch(w, 0x00FFFFE0),
        is_test_branch(w) ==> inverse == inverted_branch(w, 0x0007FFE0),
        is_b_cond(w) || is_compare_branch(w) || is_test_branch(w),
    ensures
        branches(inverse, cpu) == !branches(w, cpu),
        is_b_cond(inverse) || is_compare_branch(inverse) || is_test_branch(inverse),
        is_test_branch(inverse) ==> imm14(inverse) == 5,
        !is_test_branch(inverse) ==> imm19(inverse) == 5,
{
    pc_relative_classes_are_disjoint(w);
    pc_relative_classes_are_disjoint(inverse);
    if is_b_cond(w) {
        assert(is_b_cond(inverse) && imm19(inverse) == 5 && !is_test_branch(inverse) && cond(inverse)
            == cond(w) ^ 1 && cond(inverse) >> 1 == cond(w) >> 1 && (cond(inverse) & 1 == 1) == (
        cond(w) & 1 == 0) && (cond(w) & 1 == 0 || cond(w) & 1 == 1) && cond(inverse) < 14)
            by (bit_vector)
            requires
                inverse == 0x54000000 | (5u32 << 5) | (cond(w) ^ 1),
                cond(w) < 14,
        ;
    } else if is_compare_branch(w) {
        assert(is_compare_branch(inverse) && imm19(inverse) == 5 && !is_test_branch(inverse) && rd(
            inverse,
        ) == rd(w) && wide(inverse) == wide(w) && on_nonzero(inverse) == !on_nonzero(w))
            by (bit_vector)
            requires
                inverse == ((w ^ 0x0100_0000) & !0x00FFFFE0u32) | (5u32 << 5),
                is_compare_branch(w),
        ;
    } else {
        assert(is_test_branch(inverse) && imm14(inverse) == 5 && rd(inverse) == rd(w) && test_bit(
            inverse,
        ) == test_bit(w) && on_nonzero(inverse) == !on_nonzero(w)) by (bit_vector)
            requires
                inverse == ((w ^ 0x0100_0000) & !0x0007FFE0u32) | (5u32 << 5),
                is_test_branch(w),
        ;
    }
}

/// A skipping branch in front of an absolute jump.
proof fn lemma_skip_or_jump(mem: Memory, cpu: Cpu, inverse: u32, target: u64)
    requires
        cpu.wf(),
        holds(mem, cpu.pc, le32(inverse) + absolute_jump(target)),
        is_b_cond(inverse) || is_compare_branch(inverse) || is_test_branch(inverse),
        is_test_branch(inverse) ==> imm14(inverse) == 5,
        !is_test_branch(inverse) ==> imm19(inverse) == 5,
    ensures
        !branches(inverse, cpu) ==> run(mem, cpu, 3) == Some(cpu.write(SCRATCH, target, target)),
        branches(inverse, cpu) ==> run(mem, cpu, 1) == Some(cpu.at(wrap64(cpu.pc + 20))),
{
    let code = le32(inverse) + absolute_jump(target);
    assert(code.subrange(0, 4) =~= le32(inverse));
    lemma_word_at(mem, cpu.pc, code, 0, inverse);
    assert(wrap64(cpu.pc + 0) == cpu.pc);
    lemma_step_skip(mem, cpu, inverse);
    lemma_run_one(mem, cpu);
    if !branches(inverse, cpu) {
        let mid = cpu.at(wrap64(cpu.pc + 4));
        assert(code.subrange(4, 20) =~= absolute_jump(target));
        lemma_holds_part(mem, cpu.pc, code, 4, absolute_jump(target));
        absolute_jump_reaches_target(mem, mid, target);
        lemma_run_add(mem, cpu, mid, 1, 2);
    }
}

/// A literal load of what stands eight bytes on.
proof fn lemma_step_literal(mem: Memory, cpu: Cpu, w: u32)
    requires
        word_at(mem, cpu.pc) == w,
        is_load_literal(w),
        imm19(w) == 2,
    ensures
        step(mem, cpu) == load(w, double_at(mem, wrap64(cpu.pc + 8)), cpu, wrap64(cpu.pc + 4)),
{
    reveal(execute);
    pc_relative_classes_are_disjoint(w);
}

/// Where a literal load, the branch over its literal, and the literal stand.
proof fn lemma_load_over_layout(mem: Memory, base: u64, first: u32, value: u64)
    requires
        holds(mem, base, le32(first) + le32(B_12) + le64(value)),
    ensures
        word_at(mem, base) == first,
        word_at(mem, wrap64(base + 4)) == B_12,
        double_at(mem, wrap64(base + 8)) == value,
{
    let code = le32(first) + le32(B_12) + le64(value);
    assert(code.subrange(0, 4) =~= le32(first));
    assert(code.subrange(4, 8) =~= le32(B_12));
    assert(code.subrange(8, 16) =~= le64(value));
    assert(word_at(mem, base) == first) by {
        lemma_word_at(mem, base, code, 0, first);
        assert(wrap64(base + 0) == base);
    }
    assert(word_at(mem, wrap64(base + 4)) == B_12) by {
        lemma_word_at(mem, base, code, 4, B_12);
    }
    assert(double_at(mem, wrap64(base + 8)) == value) by {
        lemma_double_at(mem, base, code, 8, value);
    }
}

/// A literal load of the double word behind a branch over it.
proof fn lemma_load_over(mem: Memory, cpu: Cpu, first: u32, value: u64, mid: Cpu)
    requires
        holds(mem, cpu.pc, le32(first) + le32(B_12) + le64(value)),
        is_load_literal(first),
        imm19(first) == 2,
        load(first, value, cpu, wrap64(cpu.pc + 4)) == Some(mid),
        mid.pc == wrap64(cpu.pc + 4),
    ensures
        run(mem, cpu, 2) == Some(mid.at(wrap64(cpu.pc + 16))),
{
    lemma_load_over_layout(mem, cpu.pc, first, value);
    lemma_step_literal(mem, cpu, first);
    lemma_step_b12(mem, mid);
    lemma_wrap_add(cpu.pc + 4, 12);
    lemma_run_one(mem, cpu);
    lemma_run_one(mem, mid);
    lemma_run_add(mem, cpu, mid, 1, 1);
}

/// The code of a moved call.
spec fn call_code(back: u64, target: u64) -> Seq<u8> {
    le32(LDR_X30_12) + le32(LDR_X16_16) + le32(BR_X16) + le64(back) + le64(target)
}

/// Where the parts of a concatenation stand.
proof fn lemma_parts(
    a: Seq<u8>,
    b: Seq<u8>,
    c: Seq<u8>,
    d: Seq<u8>,
    e: Seq<u8>,
    rest: Seq<u8>,
)
    requires
        a.len() == 4,
        b.len() == 4,
        c.len() == 4,
        d.len() == 8,
        e.len() == 8,
    ensures
        (a + b + c + d + e + rest).len() == 28 + rest.len(),
        (a + b + c + d + e + rest).subrange(0, 4) == a,
        (a + b + c + d + e + rest).subrange(4, 8) == b,
        (a + b + c + d + e + rest).subrange(8, 12) == c,
        (a + b + c + d + e + rest).subrange(12, 20) == d,
        (a + b + c + d + e + rest).subrange(20, 28) == e,
{
    let s = a + b + c + d + e + rest;
    assert(s.subrange(0, 4) =~= a);
    assert(s.subrange(4, 8) =~= b);
    assert(s.subrange(8, 12) =~= c);
    assert(s.subrange(12, 20) =~= d);
    assert(s.subrange(20, 28) =~= e);
}

/// Where three instructions, the two double words behind them and the rest stand.
#[verifier::rlimit(40)]
proof fn lemma_code_layout(
    mem: Memory,
    base: u64,
    code: Seq<u8>,
    w0: u32,
    w1: u32,
    w2: u32,
    d0: u64,
    d1: u64,
    rest: Seq<u8>,
)
    requires
        holds(mem, base, code),
        code == le32(w0) + le32(w1) + le32(w2) + le64(d0) + le64(d1) + rest,
    ensures
        word_at(mem, base) == w0,
        word_at(mem, wrap64(base + 4)) == w1,
        word_at(mem, wrap64(base + 8)) == w2,
        double_at(mem, wrap64(base + 12)) == d0,
        double_at(mem, wrap64(base + 20)) == d1,
{
    lemma_parts(le32(w0), le32(w1), le32(w2), le64(d0), le64(d1), rest);
    assert(word_at(mem, base) == w0) by {
        lemma_word_at(mem, base, code, 0, w0);
        assert(wrap64(base + 0) == base);
    }
    assert(word_at(mem, wrap64(base + 4)) == w1) by {
        lemma_word_at(mem, base, code, 4, w1);
    }
    assert(word_at(mem, wrap64(base + 8)) == w2) by {
        lemma_word_at(mem, base, code, 8, w2);
    }
    assert(double_at(mem, wrap64(base + 12)) == d0) by {
        lemma_double_at(mem, base, code, 12, d0);
    }
    assert(double_at(mem, wrap64(base + 20)) == d1) by {
        lemma_double_at(mem, base, code, 20, d1);
    }
}

/// A call: the return address and the target are loaded, then jumped to.
proof fn lemma_call(mem: Memory, cpu: Cpu, back: u64, target: u64)
    requires
        cpu.wf(),
        holds(mem, cpu.pc, call_code(back, target)),
    ensures
        run(mem, cpu, 3) == Some(
            cpu.write(30, back, wrap64(cpu.pc + 4)).write(SCRATCH, target, target),
        ),
{
    let base = cpu.pc;
    let code = call_code(back, target);
    assert(code =~= code + Seq::<u8>::empty());
    lemma_code_layout(
        mem,
        base,
        code,
        LDR_X30_12,
        LDR_X16_16,
        BR_X16,
        back,
        target,
        Seq::empty(),
    );
    assert(0x5800007Eu32 == 0x58000000 | (3u32 << 5) | 30) by (bit_vector);
    assert(0x58000090u32 == 0x58000000 | (4u32 << 5) | 16) by (bit_vector);
    assert(0xD61F0200u32 == 0xD61F0000 | (16u32 << 5)) by (bit_vector);
    lemma_step_load(mem, cpu, 30, 3);
    let s1 = cpu.write(30, back, wrap64(base + 4));
    lemma_wrap_add(base + 4, 16);
    lemma_wrap_add(base + 4, 4);
    lemma_step_load(mem, s1, 16, 4);
    let s2 = s1.write(16, target, wrap64(base + 8));
    lemma_step_br(mem, s2, 16);
    lemma_run_one(mem, cpu);
    lemma_run_one(mem, s1);
    lemma_run_one(mem, s2);
    lemma_run_add(mem, cpu, s1, 1, 2);
    lemma_run_add(mem, s1, s2, 1, 1);
}

/// An instruction that is not PC-relative does the same wherever it stands.
proof fn lemma_verbatim(w: u32, before: Memory, after: Memory, base: u64, cpu: Cpu)
    requires
        !pc_relative(w),
        execute(w, before, cpu) is Some,
        holds(after, base, le32(w)),
    ensures
        same_behaviour(
            execute(w, before, cpu),
            run(after, cpu.at(base), 1),
            branches(w, cpu),
            wrap64(base + 4),
        ),
{
    assert(le32(w).subrange(0, 4) =~= le32(w));
    lemma_word_at(after, base, le32(w), 0, w);
    assert(wrap64(base + 0) == base);
    lemma_run_one(after, cpu.at(base));
    reveal(execute);
}

/// Relocation keeps behaviour: wherever the moved bytes stand, running them does what the
/// instruction did at its own address. They go on behind themselves where the instruction went on
/// behind itself; where it branched, the scratch register may differ.
pub proof fn relocation_preserves_behaviour(
    instruction: u32,
    literal: u64,
    before: Memory,
    after: Memory,
    base: u64,
    cpu: Cpu,
)
    requires
        cpu.wf(),
        execute(instruction, before, cpu) is Some,
        movable(instruction),
        is_load_literal(instruction) ==> double_at(before, pc_target(instruction, cpu.pc))
            == literal,
        holds(after, base, relocated(instruction, cpu.pc, literal)),
    ensures
        same_behaviour(
            execute(instruction, before, cpu),
            run(after, cpu.at(base), moved_steps(instruction, cpu)),
            branches(instruction, cpu),
            wrap64(base + relocated(instruction, cpu.pc, literal).len()),
        ),
{
    let w = instruction;
    let target = pc_target(w, cpu.pc);
    let next = wrap64(cpu.pc + 4);
    let start = cpu.at(base);
    pc_relative_classes_are_disjoint(w);
    if !pc_relative(w) {
        lemma_verbatim(w, before, after, base, cpu);
    } else if is_adr(w) || is_adrp(w) {
        let first = 0x58000040 | rd(w);
        assert(is_load_literal(first) && imm19(first) == 2 && load_size(first) == 1 && !load_vector(
            first,
        ) && rd(first) == rd(w) && rd(w) < 32) by (bit_vector)
            requires
                first == 0x58000040 | rd(w),
        ;
        assert(execute(w, before, cpu) == Some(cpu.write(rd(w), target, next))) by {
            reveal(execute);
        }
        lemma_load_over(
            after,
            start,
            first,
            target,
            start.write(rd(w), target, wrap64(base + 4)),
        );
    } else if is_b(w) {
        assert(execute(w, before, cpu) == Some(cpu.at(target))) by {
            reveal(execute);
        }
        absolute_jump_reaches_target(after, start, target);
    } else if is_bl(w) {
        assert(execute(w, before, cpu) == Some(cpu.write(30, next, target))) by {
            reveal(execute);
        }
        lemma_call(after, start, next, target);
    } else if is_load_literal(w) {
        let first = (w & 0xFF00001F) | (2u32 << 5);
        assert(is_load_literal(first) && load_size(first) == load_size(w) && load_vector(first)
            == load_vector(w) && rd(first) == rd(w) && imm19(first) == 2 && rd(w) < 32 && load_size(
            w,
        ) < 4) by (bit_vector)
            requires
                first == (w & 0xFF00001F) | (2u32 << 5),
                is_load_literal(w),
        ;
        assert(execute(w, before, cpu) == load(w, literal, cpu, next)) by {
            reveal(execute);
        }
        let mid = load(first, literal, start, wrap64(base + 4))->0;
        lemma_load_over(after, start, first, literal, mid);
        assert(mid.agrees(load(w, literal, cpu, next)->0));
    } else {
        let inverse = if is_b_cond(w) {
            0x54000000 | (5u32 << 5) | (cond(w) ^ 1)
        } else if is_compare_branch(w) {
            inverted_branch(w, 0x00FFFFE0)
        } else {
            inverted_branch(w, 0x0007FFE0)
        };
        lemma_inverse(w, inverse, cpu);
        assert(branches(inverse, start) == branches(inverse, cpu));
        assert(execute(w, before, cpu) == Some(
            cpu.at(
                if branches(w, cpu) {
                    target
                } else {
                    next
                },
            ),
        )) by {
            reveal(execute);
        }
        lemma_skip_or_jump(after, start, inverse, target);
    }
}

/// Instruction `i` of a trampoline at `base` stands, moved, right behind the ones before it.
pub proof fn trampoline_holds_each_instruction(
    mem: Memory,
    base: u64,
    original: u64,
    stolen: Seq<u8>,
    literals: Seq<u64>,
    i: nat,
)
    requires
        i < 4,
        holds(mem, base, trampoline(original, stolen, literals)),
    ensures
        holds(
            mem,
            wrap64(base + moved_prologue(original, stolen, literals, i).len()),
            relocated(stolen_word(stolen, i as int), wrap64(original + 4 * i), literals[i as int]),
        ),
{
    let code = trampoline(original, stolen, literals);
    let before = moved_prologue(original, stolen, literals, i);
    let one = relocated(
        stolen_word(stolen, i as int),
        wrap64(original + 4 * i),
        literals[i as int],
    );
    reveal_with_fuel(moved_prologue, 5);
    assert(code.subrange(before.len() as int, (before.len() + one.len()) as int) =~= one);
    lemma_holds_part(mem, base, code, before.len() as int, one);
}

/// Behind its moved instructions a trampoline goes back to the original function, to the
/// instruction behind the stolen ones, and changes nothing but the scratch register.
pub proof fn trampoline_returns(
    mem: Memory,
    base: u64,
    original: u64,
    stolen: Seq<u8>,
    literals: Seq<u64>,
    cpu: Cpu,
)
    requires
        cpu.wf(),
        holds(mem, base, trampoline(original, stolen, literals)),
        cpu.pc == wrap64(base + moved_prologue(original, stolen, literals, 4).len()),
    ensures
        run(mem, cpu, 2) == Some(
            cpu.write(SCRATCH, wrap64(original + 16), wrap64(original + 16)),
        ),
{
    let code = trampoline(original, stolen, literals);
    let before = moved_prologue(original, stolen, literals, 4);
    let jump = absolute_jump(wrap64(original + 16));
    assert(code.subrange(before.len() as int, (before.len() + jump.len()) as int) =~= jump);
    lemma_holds_part(mem, base, code, before.len() as int, jump);
    absolute_jump_reaches_target(mem, cpu, wrap64(original + 16));
}

/// Executing an instruction keeps the registers there.
proof fn lemma_execute_wf(w: u32, mem: Memory, cpu: Cpu)
    requires
        cpu.wf(),
        execute(w, mem, cpu) is Some,
    ensures
        execute(w, mem, cpu)->0.wf(),
{
    reveal(execute);
    assert(w & 0x1F < 32) by (bit_vector);
}

/// Whether `n` steps from `start` come to the place and the state of `o`, but for the scratch
/// register.
pub open spec fn comes_to(others: Others, mem: Memory, start: Cpu, n: nat, o: Cpu) -> bool {
    run_with(others, mem, start, n) matches Some(m) && m.agrees(o) && m.pc == o.pc
}

/// Whether `w`, which is not modelled, does the same wherever it stands: it goes on behind
/// itself, or to the same place.
pub open spec fn stands_anywhere(others: Others, w: u32) -> bool {
    forall|cpu: Cpu, pc: u64|
        cpu.wf() ==> (#[trigger] others(w, cpu.at(pc))) == (match others(w, cpu) {
            Some(c) => Some(
                if c.pc == wrap64(cpu.pc + 4) {
                    c.at(wrap64(pc + 4))
                } else {
                    c
                },
            ),
            None => None,
        })
}

/// Whether `w` keeps the registers there.
pub open spec fn keeps_registers(others: Others, w: u32) -> bool {
    forall|cpu: Cpu| cpu.wf() && (#[trigger] others(w, cpu)) is Some ==> others(w, cpu)->0.wf()
}

/// Whether `w` leaves the straight line in `cpu`.
pub open spec fn leaves(others: Others, w: u32, cpu: Cpu) -> bool {
    if class(w) is Other {
        others(w, cpu) matches Some(c) ==> c.pc != wrap64(cpu.pc + 4)
    } else {
        branches(w, cpu)
    }
}

/// What is asked of the four stolen instructions: that each can be moved, that those which are
/// not modelled do the same wherever they stand, and that `literals` are what they load.
pub open spec fn stolen_ok(
    others: Others,
    before: Memory,
    original: u64,
    stolen: Seq<u8>,
    literals: Seq<u64>,
) -> bool {
    forall|i: int|
        0 <= i < 4 ==> {
            let w = #[trigger] stolen_word(stolen, i);
            &&& movable(w)
            &&& class(w) is Other ==> stands_anywhere(others, w) && keeps_registers(others, w)
            &&& is_load_literal(w) ==> double_at(before, pc_target(w, wrap64(original + 4 * i)))
                == literals[i]
        }
}

/// The first `k` of the stolen instructions go on in a straight line.
pub open spec fn straight(
    others: Others,
    before: Memory,
    stolen: Seq<u8>,
    cpu: Cpu,
    k: nat,
) -> bool {
    forall|i: nat| #![trigger run_with(others, before, cpu, i)]
        i < k ==> (run_with(others, before, cpu, i) matches Some(o) ==> !leaves(
            others,
            stolen_word(stolen, i as int),
            o,
        ))
}

/// Instruction `i` stands at its place in the original function.
proof fn lemma_stolen_stands(before: Memory, original: u64, stolen: Seq<u8>, i: int)
    requires
        stolen.len() == 16,
        holds(before, original, stolen),
        0 <= i < 4,
    ensures
        word_at(before, wrap64(original + 4 * i)) == stolen_word(stolen, i),
{
    let w = stolen_word(stolen, i);
    lemma_le32_of_word(stolen[4 * i], stolen[4 * i + 1], stolen[4 * i + 2], stolen[4 * i + 3]);
    assert(stolen.subrange(4 * i, 4 * i + 4) =~= le32(w));
    lemma_word_at(before, original, stolen, 4 * i, w);
}

/// One instruction, moved to `at`, from the state `o` at its own place.
proof fn lemma_moved_one(
    others: Others,
    before: Memory,
    after: Memory,
    at: u64,
    w: u32,
    literal: u64,
    o: Cpu,
)
    requires
        o.wf(),
        word_at(before, o.pc) == w,
        holds(after, at, relocated(w, o.pc, literal)),
        movable(w),
        class(w) is Other ==> stands_anywhere(others, w) && keeps_registers(others, w),
        is_load_literal(w) ==> double_at(before, pc_target(w, o.pc)) == literal,
        step_with(others, before, o) is Some,
    ensures
        step_with(others, before, o)->0.wf(),
        same_behaviour(
            step_with(others, before, o),
            run_with(others, after, o.at(at), moved_steps(w, o)),
            leaves(others, w, o),
            wrap64(at + relocated(w, o.pc, literal).len()),
        ),
        !leaves(others, w, o) ==> step_with(others, before, o)->0.pc == wrap64(o.pc + 4),
{
    if class(w) is Other {
        assert(!pc_relative(w));
        assert(le32(w).subrange(0, 4) =~= le32(w));
        lemma_word_at(after, at, le32(w), 0, w);
        assert(wrap64(at + 0) == at);
        lemma_run_with_one(others, after, o.at(at));
        assert(others(w, o.at(at)) is Some);
    } else {
        lemma_execute_wf(w, before, o);
        relocation_preserves_behaviour(w, literal, before, after, at, o);
        lemma_run_with(others, after, o.at(at), moved_steps(w, o));
        if !branches(w, o) {
            lemma_straight_goes_on(w, before, o);
        }
    }
}

/// The step from before instruction `i` to behind it.
proof fn lemma_moved_step(
    others: Others,
    before: Memory,
    after: Memory,
    base: u64,
    original: u64,
    stolen: Seq<u8>,
    literals: Seq<u64>,
    i: nat,
    o: Cpu,
)
    requires
        i < 4,
        stolen.len() == 16,
        holds(before, original, stolen),
        holds(after, base, trampoline(original, stolen, literals)),
        stolen_ok(others, before, original, stolen, literals),
        o.wf(),
        o.pc == wrap64(original + 4 * i),
        step_with(others, before, o) is Some,
    ensures
        step_with(others, before, o)->0.wf(),
        same_behaviour(
            step_with(others, before, o),
            run_with(
                others,
                after,
                o.at(wrap64(base + moved_prologue(original, stolen, literals, i).len())),
                moved_steps(stolen_word(stolen, i as int), o),
            ),
            leaves(others, stolen_word(stolen, i as int), o),
            wrap64(base + moved_prologue(original, stolen, literals, (i + 1) as nat).len()),
        ),
        !leaves(others, stolen_word(stolen, i as int), o) ==> step_with(others, before, o)->0.pc
            == wrap64(original + 4 * (i + 1)),
{
    let w = stolen_word(stolen, i as int);
    let moved = relocated(w, wrap64(original + 4 * i), literals[i as int]);
    let len = moved_prologue(original, stolen, literals, i).len();
    lemma_stolen_stands(before, original, stolen, i as int);
    trampoline_holds_each_instruction(after, base, original, stolen, literals, i);
    lemma_moved_one(others, before, after, wrap64(base + len), w, literals[i as int], o);
    lemma_wrap_add(base + len, moved.len() as int);
    assert(moved_prologue(original, stolen, literals, (i + 1) as nat).len() == len + moved.len());
    lemma_wrap_add(original + 4 * i, 4);
}

/// An instruction that does not branch goes on behind itself.
proof fn lemma_straight_goes_on(w: u32, mem: Memory, cpu: Cpu)
    requires
        execute(w, mem, cpu) is Some,
        !branches(w, cpu),
    ensures
        execute(w, mem, cpu)->0.pc == wrap64(cpu.pc + 4),
{
    reveal(execute);
}

/// The steps that the moved form of the first `i` instructions takes.
proof fn lemma_moved_prologue(
    others: Others,
    before: Memory,
    after: Memory,
    base: u64,
    original: u64,
    stolen: Seq<u8>,
    literals: Seq<u64>,
    cpu: Cpu,
    i: nat,
) -> (n: nat)
    requires
        i <= 4,
        stolen.len() == 16,
        holds(before, original, stolen),
        holds(after, base, trampoline(original, stolen, literals)),
        stolen_ok(others, before, original, stolen, literals),
        cpu.wf(),
        cpu.pc == original,
        run_with(others, before, cpu, i) is Some,
        straight(others, before, stolen, cpu, i),
    ensures
        run_with(others, before, cpu, i)->0.wf(),
        run_with(others, before, cpu, i)->0.pc == wrap64(original + 4 * i),
        run_with(others, after, cpu.at(base), n) == Some(
            run_with(others, before, cpu, i)->0.at(
                wrap64(base + moved_prologue(original, stolen, literals, i).len()),
            ),
        ),
    decreases i,
{
    if i == 0 {
        assert(run_with(others, after, cpu.at(base), 0) == Some(cpu.at(base)));
        assert(wrap64(original + 0) == original);
        assert(wrap64(base + 0) == base);
        0
    } else {
        let j = (i - 1) as nat;
        lemma_run_prefix(others, before, cpu, j, i);
        let n = lemma_moved_prologue(
            others,
            before,
            after,
            base,
            original,
            stolen,
            literals,
            cpu,
            j,
        );
        let o = run_with(others, before, cpu, j)->0;
        let m = run_with(others, after, cpu.at(base), n)->0;
        lemma_run_with_add(others, before, cpu, o, j, 1);
        lemma_run_with_one(others, before, o);
        lemma_moved_step(others, before, after, base, original, stolen, literals, j, o);
        let more = moved_steps(stolen_word(stolen, j as int), o);
        lemma_run_with_add(others, after, cpu.at(base), m, n, more);
        n + more
    }
}

/// What runs for longer runs for less.
proof fn lemma_run_prefix(others: Others, mem: Memory, cpu: Cpu, j: nat, i: nat)
    requires
        j <= i,
        run_with(others, mem, cpu, i) is Some,
    ensures
        run_with(others, mem, cpu, j) is Some,
    decreases j,
{
    if j > 0 {
        let after = step_with(others, mem, cpu)->0;
        lemma_run_prefix(others, mem, after, (j - 1) as nat, (i - 1) as nat);
    }
}

/// A hooked function still does what it did. Take the four instructions that the hook has taken
/// away, in the function as it was, and let them run up to the first that leaves the straight
/// line, or all four of them. Then the trampoline, entered in the same state, comes to the same
/// place in the same state, but for the scratch register. This holds whatever `others` says of
/// the instructions that are not modelled, as long as those do the same wherever they stand.
pub proof fn trampoline_preserves_behaviour(
    others: Others,
    before: Memory,
    after: Memory,
    base: u64,
    original: u64,
    stolen: Seq<u8>,
    literals: Seq<u64>,
    cpu: Cpu,
    k: nat,
)
    requires
        1 <= k <= 4,
        stolen.len() == 16,
        holds(before, original, stolen),
        holds(after, base, trampoline(original, stolen, literals)),
        stolen_ok(others, before, original, stolen, literals),
        cpu.wf(),
        cpu.pc == original,
        run_with(others, before, cpu, k) is Some,
        straight(others, before, stolen, cpu, (k - 1) as nat),
        k == 4 || leaves(
            others,
            stolen_word(stolen, k - 1),
            run_with(others, before, cpu, (k - 1) as nat)->0,
        ),
    ensures
        exists|n: nat|
            comes_to(others, after, cpu.at(base), n, run_with(others, before, cpu, k)->0),
{
    let j = (k - 1) as nat;
    lemma_run_prefix(others, before, cpu, j, k);
    let n = lemma_moved_prologue(others, before, after, base, original, stolen, literals, cpu, j);
    let o = run_with(others, before, cpu, j)->0;
    let m = run_with(others, after, cpu.at(base), n)->0;
    lemma_run_with_add(others, before, cpu, o, j, 1);
    lemma_run_with_one(others, before, o);
    lemma_moved_step(others, before, after, base, original, stolen, literals, j, o);
    let w = stolen_word(stolen, j as int);
    let more = moved_steps(w, o);
    lemma_run_with_add(others, after, cpu.at(base), m, n, more);
    let last = run_with(others, before, cpu, k)->0;
    if leaves(others, w, o) {
        assert(comes_to(others, after, cpu.at(base), n + more, last));
    } else {
        let end = run_with(others, after, m, more)->0;
        trampoline_returns(after, base, original, stolen, literals, end);
        lemma_run_with(others, after, end, 2);
        lemma_run_with_add(others, after, cpu.at(base), end, n + more, 2);
        assert(comes_to(others, after, cpu.at(base), n + more + 2, last));
    }
}

/// A stub enters the thunk with the hook's id in x16, and changes nothing but x16 and x17.
pub proof fn stub_enters_thunk(mem: Memory, cpu: Cpu, hook_id: u64, thunk: u64)
    requires
        cpu.wf(),
        holds(mem, cpu.pc, stub(hook_id, thunk)),
    ensures
        run(mem, cpu, 3) == Some(cpu.write(16, hook_id, thunk).write(17, thunk, thunk)),
{
    let base = cpu.pc;
    lemma_code_layout(
        mem,
        base,
        stub(hook_id, thunk),
        0x58000070,
        0x58000091,
        0xD61F0220,
        hook_id,
        thunk,
        seq![0u8, 0, 0, 0],
    );
    assert(0x58000070u32 == 0x58000000 | (3u32 << 5) | 16) by (bit_vector);
    assert(0x58000091u32 == 0x58000000 | (4u32 << 5) | 17) by (bit_vector);
    assert(0xD61F0220u32 == 0xD61F0000 | (17u32 << 5)) by (bit_vector);
    lemma_step_load(mem, cpu, 16, 3);
    let s1 = cpu.write(16, hook_id, wrap64(base + 4));
    lemma_wrap_add(base + 4, 16);
    lemma_wrap_add(base + 4, 4);
    lemma_step_load(mem, s1, 17, 4);
    let s2 = s1.write(17, thunk, wrap64(base + 8));
    lemma_step_br(mem, s2, 17);
    lemma_run_one(mem, cpu);
    lemma_run_one(mem, s1);
    lemma_run_one(mem, s2);
    lemma_run_add(mem, cpu, s1, 1, 2);
    lemma_run_add(mem, s1, s2, 1, 1);
}

/// A call of a function with a full-context hook comes to the thunk, by way of the hook's stub,
/// with the hook's id in x16 and nothing else changed but x17.
pub proof fn hooked_call_enters_thunk(
    mem: Memory,
    cpu: Cpu,
    stub_addr: u64,
    hook_id: u64,
    thunk: u64,
)
    requires
        cpu.wf(),
        holds(mem, cpu.pc, absolute_jump(stub_addr)),
        holds(mem, stub_addr, stub(hook_id, thunk)),
    ensures
        run(mem, cpu, 5) == Some(cpu.write(16, hook_id, thunk).write(17, thunk, thunk)),
{
    let mid = cpu.write(SCRATCH, stub_addr, stub_addr);
    absolute_jump_reaches_target(mem, cpu, stub_addr);
    stub_enters_thunk(mem, mid, hook_id, thunk);
    lemma_run_add(mem, cpu, mid, 2, 3);
    assert(mid.write(16, hook_id, thunk).write(17, thunk, thunk) =~= cpu.write(
        16,
        hook_id,
        thunk,
    ).write(17, thunk, thunk));
}

} // verus!
