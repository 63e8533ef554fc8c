//! A model of the AArch64 instructions that hooks read, move and emit.
//!
//! Only the state that those instructions touch is modelled: the program counter, the general
//! and vector registers, and the condition flags. `step` is `None` on every other instruction;
//! `step_with` takes what those do from its caller.
use crate::encoding::{
    double_of, le32, le64, lemma_le64_halves, lemma_word_of_le32, lemma_wrap_add, word_of, wrap64,
};
use vstd::prelude::*;

verus! {

/// The register that inline hooks use as scratch space (IP0).
pub const SCRATCH: u32 = 16;

/// The memory that the processor reads, one byte per address.
pub type Memory = spec_fn(u64) -> u8;

/// The processor state. `x` holds x0 to x30 and `q` holds q0 to q31; `rest` stands for all else
/// that there is, which the modelled instructions leave as it is.
#[verifier::ext_equal]
pub struct Cpu {
    pub pc: u64,
    pub x: Seq<u64>,
    pub q: Seq<u128>,
    pub n: bool,
    pub z: bool,
    pub c: bool,
    pub v: bool,
    pub rest: int,
}

impl Cpu {
    pub open spec fn wf(self) -> bool {
        self.x.len() == 31 && self.q.len() == 32
    }

    /// The value of general register `r`, where 31 is the zero register.
    pub open spec fn reg(self, r: u32) -> u64 {
        if r == 31 {
            0
        } else {
            self.x[r as int]
        }
    }

    /// The state after writing `value` to general register `r` and going on at `pc`.
    pub open spec fn write(self, r: u32, value: u64, pc: u64) -> Cpu {
        if r == 31 {
            Cpu { pc, ..self }
        } else {
            Cpu { pc, x: self.x.update(r as int, value), ..self }
        }
    }

    /// The state after going on at `pc`.
    pub open spec fn at(self, pc: u64) -> Cpu {
        Cpu { pc, ..self }
    }

    /// The same state but for the program counter and the scratch register.
    pub open spec fn agrees(self, other: Cpu) -> bool {
        &&& self.x.len() == other.x.len()
        &&& forall|r: int| 0 <= r < self.x.len() && r != SCRATCH ==> self.x[r] == other.x[r]
        &&& self.q == other.q
        &&& self.n == other.n
        &&& self.z == other.z
        &&& self.c == other.c
        &&& self.v == other.v
        &&& self.rest == other.rest
    }
}

/// The instruction classes that the model knows.
pub enum Class {
    Adr,
    Adrp,
    B,
    Bl,
    BCond,
    CompareBranch,
    TestBranch,
    LoadLiteral,
    BranchRegister,
    MovZero,
    MovKeep,
    Other,
}

pub open spec fn is_adr(w: u32) -> bool {
    w & 0x9F000000 == 0x10000000
}

pub open spec fn is_adrp(w: u32) -> bool {
    w & 0x9F000000 == 0x90000000
}

pub open spec fn is_b(w: u32) -> bool {
    w >> 26 == 0b000101
}

pub open spec fn is_bl(w: u32) -> bool {
    w >> 26 == 0b100101
}

pub open spec fn is_b_cond(w: u32) -> bool {
    w >> 24 == 0b01010100
}

/// CBZ and CBNZ, on 32 and 64 bits.
pub open spec fn is_compare_branch(w: u32) -> bool {
    (w >> 25) & 0b111111 == 0b011010
}

/// TBZ and TBNZ.
pub open spec fn is_test_branch(w: u32) -> bool {
    (w >> 25) & 0b111111 == 0b011011
}

/// LDR, LDRSW and PRFM of a literal, general and vector.
pub open spec fn is_load_literal(w: u32) -> bool {
    w & 0x3B000000 == 0x18000000
}

/// BR.
pub open spec fn is_branch_register(w: u32) -> bool {
    w & 0xFFFFFC1F == 0xD61F0000
}

/// MOVZ on 64 bits.
pub open spec fn is_mov_zero(w: u32) -> bool {
    w & 0xFF800000 == 0xD2800000
}

/// MOVK on 64 bits.
pub open spec fn is_mov_keep(w: u32) -> bool {
    w & 0xFF800000 == 0xF2800000
}

/// The class of the instruction word `w`.
pub open spec fn class(w: u32) -> Class {
    if is_adr(w) {
        Class::Adr
    } else if is_adrp(w) {
        Class::Adrp
    } else if is_b(w) {
        Class::B
    } else if is_bl(w) {
        Class::Bl
    } else if is_b_cond(w) {
        Class::BCond
    } else if is_compare_branch(w) {
        Class::CompareBranch
    } else if is_test_branch(w) {
        Class::TestBranch
    } else if is_load_literal(w) {
        Class::LoadLiteral
    } else if is_branch_register(w) {
        Class::BranchRegister
    } else if is_mov_zero(w) {
        Class::MovZero
    } else if is_mov_keep(w) {
        Class::MovKeep
    } else {
        Class::Other
    }
}

/// Whether what the instruction does depends on the address it stands at.
pub open spec fn pc_relative(w: u32) -> bool {
    ||| is_b(w)
    ||| is_bl(w)
    ||| is_b_cond(w)
    ||| is_compare_branch(w)
    ||| is_test_branch(w)
    ||| is_adr(w)
    ||| is_adrp(w)
    ||| is_load_literal(w)
}

/// `field`, read as a two's complement number of which `half` is the sign bit.
pub open spec fn signed(field: u32, half: int) -> int {
    if field < half {
        field as int
    } else {
        field - 2 * half
    }
}

/// The register in bits 0 to 4.
pub open spec fn rd(w: u32) -> u32 {
    w & 0x1F
}

/// The 21-bit immediate of ADR and ADRP.
pub open spec fn imm21(w: u32) -> u32 {
    (((w >> 5) & 0x7FFFF) << 2) | ((w >> 29) & 3)
}

/// The 26-bit immediate of B and BL.
pub open spec fn imm26(w: u32) -> u32 {
    w & 0x03FFFFFF
}

/// The 19-bit immediate of conditional branches, compare-and-branch and literal loads.
pub open spec fn imm19(w: u32) -> u32 {
    (w >> 5) & 0x7FFFF
}

/// The 14-bit immediate of test-and-branch.
pub open spec fn imm14(w: u32) -> u32 {
    (w >> 5) & 0x3FFF
}

/// The condition field of a conditional branch.
pub open spec fn cond(w: u32) -> u32 {
    w & 0xF
}

/// The operand size field of a literal load.
pub open spec fn load_size(w: u32) -> u32 {
    w >> 30
}

/// Whether a literal load goes to a vector register.
pub open spec fn load_vector(w: u32) -> bool {
    (w >> 26) & 1 == 1
}

/// Whether a compare-and-branch or test-and-branch is taken on non-zero.
pub open spec fn on_nonzero(w: u32) -> bool {
    (w >> 24) & 1 == 1
}

/// Whether a compare-and-branch looks at all 64 bits.
pub open spec fn wide(w: u32) -> bool {
    (w >> 31) & 1 == 1
}

/// The bit that a test-and-branch looks at.
pub open spec fn test_bit(w: u32) -> u32 {
    ((w >> 31) << 5) | ((w >> 19) & 0x1F)
}

/// The address that a PC-relative instruction at `pc` forms.
pub open spec fn pc_target(w: u32, pc: u64) -> u64 {
    if is_adr(w) {
        wrap64(pc + signed(imm21(w), 0x100000))
    } else if is_adrp(w) {
        wrap64((pc & !0xFFFu64) + signed(imm21(w), 0x100000) * 4096)
    } else if is_b(w) || is_bl(w) {
        wrap64(pc + signed(imm26(w), 0x2000000) * 4)
    } else if is_test_branch(w) {
        wrap64(pc + signed(imm14(w), 0x2000) * 4)
    } else {
        wrap64(pc + signed(imm19(w), 0x40000) * 4)
    }
}

/// Whether condition `k` holds in `cpu`. Both 14 and 15 always hold.
pub open spec fn condition_holds(k: u32, cpu: Cpu) -> bool {
    let base = match k >> 1 {
        0 => cpu.z,
        1 => cpu.c,
        2 => cpu.n,
        3 => cpu.v,
        4 => cpu.c && !cpu.z,
        5 => cpu.n == cpu.v,
        6 => cpu.n == cpu.v && !cpu.z,
        _ => true,
    };
    if k & 1 == 1 && k != 15 {
        !base
    } else {
        base
    }
}

/// Whether the instruction leaves the straight line in `cpu`.
pub open spec fn branches(w: u32, cpu: Cpu) -> bool {
    match class(w) {
        Class::B | Class::Bl | Class::BranchRegister => true,
        Class::BCond => condition_holds(cond(w), cpu),
        Class::CompareBranch => on_nonzero(w) == (if wide(w) {
            cpu.reg(rd(w)) != 0
        } else {
            cpu.reg(rd(w)) as u32 != 0
        }),
        Class::TestBranch => on_nonzero(w) == ((cpu.reg(rd(w)) >> (test_bit(w) as u64)) & 1 == 1),
        _ => false,
    }
}

/// The four bytes at `a`, as a word.
#[verifier::opaque]
pub open spec fn word_at(mem: Memory, a: u64) -> u32 {
    word_of(mem(a), mem(wrap64(a + 1)), mem(wrap64(a + 2)), mem(wrap64(a + 3)))
}

/// The eight bytes at `a`, as a double word.
#[verifier::opaque]
pub open spec fn double_at(mem: Memory, a: u64) -> u64 {
    double_of(word_at(mem, a), word_at(mem, wrap64(a + 4)))
}

/// A word extended with copies of its sign bit.
pub open spec fn sign_extend32(w: u32) -> u64 {
    if w < 0x8000_0000 {
        w as u64
    } else {
        (w as u64) | 0xFFFF_FFFF_0000_0000
    }
}

/// What a literal load does when the first eight bytes at its target are `value`: `None` where
/// the load is wider than that or its encoding is unallocated.
pub open spec fn load(w: u32, value: u64, cpu: Cpu, next: u64) -> Option<Cpu> {
    if load_vector(w) {
        if load_size(w) == 0 {
            Some(Cpu { pc: next, q: cpu.q.update(rd(w) as int, (value as u32) as u128), ..cpu })
        } else if load_size(w) == 1 {
            Some(Cpu { pc: next, q: cpu.q.update(rd(w) as int, value as u128), ..cpu })
        } else {
            None
        }
    } else if load_size(w) == 0 {
        Some(cpu.write(rd(w), (value as u32) as u64, next))
    } else if load_size(w) == 1 {
        Some(cpu.write(rd(w), value, next))
    } else if load_size(w) == 2 {
        Some(cpu.write(rd(w), sign_extend32(value as u32), next))
    } else {
        Some(cpu.at(next))
    }
}

/// The 16-bit immediate of a move.
pub open spec fn imm16(w: u32) -> u64 {
    ((w >> 5) & 0xFFFF) as u64
}

/// The left shift of a move's immediate.
pub open spec fn mov_shift(w: u32) -> u64 {
    (16 * ((w >> 21) & 3)) as u64
}

/// What the instruction word `w` does in `cpu`, at the program counter of `cpu`.
#[verifier::opaque]
pub open spec fn execute(w: u32, mem: Memory, cpu: Cpu) -> Option<Cpu> {
    let next = wrap64(cpu.pc + 4);
    let to = pc_target(w, cpu.pc);
    match class(w) {
        Class::Adr | Class::Adrp => Some(cpu.write(rd(w), to, next)),
        Class::B => Some(cpu.at(to)),
        Class::Bl => Some(cpu.write(30, next, to)),
        Class::BCond | Class::CompareBranch | Class::TestBranch => Some(
            cpu.at(
                if branches(w, cpu) {
                    to
                } else {
                    next
                },
            ),
        ),
        Class::LoadLiteral => load(w, double_at(mem, to), cpu, next),
        Class::BranchRegister => Some(cpu.at(cpu.reg((w >> 5) & 0x1F))),
        Class::MovZero => Some(cpu.write(rd(w), imm16(w) << mov_shift(w), next)),
        Class::MovKeep => Some(
            cpu.write(
                rd(w),
                (cpu.reg(rd(w)) & !(0xFFFFu64 << mov_shift(w))) | (imm16(w) << mov_shift(w)),
                next,
            ),
        ),
        Class::Other => None,
    }
}

/// One step: the instruction at the program counter is executed.
pub open spec fn step(mem: Memory, cpu: Cpu) -> Option<Cpu> {
    execute(word_at(mem, cpu.pc), mem, cpu)
}

/// `n` steps.
pub open spec fn run(mem: Memory, cpu: Cpu, n: nat) -> Option<Cpu>
    decreases n,
{
    if n == 0 {
        Some(cpu)
    } else {
        match step(mem, cpu) {
            Some(after) => run(mem, after, (n - 1) as nat),
            None => None,
        }
    }
}

/// What the instructions do that are not modelled.
pub type Others = spec_fn(u32, Cpu) -> Option<Cpu>;

/// One step, where `others` says what the instructions do that are not modelled.
pub open spec fn step_with(others: Others, mem: Memory, cpu: Cpu) -> Option<Cpu> {
    let w = word_at(mem, cpu.pc);
    if class(w) is Other {
        others(w, cpu)
    } else {
        execute(w, mem, cpu)
    }
}

/// `n` such steps.
pub open spec fn run_with(others: Others, mem: Memory, cpu: Cpu, n: nat) -> Option<Cpu>
    decreases n,
{
    if n == 0 {
        Some(cpu)
    } else {
        match step_with(others, mem, cpu) {
            Some(after) => run_with(others, mem, after, (n - 1) as nat),
            None => None,
        }
    }
}

/// Whether `code` stands in `mem` from `base` on.
pub open spec fn holds(mem: Memory, base: u64, code: Seq<u8>) -> bool {
    forall|i: int| 0 <= i < code.len() ==> mem(wrap64(base + i)) == #[trigger] code[i]
}

/// A word of `code` is read back where it stands.
pub proof fn lemma_word_at(mem: Memory, base: u64, code: Seq<u8>, i: int, w: u32)
    requires
        holds(mem, base, code),
        0 <= i,
        i + 4 <= code.len(),
        code.subrange(i, i + 4) == le32(w),
    ensures
        word_at(mem, wrap64(base + i)) == w,
{
    reveal(word_at);
    let a = wrap64(base + i);
    lemma_wrap_add(base + i, 1);
    lemma_wrap_add(base + i, 2);
    lemma_wrap_add(base + i, 3);
    let s = code.subrange(i, i + 4);
    assert(s[0] == code[i] && s[1] == code[i + 1] && s[2] == code[i + 2] && s[3] == code[i + 3]);
    lemma_word_of_le32(w);
}

/// A double word of `code` is read back where it stands.
pub proof fn lemma_double_at(mem: Memory, base: u64, code: Seq<u8>, i: int, v: u64)
    requires
        holds(mem, base, code),
        0 <= i,
        i + 8 <= code.len(),
        code.subrange(i, i + 8) == le64(v),
    ensures
        double_at(mem, wrap64(base + i)) == v,
{
    reveal(double_at);
    let lo = v as u32;
    let hi = (v >> 32) as u32;
    let s = code.subrange(i, i + 8);
    assert(code.subrange(i, i + 4) == le32(lo) && code.subrange(i + 4, i + 8) == le32(hi)
        && double_of(lo, hi) == v) by {
        lemma_le64_halves(v);
        assert(code.subrange(i, i + 4) =~= s.subrange(0, 4));
        assert(code.subrange(i + 4, i + 8) =~= s.subrange(4, 8));
        assert((le32(lo) + le32(hi)).subrange(0, 4) =~= le32(lo));
        assert((le32(lo) + le32(hi)).subrange(4, 8) =~= le32(hi));
    }
    lemma_word_at(mem, base, code, i, lo);
    lemma_word_at(mem, base, code, i + 4, hi);
    lemma_wrap_add(base + i, 4);
}

/// One step is a run of one step.
pub proof fn lemma_run_one(mem: Memory, cpu: Cpu)
    ensures
        run(mem, cpu, 1) == step(mem, cpu),
{
    reveal_with_fuel(run, 2);
}

/// A run can be split.
pub proof fn lemma_run_add(mem: Memory, cpu: Cpu, mid: Cpu, n: nat, m: nat)
    requires
        run(mem, cpu, n) == Some(mid),
    ensures
        run(mem, cpu, n + m) == run(mem, mid, m),
    decreases n,
{
    if n > 0 {
        let after = step(mem, cpu)->0;
        lemma_run_add(mem, after, mid, (n - 1) as nat, m);
        assert(((n + m) - 1) as nat == ((n - 1) as nat) + m);
    }
}

/// What the modelled instructions do they do beside others.
pub proof fn lemma_run_with(others: Others, mem: Memory, cpu: Cpu, n: nat)
    requires
        run(mem, cpu, n) is Some,
    ensures
        run_with(others, mem, cpu, n) == run(mem, cpu, n),
    decreases n,
{
    if n > 0 {
        let after = step(mem, cpu)->0;
        assert(!(class(word_at(mem, cpu.pc)) is Other)) by {
            reveal(execute);
        }
        lemma_run_with(others, mem, after, (n - 1) as nat);
    }
}

/// One step is a run of one step.
pub proof fn lemma_run_with_one(others: Others, mem: Memory, cpu: Cpu)
    ensures
        run_with(others, mem, cpu, 1) == step_with(others, mem, cpu),
{
    reveal_with_fuel(run_with, 2);
}

/// A run can be split.
pub proof fn lemma_run_with_add(others: Others, mem: Memory, cpu: Cpu, mid: Cpu, n: nat, m: nat)
    requires
        run_with(others, mem, cpu, n) == Some(mid),
    ensures
        run_with(others, mem, cpu, n + m) == run_with(others, mem, mid, m),
    decreases n,
{
    if n > 0 {
        let after = step_with(others, mem, cpu)->0;
        lemma_run_with_add(others, mem, after, mid, (n - 1) as nat, m);
        assert(((n + m) - 1) as nat == ((n - 1) as nat) + m);
    }
}

/// No word belongs to two of the PC-relative classes.
pub proof fn pc_relative_classes_are_disjoint(w: u32)
    ensures
        is_adr(w) ==> class(w) is Adr,
        is_adrp(w) ==> class(w) is Adrp,
        is_b(w) ==> class(w) is B,
        is_bl(w) ==> class(w) is Bl,
        is_b_cond(w) ==> class(w) is BCond,
        is_compare_branch(w) ==> class(w) is CompareBranch,
        is_test_branch(w) ==> class(w) is TestBranch,
        is_load_literal(w) ==> class(w) is LoadLiteral,
{
    assert((if is_adr(w) {1u32} else {0u32}) + (if is_adrp(w) {1u32} else {0u32}) + (if is_b(w) {1u32} else {0u32})
        + (if is_bl(w) {1u32} else {0u32}) + (if is_b_cond(w) {1u32} else {0u32}) + (if is_compare_branch(w) {1u32} else {0u32})
        + (if is_test_branch(w) {1u32} else {0u32}) + (if is_load_literal(w) {1u32} else {0u32}) <= 1) by (bit_vector);
}

} // verus!
