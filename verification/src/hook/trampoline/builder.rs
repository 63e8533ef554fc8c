//! The trampoline: the stolen prologue, moved, and the way back.
use super::relocator::{
    absolute_jump, literal_address, push_absolute_jump, relocate_instruction, relocated,
};
use crate::arm64;
use crate::encoding::{read_le32, word_of, wrap64};
use vstd::prelude::*;

verus! {

/// Instruction `i` of the stolen bytes.
pub open spec fn stolen_word(stolen: Seq<u8>, i: int) -> u32 {
    word_of(stolen[4 * i], stolen[4 * i + 1], stolen[4 * i + 2], stolen[4 * i + 3])
}

/// The first `n` stolen instructions of the function at `original`, moved. `literals[i]` is what
/// instruction `i` loads where it is a literal load.
pub open spec fn moved_prologue(
    original: u64,
    stolen: Seq<u8>,
    literals: Seq<u64>,
    n: nat,
) -> Seq<u8>
    decreases n,
{
    if n == 0 {
        Seq::empty()
    } else {
        let i = n - 1;
        moved_prologue(original, stolen, literals, i as nat) + relocated(
            stolen_word(stolen, i),
            wrap64(original + 4 * i),
            literals[i],
        )
    }
}

/// The trampoline of the function at `original`: its four stolen instructions, moved, and a
/// jump to what follows them.
pub open spec fn trampoline(original: u64, stolen: Seq<u8>, literals: Seq<u64>) -> Seq<u8> {
    moved_prologue(original, stolen, literals, 4) + absolute_jump(wrap64(original + 16))
}

/// The addresses of the literals that have to be read before the stolen bytes can be moved.
pub fn literal_addresses(original_addr: usize, stolen_bytes: &[u8; 16]) -> (r: Vec<Option<u64>>)
    requires
        original_addr + 16 <= usize::MAX,
    ensures
        r@.len() == 4,
        forall|i: int|
            0 <= i < 4 ==> #[trigger] r@[i] == if arm64::is_load_literal(
                stolen_word(stolen_bytes@, i),
            ) {
                Some(
                    arm64::pc_target(
                        stolen_word(stolen_bytes@, i),
                        wrap64(original_addr + 4 * i),
                    ),
                )
            } else {
                None
            },
{
    let mut out: Vec<Option<u64>> = Vec::new();
    let mut i: usize = 0;
    while i < 4
        invariant
            original_addr + 16 <= usize::MAX,
            i <= 4,
            out@.len() == i,
            forall|j: int|
                0 <= j < i ==> #[trigger] out@[j] == if arm64::is_load_literal(
                    stolen_word(stolen_bytes@, j),
                ) {
                    Some(
                        arm64::pc_target(
                            stolen_word(stolen_bytes@, j),
                            wrap64(original_addr + 4 * j),
                        ),
                    )
                } else {
                    None
                },
        decreases 4 - i,
    {
        let instruction: u32 = read_le32(stolen_bytes, i * 4);
        out.push(literal_address(instruction, original_addr + i * 4));
        i += 1;
    }
    out
}

/// The code of the trampoline that re-executes the stolen instructions and branches back into
/// the original function behind them. `literals` are the double words at `literal_addresses`.
#[verifier::rlimit(40)]
pub fn build_trampoline(original_addr: usize, stolen_bytes: &[u8; 16], literals: &[u64; 4]) -> (r:
    Vec<u8>)
    requires
        original_addr + 16 <= usize::MAX,
    ensures
        r@ == trampoline(original_addr as u64, stolen_bytes@, literals@),
        32 <= r@.len() <= 128,
{
    let mut code: Vec<u8> = Vec::with_capacity(64);
    let mut i: usize = 0;
    while i < 4
        invariant
            original_addr + 16 <= usize::MAX,
            i <= 4,
            code@ == moved_prologue(original_addr as u64, stolen_bytes@, literals@, i as nat),
            4 * i <= code@.len() <= 28 * i,
        decreases 4 - i,
    {
        let instruction: u32 = read_le32(stolen_bytes, i * 4);
        relocate_instruction(instruction, original_addr + i * 4, literals[i], &mut code);
        i += 1;
    }
    push_absolute_jump(&mut code, (original_addr + 16) as u64);
    code
}

/// A trampoline is the stolen instructions one behind the other, each moved from the address that it
/// stood at, with its own literal; and then the jump to the instruction behind them.
pub proof fn trampolines_are_the_moved_instructions(
    original: u64,
    stolen: Seq<u8>,
    literals: Seq<u64>,
)
    ensures
        ({
            let moved = |i: int|
                relocated(
                    stolen_word(stolen, i),
                    ((original + 4 * i) % 0x1_0000_0000_0000_0000) as u64,
                    literals[i],
                );
            trampoline(original, stolen, literals) == moved(0) + moved(1) + moved(2) + moved(3)
                + absolute_jump(((original + 16) % 0x1_0000_0000_0000_0000) as u64)
        }),
{
    reveal_with_fuel(moved_prologue, 5);
    let moved = |i: int|
        relocated(
            stolen_word(stolen, i),
            ((original + 4 * i) % 0x1_0000_0000_0000_0000) as u64,
            literals[i],
        );
    assert(moved_prologue(original, stolen, literals, 1) =~= moved(0));
    assert(moved_prologue(original, stolen, literals, 2) =~= moved(0) + moved(1));
    assert(moved_prologue(original, stolen, literals, 3) =~= moved(0) + moved(1) + moved(2));
    assert(moved_prologue(original, stolen, literals, 4) =~= moved(0) + moved(1) + moved(2) + moved(
        3,
    ));
}

} // verus!
