//! Little-endian words, as instruction and literal bytes are laid out in memory.
use vstd::prelude::*;

verus! {

/// `x` reduced to the 64 bits that an address register holds.
pub open spec fn wrap64(x: int) -> u64 {
    (x % 0x1_0000_0000_0000_0000) as u64
}

/// Reducing early does not change a reduced sum.
pub proof fn lemma_wrap_add(a: int, b: int)
    ensures
        wrap64(wrap64(a) + b) == wrap64(a + b),
{
}

/// The four bytes of `w`, least significant first.
pub open spec fn le32(w: u32) -> Seq<u8> {
    seq![
        (w & 0xff) as u8,
        ((w >> 8) & 0xff) as u8,
        ((w >> 16) & 0xff) as u8,
        ((w >> 24) & 0xff) as u8,
    ]
}

/// The eight bytes of `v`, least significant first.
pub open spec fn le64(v: u64) -> Seq<u8> {
    seq![
        (v & 0xff) as u8,
        ((v >> 8) & 0xff) as u8,
        ((v >> 16) & 0xff) as u8,
        ((v >> 24) & 0xff) as u8,
        ((v >> 32) & 0xff) as u8,
        ((v >> 40) & 0xff) as u8,
        ((v >> 48) & 0xff) as u8,
        ((v >> 56) & 0xff) as u8,
    ]
}

/// The word whose bytes are `b0` (least significant) to `b3`.
pub open spec fn word_of(b0: u8, b1: u8, b2: u8, b3: u8) -> u32 {
    (b0 as u32) | ((b1 as u32) << 8) | ((b2 as u32) << 16) | ((b3 as u32) << 24)
}

/// The double word whose low half is `lo` and whose high half is `hi`.
pub open spec fn double_of(lo: u32, hi: u32) -> u64 {
    (lo as u64) | ((hi as u64) << 32)
}

/// The words `ws` laid out one after the other.
pub open spec fn le_words(ws: Seq<u32>) -> Seq<u8>
    decreases ws.len(),
{
    if ws.len() == 0 {
        Seq::empty()
    } else {
        le_words(ws.drop_last()) + le32(ws.last())
    }
}

/// Reading back the bytes of a word gives the word.
pub proof fn lemma_word_of_le32(w: u32)
    ensures
        word_of(le32(w)[0], le32(w)[1], le32(w)[2], le32(w)[3]) == w,
{
    assert((((w & 0xff) as u8) as u32) | (((((w >> 8) & 0xff) as u8) as u32) << 8) | (((((w >> 16)
        & 0xff) as u8) as u32) << 16) | (((((w >> 24) & 0xff) as u8) as u32) << 24) == w)
        by (bit_vector);
}

/// The bytes of a word read from four bytes are those bytes.
pub proof fn lemma_le32_of_word(b0: u8, b1: u8, b2: u8, b3: u8)
    ensures
        le32(word_of(b0, b1, b2, b3)) == seq![b0, b1, b2, b3],
{
    let w = word_of(b0, b1, b2, b3);
    assert((w & 0xff) as u8 == b0 && ((w >> 8) & 0xff) as u8 == b1 && ((w >> 16) & 0xff) as u8 == b2
        && ((w >> 24) & 0xff) as u8 == b3) by (bit_vector)
        requires
            w == (b0 as u32) | ((b1 as u32) << 8) | ((b2 as u32) << 16) | ((b3 as u32) << 24),
    ;
}

/// The bytes of a double word are those of its two halves, low half first.
pub proof fn lemma_le64_halves(v: u64)
    ensures
        le64(v) == le32(v as u32) + le32((v >> 32) as u32),
        double_of(v as u32, (v >> 32) as u32) == v,
{
    let lo = v as u32;
    let hi = (v >> 32) as u32;
    assert((v & 0xff) as u8 == (lo & 0xff) as u8 && ((v >> 8) & 0xff) as u8 == ((lo >> 8)
        & 0xff) as u8 && ((v >> 16) & 0xff) as u8 == ((lo >> 16) & 0xff) as u8 && ((v >> 24)
        & 0xff) as u8 == ((lo >> 24) & 0xff) as u8 && ((v >> 32) & 0xff) as u8 == (hi & 0xff) as u8
        && ((v >> 40) & 0xff) as u8 == ((hi >> 8) & 0xff) as u8 && ((v >> 48) & 0xff) as u8 == ((hi
        >> 16) & 0xff) as u8 && ((v >> 56) & 0xff) as u8 == ((hi >> 24) & 0xff) as u8 && ((lo as u64)
        | ((hi as u64) << 32)) == v) by (bit_vector)
        requires
            lo == v as u32,
            hi == (v >> 32) as u32,
    ;
    assert(le64(v) =~= le32(lo) + le32(hi));
}

/// A run of words takes four bytes per word, and word `i` starts at byte `4 * i`.
pub proof fn lemma_le_words_index(ws: Seq<u32>)
    ensures
        le_words(ws).len() == 4 * ws.len(),
        forall|i: int|
            0 <= i < ws.len() ==> le_words(ws).subrange(4 * i, 4 * i + 4) == le32(
                #[trigger] ws[i],
            ),
    decreases ws.len(),
{
    if ws.len() > 0 {
        let head = ws.drop_last();
        lemma_le_words_index(head);
        assert forall|i: int| 0 <= i < ws.len() implies le_words(ws).subrange(4 * i, 4 * i + 4)
            == le32(#[trigger] ws[i]) by {
            if i < head.len() {
                assert(head[i] == ws[i]);
                assert(le_words(ws).subrange(4 * i, 4 * i + 4) =~= le_words(head).subrange(
                    4 * i,
                    4 * i + 4,
                ));
            } else {
                assert(le_words(ws).subrange(4 * i, 4 * i + 4) =~= le32(ws[i]));
            }
        }
    }
}

/// Appends the bytes of `w`.
pub fn push_le32(out: &mut Vec<u8>, w: u32)
    ensures
        final(out)@ == old(out)@ + le32(w),
{
    out.push((w & 0xff) as u8);
    out.push(((w >> 8) & 0xff) as u8);
    out.push(((w >> 16) & 0xff) as u8);
    out.push(((w >> 24) & 0xff) as u8);
    assert(out@ =~= old(out)@ + le32(w));
}

/// Appends the bytes of `v`.
pub fn push_le64(out: &mut Vec<u8>, v: u64)
    ensures
        final(out)@ == old(out)@ + le64(v),
{
    out.push((v & 0xff) as u8);
    out.push(((v >> 8) & 0xff) as u8);
    out.push(((v >> 16) & 0xff) as u8);
    out.push(((v >> 24) & 0xff) as u8);
    out.push(((v >> 32) & 0xff) as u8);
    out.push(((v >> 40) & 0xff) as u8);
    out.push(((v >> 48) & 0xff) as u8);
    out.push(((v >> 56) & 0xff) as u8);
    assert(out@ =~= old(out)@ + le64(v));
}

/// The word at byte `at`.
pub fn read_le32(bytes: &[u8], at: usize) -> (w: u32)
    requires
        at + 4 <= bytes@.len(),
    ensures
        le32(w) == bytes@.subrange(at as int, at + 4),
        w == word_of(bytes@[at as int], bytes@[at + 1], bytes@[at + 2], bytes@[at + 3]),
{
    let b0 = bytes[at];
    let b1 = bytes[at + 1];
    let b2 = bytes[at + 2];
    let b3 = bytes[at + 3];
    proof {
        lemma_le32_of_word(b0, b1, b2, b3);
        assert(bytes@.subrange(at as int, at + 4) =~= seq![b0, b1, b2, b3]);
    }
    (b0 as u32) | ((b1 as u32) << 8) | ((b2 as u32) << 16) | ((b3 as u32) << 24)
}

/// `addr` moved by `by` bytes, modulo 2^64.
pub fn offset64(addr: u64, by: i64) -> (r: u64)
    ensures
        r == wrap64(addr + by),
{
    addr.wrapping_add_signed(by)
}

} // verus!
