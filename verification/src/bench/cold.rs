//! The benchmark with cold caches.
use crate::encoding::le32;
use crate::hook::trampoline::thunk::RegisterContext;
use vstd::prelude::*;

verus! {

/// A handler that does nothing, to measure the hook alone.
pub fn handler_ctx(ctx: &mut RegisterContext)
    ensures
        *final(ctx) == *old(ctx),
{
}

/// The bytes of code that are run through to evict the instruction caches.
pub const THRASH_CODE_BYTES: usize = 0x200_0000;

/// How many functions of one instruction they hold.
pub const THRASH_CODE_FNS: usize = 0x80_0000;

/// The bytes of data that are touched to evict the data caches.
pub const THRASH_DATA_BYTES: usize = 0x400_0000;

/// A generator of pseudo-random numbers.
#[derive(Debug, Clone, Copy)]
pub struct XorShift(pub u64);

/// The number after `x`.
pub open spec fn xorshift(x: u64) -> u64 {
    let a = x ^ (x << 13);
    let b = a ^ (a >> 7);
    b ^ (b << 17)
}

impl XorShift {
    /// The next number.
    pub fn next(&mut self) -> (r: u64)
        ensures
            r == xorshift(old(self).0),
            final(self).0 == r,
    {
        let mut x: u64 = self.0;
        x = x ^ (x << 13);
        x = x ^ (x >> 7);
        x = x ^ (x << 17);
        self.0 = x;
        x
    }

    /// The next number, brought below `n`.
    pub fn below(&mut self, n: usize) -> (r: usize)
        requires
            n > 0,
        ensures
            r == xorshift(old(self).0) % (n as u64),
            r < n,
            final(self).0 == xorshift(old(self).0),
    {
        (self.next() % (n as u64)) as usize
    }
}

/// The distance between two bytes of data that are touched.
pub const PAGE: usize = 4096;

/// The first bytes of the pages before page `n`, combined.
pub open spec fn folded(data: Seq<u8>, n: nat) -> u8
    decreases n,
{
    if n == 0 {
        0
    } else {
        folded(data, (n - 1) as nat) ^ data[(n - 1) * PAGE]
    }
}

/// Touches the first byte of every page of `data`: it becomes what the first bytes up to it
/// combine to.
pub fn thrash_data(data: &mut [u8]) -> (acc: u8)
    requires
        old(data)@.len() <= usize::MAX - PAGE,
    ensures
        final(data)@.len() == old(data)@.len(),
        forall|i: int|
            0 <= i < old(data)@.len() ==> #[trigger] final(data)@[i] == (if i % PAGE as int == 0 {
                folded(old(data)@, (i / PAGE as int + 1) as nat)
            } else {
                old(data)@[i]
            }),
        acc == folded(old(data)@, ((old(data)@.len() + PAGE - 1) / PAGE as int) as nat),
{
    let mut acc: u8 = 0;
    let mut at: usize = 0;
    let ghost n = 0nat;
    let ghost before = data@;
    while at < data.len()
        invariant
            before == old(data)@,
            data@.len() == before.len(),
            before.len() <= usize::MAX - PAGE,
            at == n * PAGE,
            at < before.len() + PAGE,
            acc == folded(before, n),
            forall|i: int|
                0 <= i < before.len() ==> #[trigger] data@[i] == (if i % PAGE as int == 0 && i < at {
                    folded(before, (i / PAGE as int + 1) as nat)
                } else {
                    before[i]
                }),
        decreases before.len() + PAGE - at,
    {
        acc = acc ^ data[at];
        data[at] = acc;
        proof {
            n = n + 1;
        }
        at += PAGE;
    }
    acc
}

/// The instruction that returns.
pub const RET: u32 = 0xD65F03C0;

/// Fills `code` with functions that return at once.
pub fn fill_returns(code: &mut [u8])
    requires
        old(code)@.len() % 4 == 0,
    ensures
        final(code)@.len() == old(code)@.len(),
        forall|i: int|
            0 <= i < old(code)@.len() ==> #[trigger] final(code)@[i] == le32(RET)[i % 4],
{
    let word: [u8; 4] = [0xC0, 0x03, 0x5F, 0xD6];
    assert(word@ =~= le32(RET)) by {
        assert((RET & 0xff) as u8 == 0xC0 && ((RET >> 8) & 0xff) as u8 == 0x03 && ((RET >> 16)
            & 0xff) as u8 == 0x5F && ((RET >> 24) & 0xff) as u8 == 0xD6) by (bit_vector);
    }
    let mut i: usize = 0;
    while i < code.len()
        invariant
            code@.len() == old(code)@.len(),
            i <= code@.len(),
            word@ == le32(RET),
            forall|j: int| 0 <= j < i ==> #[trigger] code@[j] == le32(RET)[j % 4],
        decreases code@.len() - i,
    {
        code[i] = word[i % 4];
        i += 1;
    }
}

/// The generator does not get stuck: no number but 0 leads to 0, and no two lead to the same.
pub proof fn numbers_do_not_collapse(x: u64, y: u64)
    ensures
        xorshift(x) == 0 <==> x == 0,
        xorshift(x) == xorshift(y) ==> x == y,
{
    let (a, c) = (x ^ (x << 13), y ^ (y << 13));
    let (b, d) = (a ^ (a >> 7), c ^ (c >> 7));
    assert((x ^ (x << 13) == y ^ (y << 13) ==> x == y) && (a ^ (a >> 7) == c ^ (c >> 7) ==> a == c)
        && (b ^ (b << 17) == d ^ (d << 17) ==> b == d) && (xorshift(x) == 0 <==> x == 0))
        by (bit_vector);
}

/// The generator is linear over the bits: the number after two numbers combined is the numbers after
/// each of them combined. So it is told by the numbers after the single bits, of which these are the
/// two ends.
pub proof fn numbers_are_linear(x: u64, y: u64)
    ensures
        xorshift(x ^ y) == xorshift(x) ^ xorshift(y),
        xorshift(1) == 1 + 0x40 + 0x2000 + 0x2_0000 + 0x80_0000 + 0x4000_0000,
        xorshift(0x8000_0000_0000_0000) == 0x8100_0000_0000_0000,
{
    assert(xorshift(x ^ y) == xorshift(x) ^ xorshift(y) && xorshift(1) == 1 + 0x40 + 0x2000 + 0x2_0000
        + 0x80_0000 + 0x4000_0000 && xorshift(0x8000_0000_0000_0000) == 0x8100_0000_0000_0000)
        by (bit_vector);
}

/// The pages are gone through one by one: each adds its first byte, 4096 bytes behind the one before.
pub proof fn every_page_is_folded_in(data: Seq<u8>, n: nat)
    ensures
        folded(data, 0) == 0,
        folded(data, n + 1) == folded(data, n) ^ data[4096 * n as int],
{
    assert(((n + 1) - 1) as nat == n);
    assert((n + 1 - 1) * PAGE == 4096 * n as int);
}

/// The caches are evicted by 32 megabytes of functions of four bytes each, and by 64 of data.
pub proof fn caches_are_evicted()
    ensures
        THRASH_CODE_BYTES == 32 * 1024 * 1024,
        THRASH_CODE_FNS * 4 == THRASH_CODE_BYTES,
        THRASH_DATA_BYTES == 64 * 1024 * 1024,
{
}

} // verus!
