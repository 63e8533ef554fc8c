//! The code and data that are written into the target so that a thread of its own loads a dylib.
use crate::encoding::{le_words, push_le32, wrap64};
use vstd::prelude::*;

verus! {

/// `RTLD_NOW` on Darwin.
pub const RTLD_NOW: u64 = 2;

/// The size of the remote allocation: the payload at the bottom, the stack at the top.
pub const ALLOCATION_SIZE: u64 = 0x100000;

/// Where the diagnostic marker bytes stand.
pub const MARKER_OFF: u64 = 0x100;

/// Where the park loop's `timespec` stands.
pub const TIMESPEC_OFF: u64 = 0x110;

/// Where the stub stores what `dlopen` returned.
pub const ACK_OFF: u64 = 0x160;

/// Where the stub stores what `dlerror` returned.
pub const ERR_OFF: u64 = 0x170;

/// Where the stub stands, on a page of its own.
pub const STUB_OFF: u64 = 0x4000;

/// The size of the stub's page.
pub const STUB_PAGE: u64 = 0x4000;

/// Where the `pthread_t` of the loading thread goes.
pub const SLOT_OFF: u64 = 0x8000;

/// Where the loading thread's routine stands in the stub: 18 entry and 8 park instructions on.
pub const START_OFF: u64 = 104;

/// movz x1, #0
pub const MOVZ_X1_0: u32 = 0xD2800001;

/// movz x16, #34 (SYS_nanosleep)
pub const MOVZ_X16_NANOSLEEP: u32 = 0xD2800450;

/// svc #0x80
pub const SVC_80: u32 = 0xD4000001;

/// b to seven instructions back
pub const B_BACK_7: u32 = 0x17FFFFF9;

/// blr x16
pub const BLR_X16: u32 = 0xD63F0200;

/// mov x19, x0
pub const MOV_X19_X0: u32 = 0xAA0003F3;

/// mov x0, x19
pub const MOV_X0_X19: u32 = 0xAA1303E0;

/// movz x1, #2 (RTLD_NOW)
pub const MOVZ_X1_RTLD_NOW: u32 = 0xD2800041;

/// movz w0, #0x52 ('R')
pub const MOVZ_W0_R: u32 = 0xD2800A40;

/// movz w0, #0x44 ('D')
pub const MOVZ_W0_D: u32 = 0xD2800880;

/// strb w0, [x1]
pub const STRB_W0_X1: u32 = 0x39000020;

/// str x0, [x1]
pub const STR_X0_X1: u32 = 0xF9000020;

/// The four instructions that load the 64-bit address `addr` into register `reg`.
pub open spec fn mov_words(reg: u32, addr: u64) -> Seq<u32> {
    seq![
        0xD2800000u32 | (((addr & 0xFFFF) as u32) << 5) | reg,
        0xF2800000u32 | (1u32 << 21) | ((((addr >> 16) & 0xFFFF) as u32) << 5) | reg,
        0xF2800000u32 | (2u32 << 21) | ((((addr >> 32) & 0xFFFF) as u32) << 5) | reg,
        0xF2800000u32 | (3u32 << 21) | ((((addr >> 48) & 0xFFFF) as u32) << 5) | reg,
    ]
}

/// Emits movz and movk for a 64-bit absolute address.
pub fn mov_addr(reg: u32, addr: u64) -> (r: [u32; 4])
    ensures
        r@ == mov_words(reg, addr),
{
    let w0: u32 = 0xD2800000u32 | (((addr & 0xFFFF) as u32) << 5) | reg;
    let w1: u32 = 0xF2800000u32 | (1u32 << 21) | ((((addr >> 16) & 0xFFFF) as u32) << 5) | reg;
    let w2: u32 = 0xF2800000u32 | (2u32 << 21) | ((((addr >> 32) & 0xFFFF) as u32) << 5) | reg;
    let w3: u32 = 0xF2800000u32 | (3u32 << 21) | ((((addr >> 48) & 0xFFFF) as u32) << 5) | reg;
    let r: [u32; 4] = [w0, w1, w2, w3];
    assert(r@ =~= mov_words(reg, addr));
    r
}

fn push_mov(out: &mut Vec<u32>, reg: u32, addr: u64)
    ensures
        final(out)@ == old(out)@ + mov_words(reg, addr),
{
    let words: [u32; 4] = mov_addr(reg, addr);
    out.push(words[0]);
    out.push(words[1]);
    out.push(words[2]);
    out.push(words[3]);
    assert(out@ =~= old(out)@ + mov_words(reg, addr));
}

/// Sleeping for ever: the `timespec` at `timespec` is slept through again and again.
pub open spec fn park(timespec: u64) -> Seq<u32> {
    mov_words(0, timespec) + seq![MOVZ_X1_0, MOVZ_X16_NANOSLEEP, SVC_80, B_BACK_7]
}

fn push_park(out: &mut Vec<u32>, timespec: u64)
    ensures
        final(out)@ == old(out)@ + park(timespec),
{
    push_mov(out, 0, timespec);
    out.push(MOVZ_X1_0);
    out.push(MOVZ_X16_NANOSLEEP);
    out.push(SVC_80);
    out.push(B_BACK_7);
    assert(out@ =~= old(out)@ + park(timespec));
}

/// The functions that the stub calls, by address.
#[derive(Debug, Clone, Copy)]
pub struct Symbols {
    /// `pthread_create_from_mach_thread`, or zero where there is none.
    pub create: u64,
    pub dlopen: u64,
    pub dlerror: u64,
    pub pthread_exit: u64,
}

/// The first part of the stub: a thread is created that runs the second part on the path.
pub open spec fn entry_words(remote: u64, symbols: Symbols) -> Seq<u32> {
    mov_words(0, wrap64(remote + SLOT_OFF)) + seq![MOVZ_X1_0] + mov_words(
        2,
        wrap64(remote + STUB_OFF + START_OFF),
    ) + mov_words(3, remote) + mov_words(16, symbols.create) + seq![BLR_X16]
}

/// The second part of the stub, run with the path in x0: the first marker is set, the dylib
/// loaded, what `dlopen` and `dlerror` return stored, and the second marker set.
pub open spec fn start_words(remote: u64, symbols: Symbols) -> Seq<u32> {
    seq![MOV_X19_X0] + mov_words(1, wrap64(remote + MARKER_OFF)) + seq![
        MOVZ_W0_R,
        STRB_W0_X1,
        MOV_X0_X19,
        MOVZ_X1_RTLD_NOW,
    ] + mov_words(16, symbols.dlopen) + seq![BLR_X16] + mov_words(1, wrap64(remote + ACK_OFF))
        + seq![STR_X0_X1] + mov_words(16, symbols.dlerror) + seq![BLR_X16] + mov_words(
        1,
        wrap64(remote + ERR_OFF),
    ) + seq![STR_X0_X1] + mov_words(1, wrap64(remote + MARKER_OFF + 1)) + seq![
        MOVZ_W0_D,
        STRB_W0_X1,
    ]
}

/// The stub. Neither part ever ends: both park.
pub open spec fn stub_words(remote: u64, symbols: Symbols) -> Seq<u32> {
    entry_words(remote, symbols) + park(wrap64(remote + TIMESPEC_OFF)) + start_words(
        remote,
        symbols,
    ) + park(wrap64(remote + TIMESPEC_OFF))
}

/// The stub for an allocation at `remote_address`.
#[verifier::rlimit(40)]
pub fn bootstrap_stub(remote_address: u64, symbols: &Symbols) -> (r: Vec<u32>)
    ensures
        r@ == stub_words(remote_address, *symbols),
{
    let slot_addr: u64 = remote_address.wrapping_add(SLOT_OFF);
    let start_addr: u64 = remote_address.wrapping_add(STUB_OFF + START_OFF);
    let marker_addr: u64 = remote_address.wrapping_add(MARKER_OFF);
    let timespec_addr: u64 = remote_address.wrapping_add(TIMESPEC_OFF);
    let ack_addr: u64 = remote_address.wrapping_add(ACK_OFF);
    let err_addr: u64 = remote_address.wrapping_add(ERR_OFF);

    let mut stub: Vec<u32> = Vec::with_capacity(64);
    // entry: pthread_create_from_mach_thread(&slot, null, start, path)
    push_mov(&mut stub, 0, slot_addr);
    stub.push(MOVZ_X1_0);
    push_mov(&mut stub, 2, start_addr);
    push_mov(&mut stub, 3, remote_address);
    push_mov(&mut stub, 16, symbols.create);
    stub.push(BLR_X16);
    assert(stub@ =~= entry_words(remote_address, *symbols));
    // the raw thread must not end
    push_park(&mut stub, timespec_addr);
    let ghost first = stub@;

    // start(path = x0)
    stub.push(MOV_X19_X0);
    push_mov(&mut stub, 1, marker_addr);
    stub.push(MOVZ_W0_R);
    stub.push(STRB_W0_X1);
    stub.push(MOV_X0_X19);
    stub.push(MOVZ_X1_RTLD_NOW);
    push_mov(&mut stub, 16, symbols.dlopen);
    stub.push(BLR_X16);
    push_mov(&mut stub, 1, ack_addr);
    stub.push(STR_X0_X1);
    push_mov(&mut stub, 16, symbols.dlerror);
    stub.push(BLR_X16);
    push_mov(&mut stub, 1, err_addr);
    stub.push(STR_X0_X1);
    push_mov(&mut stub, 1, remote_address.wrapping_add(MARKER_OFF + 1));
    stub.push(MOVZ_W0_D);
    stub.push(STRB_W0_X1);
    assert(stub@ =~= first + start_words(remote_address, *symbols));
    push_park(&mut stub, timespec_addr);
    stub
}

/// The bytes of the stub.
pub fn stub_bytes(words: &Vec<u32>) -> (r: Vec<u8>)
    ensures
        r@ == le_words(words@),
{
    let mut out: Vec<u8> = Vec::new();
    let mut i: usize = 0;
    assert(words@.take(0) =~= Seq::<u32>::empty());
    while i < words.len()
        invariant
            i <= words@.len(),
            out@ == le_words(words@.take(i as int)),
        decreases words@.len() - i,
    {
        push_le32(&mut out, words[i]);
        assert(words@.take(i + 1).drop_last() =~= words@.take(i as int));
        i += 1;
    }
    assert(words@.take(words@.len() as int) =~= words@);
    out
}

/// The path of the dylib with the NUL that ends it.
pub fn path_payload(path: &str) -> (r: Vec<u8>)
    ensures
        r@ == vstd::utf8::encode_utf8(path@).push(0),
{
    let mut bytes: Vec<u8> = path.as_bytes_vec();
    bytes.push(0);
    bytes
}

/// The 24 bytes at `MARKER_OFF`: markers that say "never started", and a `timespec` of one
/// second.
pub fn diag_bytes() -> (r: [u8; 24])
    ensures
        r@ == Seq::new(
            24,
            |i: int|
                if i == TIMESPEC_OFF - MARKER_OFF {
                    1u8
                } else {
                    0
                },
        ),
{
    let mut b: [u8; 24] = [0u8; 24];
    b[0x10] = 1;  // tv_sec = 1
    assert(b@ =~= Seq::new(
        24,
        |i: int|
            if i == TIMESPEC_OFF - MARKER_OFF {
                1u8
            } else {
                0
            },
    ));
    b
}

/// The registers that the remote thread starts with; all others are zero.
#[derive(Debug, Clone, Copy, PartialEq, Eq, Structural)]
pub struct ThreadState {
    pub x0: u64,
    pub x1: u64,
    pub pc: u64,
    pub lr: u64,
    pub sp: u64,
}

/// Where and how the remote thread starts: in the stub, or, where no pthread can be made of a
/// raw thread, straight in `dlopen` on the path.
pub fn thread_state(remote_address: u64, symbols: &Symbols) -> (r: ThreadState)
    ensures
        symbols.create != 0 ==> r.x0 == 0 && r.x1 == 0 && r.pc == wrap64(remote_address + STUB_OFF),
        symbols.create == 0 ==> r.x0 == remote_address && r.x1 == RTLD_NOW && r.pc
            == symbols.dlopen,
        r.lr == symbols.pthread_exit,
        r.sp == wrap64(remote_address + ALLOCATION_SIZE - 16) - wrap64(
            remote_address + ALLOCATION_SIZE - 16,
        ) % 16,
{
    // the top of the allocation, 16-byte aligned
    let top: u64 = remote_address.wrapping_add(ALLOCATION_SIZE - 16);
    let sp: u64 = top - top % 16;
    if symbols.create != 0 {
        ThreadState {
            x0: 0,
            x1: 0,
            pc: remote_address.wrapping_add(STUB_OFF),
            lr: symbols.pthread_exit,
            sp,
        }
    } else {
        ThreadState {
            x0: remote_address,
            x1: RTLD_NOW,
            pc: symbols.dlopen,
            lr: symbols.pthread_exit,
            sp,
        }
    }
}

/// The stub, instruction by instruction: what it is handed, what it calls and where it stores what
/// comes back.
#[verifier::rlimit(40)]
pub proof fn stubs_are_laid_out(remote: u64, symbols: Symbols)
    ensures
        ({
            let s = stub_words(remote, symbols);
            let at = |off: int| ((remote + off) % 0x1_0000_0000_0000_0000) as u64;
            &&& s.len() == 69
            &&& s.subrange(0, 4) == mov_words(0, at(0x8000))
            &&& s[4] == 0xD2800001
            &&& s.subrange(5, 9) == mov_words(2, at(0x4068))
            &&& s.subrange(9, 13) == mov_words(3, remote)
            &&& s.subrange(13, 17) == mov_words(16, symbols.create)
            &&& s[17] == 0xD63F0200
            &&& s.subrange(18, 22) == mov_words(0, at(0x110))
            &&& s.subrange(22, 26) == seq![0xD2800001u32, 0xD2800450, 0xD4000001, 0x17FFFFF9]
            &&& s[26] == 0xAA0003F3
            &&& s.subrange(27, 31) == mov_words(1, at(0x100))
            &&& s.subrange(31, 35) == seq![0xD2800A40u32, 0x39000020, 0xAA1303E0, 0xD2800041]
            &&& s.subrange(35, 39) == mov_words(16, symbols.dlopen)
            &&& s[39] == 0xD63F0200
            &&& s.subrange(40, 44) == mov_words(1, at(0x160))
            &&& s[44] == 0xF9000020
            &&& s.subrange(45, 49) == mov_words(16, symbols.dlerror)
            &&& s[49] == 0xD63F0200
            &&& s.subrange(50, 54) == mov_words(1, at(0x170))
            &&& s[54] == 0xF9000020
            &&& s.subrange(55, 59) == mov_words(1, at(0x101))
            &&& s[59] == 0xD2800880 && s[60] == 0x39000020
            &&& s.subrange(61, 69) == s.subrange(18, 26)
        }),
{
    let s = stub_words(remote, symbols);
    let at = |off: int| ((remote + off) % 0x1_0000_0000_0000_0000) as u64;
    assert(s.subrange(0, 4) =~= mov_words(0, at(0x8000)));
    assert(s.subrange(5, 9) =~= mov_words(2, at(0x4068)));
    assert(s.subrange(9, 13) =~= mov_words(3, remote));
    assert(s.subrange(13, 17) =~= mov_words(16, symbols.create));
    assert(s.subrange(18, 22) =~= mov_words(0, at(0x110)));
    assert(s.subrange(22, 26) =~= seq![0xD2800001u32, 0xD2800450, 0xD4000001, 0x17FFFFF9]);
    assert(s.subrange(27, 31) =~= mov_words(1, at(0x100)));
    assert(s.subrange(31, 35) =~= seq![0xD2800A40u32, 0x39000020, 0xAA1303E0, 0xD2800041]);
    assert(s.subrange(35, 39) =~= mov_words(16, symbols.dlopen));
    assert(s.subrange(40, 44) =~= mov_words(1, at(0x160)));
    assert(s.subrange(45, 49) =~= mov_words(16, symbols.dlerror));
    assert(s.subrange(50, 54) =~= mov_words(1, at(0x170)));
    assert(s.subrange(55, 59) =~= mov_words(1, at(0x101)));
    assert(s.subrange(61, 69) =~= s.subrange(18, 26));
}

/// What is written into the target does not overlap: the path comes before the markers, then the
/// `timespec`, the two double words that come back, the stub on a page of its own, the place of the
/// thread, and the stack above.
pub proof fn payloads_do_not_overlap()
    ensures
        MARKER_OFF + 2 <= TIMESPEC_OFF,
        TIMESPEC_OFF + 16 <= ACK_OFF,
        ACK_OFF + 8 <= ERR_OFF,
        ERR_OFF + 8 <= STUB_OFF,
        STUB_OFF % 0x4000 == 0 && STUB_PAGE == 0x4000,
        4 * 69 <= STUB_PAGE,
        STUB_OFF + STUB_PAGE <= SLOT_OFF,
        SLOT_OFF + 8 < ALLOCATION_SIZE,
        ALLOCATION_SIZE == 0x10_0000,
        MARKER_OFF == 0x100,
        RTLD_NOW == 2,
        START_OFF == 4 * 26,
{
}

} // verus!
