//! Code pages: which of them take writes, and how their protection is changed.
use super::trampoline::allocator::PAGE_SIZE;
use crate::text::{decimal, hex, push_signed, reading, signed_numbers_are_read_back};
use vstd::prelude::*;

verus! {

/// The `kern_return_t` of success.
pub const KERN_SUCCESS: i32 = 0;

/// How many page verdicts are kept.
pub const PROBED_MAX: usize = 32;

/// `WIFEXITED` of a wait status: whether the child ended by itself.
pub assume_specification[ libc::WIFEXITED ](status: libc::c_int) -> (r: bool)
    ensures
        r == (status & 0x7f == 0),
;

/// `WEXITSTATUS` of a wait status: the exit code of a child that ended by itself.
pub assume_specification[ libc::WEXITSTATUS ](status: libc::c_int) -> (r: libc::c_int)
    ensures
        r == (status >> 8) & 0xff,
;

/// The exit code of the child that probes a page: zero if the page could be unprotected.
pub fn probe_exit_code(kr: i32) -> (r: i32)
    ensures
        r == if kr == KERN_SUCCESS {
            0int
        } else {
            2
        },
{
    if kr == KERN_SUCCESS {
        0
    } else {
        2
    }
}

/// Whether the wait status of a probing child says that the page took the write.
pub fn probe_verdict(status: i32) -> (r: bool)
    ensures
        r == (status & 0x7f == 0 && (status >> 8) & 0xff == 0),
{
    libc::WIFEXITED(status) && libc::WEXITSTATUS(status) == 0
}

/// The first address of the page of `addr`.
pub open spec fn page_of(addr: usize) -> usize {
    (addr - addr % PAGE_SIZE) as usize
}

/// The first address of the page of `addr`.
pub fn page_start(addr: usize) -> (r: usize)
    ensures
        r == page_of(addr),
{
    addr - addr % PAGE_SIZE
}

/// What a probe of a page said.
#[derive(Debug, Clone, Copy)]
pub struct PageVerdict {
    pub start: usize,
    pub writable: bool,
}

/// The first verdict on the page at `start`.
pub open spec fn verdict_of(verdicts: Seq<PageVerdict>, start: usize) -> Option<bool>
    decreases verdicts.len(),
{
    if verdicts.len() == 0 {
        None
    } else if verdicts[0].start == start {
        Some(verdicts[0].writable)
    } else {
        verdict_of(verdicts.drop_first(), start)
    }
}

/// The pages probed so far: one probe per page, not one per hook.
pub struct ProbedPages {
    pub verdicts: Vec<PageVerdict>,
}

impl ProbedPages {
    pub open spec fn wf(self) -> bool {
        self.verdicts@.len() <= PROBED_MAX
    }

    /// No page was probed yet.
    pub fn new() -> (r: ProbedPages)
        ensures
            r.wf(),
            r.verdicts@ == Seq::<PageVerdict>::empty(),
    {
        ProbedPages { verdicts: Vec::new() }
    }

    /// What is known of the page of `addr`. Where this is `None` the page has to be probed.
    pub fn known(&self, addr: usize) -> (r: Option<bool>)
        ensures
            r == verdict_of(self.verdicts@, page_of(addr)),
    {
        let start: usize = page_start(addr);
        let mut i: usize = 0;
        assert(self.verdicts@.skip(0) =~= self.verdicts@);
        while i < self.verdicts.len()
            invariant
                i <= self.verdicts@.len(),
                start == page_of(addr),
                verdict_of(self.verdicts@, start) == verdict_of(self.verdicts@.skip(i as int), start),
            decreases self.verdicts@.len() - i,
        {
            let v: PageVerdict = self.verdicts[i];
            assert(self.verdicts@.skip(i as int).drop_first() =~= self.verdicts@.skip(i + 1));
            if v.start == start {
                return Some(v.writable);
            }
            i += 1;
        }
        None
    }

    /// Whether the page of `addr` takes writes. `probed` is what a probe of the page says, and
    /// counts (and is kept, while there is room) where the page is not known.
    pub fn page_accepts_writes(&mut self, addr: usize, probed: bool) -> (r: bool)
        requires
            old(self).wf(),
        ensures
            final(self).wf(),
            verdict_of(old(self).verdicts@, page_of(addr)) matches Some(v) ==> r == v
                && final(self).verdicts@ == old(self).verdicts@,
            verdict_of(old(self).verdicts@, page_of(addr)) is None ==> r == probed
                && final(self).verdicts@ == if old(self).verdicts@.len() < PROBED_MAX {
                old(self).verdicts@.push(
                    (PageVerdict { start: page_of(addr), writable: probed }),
                )
            } else {
                old(self).verdicts@
            },
    {
        match self.known(addr) {
            Some(v) => v,
            None => {
                if self.verdicts.len() < PROBED_MAX {
                    self.verdicts.push(PageVerdict { start: page_start(addr), writable: probed });
                }
                probed
            },
        }
    }
}

/// A page is probed once: when there was room to keep its verdict, that verdict is known from
/// then on, for every address of the page, and the verdicts on other pages stay.
pub proof fn verdicts_are_kept(verdicts: Seq<PageVerdict>, new: PageVerdict)
    requires
        verdict_of(verdicts, new.start) is None,
    ensures
        verdict_of(verdicts.push(new), new.start) == Some(new.writable),
        forall|other: usize|
            other != new.start ==> #[trigger] verdict_of(verdicts.push(new), other) == verdict_of(
                verdicts,
                other,
            ),
    decreases verdicts.len(),
{
    let longer = verdicts.push(new);
    if verdicts.len() == 0 {
        assert(longer.drop_first() =~= verdicts);
        assert forall|other: usize| other != new.start implies #[trigger] verdict_of(longer, other)
            == verdict_of(verdicts, other) by {
            assert(verdict_of(longer.drop_first(), other) is None);
        }
    } else {
        assert(longer.drop_first() =~= verdicts.drop_first().push(new));
        verdicts_are_kept(verdicts.drop_first(), new);
        assert forall|other: usize| other != new.start implies #[trigger] verdict_of(longer, other)
            == verdict_of(verdicts, other) by {
            assert(verdict_of(verdicts.drop_first().push(new), other) == verdict_of(
                verdicts.drop_first(),
                other,
            ));
        }
    }
}

/// The access that a page is given.
#[derive(Debug, Clone, Copy, PartialEq, Eq, Structural)]
pub enum Access {
    /// Read, write, and a private copy on the first write.
    ReadWriteCopy,
    /// Read and execute.
    ReadExecute,
}

/// A change of the protection of `size` bytes from `start` on.
#[derive(Debug, Clone, Copy, PartialEq, Eq, Structural)]
pub struct ProtectRequest {
    pub start: u64,
    pub size: u64,
    pub access: Access,
}

/// Opens the page of `addr` for writing.
pub fn unprotect_page(addr: usize) -> (r: ProtectRequest)
    ensures
        r == (ProtectRequest {
            start: page_of(addr) as u64,
            size: PAGE_SIZE as u64,
            access: Access::ReadWriteCopy,
        }),
{
    ProtectRequest {
        start: page_start(addr) as u64,
        size: PAGE_SIZE as u64,
        access: Access::ReadWriteCopy,
    }
}

/// Makes the page of `addr` executable again.
pub fn protect_page(addr: usize) -> (r: ProtectRequest)
    ensures
        r == (ProtectRequest {
            start: page_of(addr) as u64,
            size: PAGE_SIZE as u64,
            access: Access::ReadExecute,
        }),
{
    ProtectRequest {
        start: page_start(addr) as u64,
        size: PAGE_SIZE as u64,
        access: Access::ReadExecute,
    }
}

/// The refusal of a page that does not take writes.
pub open spec fn sealed_text(addr: usize) -> Seq<char> {
    "page at 0x"@ + hex(addr as nat) + " is PPL-protected (write probe faulted)"@
}

/// The refusal of a page whose protection could not be changed.
pub open spec fn locked_text(addr: usize, kr: i32) -> Seq<char> {
    "cannot unprotect page at 0x"@ + hex(addr as nat) + " (kr="@ + decimal(kr as int) + ")"@
}

/// The refusal of a page that does not take writes.
pub fn sealed_message(addr: usize) -> (r: String)
    ensures
        r@ == sealed_text(addr),
{
    let mut s = "page at 0x".to_owned();
    crate::text::push_digits(&mut s, addr as u64, 16);
    s.append(" is PPL-protected (write probe faulted)");
    s
}

/// The refusal of a page whose protection could not be changed.
pub fn locked_message(addr: usize, kr: i32) -> (r: String)
    ensures
        r@ == locked_text(addr, kr),
{
    let mut s = "cannot unprotect page at 0x".to_owned();
    crate::text::push_digits(&mut s, addr as u64, 16);
    s.append(" (kr=");
    push_signed(&mut s, kr);
    s.append(")");
    s
}

/// Pages are blocks of 16384 bytes from address zero on: an address lies in its page, and two lie
/// in the same page exactly where no boundary stands between them.
pub proof fn pages_are_blocks(a: usize, b: usize)
    ensures
        page_of(a) <= a < page_of(a) + 16384,
        page_of(a) % 16384 == 0,
        page_of(a) == page_of(b) <==> a as int / 16384 == b as int / 16384,
{
}

/// The verdict on a page is the first that was reached on it, and there is none exactly where none
/// was.
pub proof fn first_verdicts_count(verdicts: Seq<PageVerdict>, start: usize)
    ensures
        verdict_of(verdicts, start) is None <==> forall|i: int|
            0 <= i < verdicts.len() ==> (#[trigger] verdicts[i]).start != start,
        verdict_of(verdicts, start) matches Some(w) ==> exists|k: int|
            0 <= k < verdicts.len() && (#[trigger] verdicts[k]).start == start
                && verdicts[k].writable == w && verdict_of(verdicts.take(k), start) is None,
    decreases verdicts.len(),
{
    if verdicts.len() > 0 {
        let rest = verdicts.drop_first();
        first_verdicts_count(rest, start);
        assert forall|i: int| 0 <= i < rest.len() implies #[trigger] rest[i] == verdicts[i + 1] by {}
        if verdicts[0].start == start {
            assert(verdicts.take(0) =~= Seq::<PageVerdict>::empty());
        } else if let Some(w) = verdict_of(rest, start) {
            let k = choose|k: int|
                0 <= k < rest.len() && (#[trigger] rest[k]).start == start && rest[k].writable == w
                    && verdict_of(rest.take(k), start) is None;
            assert(verdicts.take(k + 1).drop_first() =~= rest.take(k));
            assert(verdicts.take(k + 1)[0] == verdicts[0]);
            assert(verdicts[k + 1].start == start);
        } else {
            assert forall|i: int| 0 <= i < verdicts.len() implies (#[trigger] verdicts[i]).start
                != start by {
                if i > 0 {
                    assert(rest[i - 1] == verdicts[i]);
                }
            }
        }
    }
}

/// A refusal tells the address, in hexadecimal, and what the kernel answered.
pub proof fn refusals_tell_the_address(addr: usize, kr: i32)
    ensures
        exists|a: Seq<char>|
            reading(a, 16) == addr && sealed_text(addr) == #[trigger] ("page at 0x"@ + a
                + " is PPL-protected (write probe faulted)"@),
        exists|a: Seq<char>|
            reading(a, 16) == addr && locked_text(addr, kr) == #[trigger] (
            "cannot unprotect page at 0x"@ + a + " (kr="@ + decimal(kr as int) + ")"@),
{
    signed_numbers_are_read_back(0, addr as nat);
    let a = hex(addr as nat);
    assert(sealed_text(addr) == "page at 0x"@ + a + " is PPL-protected (write probe faulted)"@);
    assert(locked_text(addr, kr) == "cannot unprotect page at 0x"@ + a + " (kr="@ + decimal(
        kr as int,
    ) + ")"@);
}

/// No more than 32 verdicts are kept.
pub proof fn few_verdicts_are_kept(pages: ProbedPages)
    ensures
        pages.wf() <==> pages.verdicts@.len() <= 32,
{
}

} // verus!
