//! Room for trampolines: one page, handed out from the bottom up.
use vstd::prelude::*;

verus! {

/// The size of a page on Apple Silicon.
pub const PAGE_SIZE: usize = 16384;

/// The page that trampolines and stubs are written to. `base` is zero until the page is mapped.
pub struct TrampolinePage {
    pub base: usize,
    pub offset: usize,
}

impl TrampolinePage {
    /// The whole page lies in the address space, and no more than the page was handed out.
    pub open spec fn wf(self) -> bool {
        self.base <= usize::MAX - PAGE_SIZE && self.offset <= PAGE_SIZE
    }

    /// Whether `size` more bytes are left.
    pub open spec fn has_room(self, size: usize) -> bool {
        self.offset + size <= PAGE_SIZE
    }

    /// Whether the byte at `addr` was handed out.
    pub open spec fn handed_out(self, addr: usize) -> bool {
        self.base <= addr < self.base + self.offset
    }

    /// A page that is not mapped yet.
    pub fn new() -> (r: TrampolinePage)
        ensures
            r.wf(),
            r.base == 0,
            r.offset == 0,
    {
        TrampolinePage { base: 0, offset: 0 }
    }

    /// Whether the page has still to be mapped.
    pub fn needs_page(&self) -> (r: bool)
        ensures
            r == (self.base == 0),
    {
        self.base == 0
    }

    /// Takes `addr` for the page, unless there is one.
    pub fn adopt_page(&mut self, addr: usize)
        requires
            old(self).wf(),
            addr <= usize::MAX - PAGE_SIZE,
        ensures
            final(self).wf(),
            final(self).base == if old(self).base == 0 {
                addr
            } else {
                old(self).base
            },
            final(self).offset == old(self).offset,
    {
        if self.base == 0 {
            self.base = addr;
        }
    }

    /// Whether `size` more bytes are left.
    pub fn fits(&self, size: usize) -> (r: bool)
        requires
            self.wf(),
        ensures
            r == self.has_room(size),
    {
        size <= PAGE_SIZE - self.offset
    }

    /// Hands out the next `size` bytes.
    pub fn allocate_trampoline(&mut self, size: usize) -> (r: usize)
        requires
            old(self).wf(),
            old(self).has_room(size),
        ensures
            final(self).wf(),
            r == old(self).base + old(self).offset,
            final(self).base == old(self).base,
            final(self).offset == old(self).offset + size,
    {
        let offset: usize = self.offset;
        self.offset = offset + size;
        self.base + offset
    }
}

/// What is handed out lies in the page, and overlaps nothing that was handed out before: `first`
/// is the page before one allocation of `size` bytes, and `later` any state after it, before
/// another of `next` bytes.
pub proof fn allocations_are_disjoint(
    first: TrampolinePage,
    size: usize,
    later: TrampolinePage,
    next: usize,
)
    requires
        first.wf(),
        first.has_room(size),
        later.wf(),
        later.has_room(next),
        later.base == first.base,
        later.offset >= first.offset + size,
    ensures
        first.base <= first.base + first.offset,
        first.base + first.offset + size <= later.base + later.offset,
        later.base + later.offset + next <= first.base + PAGE_SIZE,
{
}

/// There is room for so many bytes exactly where no more than 16384 are handed out with them, and
/// what was handed out are the bytes from the start of the page on.
pub proof fn pages_have_room(page: TrampolinePage, size: usize, addr: usize)
    ensures
        page.has_room(size) <==> page.offset + size <= 16384,
        page.handed_out(addr) <==> page.base <= addr && addr - page.base < page.offset,
{
}

} // verus!
