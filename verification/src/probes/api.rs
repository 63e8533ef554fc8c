//! What a probe sees of a hooked call, and how it asks for its hooks.
use crate::hook::trampoline::thunk::RegisterContext;
use crate::text::{bytes_view, text_ends_at_nul, text_len, text_view, until_nul, utf8_text};
use vstd::prelude::*;
use vstd::utf8::{decode_utf8, valid_utf8};

verus! {

/// What reading `len` bytes of memory at `address` gave: the bytes, where the kernel let them be
/// read.
#[derive(Debug)]
pub struct MemoryRead {
    pub address: u64,
    pub len: usize,
    pub bytes: Option<Vec<u8>>,
}

/// A hooked call: its registers, and what was read of its memory.
#[derive(Debug)]
pub struct MtdiSafeContext {
    pub raw: RegisterContext,
    pub reads: Vec<MemoryRead>,
}

/// What was read of `len` bytes at `address`: what the first such read gave.
pub open spec fn recorded(reads: Seq<MemoryRead>, address: u64, len: usize) -> Option<Seq<u8>>
    decreases reads.len(),
{
    if reads.len() == 0 {
        None
    } else if reads[0].address == address && reads[0].len == len {
        match reads[0].bytes {
            Some(bytes) => Some(bytes@),
            None => None,
        }
    } else {
        recorded(reads.drop_first(), address, len)
    }
}

/// The text in `bytes`, up to the first NUL: none where nothing was read, or no text.
pub open spec fn read_text(bytes: Option<Seq<u8>>) -> Option<Seq<char>> {
    match bytes {
        Some(b) => {
            let text = b.take(text_len(b) as int);
            if b.len() > 0 && valid_utf8(text) {
                Some(decode_utf8(text))
            } else {
                None
            }
        },
        None => None,
    }
}

/// The text in what was read, up to the first NUL.
pub fn text_of_read(bytes: Option<&[u8]>) -> (r: Option<String>)
    ensures
        text_view(r) == read_text(bytes_view(bytes)),
{
    match bytes {
        Some(b) => {
            if b.len() == 0 {
                return None;
            }
            let end: usize = until_nul(b);
            let text = vstd::slice::slice_subrange(b, 0, end);
            assert(text@ =~= b@.take(end as int));
            utf8_text(text)
        },
        None => None,
    }
}

impl MtdiSafeContext {
    /// The value of an argument register, and 0 beyond the last.
    pub open spec fn argument(self, index: int) -> u64 {
        if 0 <= index < 8 {
            self.raw.x@[index]
        } else {
            0
        }
    }

    /// The text that an argument points to.
    pub open spec fn argument_text(self, index: int, max_len: usize) -> Option<Seq<char>> {
        if self.argument(index) == 0 {
            None
        } else {
            read_text(recorded(self.reads@, self.argument(index), max_len))
        }
    }

    /// Whether only the value of register `index` differs from `before`.
    pub open spec fn differs_in(self, before: MtdiSafeContext, index: int, val: u64) -> bool {
        &&& self.raw.x@ == before.raw.x@.update(index, val)
        &&& self.raw.fp == before.raw.fp
        &&& self.raw.lr == before.raw.lr
        &&& self.raw.sp == before.raw.sp
        &&& self.raw.cpsr == before.raw.cpsr
        &&& self.raw.hook_id == before.raw.hook_id
        &&& self.raw.q == before.raw.q
        &&& self.reads == before.reads
    }

    /// The value of an argument register, and 0 beyond the last.
    pub fn arg(&self, index: usize) -> (r: u64)
        ensures
            r == self.argument(index as int),
    {
        if index < 8 {
            self.raw.x[index]
        } else {
            0
        }
    }

    /// Sets an argument register. There is none beyond the last to set.
    pub fn set_arg(&mut self, index: usize, val: u64)
        ensures
            index < 8 ==> final(self).differs_in(*old(self), index as int, val),
            index >= 8 ==> *final(self) == *old(self),
    {
        if index < 8 {
            self.raw.x[index] = val;
        }
    }

    /// The value that a call returns.
    pub fn return_val(&self) -> (r: u64)
        ensures
            r == self.raw.x@[0],
    {
        self.raw.x[0]
    }

    /// Sets the value that a call returns.
    pub fn set_return_val(&mut self, val: u64)
        ensures
            final(self).differs_in(*old(self), 0, val),
    {
        self.raw.x[0] = val;
    }

    /// The text that an argument points to, of which no more than `max_len` bytes are looked at.
    pub fn read_arg_str(&self, index: usize, max_len: usize) -> (r: Option<String>)
        ensures
            text_view(r) == self.argument_text(index as int, max_len),
    {
        let address: u64 = self.arg(index);
        if address == 0 {
            return None;
        }
        let mut i: usize = 0;
        assert(self.reads@.skip(0) =~= self.reads@);
        while i < self.reads.len()
            invariant
                i <= self.reads@.len(),
                address == self.argument(index as int),
                address != 0,
                recorded(self.reads@, address, max_len) == recorded(
                    self.reads@.skip(i as int),
                    address,
                    max_len,
                ),
            decreases self.reads@.len() - i,
        {
            let ghost rest = self.reads@.skip(i as int);
            assert(rest[0] == self.reads@[i as int]);
            let read = &self.reads[i];
            if read.address == address && read.len == max_len {
                return match &read.bytes {
                    Some(bytes) => text_of_read(Some(bytes.as_slice())),
                    None => None,
                };
            }
            assert(rest.drop_first() =~= self.reads@.skip(i + 1));
            i += 1;
        }
        None
    }
}

/// What a probe does when a call is hit.
#[derive(Debug, Clone, Copy, PartialEq, Eq, Structural)]
pub enum Handler {
    OnOpen,
    OnStat,
    OnLstat,
    OnFstat,
    OnSend,
    OnRecv,
    OnFork,
    OnExit,
}

/// The hooks that a probe asks for.
#[derive(Debug)]
pub struct MtdiRegistry {
    pub hooks: Vec<(String, Handler)>,
}

impl View for MtdiRegistry {
    type V = Seq<(Seq<char>, Handler)>;

    open spec fn view(&self) -> Seq<(Seq<char>, Handler)> {
        Seq::new(self.hooks@.len(), |i: int| (self.hooks@[i].0@, self.hooks@[i].1))
    }
}

impl MtdiRegistry {
    /// No hooks.
    pub fn new() -> (r: MtdiRegistry)
        ensures
            r@ == Seq::<(Seq<char>, Handler)>::empty(),
    {
        let r = MtdiRegistry { hooks: Vec::new() };
        assert(r@ =~= Seq::<(Seq<char>, Handler)>::empty());
        r
    }

    /// Asks for a hook on the function of this name.
    pub fn hook_symbol(&mut self, symbol: &str, handler: Handler)
        ensures
            final(self)@ == old(self)@.push((symbol@, handler)),
    {
        let ghost before = self@;
        self.hooks.push((symbol.to_owned(), handler));
        assert(self@ =~= before.push((symbol@, handler)));
    }
}

/// A probe that sets an argument finds it set, and no other argument changed.
pub proof fn set_arguments_stay(
    before: MtdiSafeContext,
    after: MtdiSafeContext,
    index: int,
    other: int,
    val: u64,
)
    requires
        0 <= index < 8,
        after.differs_in(before, index, val),
    ensures
        after.argument(index) == val,
        other != index ==> after.argument(other) == before.argument(other),
{
}

/// The arguments of a call are its first eight registers, and 0 beyond them.
pub proof fn arguments_are_registers(ctx: MtdiSafeContext)
    ensures
        forall|i: int| 0 <= i < 8 ==> #[trigger] ctx.argument(i) == ctx.raw.x@[i],
        forall|i: int| i >= 8 ==> #[trigger] ctx.argument(i) == 0,
{
}

/// The text that an argument points to is what was read there, up to the first NUL, where it is
/// well-formed. There is none where the argument is null, where nothing was read, and where the read
/// failed.
pub proof fn texts_are_what_was_read(ctx: MtdiSafeContext, index: int, len: usize, k: int)
    requires
        0 <= k < ctx.reads@.len(),
        ctx.reads@[k].address == ctx.argument(index),
        ctx.reads@[k].len == len,
        forall|i: int|
            0 <= i < k ==> (#[trigger] ctx.reads@[i]).address != ctx.argument(index)
                || ctx.reads@[i].len != len,
    ensures
        ctx.argument(index) == 0 ==> ctx.argument_text(index, len) is None,
        ctx.reads@[k].bytes is None ==> ctx.argument_text(index, len) is None,
        ctx.argument(index) != 0 ==> (ctx.reads@[k].bytes matches Some(b) ==> {
            let n = text_len(b@) as int;
            let text = b@.subrange(0, n);
            &&& b@.len() > 0 && valid_utf8(text) ==> ctx.argument_text(index, len) == Some(
                decode_utf8(text),
            )
            &&& b@.len() == 0 || !valid_utf8(text) ==> ctx.argument_text(index, len) is None
        }),
{
    lemma_recorded(ctx.reads@, ctx.argument(index), len, k);
    if let Some(b) = ctx.reads@[k].bytes {
        text_ends_at_nul(b@);
        assert(b@.subrange(0, text_len(b@) as int) =~= b@.take(text_len(b@) as int));
    }
}

proof fn lemma_recorded(reads: Seq<MemoryRead>, address: u64, len: usize, k: int)
    requires
        0 <= k < reads.len(),
        reads[k].address == address,
        reads[k].len == len,
        forall|i: int|
            0 <= i < k ==> (#[trigger] reads[i]).address != address || reads[i].len != len,
    ensures
        recorded(reads, address, len) == (match reads[k].bytes {
            Some(bytes) => Some(bytes@),
            None => None,
        }),
    decreases reads.len(),
{
    if k > 0 {
        assert(reads[0].address != address || reads[0].len != len);
        let rest = reads.drop_first();
        assert(rest[k - 1] == reads[k]);
        assert forall|i: int| 0 <= i < k - 1 implies (#[trigger] rest[i]).address != address
            || rest[i].len != len by {
            assert(rest[i] == reads[i + 1]);
        }
        lemma_recorded(rest, address, len, k - 1);
    }
}

/// What was never read is no text.
pub proof fn unread_texts_are_none(ctx: MtdiSafeContext, index: int, len: usize)
    requires
        forall|i: int|
            0 <= i < ctx.reads@.len() ==> (#[trigger] ctx.reads@[i]).address != ctx.argument(index)
                || ctx.reads@[i].len != len,
    ensures
        ctx.argument_text(index, len) is None,
{
    lemma_unrecorded(ctx.reads@, ctx.argument(index), len);
}

proof fn lemma_unrecorded(reads: Seq<MemoryRead>, address: u64, len: usize)
    requires
        forall|i: int|
            0 <= i < reads.len() ==> (#[trigger] reads[i]).address != address || reads[i].len
                != len,
    ensures
        recorded(reads, address, len) is None,
    decreases reads.len(),
{
    if reads.len() > 0 {
        let rest = reads.drop_first();
        assert(reads[0].address != address || reads[0].len != len);
        assert forall|i: int| 0 <= i < rest.len() implies (#[trigger] rest[i]).address != address
            || rest[i].len != len by {
            assert(rest[i] == reads[i + 1]);
        }
        lemma_unrecorded(rest, address, len);
    }
}

/// A probe that sets a register changes that register alone.
pub proof fn set_registers_stay(
    before: MtdiSafeContext,
    after: MtdiSafeContext,
    index: int,
    val: u64,
    other: int,
)
    requires
        after.differs_in(before, index, val),
        0 <= index < before.raw.x@.len(),
        0 <= other < before.raw.x@.len(),
    ensures
        after.raw.x@[index] == val,
        other != index ==> after.raw.x@[other] == before.raw.x@[other],
        after.raw.fp == before.raw.fp && after.raw.lr == before.raw.lr && after.raw.sp
            == before.raw.sp && after.raw.cpsr == before.raw.cpsr && after.raw.hook_id
            == before.raw.hook_id && after.raw.q == before.raw.q,
        after.reads == before.reads,
{
}

/// The hooks that a probe asks for are seen as they were asked for, in their order.
pub proof fn hooks_are_seen_in_order(reg: MtdiRegistry)
    ensures
        reg@.len() == reg.hooks@.len(),
        forall|i: int|
            0 <= i < reg.hooks@.len() ==> #[trigger] reg@[i] == (
                reg.hooks@[i].0@,
                reg.hooks@[i].1,
            ),
{
}

} // verus!
