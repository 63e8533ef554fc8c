//! One captured event.
use crate::text::{bytes_view, text_ends_at_nul, text_len, until_nul, utf8_text};
use vstd::prelude::*;
use vstd::utf8::{decode_utf8, valid_utf8};

verus! {

/// The room for strings in a slot.
pub const STR_DATA: usize = 1024;

/// How much of a string is captured.
pub const STR_MAX: usize = 512;

/// How an event is written out.
#[derive(Debug, Clone, Copy, PartialEq, Eq, Structural)]
pub enum SlotFormatterFn {
    /// A call of `open`.
    Open,
    /// A log line.
    Raw,
}

/// One captured event. The two strings stand one after the other at the start of `str_data`.
#[derive(Debug, Clone, Copy)]
pub struct Slot {
    pub timestamp: u64,
    pub formatter: Option<SlotFormatterFn>,
    pub args: [u64; 6],
    pub str1_len: usize,
    pub str2_len: usize,
    pub str_data: [u8; 1024],
}

/// What is captured of a string: its bytes up to the first NUL, at most `STR_MAX` of them;
/// nothing of a null pointer.
pub open spec fn captured(string: Option<Seq<u8>>) -> Seq<u8> {
    match string {
        Some(bytes) => {
            let head = if bytes.len() <= STR_MAX {
                bytes
            } else {
                bytes.take(STR_MAX as int)
            };
            head.take(text_len(head) as int)
        },
        None => Seq::empty(),
    }
}

impl Slot {
    /// Whether the strings are no longer than what is captured of one: they then lie in the room
    /// for them.
    pub open spec fn wf(self) -> bool {
        self.str1_len <= STR_MAX && self.str2_len <= STR_MAX
    }

    /// The bytes of the first string.
    pub open spec fn str1(self) -> Seq<u8> {
        self.str_data@.take(self.str1_len as int)
    }

    /// The bytes of the second string.
    pub open spec fn str2(self) -> Seq<u8> {
        self.str_data@.subrange(self.str1_len as int, self.str1_len + self.str2_len)
    }

    /// The first string as text.
    pub open spec fn str1_text(self) -> Seq<char> {
        if valid_utf8(self.str1()) {
            decode_utf8(self.str1())
        } else {
            "<invalid>"@
        }
    }

    /// A slot that holds nothing yet.
    pub fn new() -> (r: Slot)
        ensures
            r.wf(),
            r.timestamp == 0,
            r.formatter is None,
            r.args@ == Seq::new(6, |i: int| 0u64),
            r.str1_len == 0,
            r.str2_len == 0,
            r.str_data@ == Seq::new(1024, |i: int| 0u8),
    {
        Slot {
            timestamp: 0,
            formatter: None,
            args: [0; 6],
            str1_len: 0,
            str2_len: 0,
            str_data: [0; 1024],
        }
    }

    /// The first string as text, where its bytes are well-formed.
    pub fn get_str1(&self) -> (r: String)
        requires
            self.wf(),
        ensures
            r@ == self.str1_text(),
    {
        let bytes = vstd::slice::slice_subrange(self.str_data.as_slice(), 0, self.str1_len);
        assert(bytes@ =~= self.str1());
        match utf8_text(bytes) {
            Some(text) => text,
            None => "<invalid>".to_owned(),
        }
    }

    /// Fills the slot with an event.
    pub fn fill(
        &mut self,
        timestamp: u64,
        formatter: SlotFormatterFn,
        args: [u64; 6],
        str1: Option<&[u8]>,
        str2: Option<&[u8]>,
    )
        ensures
            final(self).wf(),
            final(self).timestamp == timestamp,
            final(self).formatter == Some(formatter),
            final(self).args == args,
            final(self).str1() == captured(bytes_view(str1)),
            final(self).str2() == captured(bytes_view(str2)),
            final(self).str_data@ == captured(bytes_view(str1)) + captured(bytes_view(str2))
                + old(self).str_data@.skip(
                (captured(bytes_view(str1)).len() + captured(bytes_view(str2)).len()) as int,
            ),
    {
        self.timestamp = timestamp;
        self.formatter = Some(formatter);
        self.args = args;
        let ghost before = self.str_data@;
        let len1: usize = self.store(0, str1);
        self.str1_len = len1;
        let ghost one = self.str_data@;
        let len2: usize = self.store(len1, str2);
        self.str2_len = len2;
        let ghost (c1, c2) = (captured(bytes_view(str1)), captured(bytes_view(str2)));
        assert(one == before.take(0) + c1 + before.skip(len1 as int));
        assert(one.take(len1 as int) =~= c1);
        assert(self.str_data@ =~= c1 + c2 + before.skip(len1 + len2));
        assert(self.str1() =~= c1);
        assert(self.str2() =~= c2);
    }

    fn store(&mut self, offset: usize, string: Option<&[u8]>) -> (len: usize)
        requires
            offset <= STR_MAX,
        ensures
            len == captured(bytes_view(string)).len(),
            len <= STR_MAX,
            final(self).str_data@ == old(self).str_data@.take(offset as int) + captured(
                bytes_view(string),
            ) + old(self).str_data@.skip(offset + len),
            final(self).timestamp == old(self).timestamp,
            final(self).formatter == old(self).formatter,
            final(self).args == old(self).args,
            final(self).str1_len == old(self).str1_len,
            final(self).str2_len == old(self).str2_len,
    {
        let ghost before = self.str_data@;
        match string {
            Some(bytes) => {
                let cap: usize = if bytes.len() <= STR_MAX {
                    bytes.len()
                } else {
                    STR_MAX
                };
                let head = vstd::slice::slice_subrange(bytes, 0, cap);
                assert(head@ =~= (if bytes@.len() <= STR_MAX {
                    bytes@
                } else {
                    bytes@.take(STR_MAX as int)
                }));
                let len: usize = until_nul(head);
                let ghost text = head@.take(len as int);
                let mut i: usize = 0;
                while i < len
                    invariant
                        offset <= STR_MAX,
                        len <= head@.len() <= STR_MAX,
                        i <= len,
                        text == head@.take(len as int),
                        before == old(self).str_data@,
                        before.len() == STR_DATA,
                        self.str_data@ =~= before.take(offset as int) + text.take(i as int)
                            + before.skip(offset + i),
                        self.timestamp == old(self).timestamp,
                        self.formatter == old(self).formatter,
                        self.args == old(self).args,
                        self.str1_len == old(self).str1_len,
                        self.str2_len == old(self).str2_len,
                    decreases len - i,
                {
                    self.str_data[offset + i] = head[i];
                    i += 1;
                }
                assert(text.take(len as int) =~= text);
                len
            },
            None => {
                assert(before =~= before.take(offset as int) + Seq::<u8>::empty() + before.skip(
                    offset as int,
                ));
                0
            },
        }
    }
}

/// What is captured of a string is its beginning, without a NUL, and no more than there is room
/// for; a string that ends in time is captured whole.
pub proof fn strings_are_captured_from_the_start(bytes: Seq<u8>)
    ensures
        captured(Some(bytes)).len() <= STR_MAX,
        captured(Some(bytes)) == bytes.take(captured(Some(bytes)).len() as int),
        forall|i: int|
            0 <= i < captured(Some(bytes)).len() ==> #[trigger] captured(Some(bytes))[i] != 0,
        text_len(bytes) <= STR_MAX ==> captured(Some(bytes)) == bytes.take(text_len(bytes) as int),
{
    let head = if bytes.len() <= STR_MAX {
        bytes
    } else {
        bytes.take(STR_MAX as int)
    };
    text_ends_at_nul(bytes);
    text_ends_at_nul(head);
    let n = text_len(head) as int;
    assert(head.take(n) =~= bytes.take(n));
    if text_len(bytes) <= STR_MAX {
        let k = text_len(bytes) as int;
        if n < k {
            assert(head[n] == bytes[n]);
        }
        if k < n {
            assert(head[k] == bytes[k]);
        }
    }
}

/// Of a string at most 512 bytes are captured, and as many as there are before its first NUL up to
/// that; nothing is of a null pointer. The strings stand one behind the other from the start of the
/// room for them.
pub proof fn strings_are_captured_in_full(bytes: Seq<u8>, s: Slot)
    requires
        s.wf(),
    ensures
        captured(None).len() == 0,
        captured(Some(bytes)).len() == (if text_len(bytes) <= 512 {
            text_len(bytes)
        } else {
            512
        }),
        s.str1().len() == s.str1_len,
        s.str2().len() == s.str2_len,
        forall|i: int| 0 <= i < s.str1_len ==> #[trigger] s.str1()[i] == s.str_data@[i],
        forall|i: int|
            0 <= i < s.str2_len ==> #[trigger] s.str2()[i] == s.str_data@[s.str1_len + i],
{
    strings_are_captured_from_the_start(bytes);
    text_ends_at_nul(bytes);
    if text_len(bytes) > 512 {
        let head = bytes.take(512);
        text_ends_at_nul(head);
        if text_len(head) < 512 {
            assert(head[text_len(head) as int] == bytes[text_len(head) as int]);
        }
        assert(captured(Some(bytes)) =~= head.take(text_len(head) as int));
    }
}

} // verus!
