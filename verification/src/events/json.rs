//! Text inside JSON strings.
use crate::text::{chars_of, digit, digits, padded, push_padded, worth};
use vstd::prelude::*;

verus! {

/// Whether `c` is a control character that JSON strings cannot hold.
pub open spec fn is_control(c: char) -> bool {
    (c as u32) < 0x20
}

/// How `c` is written inside a JSON string.
pub open spec fn escape_char(c: char) -> Seq<char> {
    if c == '"' {
        seq!['\\', '"']
    } else if c == '\\' {
        seq!['\\', '\\']
    } else if c == '\n' {
        seq!['\\', 'n']
    } else if c == '\r' {
        seq!['\\', 'r']
    } else if c == '\t' {
        seq!['\\', 't']
    } else if is_control(c) {
        seq!['\\', 'u'] + padded(digits((c as u32) as nat, 16), 4)
    } else {
        seq![c]
    }
}

/// How `text` is written inside a JSON string.
pub open spec fn escaped(text: Seq<char>) -> Seq<char>
    decreases text.len(),
{
    if text.len() == 0 {
        Seq::empty()
    } else {
        escaped(text.drop_last()) + escape_char(text.last())
    }
}

/// `text` as it is written inside a JSON string.
pub fn json_escape(text: &str) -> (r: String)
    ensures
        r@ == escaped(text@),
{
    let chars = chars_of(text);
    let mut out = String::new();
    let mut i: usize = 0;
    assert(out@ =~= escaped(text@.take(0)));
    while i < chars.len()
        invariant
            chars@ == text@,
            i <= chars@.len(),
            out@ == escaped(text@.take(i as int)),
        decreases chars@.len() - i,
    {
        let c: char = chars[i];
        let ghost before = out@;
        let code: u32 = c as u32;
        if c == '"' {
            out.push('\\');
            out.push('"');
        } else if c == '\\' {
            out.push('\\');
            out.push('\\');
        } else if c == '\n' {
            out.push('\\');
            out.push('n');
        } else if c == '\r' {
            out.push('\\');
            out.push('r');
        } else if c == '\t' {
            out.push('\\');
            out.push('t');
        } else if code < 0x20 {
            out.push('\\');
            out.push('u');
            push_padded(&mut out, code as u64, 16, 4);
        } else {
            out.push(c);
        }
        assert(out@ =~= before + escape_char(c));
        assert(text@.take(i + 1).drop_last() =~= text@.take(i as int));
        i += 1;
    }
    assert(text@.take(text@.len() as int) =~= text@);
    out
}

/// The value of a hexadecimal digit.
pub open spec fn digit_value(c: char) -> Option<nat> {
    if '0' <= c <= '9' {
        Some((c as nat - '0' as nat) as nat)
    } else if 'a' <= c <= 'f' {
        Some((c as nat - 'a' as nat + 10) as nat)
    } else {
        None
    }
}

/// The character that the content of a JSON string begins with, and how much of the content
/// stands for it. There is none where the content begins with a quote, with a control character
/// or with something that is no escape.
pub open spec fn first_char(t: Seq<char>) -> Option<(char, int)> {
    if t.len() == 0 || t[0] == '"' || is_control(t[0]) {
        None
    } else if t[0] != '\\' {
        Some((t[0], 1))
    } else if t.len() < 2 {
        None
    } else if t[1] == '"' || t[1] == '\\' {
        Some((t[1], 2))
    } else if t[1] == 'n' {
        Some(('\n', 2))
    } else if t[1] == 'r' {
        Some(('\r', 2))
    } else if t[1] == 't' {
        Some(('\t', 2))
    } else if t[1] == 'u' && t.len() >= 6 {
        match (digit_value(t[2]), digit_value(t[3]), digit_value(t[4]), digit_value(t[5])) {
            (Some(a), Some(b), Some(c), Some(d)) => Some(
                ((a * 4096 + b * 256 + c * 16 + d) as u32 as char, 6),
            ),
            _ => None,
        }
    } else {
        None
    }
}

/// The text that the content `t` of a JSON string stands for, where it is well-formed.
pub open spec fn unescaped(t: Seq<char>) -> Option<Seq<char>>
    decreases t.len(),
{
    if t.len() == 0 {
        Some(Seq::empty())
    } else {
        match first_char(t) {
            Some((c, n)) => if 0 < n <= t.len() {
                match unescaped(t.skip(n)) {
                    Some(rest) => Some(seq![c] + rest),
                    None => None,
                }
            } else {
                None
            },
            None => None,
        }
    }
}

pub proof fn lemma_hex4(c: char)
    requires
        is_control(c),
    ensures
        padded(digits((c as u32) as nat, 16), 4) =~= seq!['0', '0', digit(((c as u32) as nat) / 16), digit(
            ((c as u32) as nat) % 16,
        )],
        digit_value(digit(((c as u32) as nat) / 16)) == Some(((c as u32) as nat) / 16),
        digit_value(digit(((c as u32) as nat) % 16)) == Some(((c as u32) as nat) % 16),
{
    let n = (c as u32) as nat;
    reveal_with_fuel(digits, 3);
    if n < 16 {
        assert(n / 16 == 0 && n % 16 == n);
        assert(digits(n, 16) =~= seq![digit(n)]);
    } else {
        assert(digits(n, 16) =~= seq![digit(n / 16), digit(n % 16)]);
    }
}

proof fn lemma_first_of_escape(c: char, rest: Seq<char>)
    ensures
        first_char(escape_char(c) + rest) == Some((c, escape_char(c).len() as int)),
        0 < escape_char(c).len() <= 6,
        (escape_char(c) + rest).skip(escape_char(c).len() as int) == rest,
{
    let t = escape_char(c) + rest;
    assert(t.skip(escape_char(c).len() as int) =~= rest);
    if c == '"' || c == '\\' || c == '\n' || c == '\r' || c == '\t' {
        assert(t[0] == '\\' && t[1] == escape_char(c)[1]);
    } else if is_control(c) {
        lemma_hex4(c);
        let h = padded(digits((c as u32) as nat, 16), 4);
        assert(escape_char(c) =~= seq!['\\', 'u', h[0], h[1], h[2], h[3]]);
        assert(t[0] == '\\' && t[1] == 'u' && t[2] == h[0] && t[3] == h[1] && t[4] == h[2] && t[5]
            == h[3]);
        assert(digit_value('0') == Some(0nat));
        let n = (c as u32) as nat;
        assert((n / 16) * 16 + n % 16 == n);
        vstd::utf8::char_u32_cast(c, c as u32);
    } else {
        assert(t[0] == c);
    }
}

proof fn lemma_escaped_front(text: Seq<char>)
    requires
        text.len() > 0,
    ensures
        escaped(text) == escape_char(text[0]) + escaped(text.drop_first()),
    decreases text.len(),
{
    if text.len() == 1 {
        assert(text.drop_last() =~= Seq::<char>::empty());
        assert(text.drop_first() =~= Seq::<char>::empty());
        assert(escaped(text) =~= escape_char(text[0]) + escaped(text.drop_first()));
    } else {
        lemma_escaped_front(text.drop_last());
        assert(text.drop_last().drop_first() =~= text.drop_first().drop_last());
        assert(text.drop_first().last() == text.last());
        assert(text.drop_last()[0] == text[0]);
        assert(escaped(text) =~= escape_char(text[0]) + escaped(text.drop_first()));
    }
}

/// Whatever the text holds, what is written of it is the content of a JSON string: it has no bare
/// quote, no control character and no broken escape, and it stands for that text.
pub proof fn escaping_is_undone(text: Seq<char>)
    ensures
        unescaped(escaped(text)) == Some(text),
    decreases text.len(),
{
    if text.len() == 0 {
        assert(text =~= Seq::<char>::empty());
    } else {
        let rest = text.drop_first();
        escaping_is_undone(rest);
        lemma_escaped_front(text);
        lemma_first_of_escape(text[0], escaped(rest));
        assert(seq![text[0]] + rest =~= text);
    }
}

/// No control character is written, so that a line stays one line.
pub proof fn escaped_text_has_no_controls(text: Seq<char>)
    ensures
        forall|i: int| 0 <= i < escaped(text).len() ==> !is_control(#[trigger] escaped(text)[i]),
    decreases text.len(),
{
    if text.len() > 0 {
        escaped_text_has_no_controls(text.drop_last());
        let c = text.last();
        if is_control(c) {
            lemma_hex4(c);
        }
        let e = escape_char(c);
        assert forall|i: int| 0 <= i < e.len() implies !is_control(#[trigger] e[i]) by {}
        let front = escaped(text.drop_last());
        assert forall|i: int| 0 <= i < escaped(text).len() implies !is_control(
            #[trigger] escaped(text)[i],
        ) by {
            if i < front.len() {
                assert(escaped(text)[i] == front[i]);
            } else {
                assert(escaped(text)[i] == e[i - front.len()]);
            }
        }
    }
}

/// Only what must be escaped is: a quote and a backslash behind a backslash, the three common
/// controls by a letter, the other controls by the four digits of their number; and every other
/// character stands for itself. A text is written character by character.
pub proof fn characters_have_their_escapes(c: char, a: Seq<char>, b: Seq<char>)
    ensures
        escape_char('"') == seq!['\\', '"'],
        escape_char('\\') == seq!['\\', '\\'],
        escape_char('\n') == seq!['\\', 'n'],
        escape_char('\r') == seq!['\\', 'r'],
        escape_char('\t') == seq!['\\', 't'],
        c as u32 >= 32 && c != '"' && c != '\\' ==> escape_char(c) == seq![c],
        (c as u32) < 32 && c != '\n' && c != '\r' && c != '\t' ==> {
            let e = escape_char(c);
            &&& e.len() == 6
            &&& e[0] == '\\' && e[1] == 'u' && e[2] == '0' && e[3] == '0'
            &&& 16 * worth(e[4]) + worth(e[5]) == c as u32
            &&& 0 <= worth(e[5]) < 16
        },
        escaped(seq![c]) == escape_char(c),
        escaped(a + b) == escaped(a) + escaped(b),
    decreases b.len(),
{
    if is_control(c) {
        lemma_hex4(c);
        let n = (c as u32) as nat;
        assert(digit(n / 16) as u32 == 48 + n / 16);
        assert(digit(n % 16) as u32 == (if n % 16 < 10 {
            48 + n % 16
        } else {
            87 + n % 16
        }));
    }
    assert(seq![c].drop_last() =~= Seq::<char>::empty());
    reveal_with_fuel(escaped, 2);
    assert(escaped(seq![c]) =~= escape_char(c));
    if b.len() == 0 {
        assert(a + b =~= a);
        assert(escaped(a) + escaped(b) =~= escaped(a));
    } else {
        characters_have_their_escapes(c, a, b.drop_last());
        assert((a + b).drop_last() =~= a + b.drop_last());
        assert((a + b).last() == b.last());
        assert(escaped(a + b) =~= escaped(a) + escaped(b));
    }
}

} // verus!
