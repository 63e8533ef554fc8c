//! Which calls are traced.
use crate::text::{bytes_view, chars_of, text_eq, text_view, utf8_text};
use vstd::prelude::*;
use vstd::utf8::{decode_utf8, valid_utf8};

verus! {

/// The mask under which every call is traced.
pub const ALL_CALLS: u32 = 0xFFFF_FFFF;

/// The bit of `open`.
pub const OPEN_BIT: u32 = 0;

/// Whether `c` has the property `White_Space`.
pub open spec fn white_space(c: char) -> bool {
    ||| '\u{9}' <= c <= '\u{d}'
    ||| c == ' '
    ||| c == '\u{85}'
    ||| c == '\u{a0}'
    ||| c == '\u{1680}'
    ||| '\u{2000}' <= c <= '\u{200a}'
    ||| c == '\u{2028}'
    ||| c == '\u{2029}'
    ||| c == '\u{202f}'
    ||| c == '\u{205f}'
    ||| c == '\u{3000}'
}

/// `s` without the white space it begins with.
pub open spec fn trimmed_start(s: Seq<char>) -> Seq<char>
    decreases s.len(),
{
    if s.len() > 0 && white_space(s[0]) {
        trimmed_start(s.drop_first())
    } else {
        s
    }
}

/// `s` without the white space it ends with.
pub open spec fn trimmed_end(s: Seq<char>) -> Seq<char>
    decreases s.len(),
{
    if s.len() > 0 && white_space(s.last()) {
        trimmed_end(s.drop_last())
    } else {
        s
    }
}

/// `s` without the white space around it.
pub open spec fn trimmed(s: Seq<char>) -> Seq<char> {
    trimmed_end(trimmed_start(s))
}

/// The parts of `s` between commas.
pub open spec fn parts(s: Seq<char>) -> Seq<Seq<char>>
    decreases s.len(),
{
    if s.len() == 0 {
        seq![Seq::empty()]
    } else {
        let front = parts(s.drop_last());
        if s.last() == ',' {
            front.push(Seq::empty())
        } else {
            front.update(front.len() - 1, front.last().push(s.last()))
        }
    }
}

/// Whether `name` is one of the first `n` parts, with white space around it or not.
pub open spec fn among(all: Seq<Seq<char>>, n: int, name: Seq<char>) -> bool {
    exists|i: int| 0 <= i < n && trimmed(#[trigger] all[i]) == name
}

/// Whether the comma-separated list `s` names a call.
pub open spec fn lists(s: Seq<char>, name: Seq<char>) -> bool {
    among(parts(s), parts(s).len() as int, name)
}

/// The mask that the filter `list` asks for: without one every call is traced; with one only what
/// it names, and nothing where it is no text.
pub open spec fn mask_of(list: Option<Seq<u8>>) -> u32 {
    match list {
        None => ALL_CALLS,
        Some(bytes) => if valid_utf8(bytes) && lists(decode_utf8(bytes), "open"@) {
            1
        } else {
            0
        },
    }
}

fn is_white_space(c: char) -> (r: bool)
    ensures
        r == white_space(c),
{
    ('\u{9}' <= c && c <= '\u{d}') || c == ' ' || c == '\u{85}' || c == '\u{a0}' || c == '\u{1680}'
        || ('\u{2000}' <= c && c <= '\u{200a}') || c == '\u{2028}' || c == '\u{2029}' || c
        == '\u{202f}' || c == '\u{205f}' || c == '\u{3000}'
}

fn trim(s: &Vec<char>) -> (r: String)
    ensures
        r@ == trimmed(s@),
{
    let mut a: usize = 0;
    assert(s@.skip(0) =~= s@);
    while a < s.len() && is_white_space(s[a])
        invariant
            a <= s@.len(),
            trimmed_start(s@) == trimmed_start(s@.skip(a as int)),
        decreases s@.len() - a,
    {
        assert(s@.skip(a as int).drop_first() =~= s@.skip(a + 1));
        a += 1;
    }
    let ghost rest = s@.skip(a as int);
    assert(trimmed_start(s@) == rest);
    let mut b: usize = s.len();
    assert(rest.take(rest.len() as int) =~= rest);
    while b > a && is_white_space(s[b - 1])
        invariant
            a <= b <= s@.len(),
            rest == s@.skip(a as int),
            trimmed_end(rest) == trimmed_end(rest.take(b - a)),
        decreases b,
    {
        assert(rest.take(b - a).drop_last() =~= rest.take(b - 1 - a));
        assert(rest.take(b - a).last() == s@[b - 1]);
        b -= 1;
    }
    let ghost found = s@.subrange(a as int, b as int);
    assert(rest.take(b - a) =~= found);
    if b > a {
        assert(found.last() == s@[b - 1]);
    }
    assert(trimmed(s@) == found);
    let mut text = "".to_owned();
    let mut k: usize = a;
    proof {
        reveal_strlit("");
    }
    assert(text@ =~= found.take(0));
    while k < b
        invariant
            a <= k <= b <= s@.len(),
            found == s@.subrange(a as int, b as int),
            text@ == found.take(k - a),
        decreases b - k,
    {
        text.push(s[k]);
        assert(found.take(k + 1 - a) =~= found.take(k - a).push(s@[k as int]));
        k += 1;
    }
    assert(found.take(b - a) =~= found);
    text
}

/// The parts, each as a sequence.
spec fn part_views(v: Seq<Vec<char>>) -> Seq<Seq<char>> {
    Seq::new(v.len(), |i: int| v[i]@)
}

fn split(s: &str) -> (r: Vec<Vec<char>>)
    ensures
        part_views(r@) == parts(s@),
{
    let chars = chars_of(s);
    let mut done: Vec<Vec<char>> = Vec::new();
    let mut part: Vec<char> = Vec::new();
    let mut i: usize = 0;
    assert(part_views(done@).push(part@) =~= parts(s@.take(0)));
    while i < chars.len()
        invariant
            chars@ == s@,
            i <= chars@.len(),
            part_views(done@).push(part@) == parts(s@.take(i as int)),
        decreases chars@.len() - i,
    {
        let ghost front = part_views(done@);
        let ghost last = part@;
        assert(s@.take(i + 1).drop_last() =~= s@.take(i as int));
        assert(s@.take(i + 1).last() == s@[i as int]);
        if chars[i] == ',' {
            done.push(part);
            part = Vec::new();
            assert(part_views(done@) =~= front.push(last));
            assert(part@ =~= Seq::<char>::empty());
        } else {
            part.push(chars[i]);
            assert(front.push(part@) =~= front.push(last).update(
                front.len() as int,
                last.push(s@[i as int]),
            ));
        }
        i += 1;
    }
    assert(s@.take(s@.len() as int) =~= s@);
    let ghost front = part_views(done@);
    let ghost last = part@;
    done.push(part);
    assert(part_views(done@) =~= front.push(last));
    done
}

fn lists_name(s: &str, name: &str) -> (r: bool)
    ensures
        r == lists(s@, name@),
{
    let all = split(s);
    let mut i: usize = 0;
    while i < all.len()
        invariant
            i <= all@.len(),
            part_views(all@) == parts(s@),
            !among(parts(s@), i as int, name@),
        decreases all@.len() - i,
    {
        let text = trim(&all[i]);
        assert(parts(s@)[i as int] == all@[i as int]@);
        if text_eq(text.as_str(), name) {
            return true;
        }
        i += 1;
    }
    false
}

/// The names of the calls that there are, as they are told to the user.
pub const KNOWN_CALLS: &'static str =
    "open, close, read, write, socket, connect, send, recv, stat, execve, fork, exit, mmap, munmap, unlink, rename, lstat, fstat, bind, listen, accept, sendto, recvfrom, mkdir, rmdir";

/// Whether `name` is the name of a call.
pub open spec fn known_call(name: Seq<char>) -> bool {
    ||| name == "open"@
    ||| name == "close"@
    ||| name == "read"@
    ||| name == "write"@
    ||| name == "socket"@
    ||| name == "connect"@
    ||| name == "send"@
    ||| name == "recv"@
    ||| name == "stat"@
    ||| name == "execve"@
    ||| name == "fork"@
    ||| name == "exit"@
    ||| name == "mmap"@
    ||| name == "munmap"@
    ||| name == "unlink"@
    ||| name == "rename"@
    ||| name == "lstat"@
    ||| name == "fstat"@
    ||| name == "bind"@
    ||| name == "listen"@
    ||| name == "accept"@
    ||| name == "sendto"@
    ||| name == "recvfrom"@
    ||| name == "mkdir"@
    ||| name == "rmdir"@
}

fn is_known_call(name: &str) -> (r: bool)
    ensures
        r == known_call(name@),
{
    text_eq(name, "open") || text_eq(name, "close") || text_eq(name, "read")
        || text_eq(name, "write") || text_eq(name, "socket") || text_eq(name, "connect")
        || text_eq(name, "send") || text_eq(name, "recv") || text_eq(name, "stat")
        || text_eq(name, "execve") || text_eq(name, "fork") || text_eq(name, "exit")
        || text_eq(name, "mmap") || text_eq(name, "munmap") || text_eq(name, "unlink")
        || text_eq(name, "rename") || text_eq(name, "lstat") || text_eq(name, "fstat")
        || text_eq(name, "bind") || text_eq(name, "listen") || text_eq(name, "accept")
        || text_eq(name, "sendto") || text_eq(name, "recvfrom") || text_eq(name, "mkdir")
        || text_eq(name, "rmdir")
}

/// The first of `all` that names no call. An empty part names nothing.
pub open spec fn first_unknown(all: Seq<Seq<char>>) -> Option<Seq<char>>
    decreases all.len(),
{
    if all.len() == 0 {
        None
    } else {
        let name = trimmed(all[0]);
        if name.len() > 0 && !known_call(name) {
            Some(name)
        } else {
            first_unknown(all.drop_first())
        }
    }
}

/// The first name in the comma-separated list `s` that is the name of no call.
pub open spec fn unknown_name(s: Seq<char>) -> Option<Seq<char>> {
    first_unknown(parts(s))
}

/// The first name in the comma-separated list `s` that is the name of no call.
pub fn unknown_call(s: &str) -> (r: Option<String>)
    ensures
        text_view(r) == unknown_name(s@),
{
    let all = split(s);
    let ghost names = parts(s@);
    let mut i: usize = 0;
    assert(names.skip(0) =~= names);
    while i < all.len()
        invariant
            i <= all@.len(),
            names == parts(s@),
            part_views(all@) == names,
            first_unknown(names) == first_unknown(names.skip(i as int)),
        decreases all@.len() - i,
    {
        let name = trim(&all[i]);
        assert(names.skip(i as int)[0] == all@[i as int]@);
        assert(names.skip(i as int).drop_first() =~= names.skip(i + 1));
        if !text_eq(name.as_str(), "") && !is_known_call(name.as_str()) {
            assert(name@.len() > 0) by {
                reveal_strlit("");
                if name@.len() == 0 {
                    assert(name@ =~= ""@);
                }
            }
            return Some(name);
        }
        assert(name@ == ""@ ==> name@.len() == 0) by {
            reveal_strlit("");
        }
        i += 1;
    }
    None
}

/// The mask that the filter `list` asks for.
pub fn filter_mask(list: Option<&[u8]>) -> (r: u32)
    ensures
        r == mask_of(bytes_view(list)),
{
    match list {
        None => ALL_CALLS,
        Some(bytes) => match utf8_text(bytes) {
            Some(text) => {
                if lists_name(text.as_str(), "open") {
                    1
                } else {
                    0
                }
            },
            None => 0,
        },
    }
}

/// Whether the call with this bit is traced.
pub fn should_log(mask: u32, bit: u32) -> (r: bool)
    requires
        bit < 32,
    ensures
        r == (mask & (1u32 << bit) != 0),
{
    (mask & (1u32 << bit)) != 0
}

/// Without a filter every call is traced. With one, `open` is traced exactly where the filter
/// names it, and no other call is.
pub proof fn filter_selects(list: Option<Seq<u8>>, bit: u32)
    requires
        bit < 32,
    ensures
        list is None ==> mask_of(list) & (1u32 << bit) != 0,
        list matches Some(bytes) ==> (mask_of(list) & (1u32 << bit) != 0 <==> bit == OPEN_BIT
            && valid_utf8(bytes) && lists(decode_utf8(bytes), "open"@)),
{
    assert(0xFFFF_FFFFu32 & (1u32 << bit) != 0 && (1u32 & (1u32 << bit) != 0 <==> bit == 0) && 0u32
        & (1u32 << bit) == 0) by (bit_vector)
        requires
            bit < 32,
    ;
}

/// The parts with commas between.
pub open spec fn joined(all: Seq<Seq<char>>) -> Seq<char>
    decreases all.len(),
{
    if all.len() == 0 {
        Seq::empty()
    } else if all.len() == 1 {
        all[0]
    } else {
        joined(all.drop_last()) + seq![','] + all.last()
    }
}

/// A list is its parts with commas between, and no part holds a comma.
pub proof fn lists_are_their_parts(s: Seq<char>)
    ensures
        joined(parts(s)) == s,
        parts(s).len() > 0,
        forall|i: int|
            0 <= i < parts(s).len() ==> !(#[trigger] parts(s)[i]).contains(','),
    decreases s.len(),
{
    if s.len() == 0 {
        assert(joined(parts(s)) =~= s);
    } else {
        let f = s.drop_last();
        let front = parts(f);
        let all = parts(s);
        lists_are_their_parts(f);
        assert(f.push(s.last()) =~= s);
        if s.last() == ',' {
            assert(all.drop_last() =~= front);
            assert(all.last() =~= Seq::<char>::empty());
            assert(joined(all) =~= f + seq![','] + Seq::<char>::empty());
            assert(joined(all) =~= s);
            assert forall|i: int| 0 <= i < all.len() implies !(#[trigger] all[i]).contains(',') by {
                if i < front.len() {
                    assert(all[i] == front[i]);
                }
            }
        } else {
            let n = front.len() - 1;
            assert(all.last() == front.last().push(s.last()));
            if front.len() == 1 {
                assert(joined(all) =~= s);
            } else {
                assert(all.drop_last() =~= front.drop_last());
                assert(joined(all) =~= joined(front.drop_last()) + seq![','] + front.last().push(
                    s.last(),
                ));
                assert(joined(all) =~= s);
            }
            assert forall|i: int| 0 <= i < all.len() implies !(#[trigger] all[i]).contains(',') by {
                if i < n {
                    assert(all[i] == front[i]);
                } else if all[i].contains(',') {
                    let j = choose|j: int| 0 <= j < all[i].len() && all[i][j] == ',';
                    assert(front[n][j] == ',');
                    assert(front[n].contains(','));
                }
            }
        }
    }
}

/// White space is these characters, and no others.
pub proof fn white_space_by_number(c: char)
    ensures
        white_space(c) <==> {
            let n = c as u32;
            ||| 9 <= n <= 13
            ||| n == 0x20
            ||| n == 0x85
            ||| n == 0xA0
            ||| n == 0x1680
            ||| 0x2000 <= n <= 0x200A
            ||| n == 0x2028
            ||| n == 0x2029
            ||| n == 0x202F
            ||| n == 0x205F
            ||| n == 0x3000
        },
{
}

proof fn lemma_trimmed_start(s: Seq<char>) -> (k: int)
    ensures
        0 <= k <= s.len(),
        trimmed_start(s) == s.skip(k),
        forall|i: int| 0 <= i < k ==> white_space(#[trigger] s[i]),
        k < s.len() ==> !white_space(s[k]),
    decreases s.len(),
{
    if s.len() > 0 && white_space(s[0]) {
        let k = lemma_trimmed_start(s.drop_first());
        assert(s.drop_first().skip(k) =~= s.skip(k + 1));
        assert forall|i: int| 0 <= i < k + 1 implies white_space(#[trigger] s[i]) by {
            if i > 0 {
                assert(white_space(s.drop_first()[i - 1]));
            }
        }
        k + 1
    } else {
        assert(s.skip(0) =~= s);
        0
    }
}

proof fn lemma_trimmed_end(s: Seq<char>) -> (k: int)
    ensures
        0 <= k <= s.len(),
        trimmed_end(s) == s.take(k),
        forall|i: int| k <= i < s.len() ==> white_space(#[trigger] s[i]),
        k > 0 ==> !white_space(s[k - 1]),
    decreases s.len(),
{
    if s.len() > 0 && white_space(s.last()) {
        let k = lemma_trimmed_end(s.drop_last());
        assert(s.drop_last().take(k) =~= s.take(k));
        assert forall|i: int| k <= i < s.len() implies white_space(#[trigger] s[i]) by {
            if i < s.len() - 1 {
                assert(white_space(s.drop_last()[i]));
            }
        }
        k
    } else {
        assert(s.take(s.len() as int) =~= s);
        s.len() as int
    }
}

/// Whether `inner` is `s` without all the white space around it.
pub open spec fn stripped(s: Seq<char>, inner: Seq<char>) -> bool {
    exists|a: int, b: int|
        0 <= a <= b <= s.len() && inner == #[trigger] s.subrange(a, b) && (forall|i: int|
            0 <= i < a || b <= i < s.len() ==> white_space(#[trigger] s[i])) && (a < b
            ==> !white_space(s[a]) && !white_space(s[b - 1]))
}

/// A name is trimmed of white space on both sides, and of nothing else.
pub proof fn names_are_trimmed(s: Seq<char>)
    ensures
        stripped(s, trimmed(s)),
{
    let a = lemma_trimmed_start(s);
    let rest = s.skip(a);
    let k = lemma_trimmed_end(rest);
    assert(rest.take(k) =~= s.subrange(a, a + k));
    assert forall|i: int| 0 <= i < a || a + k <= i < s.len() implies white_space(#[trigger] s[i]) by {
        if i >= a + k {
            assert(white_space(rest[i - a]));
        }
    }
    if k > 0 {
        assert(rest[k - 1] == s[a + k - 1]);
        if a < s.len() {
            assert(rest[0] == s[a]);
        }
    }
    assert(stripped(s, s.subrange(a, a + k)));
}

/// These are the calls that a filter may name.
pub proof fn calls_that_can_be_named(name: Seq<char>)
    ensures
        known_call(name) <==> seq![
            "open"@,
            "close"@,
            "read"@,
            "write"@,
            "socket"@,
            "connect"@,
            "send"@,
            "recv"@,
            "stat"@,
            "execve"@,
            "fork"@,
            "exit"@,
            "mmap"@,
            "munmap"@,
            "unlink"@,
            "rename"@,
            "lstat"@,
            "fstat"@,
            "bind"@,
            "listen"@,
            "accept"@,
            "sendto"@,
            "recvfrom"@,
            "mkdir"@,
            "rmdir"@,
        ].contains(name),
{
    let all = seq![
        "open"@,
        "close"@,
        "read"@,
        "write"@,
        "socket"@,
        "connect"@,
        "send"@,
        "recv"@,
        "stat"@,
        "execve"@,
        "fork"@,
        "exit"@,
        "mmap"@,
        "munmap"@,
        "unlink"@,
        "rename"@,
        "lstat"@,
        "fstat"@,
        "bind"@,
        "listen"@,
        "accept"@,
        "sendto"@,
        "recvfrom"@,
        "mkdir"@,
        "rmdir"@,
    ];
    assert(all[0] == "open"@);
    assert(all[1] == "close"@);
    assert(all[2] == "read"@);
    assert(all[3] == "write"@);
    assert(all[4] == "socket"@);
    assert(all[5] == "connect"@);
    assert(all[6] == "send"@);
    assert(all[7] == "recv"@);
    assert(all[8] == "stat"@);
    assert(all[9] == "execve"@);
    assert(all[10] == "fork"@);
    assert(all[11] == "exit"@);
    assert(all[12] == "mmap"@);
    assert(all[13] == "munmap"@);
    assert(all[14] == "unlink"@);
    assert(all[15] == "rename"@);
    assert(all[16] == "lstat"@);
    assert(all[17] == "fstat"@);
    assert(all[18] == "bind"@);
    assert(all[19] == "listen"@);
    assert(all[20] == "accept"@);
    assert(all[21] == "sendto"@);
    assert(all[22] == "recvfrom"@);
    assert(all[23] == "mkdir"@);
    assert(all[24] == "rmdir"@);
    if all.contains(name) {
        let i = choose|i: int| 0 <= i < all.len() && all[i] == name;
        assert(0 <= i < 25);
    }
}

/// The name that a filter is refused for is the first of its names that is the name of no call:
/// those before it are, or are empty. It is refused for none exactly where every part is the name of
/// a call, or empty.
pub proof fn refused_filters_have_an_unknown_name(all: Seq<Seq<char>>)
    ensures
        first_unknown(all) is None <==> forall|i: int|
            0 <= i < all.len() ==> trimmed(#[trigger] all[i]).len() == 0 || known_call(
                trimmed(all[i]),
            ),
        first_unknown(all) matches Some(name) ==> exists|k: int|
            0 <= k < all.len() && trimmed(#[trigger] all[k]) == name && name.len() > 0
                && !known_call(name) && first_unknown(all.take(k)) is None,
    decreases all.len(),
{
    if all.len() > 0 {
        let rest = all.drop_first();
        refused_filters_have_an_unknown_name(rest);
        let name = trimmed(all[0]);
        if name.len() > 0 && !known_call(name) {
            assert(all.take(0) =~= Seq::<Seq<char>>::empty());
        } else {
            assert forall|i: int| 0 <= i < rest.len() implies #[trigger] rest[i] == all[i + 1] by {}
            if let Some(n) = first_unknown(rest) {
                let k = choose|k: int|
                    0 <= k < rest.len() && trimmed(#[trigger] rest[k]) == n && n.len() > 0
                        && !known_call(n) && first_unknown(rest.take(k)) is None;
                assert(all.take(k + 1).drop_first() =~= rest.take(k));
                assert(all.take(k + 1)[0] == all[0]);
                assert(trimmed(all[k + 1]) == n);
            } else {
                assert forall|i: int| 0 <= i < all.len() implies trimmed(#[trigger] all[i]).len()
                    == 0 || known_call(trimmed(all[i])) by {
                    if i > 0 {
                        assert(rest[i - 1] == all[i]);
                    }
                }
            }
        }
    }
}

/// A list names a call exactly where one of its parts, without the white space around it, is the
/// name.
pub proof fn lists_name_their_parts(s: Seq<char>, name: Seq<char>)
    ensures
        lists(s, name) <==> exists|i: int|
            0 <= i < parts(s).len() && trimmed(#[trigger] parts(s)[i]) == name,
        unknown_name(s) == first_unknown(parts(s)),
{
}

} // verus!
