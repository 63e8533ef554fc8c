//! Text: searching it, and writing numbers into it.
use vstd::prelude::*;
use vstd::utf8::{decode_utf8, valid_utf8};

verus! {

/// `String::push` appends one character.
pub assume_specification[ String::push ](s: &mut String, c: char)
    ensures
        final(s)@ == old(s)@.push(c),
;

/// `core::str::from_utf8` succeeds exactly on well-formed UTF-8, and gives the text that the
/// bytes encode.
#[verifier::external_body]
pub(crate) fn utf8_text(bytes: &[u8]) -> (r: Option<String>)
    ensures
        r is Some <==> valid_utf8(bytes@),
        r matches Some(t) ==> t@ == decode_utf8(bytes@),
{
    match core::str::from_utf8(bytes) {
        Ok(t) => Some(t.to_string()),
        Err(_) => None,
    }
}

/// The text that `String::from_utf8_lossy` makes of `bytes`.
pub uninterp spec fn utf8_lossy(bytes: Seq<u8>) -> Seq<char>;

/// `String::from_utf8_lossy` gives the text that the bytes encode where they are well-formed
/// UTF-8. Elsewhere it puts replacement characters for what is malformed; which ones is left
/// unsaid but for the name of the result.
#[verifier::external_body]
pub(crate) fn lossy_text(bytes: &[u8]) -> (r: String)
    ensures
        r@ == utf8_lossy(bytes@),
        valid_utf8(bytes@) ==> r@ == decode_utf8(bytes@),
{
    String::from_utf8_lossy(bytes).into_owned()
}

/// A text, where there is one.
pub open spec fn text_view(s: Option<String>) -> Option<Seq<char>> {
    match s {
        Some(t) => Some(t@),
        None => None,
    }
}

/// The bytes of a string, where there is one.
pub open spec fn bytes_view(string: Option<&[u8]>) -> Option<Seq<u8>> {
    match string {
        Some(bytes) => Some(bytes@),
        None => None,
    }
}

/// The texts of `v`.
pub open spec fn views(v: Seq<String>) -> Seq<Seq<char>> {
    Seq::new(v.len(), |i: int| v[i]@)
}

/// The length of the text that ends at the first NUL, or of all of `bytes`.
pub open spec fn text_len(bytes: Seq<u8>) -> nat
    decreases bytes.len(),
{
    if bytes.len() == 0 || bytes[0] == 0 {
        0
    } else {
        1 + text_len(bytes.drop_first())
    }
}

/// The text up to the first NUL holds no NUL, and ends at one or at the end of the bytes.
pub proof fn text_ends_at_nul(bytes: Seq<u8>)
    ensures
        text_len(bytes) <= bytes.len(),
        forall|i: int| 0 <= i < text_len(bytes) ==> #[trigger] bytes[i] != 0,
        text_len(bytes) < bytes.len() ==> bytes[text_len(bytes) as int] == 0,
    decreases bytes.len(),
{
    if bytes.len() > 0 && bytes[0] != 0 {
        let rest = bytes.drop_first();
        text_ends_at_nul(rest);
        assert forall|i: int| 0 <= i < text_len(bytes) implies #[trigger] bytes[i] != 0 by {
            if i > 0 {
                assert(rest[i - 1] == bytes[i]);
            }
        }
    }
}

/// The length of the text that ends at the first NUL, or of all of `bytes`.
pub fn until_nul(bytes: &[u8]) -> (r: usize)
    ensures
        r == text_len(bytes@),
        r <= bytes@.len(),
{
    let mut i: usize = 0;
    assert(bytes@.skip(0) =~= bytes@);
    while i < bytes.len()
        invariant
            i <= bytes@.len(),
            text_len(bytes@) == i + text_len(bytes@.skip(i as int)),
        decreases bytes@.len() - i,
    {
        if bytes[i] == 0 {
            return i;
        }
        assert(bytes@.skip(i as int).drop_first() =~= bytes@.skip(i + 1));
        i += 1;
    }
    i
}

/// The characters of `s`.
pub fn chars_of(s: &str) -> (r: Vec<char>)
    ensures
        r@ == s@,
{
    let mut out: Vec<char> = Vec::new();
    for c in it: s.chars()
        invariant
            it.seq() == s@,
            out@ == s@.take(it.index() as int),
    {
        out.push(c);
    }
    out
}

/// Whether two texts are the same.
pub fn text_eq(a: &str, b: &str) -> (r: bool)
    ensures
        r == (a@ == b@),
{
    a.to_owned() == b.to_owned()
}

/// Whether `part` stands in `whole` at position `i`.
pub open spec fn occurs_at(whole: Seq<char>, part: Seq<char>, i: int) -> bool {
    0 <= i && i + part.len() <= whole.len() && whole.subrange(i, i + part.len()) == part
}

/// Whether `part` stands somewhere in `whole`.
pub open spec fn occurs(whole: Seq<char>, part: Seq<char>) -> bool {
    exists|i: int| occurs_at(whole, part, i)
}

/// Whether `whole` begins with `part`.
pub open spec fn begins(whole: Seq<char>, part: Seq<char>) -> bool {
    occurs_at(whole, part, 0)
}

fn occurs_at_index(whole: &Vec<char>, part: &Vec<char>, i: usize) -> (r: bool)
    requires
        i <= whole@.len(),
    ensures
        r == occurs_at(whole@, part@, i as int),
{
    if part.len() > whole.len() - i {
        return false;
    }
    let mut k: usize = 0;
    while k < part.len()
        invariant
            i + part@.len() <= whole.len(),
            k <= part@.len(),
            forall|j: int| 0 <= j < k ==> whole@[i + j] == part@[j],
        decreases part@.len() - k,
    {
        if whole[i + k] != part[k] {
            proof {
                let s = whole@.subrange(i as int, i + part@.len());
                assert(s[k as int] != part@[k as int]);
            }
            return false;
        }
        k += 1;
    }
    assert(whole@.subrange(i as int, i + part@.len()) =~= part@);
    true
}

/// Whether `part` stands somewhere in `whole`.
pub fn contains_text(whole: &str, part: &str) -> (r: bool)
    ensures
        r == occurs(whole@, part@),
{
    let w = chars_of(whole);
    let p = chars_of(part);
    let mut i: usize = 0;
    while i < w.len()
        invariant
            w@ == whole@,
            p@ == part@,
            i <= w@.len(),
            forall|j: int| 0 <= j < i ==> !occurs_at(w@, p@, j),
        decreases w@.len() - i,
    {
        if occurs_at_index(&w, &p, i) {
            return true;
        }
        i += 1;
    }
    let last = occurs_at_index(&w, &p, i);
    proof {
        if !last {
            assert forall|j: int| !occurs_at(w@, p@, j) by {}
        }
    }
    last
}

/// Whether `whole` begins with `part`.
pub fn begins_with(whole: &str, part: &str) -> (r: bool)
    ensures
        r == begins(whole@, part@),
{
    let w = chars_of(whole);
    let p = chars_of(part);
    occurs_at_index(&w, &p, 0)
}

/// The digit of value `d`, letters in lower case.
pub open spec fn digit(d: nat) -> char {
    if d < 10 {
        (('0' as u32) + d) as char
    } else {
        (('a' as u32) + (d - 10)) as char
    }
}

/// `n` written in `base`, without leading zeros.
pub open spec fn digits(n: nat, base: nat) -> Seq<char>
    decreases n,
{
    if base < 2 || n < base {
        seq![digit(n)]
    } else {
        proof {
            assert(n / base < n) by (nonlinear_arith)
                requires
                    2 <= base <= n,
            ;
        }
        digits(n / base, base).push(digit(n % base))
    }
}

/// `n` in decimal.
pub open spec fn decimal(n: int) -> Seq<char> {
    if n < 0 {
        seq!['-'] + digits((-n) as nat, 10)
    } else {
        digits(n as nat, 10)
    }
}

/// `n` in hexadecimal.
pub open spec fn hex(n: nat) -> Seq<char> {
    digits(n, 16)
}

/// `width` copies of `0`, less the length of `s`.
pub open spec fn padding(s: Seq<char>, width: nat) -> Seq<char> {
    Seq::new(
        if s.len() < width {
            (width - s.len()) as nat
        } else {
            0
        },
        |i: int| '0',
    )
}

/// `s` with zeros in front, to at least `width` characters.
pub open spec fn padded(s: Seq<char>, width: nat) -> Seq<char> {
    padding(s, width) + s
}

/// `n` in decimal with zeros in front, to at least `width` characters, the sign among them.
pub open spec fn padded_decimal(n: int, width: nat) -> Seq<char> {
    if n < 0 {
        seq!['-'] + padded(
            digits((-n) as nat, 10),
            if width > 0 {
                (width - 1) as nat
            } else {
                0
            },
        )
    } else {
        padded(digits(n as nat, 10), width)
    }
}

/// A number is told by its digits.
pub proof fn digits_tell_the_number(m: nat, n: nat, base: nat)
    requires
        2 <= base <= 16,
        digits(m, base) == digits(n, base),
    ensures
        m == n,
    decreases m,
{
    let dm = digits(m, base);
    let dn = digits(n, base);
    lemma_digits_len(m / base, base);
    lemma_digits_len(n / base, base);
    assert(m % base < base && n % base < base && m / base <= m) by (nonlinear_arith)
        requires
            2 <= base,
    ;
    if m < base || n < base {
        assert(dm.len() == 1 && dn.len() == 1);
        assert(m < base && n < base);
        assert(dm[0] == digit(m) && dn[0] == digit(n));
        lemma_digit_tells(m, n);
    } else {
        assert(dm.last() == digit(m % base) && dn.last() == digit(n % base));
        lemma_digit_tells(m % base, n % base);
        assert(dm.drop_last() =~= digits(m / base, base));
        assert(dn.drop_last() =~= digits(n / base, base));
        assert(m / base < m) by (nonlinear_arith)
            requires
                2 <= base <= m,
        ;
        digits_tell_the_number(m / base, n / base, base);
        assert(m == m / base * base + m % base && n == n / base * base + n % base)
            by (nonlinear_arith)
            requires
                2 <= base,
        ;
    }
}

proof fn lemma_digit_tells(d: nat, e: nat)
    requires
        d < 16,
        e < 16,
        digit(d) == digit(e),
    ensures
        d == e,
{
    assert(digit(d) as u32 == (if d < 10 {
        48 + d
    } else {
        87 + d
    }));
    assert(digit(e) as u32 == (if e < 10 {
        48 + e
    } else {
        87 + e
    }));
}

/// There is at least one digit.
pub proof fn lemma_digits_len(n: nat, base: nat)
    ensures
        digits(n, base).len() >= 1,
{
}

fn digit_char(d: u8) -> (r: char)
    requires
        d < 16,
    ensures
        r == digit(d as nat),
{
    if d < 10 {
        (48 + d) as char
    } else {
        (87 + d) as char
    }
}

/// Appends `n` in `base`.
pub fn push_digits(out: &mut String, n: u64, base: u64)
    requires
        2 <= base <= 16,
    ensures
        final(out)@ == old(out)@ + digits(n as nat, base as nat),
    decreases n,
{
    if n < base {
        out.push(digit_char(n as u8));
    } else {
        assert(n / base < n) by (nonlinear_arith)
            requires
                2 <= base <= n,
        ;
        push_digits(out, n / base, base);
        out.push(digit_char((n % base) as u8));
    }
    assert(out@ =~= old(out)@ + digits(n as nat, base as nat));
}

/// Appends `n` in decimal.
pub fn push_decimal(out: &mut String, n: u64)
    ensures
        final(out)@ == old(out)@ + decimal(n as int),
{
    push_digits(out, n, 10);
}

/// Appends the signed number `n` in decimal.
pub fn push_signed(out: &mut String, n: i32)
    ensures
        final(out)@ == old(out)@ + decimal(n as int),
{
    if n < 0 {
        out.push('-');
        push_digits(out, (-(n as i64)) as u64, 10);
        assert(out@ =~= old(out)@ + decimal(n as int));
    } else {
        push_digits(out, n as u64, 10);
    }
}

/// Appends `0x` and `n` in hexadecimal.
pub fn push_hex(out: &mut String, n: u64)
    ensures
        final(out)@ == old(out)@ + "0x"@ + hex(n as nat),
{
    out.append("0x");
    push_digits(out, n, 16);
}

/// Appends `n` in `base`, with zeros in front to at least `width` characters.
pub fn push_padded(out: &mut String, n: u64, base: u64, width: usize)
    requires
        2 <= base <= 16,
    ensures
        final(out)@ == old(out)@ + padded(digits(n as nat, base as nat), width as nat),
{
    let mut number = String::new();
    push_digits(&mut number, n, base);
    let mut len: usize = chars_of(number.as_str()).len();
    let ghost text = number@;
    let ghost start = out@;
    let ghost first = len;
    while len < width
        invariant
            first == text.len(),
            first <= len,
            len <= width || len == first,
            out@ == start + Seq::new((len - first) as nat, |i: int| '0'),
        decreases width - len,
    {
        out.push('0');
        len += 1;
        assert(Seq::new((len - first) as nat, |i: int| '0') =~= Seq::new(
            (len - 1 - first) as nat,
            |i: int| '0',
        ).push('0'));
    }
    out.append(number.as_str());
    assert(out@ =~= start + padded(text, width as nat));
}

/// Appends the signed number `n` in decimal, with zeros in front to at least `width` characters.
pub fn push_padded_signed(out: &mut String, n: i32, width: usize)
    ensures
        final(out)@ == old(out)@ + padded_decimal(n as int, width as nat),
{
    if n < 0 {
        out.push('-');
        let rest: usize = if width > 0 {
            width - 1
        } else {
            0
        };
        push_padded(out, (-(n as i64)) as u64, 10, rest);
        assert(out@ =~= old(out)@ + padded_decimal(n as int, width as nat));
    } else {
        push_padded(out, n as u64, 10, width);
    }
}

/// A text begins with another exactly where that is a prefix of it.
pub proof fn begins_is_a_prefix(whole: Seq<char>, part: Seq<char>)
    ensures
        begins(whole, part) == part.is_prefix_of(whole),
{
    if part.len() <= whole.len() {
        assert(whole.subrange(0, part.len() as int) =~= whole.take(part.len() as int));
    }
}

/// What stands between two texts occurs in the whole.
pub proof fn lemma_occurs_inside(front: Seq<char>, part: Seq<char>, back: Seq<char>)
    ensures
        occurs(front + part + back, part),
{
    let whole = front + part + back;
    let i = front.len() as int;
    assert(whole.subrange(i, i + part.len()) =~= part);
    assert(occurs_at(whole, part, i));
}

/// A text occurs in another exactly where the other is that text with something, or nothing, before
/// and behind it.
pub proof fn occurring_is_standing_between(whole: Seq<char>, part: Seq<char>)
    ensures
        occurs(whole, part) <==> exists|front: Seq<char>, back: Seq<char>|
            whole == #[trigger] (front + part + back),
{
    if occurs(whole, part) {
        let i = choose|i: int| occurs_at(whole, part, i);
        let (front, back) = (whole.take(i), whole.skip(i + part.len()));
        assert(whole =~= front + whole.subrange(i, i + part.len()) + back);
        assert(whole == front + part + back);
    }
    if exists|front: Seq<char>, back: Seq<char>| whole == #[trigger] (front + part + back) {
        let (front, back) = choose|front: Seq<char>, back: Seq<char>|
            whole == #[trigger] (front + part + back);
        lemma_occurs_inside(front, part, back);
    }
}

/// The texts of a list of strings are its strings, one by one.
pub proof fn texts_are_the_strings(v: Seq<String>, o: Option<String>)
    ensures
        views(v).len() == v.len(),
        forall|i: int| 0 <= i < v.len() ==> #[trigger] views(v)[i] == v[i]@,
        text_view(o) is Some <==> o is Some,
        o matches Some(s) ==> text_view(o) == Some(s@),
{
}

/// What a digit stands for.
pub open spec fn worth(c: char) -> int {
    if '0' <= c && c <= '9' {
        c as u32 - 48
    } else if 'a' <= c && c <= 'f' {
        c as u32 - 87
    } else {
        -1
    }
}

/// The number that a numeral in `base` stands for.
pub open spec fn reading(s: Seq<char>, base: nat) -> int
    decreases s.len(),
{
    if s.len() == 0 {
        0
    } else {
        reading(s.drop_last(), base) * base + worth(s.last())
    }
}

proof fn lemma_worth(d: nat)
    requires
        d < 16,
    ensures
        worth(digit(d)) == d,
{
    assert(digit(d) as u32 == (if d < 10 {
        48 + d
    } else {
        87 + d
    }));
}

/// A number that is written in a base is read back in it: its numeral is made of digits of that
/// base, the most significant first, and begins with a zero only where it is zero.
pub proof fn numerals_are_read_back(n: nat, base: nat)
    requires
        2 <= base <= 16,
    ensures
        reading(digits(n, base), base) == n,
        forall|i: int|
            0 <= i < digits(n, base).len() ==> 0 <= worth(#[trigger] digits(n, base)[i]) < base,
        n > 0 ==> worth(digits(n, base)[0]) > 0,
        digits(n, base).len() > 0,
        n == 0 ==> digits(n, base).len() == 1,
    decreases n,
{
    let s = digits(n, base);
    if n < base {
        lemma_worth(n);
        assert(s.drop_last() =~= Seq::<char>::empty());
        assert(s.last() == digit(n));
        assert(reading(s.drop_last(), base) == 0);
        assert(0 * base == 0);
    } else {
        assert(n / base < n && n % base < base && n == n / base * base + n % base && n / base > 0)
            by (nonlinear_arith)
            requires
                2 <= base <= n,
        ;
        numerals_are_read_back(n / base, base);
        lemma_worth(n % base);
        let front = digits(n / base, base);
        assert(s.drop_last() =~= front);
        assert(s.last() == digit(n % base));
        assert(s[0] == front[0]);
        assert forall|i: int| 0 <= i < s.len() implies 0 <= worth(#[trigger] s[i]) < base by {
            if i < front.len() {
                assert(s[i] == front[i]);
            }
        }
    }
}

/// Zeros in front change nothing but the length.
proof fn lemma_zeros(k: nat, s: Seq<char>, base: nat)
    ensures
        reading(Seq::new(k, |i: int| '0') + s, base) == reading(s, base),
    decreases s.len(), k,
{
    let zeros = Seq::new(k, |i: int| '0');
    if s.len() > 0 {
        lemma_zeros(k, s.drop_last(), base);
        assert((zeros + s).drop_last() =~= zeros + s.drop_last());
        assert((zeros + s).last() == s.last());
    } else if k > 0 {
        let fewer = Seq::new((k - 1) as nat, |i: int| '0');
        assert((zeros + s).drop_last() =~= fewer + s);
        assert((zeros + s).last() == '0');
        lemma_zeros((k - 1) as nat, s, base);
        assert(0 * base == 0);
    } else {
        assert(zeros + s =~= s);
    }
}

/// `10` times itself, `k` factors.
pub open spec fn tens(k: nat) -> nat
    decreases k,
{
    if k == 0 {
        1
    } else {
        10 * tens((k - 1) as nat)
    }
}

proof fn lemma_few_digits(n: nat, k: nat)
    requires
        k > 0,
        n < tens(k),
    ensures
        digits(n, 10).len() <= k,
    decreases k,
{
    if n >= 10 {
        assert(tens(1) == 10) by {
            reveal_with_fuel(tens, 2);
        }
        assert(n / 10 < tens((k - 1) as nat));
        lemma_few_digits(n / 10, (k - 1) as nat);
    }
}

/// A number with zeros in front is read back, is as wide as was asked, and no wider where it has no
/// more digits.
pub proof fn padded_numbers_are_read_back(n: nat, width: nat)
    requires
        width > 0,
    ensures
        reading(padded(digits(n, 10), width), 10) == n,
        padded(digits(n, 10), width).len() >= width,
        n < tens(width) ==> padded(digits(n, 10), width).len() == width,
        forall|i: int|
            0 <= i < padded(digits(n, 10), width).len() ==> 0 <= worth(
                #[trigger] padded(digits(n, 10), width)[i],
            ) < 10,
        padded_decimal(n as int, width) == padded(digits(n, 10), width),
{
    let s = digits(n, 10);
    numerals_are_read_back(n, 10);
    lemma_zeros(padding(s, width).len(), s, 10);
    assert(padding(s, width) =~= Seq::new(padding(s, width).len(), |i: int| '0'));
    if n < tens(width) {
        lemma_few_digits(n, width);
    }
    let p = padded(s, width);
    let k = padding(s, width).len() as int;
    assert forall|i: int| 0 <= i < p.len() implies 0 <= worth(#[trigger] p[i]) < 10 by {
        if i >= k {
            assert(p[i] == s[i - k]);
        }
    }
}

/// A signed number is its sign, where it is negative, and its numeral. A hexadecimal one is read
/// back in base 16.
pub proof fn signed_numbers_are_read_back(n: int, h: nat)
    ensures
        n >= 0 ==> reading(decimal(n), 10) == n,
        n < 0 ==> decimal(n)[0] == '-' && reading(decimal(n).skip(1), 10) == -n,
        n >= 0 ==> worth(decimal(n)[0]) >= 0,
        reading(hex(h), 16) == h,
{
    numerals_are_read_back(
        (if n < 0 {
            -n
        } else {
            n
        }) as nat,
        10,
    );
    numerals_are_read_back(h, 16);
    if n < 0 {
        assert(decimal(n).skip(1) =~= digits((-n) as nat, 10));
    }
}

/// A byte in two hexadecimal digits is read back.
pub proof fn bytes_are_read_back(b: u8)
    ensures
        padded(digits(b as nat, 16), 2).len() == 2,
        reading(padded(digits(b as nat, 16), 2), 16) == b,
{
    let s = digits(b as nat, 16);
    numerals_are_read_back(b as nat, 16);
    lemma_zeros(padding(s, 2).len(), s, 16);
    assert(padding(s, 2) =~= Seq::new(padding(s, 2).len(), |i: int| '0'));
    reveal_with_fuel(digits, 3);
    assert(s.len() <= 2);
}

/// The bytes of a string are its bytes, and there are none of a string that is not there.
pub proof fn bytes_are_the_string(string: Option<&[u8]>)
    ensures
        bytes_view(string) is Some <==> string is Some,
        string matches Some(b) ==> bytes_view(string) == Some(b@),
{
}

} // verus!
