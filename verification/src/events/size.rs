//! How long the lines are.
use super::format::{
    calendar_time, clock_time, event_line, event_text, CalendarTime,
    EventTime,
};
use super::json::{escape_char, escaped, is_control};
use super::slot::{Slot, SlotFormatterFn};
use crate::text::{digits, padded, padded_decimal};
use vstd::prelude::*;
use vstd::utf8::{decode_utf8_encode_utf8, encode_utf8, valid_utf8};

verus! {

/// How many bytes no line exceeds.
pub const LINE_MAX: usize = 8192;

/// The number of bytes of `t`.
pub open spec fn size(t: Seq<char>) -> nat {
    encode_utf8(t).len()
}

proof fn lemma_size_concat(a: Seq<char>, b: Seq<char>)
    ensures
        size(a + b) == size(a) + size(b),
    decreases a.len(),
{
    if a.len() == 0 {
        assert(a + b =~= b);
    } else {
        assert((a + b).drop_first() =~= a.drop_first() + b);
        assert((a + b)[0] == a[0]);
        lemma_size_concat(a.drop_first(), b);
    }
}

proof fn lemma_cat(a: Seq<char>, b: Seq<char>, x: int, y: int)
    requires
        size(a) <= x,
        size(b) <= y,
    ensures
        size(a + b) <= x + y,
{
    lemma_size_concat(a, b);
}

/// No character has more than four bytes.
proof fn lemma_width(t: Seq<char>)
    ensures
        size(t) <= 4 * t.len(),
    decreases t.len(),
{
    if t.len() > 0 {
        lemma_width(t.drop_first());
    }
}

proof fn lemma_size_one(c: char)
    ensures
        1 <= size(seq![c]) <= 4,
        (c as u32) < 0x80 ==> size(seq![c]) == 1,
{
    let t = seq![c];
    assert(t.drop_first() =~= Seq::<char>::empty());
    reveal_with_fuel(encode_utf8, 2);
}

proof fn lemma_escape_char_size(c: char)
    ensures
        size(escape_char(c)) <= 6 * size(seq![c]),
{
    lemma_size_one(c);
    let e = escape_char(c);
    if c == '"' || c == '\\' || c == '\n' || c == '\r' || c == '\t' || is_control(c) {
        lemma_ascii_escape(c);
    } else {
        assert(e =~= seq![c]);
    }
}

proof fn lemma_ascii_escape(c: char)
    requires
        c == '"' || c == '\\' || c == '\n' || c == '\r' || c == '\t' || is_control(c),
    ensures
        size(escape_char(c)) <= 6,
        (c as u32) < 0x80,
{
    let e = escape_char(c);
    if is_control(c) && c != '\n' && c != '\r' && c != '\t' {
        super::json::lemma_hex4(c);
        let n = (c as u32) as nat;
        let (a, b) = (crate::text::digit(n / 16), crate::text::digit(n % 16));
        assert(e =~= seq!['\\'] + seq!['u'] + seq!['0'] + seq!['0'] + seq![a] + seq![b]);
        assert((a as u32) < 0x80 && (b as u32) < 0x80);
        lemma_size_one('\\');
        lemma_size_one('u');
        lemma_size_one('0');
        lemma_size_one(a);
        lemma_size_one(b);
        lemma_cat(seq!['\\'], seq!['u'], 1, 1);
        lemma_cat(seq!['\\'] + seq!['u'], seq!['0'], 2, 1);
        lemma_cat(seq!['\\'] + seq!['u'] + seq!['0'], seq!['0'], 3, 1);
        lemma_cat(seq!['\\'] + seq!['u'] + seq!['0'] + seq!['0'], seq![a], 4, 1);
        lemma_cat(seq!['\\'] + seq!['u'] + seq!['0'] + seq!['0'] + seq![a], seq![b], 5, 1);
    } else {
        let d = e[1];
        assert(e =~= seq!['\\'] + seq![d]);
        lemma_size_one('\\');
        lemma_size_one(d);
        lemma_cat(seq!['\\'], seq![d], 1, 1);
    }
}

/// Escaping makes no more than six bytes of one.
proof fn lemma_escaped_size(t: Seq<char>)
    ensures
        size(escaped(t)) <= 6 * size(t),
    decreases t.len(),
{
    if t.len() > 0 {
        let (front, last) = (t.drop_last(), t.last());
        lemma_escaped_size(front);
        lemma_escape_char_size(last);
        lemma_size_concat(front, seq![last]);
        assert(front + seq![last] =~= t);
        lemma_size_concat(escaped(front), escape_char(last));
    }
}

spec fn ten_to(k: nat) -> nat
    decreases k,
{
    if k == 0 {
        1
    } else {
        10 * ten_to((k - 1) as nat)
    }
}

proof fn lemma_digits_bound(n: nat, k: nat)
    requires
        n < ten_to(k),
        k >= 1,
    ensures
        digits(n, 10).len() <= k,
    decreases k,
{
    if n >= 10 {
        if k == 1 {
            assert(ten_to(1) == 10 * ten_to(0));
            assert(ten_to(0) == 1);
        }
        assert(n / 10 < ten_to((k - 1) as nat));
        lemma_digits_bound(n / 10, (k - 1) as nat);
    }
}

proof fn lemma_u64_digits(n: u64)
    ensures
        size(digits(n as nat, 10)) <= 80,
        digits(n as nat, 10).len() <= 20,
{
    assert(ten_to(20) == 100000000000000000000) by {
        reveal_with_fuel(ten_to, 21);
    }
    lemma_digits_bound(n as nat, 20);
    lemma_width(digits(n as nat, 10));
}

proof fn lemma_padded_u64(n: u64, width: nat)
    requires
        width <= 20,
    ensures
        padded(digits(n as nat, 10), width).len() <= 20,
{
    lemma_u64_digits(n);
}

proof fn lemma_padded_i32(n: int, width: nat)
    requires
        -0x80000000 <= n <= 0x7fffffff,
        width <= 11,
    ensures
        padded_decimal(n, width).len() <= 11,
{
    assert(ten_to(10) == 10000000000) by {
        reveal_with_fuel(ten_to, 11);
    }
    if n < 0 {
        lemma_digits_bound((-n) as nat, 10);
    } else {
        lemma_digits_bound(n as nat, 10);
    }
}

proof fn lemma_clock_time_size(t: EventTime)
    ensures
        size(clock_time(t)) <= 400,
{
    lemma_padded_u64((t.sec / 3600 % 24) as u64, 2);
    lemma_padded_u64((t.sec / 60 % 60) as u64, 2);
    lemma_padded_u64((t.sec % 60) as u64, 2);
    lemma_padded_u64(t.usec, 6);
    reveal_strlit(":");
    reveal_strlit(".");
    lemma_width(clock_time(t));
}

proof fn lemma_calendar_time_size(c: CalendarTime, usec: u64)
    requires
        c.tm_year <= i32::MAX - 1900,
        c.tm_mon < i32::MAX,
    ensures
        size(calendar_time(c, usec)) <= 400,
{
    lemma_padded_i32(c.tm_year + 1900, 4);
    lemma_padded_i32(c.tm_mon + 1, 2);
    lemma_padded_i32(c.tm_mday as int, 2);
    lemma_padded_i32(c.tm_hour as int, 2);
    lemma_padded_i32(c.tm_min as int, 2);
    lemma_padded_i32(c.tm_sec as int, 2);
    lemma_padded_u64((usec / 1000) as u64, 3);
    reveal_strlit(":");
    reveal_strlit(".");
    reveal_strlit("-");
    reveal_strlit("T");
    reveal_strlit("Z");
    lemma_width(calendar_time(c, usec));
}

/// The captured text has no more bytes than were captured, but for the mark of bytes that are no
/// text.
proof fn lemma_text_size(s: Slot)
    requires
        s.wf(),
    ensures
        size(s.str1_text()) <= 512,
        size(escaped(s.str1_text())) <= 3072,
{
    if valid_utf8(s.str1()) {
        decode_utf8_encode_utf8(s.str1());
    } else {
        reveal_strlit("<invalid>");
        lemma_width("<invalid>"@);
    }
    lemma_escaped_size(s.str1_text());
}

proof fn lemma_open_ecs_size(x: Seq<char>, p: Seq<char>, o: Seq<char>, m: Seq<char>)
    requires
        size(x) <= 512,
        size(p) <= 3072,
        size(o) <= 80,
        size(m) <= 80,
    ensures
        size("\"event\":{\"category\":[\"process\"],\"action\":\"open\"},\"message\":\"[mtdi] Caught open("@ + p + ", "@ + o + ", "@ + m + ")\",\"mtdi\":{\"path\":\""@ + p + "\",\"oflag\":"@ + o + ",\"mode\":"@ + m + "}"@) <= 6948,
{
    reveal_strlit("\"event\":{\"category\":[\"process\"],\"action\":\"open\"},\"message\":\"[mtdi] Caught open(");
    lemma_width("\"event\":{\"category\":[\"process\"],\"action\":\"open\"},\"message\":\"[mtdi] Caught open("@);
    reveal_strlit(", ");
    lemma_width(", "@);
    reveal_strlit(")\",\"mtdi\":{\"path\":\"");
    lemma_width(")\",\"mtdi\":{\"path\":\""@);
    reveal_strlit("\",\"oflag\":");
    lemma_width("\",\"oflag\":"@);
    reveal_strlit(",\"mode\":");
    lemma_width(",\"mode\":"@);
    reveal_strlit("}");
    lemma_width("}"@);
    lemma_cat("\"event\":{\"category\":[\"process\"],\"action\":\"open\"},\"message\":\"[mtdi] Caught open("@, p, 316, 3072);
    lemma_cat("\"event\":{\"category\":[\"process\"],\"action\":\"open\"},\"message\":\"[mtdi] Caught open("@ + p, ", "@, 3388, 8);
    lemma_cat("\"event\":{\"category\":[\"process\"],\"action\":\"open\"},\"message\":\"[mtdi] Caught open("@ + p + ", "@, o, 3396, 80);
    lemma_cat("\"event\":{\"category\":[\"process\"],\"action\":\"open\"},\"message\":\"[mtdi] Caught open("@ + p + ", "@ + o, ", "@, 3476, 8);
    lemma_cat("\"event\":{\"category\":[\"process\"],\"action\":\"open\"},\"message\":\"[mtdi] Caught open("@ + p + ", "@ + o + ", "@, m, 3484, 80);
    lemma_cat("\"event\":{\"category\":[\"process\"],\"action\":\"open\"},\"message\":\"[mtdi] Caught open("@ + p + ", "@ + o + ", "@ + m, ")\",\"mtdi\":{\"path\":\""@, 3564, 76);
    lemma_cat("\"event\":{\"category\":[\"process\"],\"action\":\"open\"},\"message\":\"[mtdi] Caught open("@ + p + ", "@ + o + ", "@ + m + ")\",\"mtdi\":{\"path\":\""@, p, 3640, 3072);
    lemma_cat("\"event\":{\"category\":[\"process\"],\"action\":\"open\"},\"message\":\"[mtdi] Caught open("@ + p + ", "@ + o + ", "@ + m + ")\",\"mtdi\":{\"path\":\""@ + p, "\",\"oflag\":"@, 6712, 40);
    lemma_cat("\"event\":{\"category\":[\"process\"],\"action\":\"open\"},\"message\":\"[mtdi] Caught open("@ + p + ", "@ + o + ", "@ + m + ")\",\"mtdi\":{\"path\":\""@ + p + "\",\"oflag\":"@, o, 6752, 80);
    lemma_cat("\"event\":{\"category\":[\"process\"],\"action\":\"open\"},\"message\":\"[mtdi] Caught open("@ + p + ", "@ + o + ", "@ + m + ")\",\"mtdi\":{\"path\":\""@ + p + "\",\"oflag\":"@ + o, ",\"mode\":"@, 6832, 32);
    lemma_cat("\"event\":{\"category\":[\"process\"],\"action\":\"open\"},\"message\":\"[mtdi] Caught open("@ + p + ", "@ + o + ", "@ + m + ")\",\"mtdi\":{\"path\":\""@ + p + "\",\"oflag\":"@ + o + ",\"mode\":"@, m, 6864, 80);
    lemma_cat("\"event\":{\"category\":[\"process\"],\"action\":\"open\"},\"message\":\"[mtdi] Caught open("@ + p + ", "@ + o + ", "@ + m + ")\",\"mtdi\":{\"path\":\""@ + p + "\",\"oflag\":"@ + o + ",\"mode\":"@ + m, "}"@, 6944, 4);
}

proof fn lemma_open_json_size(x: Seq<char>, p: Seq<char>, o: Seq<char>, m: Seq<char>)
    requires
        size(x) <= 512,
        size(p) <= 3072,
        size(o) <= 80,
        size(m) <= 80,
    ensures
        size("\"syscall\":\"open\",\"args\":{\"path\":\""@ + p + "\",\"oflag\":"@ + o + ",\"mode\":"@ + m + "}"@) <= 3440,
{
    reveal_strlit("\"syscall\":\"open\",\"args\":{\"path\":\"");
    lemma_width("\"syscall\":\"open\",\"args\":{\"path\":\""@);
    reveal_strlit("\",\"oflag\":");
    lemma_width("\",\"oflag\":"@);
    reveal_strlit(",\"mode\":");
    lemma_width(",\"mode\":"@);
    reveal_strlit("}");
    lemma_width("}"@);
    lemma_cat("\"syscall\":\"open\",\"args\":{\"path\":\""@, p, 132, 3072);
    lemma_cat("\"syscall\":\"open\",\"args\":{\"path\":\""@ + p, "\",\"oflag\":"@, 3204, 40);
    lemma_cat("\"syscall\":\"open\",\"args\":{\"path\":\""@ + p + "\",\"oflag\":"@, o, 3244, 80);
    lemma_cat("\"syscall\":\"open\",\"args\":{\"path\":\""@ + p + "\",\"oflag\":"@ + o, ",\"mode\":"@, 3324, 32);
    lemma_cat("\"syscall\":\"open\",\"args\":{\"path\":\""@ + p + "\",\"oflag\":"@ + o + ",\"mode\":"@, m, 3356, 80);
    lemma_cat("\"syscall\":\"open\",\"args\":{\"path\":\""@ + p + "\",\"oflag\":"@ + o + ",\"mode\":"@ + m, "}"@, 3436, 4);
}

proof fn lemma_open_plain_size(x: Seq<char>, p: Seq<char>, o: Seq<char>, m: Seq<char>)
    requires
        size(x) <= 512,
        size(p) <= 3072,
        size(o) <= 80,
        size(m) <= 80,
    ensures
        size("open(\""@ + x + "\", "@ + o + ", "@ + m + ")"@) <= 720,
{
    reveal_strlit("open(\"");
    lemma_width("open(\""@);
    reveal_strlit("\", ");
    lemma_width("\", "@);
    reveal_strlit(", ");
    lemma_width(", "@);
    reveal_strlit(")");
    lemma_width(")"@);
    lemma_cat("open(\""@, x, 24, 512);
    lemma_cat("open(\""@ + x, "\", "@, 536, 12);
    lemma_cat("open(\""@ + x + "\", "@, o, 548, 80);
    lemma_cat("open(\""@ + x + "\", "@ + o, ", "@, 628, 8);
    lemma_cat("open(\""@ + x + "\", "@ + o + ", "@, m, 636, 80);
    lemma_cat("open(\""@ + x + "\", "@ + o + ", "@ + m, ")"@, 716, 4);
}

proof fn lemma_raw_ecs_size(x: Seq<char>, p: Seq<char>, o: Seq<char>, m: Seq<char>)
    requires
        size(x) <= 512,
        size(p) <= 3072,
        size(o) <= 80,
        size(m) <= 80,
    ensures
        size("\"event\":{\"category\":[\"process\"],\"action\":\"log\"},\"message\":\"[mtdi] "@ + p + "\",\"mtdi\":{\"log\":\""@ + p + "\"}"@) <= 6484,
{
    reveal_strlit("\"event\":{\"category\":[\"process\"],\"action\":\"log\"},\"message\":\"[mtdi] ");
    lemma_width("\"event\":{\"category\":[\"process\"],\"action\":\"log\"},\"message\":\"[mtdi] "@);
    reveal_strlit("\",\"mtdi\":{\"log\":\"");
    lemma_width("\",\"mtdi\":{\"log\":\""@);
    reveal_strlit("\"}");
    lemma_width("\"}"@);
    lemma_cat("\"event\":{\"category\":[\"process\"],\"action\":\"log\"},\"message\":\"[mtdi] "@, p, 264, 3072);
    lemma_cat("\"event\":{\"category\":[\"process\"],\"action\":\"log\"},\"message\":\"[mtdi] "@ + p, "\",\"mtdi\":{\"log\":\""@, 3336, 68);
    lemma_cat("\"event\":{\"category\":[\"process\"],\"action\":\"log\"},\"message\":\"[mtdi] "@ + p + "\",\"mtdi\":{\"log\":\""@, p, 3404, 3072);
    lemma_cat("\"event\":{\"category\":[\"process\"],\"action\":\"log\"},\"message\":\"[mtdi] "@ + p + "\",\"mtdi\":{\"log\":\""@ + p, "\"}"@, 6476, 8);
}

proof fn lemma_raw_json_size(x: Seq<char>, p: Seq<char>, o: Seq<char>, m: Seq<char>)
    requires
        size(x) <= 512,
        size(p) <= 3072,
        size(o) <= 80,
        size(m) <= 80,
    ensures
        size("\"event\":\"log\",\"message\":\""@ + p + "\""@) <= 3176,
{
    reveal_strlit("\"event\":\"log\",\"message\":\"");
    lemma_width("\"event\":\"log\",\"message\":\""@);
    reveal_strlit("\"");
    lemma_width("\""@);
    lemma_cat("\"event\":\"log\",\"message\":\""@, p, 100, 3072);
    lemma_cat("\"event\":\"log\",\"message\":\""@ + p, "\""@, 3172, 4);
}

proof fn lemma_event_size(s: Slot, json: bool, ecs: bool)
    requires
        s.wf(),
    ensures
        size(event_text(s, json, ecs)) <= 6948,
{
    lemma_text_size(s);
    let x = s.str1_text();
    let p = escaped(x);
    let o = digits(s.args@[0] as nat, 10);
    let m = digits(s.args@[1] as nat, 10);
    lemma_u64_digits(s.args@[0]);
    lemma_u64_digits(s.args@[1]);
    match s.formatter {
        Some(SlotFormatterFn::Open) => {
            lemma_open_ecs_size(x, p, o, m);
            lemma_open_json_size(x, p, o, m);
            lemma_open_plain_size(x, p, o, m);
        },
        Some(SlotFormatterFn::Raw) => {
            lemma_raw_ecs_size(x, p, o, m);
            lemma_raw_json_size(x, p, o, m);
        },
        None => {},
    }
}

/// Every line fits in `LINE_MAX` bytes, so that it is written whole: what is captured of a string
/// is bounded, and escaping makes at most six bytes of one.
pub proof fn lines_fit(s: Slot, json: bool, ecs: bool, t: EventTime, c: CalendarTime)
    requires
        s.wf(),
        c.tm_year <= i32::MAX - 1900,
        c.tm_mon < i32::MAX,
    ensures
        encode_utf8(event_line(s, json, ecs, t, c)).len() <= LINE_MAX,
{
    let e = event_text(s, json, ecs);
    lemma_event_size(s, json, ecs);
    if ecs {
        let time = calendar_time(c, t.usec);
        lemma_calendar_time_size(c, t.usec);
        reveal_strlit("{\"@timestamp\":\"");
        reveal_strlit("\",");
        reveal_strlit("}\n");
        lemma_line_size("{\"@timestamp\":\""@, time, "\","@, e, "}\n"@);
    } else if json {
        lemma_clock_time_size(t);
        reveal_strlit("{\"timestamp\":\"");
        reveal_strlit("\",");
        reveal_strlit("}\n");
        lemma_line_size("{\"timestamp\":\""@, clock_time(t), "\","@, e, "}\n"@);
    } else {
        lemma_clock_time_size(t);
        reveal_strlit("[");
        reveal_strlit("] [mtdi] Caught ");
        reveal_strlit("\n");
        lemma_line_size("["@, clock_time(t), "] [mtdi] Caught "@, e, "\n"@);
    }
}

proof fn lemma_line_size(
    a: Seq<char>,
    time: Seq<char>,
    b: Seq<char>,
    e: Seq<char>,
    z: Seq<char>,
)
    requires
        a.len() <= 20,
        size(time) <= 400,
        b.len() <= 20,
        size(e) <= 6948,
        z.len() <= 2,
    ensures
        size(a + time + b + e + z) <= LINE_MAX,
{
    lemma_width(a);
    lemma_width(b);
    lemma_width(z);
    lemma_cat(a, time, 80, 400);
    lemma_cat(a + time, b, 480, 80);
    lemma_cat(a + time + b, e, 560, 6948);
    lemma_cat(a + time + b + e, z, 7508, 8);
}

} // verus!
