//! What the lines of a trace tell.
use super::document::{event_document, event_members, Json};
use super::format::{
    calendar_time, clock_time, event_line, event_text, event_usec, CalendarTime, Clock, EventTime,
};
use super::slot::{Slot, SlotFormatterFn};
use crate::text::{
    digits, padded, padded_decimal, padded_numbers_are_read_back, reading,
    signed_numbers_are_read_back, tens,
};
use vstd::prelude::*;
use vstd::utf8::{decode_utf8, valid_utf8};

verus! {

proof fn lemma_tens()
    ensures
        tens(2) == 100,
        tens(3) == 1000,
        tens(4) == 10_000,
        tens(6) == 1_000_000,
{
    reveal_with_fuel(tens, 7);
}

/// The time of day in a line is read back: hours, minutes and seconds with two digits each, that
/// together are the second of the day, and then the microsecond.
pub proof fn times_of_day_are_read_back(t: EventTime)
    ensures
        ({
            let s = clock_time(t);
            let hours = reading(s.subrange(0, 2), 10);
            let minutes = reading(s.subrange(3, 5), 10);
            let seconds = reading(s.subrange(6, 8), 10);
            &&& s.len() >= 15
            &&& t.usec < 1_000_000 ==> s.len() == 15
            &&& s[2] == ':' && s[5] == ':' && s[8] == '.'
            &&& 0 <= hours < 24 && 0 <= minutes < 60 && 0 <= seconds < 60
            &&& hours * 3600 + minutes * 60 + seconds == t.sec % 86400
            &&& reading(s.skip(9), 10) == t.usec
        }),
{
    let h = padded(digits((t.sec / 3600 % 24) as nat, 10), 2);
    let m = padded(digits((t.sec / 60 % 60) as nat, 10), 2);
    let x = padded(digits((t.sec % 60) as nat, 10), 2);
    let u = padded(digits(t.usec as nat, 10), 6);
    lemma_tens();
    padded_numbers_are_read_back((t.sec / 3600 % 24) as nat, 2);
    padded_numbers_are_read_back((t.sec / 60 % 60) as nat, 2);
    padded_numbers_are_read_back((t.sec % 60) as nat, 2);
    padded_numbers_are_read_back(t.usec as nat, 6);
    reveal_strlit(":");
    reveal_strlit(".");
    let s = clock_time(t);
    assert(s =~= h + ":"@ + m + ":"@ + x + "."@ + u);
    assert(s.subrange(0, 2) =~= h);
    assert(s.subrange(3, 5) =~= m);
    assert(s.subrange(6, 8) =~= x);
    assert(s.skip(9) =~= u);
}

proof fn lemma_second_of_the_day(sec: u64)
    ensures
        sec % 60 == (sec % 86400) % 60,
        sec / 60 % 60 == (sec % 86400) / 60 % 60,
        sec / 3600 % 24 == (sec % 86400) / 3600 % 24,
{
    let q = sec / 86400;
    let r = sec % 86400;
    assert(sec == 86400 * q + r);
    assert(sec / 60 == 1440 * q + r / 60);
    assert(sec / 3600 == 24 * q + r / 3600);
}

/// Two times are written alike exactly where they are whole days apart.
pub proof fn times_of_day_are_told_apart(a: EventTime, b: EventTime)
    ensures
        clock_time(a) == clock_time(b) <==> a.sec % 86400 == b.sec % 86400 && a.usec == b.usec,
{
    if clock_time(a) == clock_time(b) {
        times_of_day_are_read_back(a);
        times_of_day_are_read_back(b);
    }
    if a.sec % 86400 == b.sec % 86400 && a.usec == b.usec {
        lemma_second_of_the_day(a.sec);
        lemma_second_of_the_day(b.sec);
    }
}

/// A date in a line is read back: the year with four digits, month, day, hour, minute and second
/// with two digits each, and the millisecond with three.
pub proof fn dates_are_read_back(c: CalendarTime, usec: u64)
    requires
        0 <= c.tm_year + 1900 <= 9999,
        0 <= c.tm_mon < 12,
        0 <= c.tm_mday <= 31,
        0 <= c.tm_hour < 24,
        0 <= c.tm_min < 60,
        0 <= c.tm_sec <= 60,
        usec < 1_000_000,
    ensures
        ({
            let s = calendar_time(c, usec);
            &&& s.len() == 24
            &&& s[4] == '-' && s[7] == '-' && s[10] == 'T' && s[13] == ':' && s[16] == ':' && s[19]
                == '.' && s[23] == 'Z'
            &&& reading(s.subrange(0, 4), 10) == 1900 + c.tm_year
            &&& reading(s.subrange(5, 7), 10) == 1 + c.tm_mon
            &&& reading(s.subrange(8, 10), 10) == c.tm_mday
            &&& reading(s.subrange(11, 13), 10) == c.tm_hour
            &&& reading(s.subrange(14, 16), 10) == c.tm_min
            &&& reading(s.subrange(17, 19), 10) == c.tm_sec
            &&& 1000 * reading(s.subrange(20, 23), 10) <= usec < 1000 * reading(
                s.subrange(20, 23),
                10,
            ) + 1000
        }),
{
    let y = padded_decimal(c.tm_year + 1900, 4);
    let o = padded_decimal(c.tm_mon + 1, 2);
    let d = padded_decimal(c.tm_mday as int, 2);
    let h = padded_decimal(c.tm_hour as int, 2);
    let m = padded_decimal(c.tm_min as int, 2);
    let x = padded_decimal(c.tm_sec as int, 2);
    let u = padded(digits((usec / 1000) as nat, 10), 3);
    lemma_tens();
    padded_numbers_are_read_back((c.tm_year + 1900) as nat, 4);
    padded_numbers_are_read_back((c.tm_mon + 1) as nat, 2);
    padded_numbers_are_read_back(c.tm_mday as nat, 2);
    padded_numbers_are_read_back(c.tm_hour as nat, 2);
    padded_numbers_are_read_back(c.tm_min as nat, 2);
    padded_numbers_are_read_back(c.tm_sec as nat, 2);
    padded_numbers_are_read_back((usec / 1000) as nat, 3);
    reveal_strlit("-");
    reveal_strlit("T");
    reveal_strlit(":");
    reveal_strlit(".");
    reveal_strlit("Z");
    let s = calendar_time(c, usec);
    assert(s =~= y + "-"@ + o + "-"@ + d + "T"@ + h + ":"@ + m + ":"@ + x + "."@ + u + "Z"@);
    assert(s.subrange(0, 4) =~= y);
    assert(s.subrange(5, 7) =~= o);
    assert(s.subrange(8, 10) =~= d);
    assert(s.subrange(11, 13) =~= h);
    assert(s.subrange(14, 16) =~= m);
    assert(s.subrange(17, 19) =~= x);
    assert(s.subrange(20, 23) =~= u);
}

/// The time of a tick is that of the anchor and the time between them, to the microsecond below: a
/// tick is `numer / denom` nanoseconds. Ticks before the anchor have its time.
pub proof fn ticks_are_counted_from_the_anchor(clock: Clock, timestamp: u64)
    requires
        clock.denom > 0,
        (timestamp - clock.init_mach) * clock.numer <= u64::MAX,
        clock.init_usec + (timestamp - clock.init_mach) * clock.numer / clock.denom as int / 1000
            <= u64::MAX,
    ensures
        ({
            let later = event_usec(clock, timestamp) - clock.init_usec;
            if timestamp < clock.init_mach {
                later == 0
            } else {
                later * (1000 * clock.denom) <= (timestamp - clock.init_mach) * clock.numer < (later
                    + 1) * (1000 * clock.denom)
            }
        }),
{
    let d = clock.denom as int;
    if timestamp >= clock.init_mach {
        let n = (timestamp - clock.init_mach) * clock.numer;
        let q = n / d / 1000;
        assert(0 <= n) by (nonlinear_arith)
            requires
                n == (timestamp - clock.init_mach) * clock.numer,
                timestamp >= clock.init_mach,
        ;
        assert(0 <= q && q * (1000 * d) <= n < (q + 1) * (1000 * d)) by (nonlinear_arith)
            requires
                q == n / d / 1000,
                d >= 1,
                0 <= n,
        ;
    } else {
        assert(0 * clock.numer == 0);
        assert(0int / d == 0) by (nonlinear_arith)
            requires
                d >= 1,
        ;
    }
}

/// A line of plain text is the time of day in brackets, and what was caught.
pub proof fn plain_lines_tell_time_and_event(s: Slot, t: EventTime, c: CalendarTime)
    requires
        t.usec < 1_000_000,
    ensures
        ({
            let line = event_line(s, false, false, t, c);
            let text = event_text(s, false, false);
            &&& line.len() == 16 + 16 + text.len() + 1
            &&& line[0] == '['
            &&& line.subrange(1, 16) == clock_time(t)
            &&& line.subrange(16, 32) == "] [mtdi] Caught "@
            &&& line.subrange(32, 32 + text.len() as int) == text
            &&& line.last() == '\n'
        }),
{
    times_of_day_are_read_back(t);
    reveal_strlit("[");
    reveal_strlit("] [mtdi] Caught ");
    reveal_strlit("\n");
    let line = event_line(s, false, false, t, c);
    let text = event_text(s, false, false);
    assert(line =~= "["@ + clock_time(t) + "] [mtdi] Caught "@ + text + "\n"@);
    assert(line.subrange(1, 16) =~= clock_time(t));
    assert(line.subrange(16, 32) =~= "] [mtdi] Caught "@);
    assert(line.subrange(32, 32 + text.len() as int) =~= text);
}

/// Whether `text` is what is written in plain text of a call of `open` with these arguments.
pub open spec fn tells_open(text: Seq<char>, path: Seq<char>, oflag: u64, mode: u64) -> bool {
    exists|a: Seq<char>, b: Seq<char>|
        reading(a, 10) == oflag && reading(b, 10) == mode && text == #[trigger] ("open(\""@ + path
            + "\", "@ + a + ", "@ + b + ")"@)
}

/// The text of a slot is the first string that it holds, where that is well-formed.
pub open spec fn held_text(s: Slot) -> Seq<char> {
    let bytes = s.str_data@.subrange(0, s.str1_len as int);
    if valid_utf8(bytes) {
        decode_utf8(bytes)
    } else {
        "<invalid>"@
    }
}

/// In plain text a call of `open` is told by its path and by its two arguments, in this order, and
/// a log line by its message.
pub proof fn plain_events_tell_what_was_captured(s: Slot)
    requires
        s.wf(),
    ensures
        s.formatter == Some(SlotFormatterFn::Open) ==> tells_open(
            event_text(s, false, false),
            held_text(s),
            s.args@[0],
            s.args@[1],
        ),
        s.formatter == Some(SlotFormatterFn::Raw) ==> event_text(s, false, false) == held_text(s),
        s.formatter is None ==> event_text(s, false, false).len() == 0,
{
    let a = digits(s.args@[0] as nat, 10);
    let b = digits(s.args@[1] as nat, 10);
    signed_numbers_are_read_back(s.args@[0] as int, 0);
    signed_numbers_are_read_back(s.args@[1] as int, 0);
    assert(s.str1_text() == held_text(s)) by {
        assert(s.str_data@.subrange(0, s.str1_len as int) =~= s.str_data@.take(s.str1_len as int));
    }
    if s.formatter == Some(SlotFormatterFn::Open) {
        assert(event_text(s, false, false) == "open(\""@ + held_text(s) + "\", "@ + a + ", "@ + b
            + ")"@);
    }
}

/// Whether the object `j` has a member `name` with the value `v`.
pub open spec fn has_member(j: Json, name: Seq<char>, v: Json) -> bool {
    j matches Json::Object(members) && members.contains((name, v))
}

/// Whether the object `j` has a member `name`, which is an object with a member `inner` with the
/// value `v`.
pub open spec fn has_inner(j: Json, name: Seq<char>, inner: Seq<char>, v: Json) -> bool {
    exists|o: Json| #[trigger] has_member(j, name, o) && has_member(o, inner, v)
}

proof fn lemma_member(m: Seq<(Seq<char>, Json)>, i: int)
    requires
        0 <= i < m.len(),
    ensures
        has_member(Json::Object(m), m[i].0, m[i].1),
{
    assert(m[i] == (m[i].0, m[i].1));
}

proof fn lemma_inner(m: Seq<(Seq<char>, Json)>, i: int, o: Seq<(Seq<char>, Json)>, j: int)
    requires
        0 <= i < m.len(),
        0 <= j < o.len(),
        m[i].1 == Json::Object(o),
    ensures
        has_inner(Json::Object(m), m[i].0, o[j].0, o[j].1),
{
    lemma_member(m, i);
    lemma_member(o, j);
}

/// The document in a line of JSON tells the time of day, and of a call of `open` that it is one,
/// its path and its two arguments, each by its name; and of a log line its message.
pub proof fn json_documents_tell_what_was_captured(s: Slot, t: EventTime, c: CalendarTime)
    requires
        s.wf(),
    ensures
        ({
            let j = event_document(s, false, t, c);
            &&& has_member(j, "timestamp"@, Json::Text(clock_time(t)))
            &&& s.formatter == Some(SlotFormatterFn::Open) ==> {
                &&& has_member(j, "syscall"@, Json::Text("open"@))
                &&& has_inner(j, "args"@, "path"@, Json::Text(held_text(s)))
                &&& has_inner(j, "args"@, "oflag"@, Json::Number(s.args@[0] as nat))
                &&& has_inner(j, "args"@, "mode"@, Json::Number(s.args@[1] as nat))
            }
            &&& s.formatter == Some(SlotFormatterFn::Raw) ==> {
                &&& has_member(j, "event"@, Json::Text("log"@))
                &&& has_member(j, "message"@, Json::Text(held_text(s)))
            }
        }),
{
    assert(s.str1_text() == held_text(s)) by {
        assert(s.str_data@.subrange(0, s.str1_len as int) =~= s.str_data@.take(s.str1_len as int));
    }
    let m = seq![("timestamp"@, Json::Text(clock_time(t)))] + event_members(s, false);
    assert(event_document(s, false, t, c) == Json::Object(m));
    lemma_member(m, 0);
    if s.formatter == Some(SlotFormatterFn::Open) {
        let args = seq![
            ("path"@, Json::Text(held_text(s))),
            ("oflag"@, Json::Number(s.args@[0] as nat)),
            ("mode"@, Json::Number(s.args@[1] as nat)),
        ];
        lemma_member(m, 1);
        lemma_inner(m, 2, args, 0);
        lemma_inner(m, 2, args, 1);
        lemma_inner(m, 2, args, 2);
    }
    if s.formatter == Some(SlotFormatterFn::Raw) {
        lemma_member(m, 1);
        lemma_member(m, 2);
    }
}

/// The document in a line of ECS output tells the date, and of a call of `open` that it is one, its
/// path and its two arguments, each by its name, and the same in a message; and of a log line its
/// message.
pub proof fn ecs_documents_tell_what_was_captured(s: Slot, t: EventTime, c: CalendarTime)
    requires
        s.wf(),
    ensures
        ({
            let j = event_document(s, true, t, c);
            &&& has_member(j, "@timestamp"@, Json::Text(calendar_time(c, t.usec)))
            &&& s.formatter == Some(SlotFormatterFn::Open) ==> {
                &&& has_inner(j, "event"@, "action"@, Json::Text("open"@))
                &&& has_inner(j, "mtdi"@, "path"@, Json::Text(held_text(s)))
                &&& has_inner(j, "mtdi"@, "oflag"@, Json::Number(s.args@[0] as nat))
                &&& has_inner(j, "mtdi"@, "mode"@, Json::Number(s.args@[1] as nat))
                &&& exists|a: Seq<char>, b: Seq<char>|
                    reading(a, 10) == s.args@[0] && reading(b, 10) == s.args@[1] && has_member(
                        j,
                        "message"@,
                        Json::Text(
                            #[trigger] ("[mtdi] Caught open("@ + held_text(s) + ", "@ + a + ", "@
                                + b + ")"@),
                        ),
                    )
            }
            &&& s.formatter == Some(SlotFormatterFn::Raw) ==> {
                &&& has_inner(j, "event"@, "action"@, Json::Text("log"@))
                &&& has_member(j, "message"@, Json::Text("[mtdi] "@ + held_text(s)))
                &&& has_inner(j, "mtdi"@, "log"@, Json::Text(held_text(s)))
            }
        }),
{
    assert(s.str1_text() == held_text(s)) by {
        assert(s.str_data@.subrange(0, s.str1_len as int) =~= s.str_data@.take(s.str1_len as int));
    }
    let j = event_document(s, true, t, c);
    let m = seq![("@timestamp"@, Json::Text(calendar_time(c, t.usec)))] + event_members(s, true);
    assert(j == Json::Object(m));
    lemma_member(m, 0);
    let kind = |action: Seq<char>|
        seq![
            ("category"@, Json::List(seq![Json::Text("process"@)])),
            ("action"@, Json::Text(action)),
        ];
    if s.formatter == Some(SlotFormatterFn::Open) {
        let args = seq![
            ("path"@, Json::Text(held_text(s))),
            ("oflag"@, Json::Number(s.args@[0] as nat)),
            ("mode"@, Json::Number(s.args@[1] as nat)),
        ];
        lemma_inner(m, 1, kind("open"@), 1);
        lemma_member(m, 2);
        lemma_inner(m, 3, args, 0);
        lemma_inner(m, 3, args, 1);
        lemma_inner(m, 3, args, 2);
        let a = digits(s.args@[0] as nat, 10);
        let b = digits(s.args@[1] as nat, 10);
        signed_numbers_are_read_back(s.args@[0] as int, 0);
        signed_numbers_are_read_back(s.args@[1] as int, 0);
        let text = "[mtdi] Caught open("@ + held_text(s) + ", "@ + a + ", "@ + b + ")"@;
        assert(has_member(j, "message"@, Json::Text(text)));
    }
    if s.formatter == Some(SlotFormatterFn::Raw) {
        lemma_inner(m, 1, kind("log"@), 1);
        lemma_member(m, 2);
        lemma_inner(m, 3, seq![("log"@, Json::Text(held_text(s)))], 0);
    }
}

} // verus!
