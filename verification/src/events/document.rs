//! What the JSON lines are: each holds one JSON document.
use super::format::{
    calendar_time, clock_time, event_line, event_text, open_event, raw_event, CalendarTime,
    EventTime,
};
use super::json::{escape_char, escaped, is_control};
use super::slot::{Slot, SlotFormatterFn};
use crate::text::{digit, digits, numerals_are_read_back, padded, padded_decimal, reading};
use vstd::prelude::*;

verus! {

/// A JSON document.
pub enum Json {
    Number(nat),
    Text(Seq<char>),
    List(Seq<Json>),
    Object(Seq<(Seq<char>, Json)>),
}

/// A JSON string that stands for `text`.
pub open spec fn quoted(text: Seq<char>) -> Seq<char> {
    "\""@ + escaped(text) + "\""@
}

/// A document as it is written.
pub open spec fn written(j: Json) -> Seq<char>
    decreases j,
{
    match j {
        Json::Number(n) => digits(n, 10),
        Json::Text(t) => quoted(t),
        Json::List(items) => "["@ + written_items(items) + "]"@,
        Json::Object(members) => "{"@ + written_members(members) + "}"@,
    }
}

/// The items of a list, with commas between.
pub open spec fn written_items(items: Seq<Json>) -> Seq<char>
    decreases items,
{
    if items.len() == 0 {
        Seq::empty()
    } else if items.len() == 1 {
        written(items[0])
    } else {
        written_items(items.drop_last()) + ","@ + written(items[items.len() - 1])
    }
}

/// The members of an object, with commas between.
pub open spec fn written_members(members: Seq<(Seq<char>, Json)>) -> Seq<char>
    decreases members,
{
    if members.len() == 0 {
        Seq::empty()
    } else if members.len() == 1 {
        quoted(members[0].0) + ":"@ + written(members[0].1)
    } else {
        written_members(members.drop_last()) + ","@ + quoted(members[members.len() - 1].0) + ":"@
            + written(members[members.len() - 1].1)
    }
}

/// The members that an event adds to the document of its line.
pub open spec fn event_members(s: Slot, ecs: bool) -> Seq<(Seq<char>, Json)> {
    let text = s.str1_text();
    let (oflag, mode) = (s.args@[0] as nat, s.args@[1] as nat);
    let kind = |action: Seq<char>|
        Json::Object(
            seq![
                ("category"@, Json::List(seq![Json::Text("process"@)])),
                ("action"@, Json::Text(action)),
            ],
        );
    match s.formatter {
        Some(SlotFormatterFn::Open) => {
            let args = Json::Object(
                seq![
                    ("path"@, Json::Text(text)),
                    ("oflag"@, Json::Number(oflag)),
                    ("mode"@, Json::Number(mode)),
                ],
            );
            if ecs {
                seq![
                    ("event"@, kind("open"@)),
                    (
                        "message"@,
                        Json::Text(
                            "[mtdi] Caught open("@ + text + ", "@ + digits(oflag, 10) + ", "@
                                + digits(mode, 10) + ")"@,
                        ),
                    ),
                    ("mtdi"@, args),
                ]
            } else {
                seq![("syscall"@, Json::Text("open"@)), ("args"@, args)]
            }
        },
        Some(SlotFormatterFn::Raw) => if ecs {
            seq![
                ("event"@, kind("log"@)),
                ("message"@, Json::Text("[mtdi] "@ + text)),
                ("mtdi"@, Json::Object(seq![("log"@, Json::Text(text))])),
            ]
        } else {
            seq![("event"@, Json::Text("log"@)), ("message"@, Json::Text(text))]
        },
        None => Seq::empty(),
    }
}

/// The document in the line of an event.
pub open spec fn event_document(s: Slot, ecs: bool, t: EventTime, c: CalendarTime) -> Json {
    let time = if ecs {
        ("@timestamp"@, Json::Text(calendar_time(c, t.usec)))
    } else {
        ("timestamp"@, Json::Text(clock_time(t)))
    };
    Json::Object(seq![time] + event_members(s, ecs))
}

/// Whether `t` is written inside a JSON string as it is.
pub open spec fn plain(t: Seq<char>) -> bool {
    forall|i: int| 0 <= i < t.len() ==> #[trigger] t[i] != '"' && t[i] != '\\' && !is_control(t[i])
}

proof fn lemma_plain(t: Seq<char>)
    requires
        plain(t),
    ensures
        escaped(t) == t,
    decreases t.len(),
{
    if t.len() > 0 {
        assert forall|i: int| 0 <= i < t.drop_last().len() implies #[trigger] t.drop_last()[i]
            != '"' && t.drop_last()[i] != '\\' && !is_control(t.drop_last()[i]) by {
            assert(t.drop_last()[i] == t[i]);
        }
        lemma_plain(t.drop_last());
        assert(t[t.len() - 1] == t.last());
        assert(escape_char(t.last()) =~= seq![t.last()]);
        assert(escaped(t) =~= t);
    } else {
        assert(escaped(t) =~= t);
    }
}

proof fn lemma_escaped_concat(a: Seq<char>, b: Seq<char>)
    ensures
        escaped(a + b) == escaped(a) + escaped(b),
    decreases b.len(),
{
    if b.len() == 0 {
        assert(a + b =~= a);
        assert(escaped(a) + escaped(b) =~= escaped(a));
    } else {
        lemma_escaped_concat(a, b.drop_last());
        assert((a + b).drop_last() =~= a + b.drop_last());
        assert(escaped(a + b) =~= escaped(a) + escaped(b));
    }
}

proof fn lemma_digits_plain(n: nat)
    ensures
        plain(digits(n, 10)),
    decreases n,
{
    if n >= 10 {
        lemma_digits_plain(n / 10);
        let d = digit(n % 10);
        assert(digits(n, 10) == digits(n / 10, 10).push(d));
        assert(d as u32 == 48 + n % 10);
        assert forall|i: int| 0 <= i < digits(n, 10).len() implies #[trigger] digits(n, 10)[i]
            != '"' && digits(n, 10)[i] != '\\' && !is_control(digits(n, 10)[i]) by {
            if i < digits(n / 10, 10).len() {
                assert(digits(n, 10)[i] == digits(n / 10, 10)[i]);
            }
        }
    } else {
        assert(digit(n) as u32 == 48 + n);
        assert(digits(n, 10)[0] == digit(n));
    }
}

proof fn lemma_plain_concat(a: Seq<char>, b: Seq<char>)
    requires
        plain(a),
        plain(b),
    ensures
        plain(a + b),
{
    assert forall|i: int| 0 <= i < (a + b).len() implies #[trigger] (a + b)[i] != '"' && (a + b)[i]
        != '\\' && !is_control((a + b)[i]) by {
        if i < a.len() {
            assert((a + b)[i] == a[i]);
        } else {
            assert((a + b)[i] == b[i - a.len()]);
        }
    }
}

proof fn lemma_padded_plain(n: nat, width: nat)
    ensures
        plain(padded(digits(n, 10), width)),
{
    lemma_digits_plain(n);
    let p = crate::text::padding(digits(n, 10), width);
    assert(plain(p));
    lemma_plain_concat(p, digits(n, 10));
}

proof fn lemma_padded_decimal_plain(n: int, width: nat)
    ensures
        plain(padded_decimal(n, width)),
{
    if n < 0 {
        let w = if width > 0 {
            (width - 1) as nat
        } else {
            0
        };
        lemma_padded_plain((-n) as nat, w);
        assert(plain(seq!['-']));
        lemma_plain_concat(seq!['-'], padded(digits((-n) as nat, 10), w));
    } else {
        lemma_padded_plain(n as nat, width);
    }
}

proof fn lemma_clock_time_plain(t: EventTime)
    ensures
        plain(clock_time(t)),
{
    let h = padded(digits((t.sec / 3600 % 24) as nat, 10), 2);
    let m = padded(digits((t.sec / 60 % 60) as nat, 10), 2);
    let s = padded(digits((t.sec % 60) as nat, 10), 2);
    let u = padded(digits(t.usec as nat, 10), 6);
    lemma_padded_plain((t.sec / 3600 % 24) as nat, 2);
    lemma_padded_plain((t.sec / 60 % 60) as nat, 2);
    lemma_padded_plain((t.sec % 60) as nat, 2);
    lemma_padded_plain(t.usec as nat, 6);
    reveal_strlit(":");
    reveal_strlit(".");
    assert(plain(":"@) && plain("."@));
    lemma_plain_concat(h, ":"@);
    lemma_plain_concat(h + ":"@, m);
    lemma_plain_concat(h + ":"@ + m, ":"@);
    lemma_plain_concat(h + ":"@ + m + ":"@, s);
    lemma_plain_concat(h + ":"@ + m + ":"@ + s, "."@);
    lemma_plain_concat(h + ":"@ + m + ":"@ + s + "."@, u);
}

proof fn lemma_calendar_time_plain(c: CalendarTime, usec: u64)
    ensures
        plain(calendar_time(c, usec)),
{
    let y = padded_decimal(c.tm_year + 1900, 4);
    let mo = padded_decimal(c.tm_mon + 1, 2);
    let d = padded_decimal(c.tm_mday as int, 2);
    let h = padded_decimal(c.tm_hour as int, 2);
    let m = padded_decimal(c.tm_min as int, 2);
    let s = padded_decimal(c.tm_sec as int, 2);
    let u = padded(digits((usec / 1000) as nat, 10), 3);
    lemma_padded_decimal_plain(c.tm_year + 1900, 4);
    lemma_padded_decimal_plain(c.tm_mon + 1, 2);
    lemma_padded_decimal_plain(c.tm_mday as int, 2);
    lemma_padded_decimal_plain(c.tm_hour as int, 2);
    lemma_padded_decimal_plain(c.tm_min as int, 2);
    lemma_padded_decimal_plain(c.tm_sec as int, 2);
    lemma_padded_plain((usec / 1000) as nat, 3);
    reveal_strlit(":");
    reveal_strlit(".");
    reveal_strlit("-");
    reveal_strlit("T");
    reveal_strlit("Z");
    assert(plain(":"@) && plain("."@) && plain("-"@) && plain("T"@) && plain("Z"@));
    lemma_plain_concat(y, "-"@);
    lemma_plain_concat(y + "-"@, mo);
    lemma_plain_concat(y + "-"@ + mo, "-"@);
    lemma_plain_concat(y + "-"@ + mo + "-"@, d);
    let date = y + "-"@ + mo + "-"@ + d;
    lemma_plain_concat(date, "T"@);
    lemma_plain_concat(date + "T"@, h);
    lemma_plain_concat(date + "T"@ + h, ":"@);
    lemma_plain_concat(date + "T"@ + h + ":"@, m);
    lemma_plain_concat(date + "T"@ + h + ":"@ + m, ":"@);
    lemma_plain_concat(date + "T"@ + h + ":"@ + m + ":"@, s);
    let full = date + "T"@ + h + ":"@ + m + ":"@ + s;
    lemma_plain_concat(full, "."@);
    lemma_plain_concat(full + "."@, u);
    lemma_plain_concat(full + "."@ + u, "Z"@);
}

/// A member as it is written.
spec fn member(m: (Seq<char>, Json)) -> Seq<char> {
    quoted(m.0) + ":"@ + written(m.1)
}

proof fn lemma_members_push(front: Seq<(Seq<char>, Json)>, m: (Seq<char>, Json))
    requires
        front.len() > 0,
    ensures
        written_members(front.push(m)) == written_members(front) + ","@ + member(m),
{
    let all = front.push(m);
    assert(all.drop_last() =~= front);
    assert(all[all.len() - 1] == m);
    assert(written_members(all) =~= written_members(front) + ","@ + member(m));
}

proof fn lemma_members_1(a: (Seq<char>, Json))
    ensures
        written_members(seq![a]) == member(a),
{
    assert(seq![a][0] == a);
}

proof fn lemma_members_2(a: (Seq<char>, Json), b: (Seq<char>, Json))
    ensures
        written_members(seq![a, b]) == member(a) + ","@ + member(b),
{
    lemma_members_1(a);
    lemma_members_push(seq![a], b);
    assert(seq![a].push(b) =~= seq![a, b]);
}

proof fn lemma_members_3(a: (Seq<char>, Json), b: (Seq<char>, Json), c: (Seq<char>, Json))
    ensures
        written_members(seq![a, b, c]) == member(a) + ","@ + member(b) + ","@ + member(c),
{
    lemma_members_2(a, b);
    lemma_members_push(seq![a, b], c);
    assert(seq![a, b].push(c) =~= seq![a, b, c]);
}

proof fn lemma_members_front(first: (Seq<char>, Json), rest: Seq<(Seq<char>, Json)>)
    requires
        rest.len() > 0,
    ensures
        written_members(seq![first] + rest) == member(first) + ","@ + written_members(rest),
    decreases rest.len(),
{
    if rest.len() == 1 {
        lemma_members_2(first, rest[0]);
        assert(seq![first] + rest =~= seq![first, rest[0]]);
        assert(rest =~= seq![rest[0]]);
        lemma_members_1(rest[0]);
    } else {
        let front = rest.drop_last();
        lemma_members_front(first, front);
        lemma_members_push(front, rest.last());
        lemma_members_push(seq![first] + front, rest.last());
        assert(front.push(rest.last()) =~= rest);
        assert((seq![first] + front).push(rest.last()) =~= seq![first] + rest);
        assert(written_members(seq![first] + rest) =~= member(first) + ","@ + written_members(
            rest,
        ));
    }
}

/// A number and a text as they are written.
proof fn lemma_values(n: nat, t: Seq<char>)
    ensures
        written(Json::Number(n)) == digits(n, 10),
        written(Json::Text(t)) == quoted(t),
{
}

proof fn lemma_kind(action: Seq<char>, written_action: Seq<char>)
    requires
        quoted(action) == written_action,
    ensures
        written(
            Json::Object(
                seq![
                    ("category"@, Json::List(seq![Json::Text("process"@)])),
                    ("action"@, Json::Text(action)),
                ],
            ),
        ) == "{\"category\":[\"process\"],\"action\":"@ + written_action + "}"@,
{
    let list = Json::List(seq![Json::Text("process"@)]);
    let a = ("category"@, list);
    let b = ("action"@, Json::Text(action));
    lemma_members_2(a, b);
    lemma_values(0, "process"@);
    lemma_values(0, action);
    assert(seq![Json::Text("process"@)][0] == Json::Text("process"@));
    assert(written_items(seq![Json::Text("process"@)]) == quoted("process"@));
    assert(written(list) == "["@ + quoted("process"@) + "]"@);
    reveal_strlit("category");
    reveal_strlit("process");
    reveal_strlit("action");
    lemma_plain("category"@);
    lemma_plain("process"@);
    lemma_plain("action"@);
    reveal_strlit("\"");
    reveal_strlit("{");
    reveal_strlit("}");
    reveal_strlit("[");
    reveal_strlit("]");
    reveal_strlit(":");
    reveal_strlit(",");
    reveal_strlit("{\"category\":[\"process\"],\"action\":");
    let j = Json::Object(seq![a, b]);
    assert(written(j) == "{"@ + written_members(seq![a, b]) + "}"@);
    assert("{\"category\":[\"process\"],\"action\":"@ =~= "{"@ + (quoted("category"@) + ":"@ + (
    "["@ + quoted("process"@) + "]"@)) + ","@ + (quoted("action"@) + ":"@));
    assert(written(j) =~= "{\"category\":[\"process\"],\"action\":"@ + written_action + "}"@);
}

proof fn lemma_quote_marks()
    ensures
        "\""@ =~= seq!['"'],
        ":"@ =~= seq![':'],
        ","@ =~= seq![','],
        "{"@ =~= seq!['{'],
        "}"@ =~= seq!['}'],
{
    reveal_strlit("\"");
    reveal_strlit(":");
    reveal_strlit(",");
    reveal_strlit("{");
    reveal_strlit("}");
}

proof fn lemma_open_args(text: Seq<char>, oflag: nat, mode: nat)
    ensures
        written(
            Json::Object(
                seq![
                    ("path"@, Json::Text(text)),
                    ("oflag"@, Json::Number(oflag)),
                    ("mode"@, Json::Number(mode)),
                ],
            ),
        ) == "{\"path\":\""@ + escaped(text) + "\",\"oflag\":"@ + digits(oflag, 10) + ",\"mode\":"@
            + digits(mode, 10) + "}"@,
{
    let a = ("path"@, Json::Text(text));
    let b = ("oflag"@, Json::Number(oflag));
    let c = ("mode"@, Json::Number(mode));
    lemma_members_3(a, b, c);
    lemma_values(oflag, text);
    lemma_values(mode, text);
    reveal_strlit("path");
    reveal_strlit("oflag");
    reveal_strlit("mode");
    lemma_plain("path"@);
    lemma_plain("oflag"@);
    lemma_plain("mode"@);
    lemma_quote_marks();
    reveal_strlit("{\"path\":\"");
    reveal_strlit("\",\"oflag\":");
    reveal_strlit(",\"mode\":");
    let j = Json::Object(seq![a, b, c]);
    assert(written(j) == "{"@ + written_members(seq![a, b, c]) + "}"@);
    assert("{\"path\":\""@ =~= "{"@ + quoted("path"@) + ":"@ + "\""@);
    assert("\",\"oflag\":"@ =~= "\""@ + ","@ + quoted("oflag"@) + ":"@);
    assert(",\"mode\":"@ =~= ","@ + quoted("mode"@) + ":"@);
    assert(written(j) =~= "{\"path\":\""@ + escaped(text) + "\",\"oflag\":"@ + digits(oflag, 10)
        + ",\"mode\":"@ + digits(mode, 10) + "}"@);
}

proof fn lemma_open_json(s: Slot)
    requires
        s.formatter == Some(SlotFormatterFn::Open),
    ensures
        open_event(s, true, false) == written_members(event_members(s, false)),
{
    let text = s.str1_text();
    let (oflag, mode) = (s.args@[0] as nat, s.args@[1] as nat);
    let args = Json::Object(
        seq![
            ("path"@, Json::Text(text)),
            ("oflag"@, Json::Number(oflag)),
            ("mode"@, Json::Number(mode)),
        ],
    );
    let a = ("syscall"@, Json::Text("open"@));
    let b = ("args"@, args);
    lemma_members_2(a, b);
    lemma_open_args(text, oflag, mode);
    lemma_values(0, "open"@);
    reveal_strlit("syscall");
    reveal_strlit("open");
    reveal_strlit("args");
    lemma_plain("syscall"@);
    lemma_plain("open"@);
    lemma_plain("args"@);
    lemma_quote_marks();
    reveal_strlit("{\"path\":\"");
    reveal_strlit("\"syscall\":\"open\",\"args\":{\"path\":\"");
    assert("\"syscall\":\"open\",\"args\":{\"path\":\""@ =~= member(a) + ","@ + quoted("args"@) + ":"@
        + "{\"path\":\""@);
    assert(open_event(s, true, false) =~= member(a) + ","@ + member(b));
}

proof fn lemma_open_message(text: Seq<char>, oflag: nat, mode: nat)
    ensures
        escaped(
            "[mtdi] Caught open("@ + text + ", "@ + digits(oflag, 10) + ", "@ + digits(mode, 10)
                + ")"@,
        ) == "[mtdi] Caught open("@ + escaped(text) + ", "@ + digits(oflag, 10) + ", "@ + digits(
            mode,
            10,
        ) + ")"@,
{
    let head = "[mtdi] Caught open("@;
    let (o, m) = (digits(oflag, 10), digits(mode, 10));
    reveal_strlit("[mtdi] Caught open(");
    reveal_strlit(", ");
    reveal_strlit(")");
    lemma_plain(head);
    lemma_plain(", "@);
    lemma_plain(")"@);
    lemma_digits_plain(oflag);
    lemma_digits_plain(mode);
    lemma_plain(o);
    lemma_plain(m);
    lemma_escaped_concat(head, text);
    lemma_escaped_concat(head + text, ", "@);
    lemma_escaped_concat(head + text + ", "@, o);
    lemma_escaped_concat(head + text + ", "@ + o, ", "@);
    lemma_escaped_concat(head + text + ", "@ + o + ", "@, m);
    lemma_escaped_concat(head + text + ", "@ + o + ", "@ + m, ")"@);
}

spec fn open_kind() -> Json {
    Json::Object(
        seq![
            ("category"@, Json::List(seq![Json::Text("process"@)])),
            ("action"@, Json::Text("open"@)),
        ],
    )
}

proof fn lemma_open_ecs_literals()
    ensures
        "\"event\":{\"category\":[\"process\"],\"action\":\"open\"},\"message\":\"[mtdi] Caught open("@
            == member(("event"@, open_kind())) + ","@ + (quoted("message"@) + ":"@ + "\""@
            + "[mtdi] Caught open("@),
        ")\",\"mtdi\":{\"path\":\""@ == ")"@ + "\""@ + ","@ + (quoted("mtdi"@) + ":"@
            + "{\"path\":\""@),
{
    reveal_strlit("open");
    reveal_strlit("event");
    reveal_strlit("message");
    reveal_strlit("mtdi");
    lemma_plain("open"@);
    lemma_plain("event"@);
    lemma_plain("message"@);
    lemma_plain("mtdi"@);
    lemma_quote_marks();
    reveal_strlit("\"open\"");
    assert(quoted("open"@) =~= "\"open\""@);
    lemma_kind("open"@, "\"open\""@);
    reveal_strlit(
        "\"event\":{\"category\":[\"process\"],\"action\":\"open\"},\"message\":\"[mtdi] Caught open(",
    );
    reveal_strlit(")\",\"mtdi\":{\"path\":\"");
    reveal_strlit("{\"category\":[\"process\"],\"action\":");
    reveal_strlit("[mtdi] Caught open(");
    reveal_strlit(")");
    reveal_strlit("{\"path\":\"");
}

#[verifier::rlimit(40)]
proof fn lemma_open_ecs(s: Slot, json: bool)
    requires
        s.formatter == Some(SlotFormatterFn::Open),
    ensures
        open_event(s, json, true) == written_members(event_members(s, true)),
{
    let text = s.str1_text();
    let e = escaped(text);
    let (oflag, mode) = (s.args@[0] as nat, s.args@[1] as nat);
    let (o, m) = (digits(oflag, 10), digits(mode, 10));
    let message = "[mtdi] Caught open("@ + text + ", "@ + o + ", "@ + m + ")"@;
    let args = Json::Object(
        seq![
            ("path"@, Json::Text(text)),
            ("oflag"@, Json::Number(oflag)),
            ("mode"@, Json::Number(mode)),
        ],
    );
    let a = ("event"@, open_kind());
    let b = ("message"@, Json::Text(message));
    let c = ("mtdi"@, args);
    lemma_members_3(a, b, c);
    assert(event_members(s, true) =~= seq![a, b, c]);
    lemma_open_args(text, oflag, mode);
    lemma_open_message(text, oflag, mode);
    lemma_values(0, message);
    lemma_open_ecs_literals();
    let call = e + ", "@ + o + ", "@ + m;
    let tail = "\",\"oflag\":"@ + o + ",\"mode\":"@ + m + "}"@;
    let key = quoted("message"@) + ":"@ + "\""@ + "[mtdi] Caught open("@;
    let last = quoted("mtdi"@) + ":"@ + "{\"path\":\""@;
    let close = ")"@ + "\""@;
    lemma_regroup_message(quoted("message"@) + ":"@, "\""@, "[mtdi] Caught open("@, e, ", "@, o, m, ")"@);
    lemma_regroup_args(quoted("mtdi"@) + ":"@, "{\"path\":\""@, e, "\",\"oflag\":"@, o, ",\"mode\":"@, m, "}"@);
    assert(member(b) == key + call + close);
    assert(member(c) == last + e + tail);
    lemma_regroup_open(member(a) + ","@, key, call, close, ","@, last, e, tail);
    lemma_regroup_event(
        "\"event\":{\"category\":[\"process\"],\"action\":\"open\"},\"message\":\"[mtdi] Caught open("@,
        e,
        ", "@,
        o,
        m,
        ")\",\"mtdi\":{\"path\":\""@,
        "\",\"oflag\":"@,
        ",\"mode\":"@,
        "}"@,
    );
}

proof fn lemma_regroup_message(
    key: Seq<char>,
    mark: Seq<char>,
    head: Seq<char>,
    e: Seq<char>,
    sep: Seq<char>,
    o: Seq<char>,
    m: Seq<char>,
    close: Seq<char>,
)
    ensures
        key + (mark + (head + e + sep + o + sep + m + close) + mark) == key + mark + head + (e + sep
            + o + sep + m) + (close + mark),
{
    assert(key + (mark + (head + e + sep + o + sep + m + close) + mark) =~= key + mark + head + (e
        + sep + o + sep + m) + (close + mark));
}

proof fn lemma_regroup_args(
    key: Seq<char>,
    path: Seq<char>,
    e: Seq<char>,
    l1: Seq<char>,
    o: Seq<char>,
    l2: Seq<char>,
    m: Seq<char>,
    close: Seq<char>,
)
    ensures
        key + (path + e + l1 + o + l2 + m + close) == (key + path) + e + (l1 + o + l2 + m + close),
{
    assert(key + (path + e + l1 + o + l2 + m + close) =~= (key + path) + e + (l1 + o + l2 + m
        + close));
}

proof fn lemma_regroup_event(
    head: Seq<char>,
    e: Seq<char>,
    sep: Seq<char>,
    o: Seq<char>,
    m: Seq<char>,
    middle: Seq<char>,
    l1: Seq<char>,
    l2: Seq<char>,
    close: Seq<char>,
)
    ensures
        head + e + sep + o + sep + m + middle + e + l1 + o + l2 + m + close == head + (e + sep + o
            + sep + m) + middle + e + (l1 + o + l2 + m + close),
{
    assert(head + e + sep + o + sep + m =~= head + (e + sep + o + sep + m));
    let x = head + e + sep + o + sep + m + middle + e;
    assert(x + l1 + o + l2 + m + close =~= x + (l1 + o + l2 + m + close));
}

/// The same parts, grouped as they are written and as members.
proof fn lemma_regroup_open(
    first: Seq<char>,
    key: Seq<char>,
    args: Seq<char>,
    close: Seq<char>,
    comma: Seq<char>,
    last: Seq<char>,
    path: Seq<char>,
    tail: Seq<char>,
)
    ensures
        (first + key) + args + (close + comma + last) + path + tail == first + (key + args + close)
            + comma + (last + path + tail),
{
    assert((first + key) + args + (close + comma + last) + path + tail =~= first + (key + args
        + close) + comma + (last + path + tail));
}

proof fn lemma_raw_json(s: Slot)
    requires
        s.formatter == Some(SlotFormatterFn::Raw),
    ensures
        raw_event(s, true, false) == written_members(event_members(s, false)),
{
    let text = s.str1_text();
    let a = ("event"@, Json::Text("log"@));
    let b = ("message"@, Json::Text(text));
    lemma_members_2(a, b);
    lemma_values(0, "log"@);
    lemma_values(0, text);
    reveal_strlit("event");
    reveal_strlit("log");
    reveal_strlit("message");
    lemma_plain("event"@);
    lemma_plain("log"@);
    lemma_plain("message"@);
    lemma_quote_marks();
    reveal_strlit("\"event\":\"log\",\"message\":\"");
    assert("\"event\":\"log\",\"message\":\""@ =~= member(a) + ","@ + quoted("message"@) + ":"@
        + "\""@);
    assert(raw_event(s, true, false) =~= member(a) + ","@ + member(b));
}

#[verifier::rlimit(40)]
proof fn lemma_raw_ecs(s: Slot)
    requires
        s.formatter == Some(SlotFormatterFn::Raw),
    ensures
        forall|json: bool|
            #[trigger] raw_event(s, json, true) == written_members(event_members(s, true)),
{
    let text = s.str1_text();
    let e = escaped(text);
    let kind = Json::Object(
        seq![
            ("category"@, Json::List(seq![Json::Text("process"@)])),
            ("action"@, Json::Text("log"@)),
        ],
    );
    let inner = ("log"@, Json::Text(text));
    let message = "[mtdi] "@ + text;
    let a = ("event"@, kind);
    let b = ("message"@, Json::Text(message));
    let c = ("mtdi"@, Json::Object(seq![inner]));
    lemma_members_3(a, b, c);
    lemma_members_1(inner);
    assert(event_members(s, true) =~= seq![a, b, c]);
    lemma_values(0, message);
    lemma_values(0, text);
    reveal_strlit("log");
    reveal_strlit("event");
    reveal_strlit("message");
    reveal_strlit("mtdi");
    lemma_plain("log"@);
    lemma_plain("event"@);
    lemma_plain("message"@);
    lemma_plain("mtdi"@);
    lemma_quote_marks();
    reveal_strlit("\"log\"");
    assert(quoted("log"@) =~= "\"log\""@);
    lemma_kind("log"@, "\"log\""@);
    reveal_strlit("[mtdi] ");
    lemma_plain("[mtdi] "@);
    lemma_escaped_concat("[mtdi] "@, text);
    let head = "\"event\":{\"category\":[\"process\"],\"action\":\"log\"},\"message\":\"[mtdi] "@;
    let middle = "\",\"mtdi\":{\"log\":\""@;
    reveal_strlit(
        "\"event\":{\"category\":[\"process\"],\"action\":\"log\"},\"message\":\"[mtdi] ",
    );
    reveal_strlit("\",\"mtdi\":{\"log\":\"");
    reveal_strlit("{\"category\":[\"process\"],\"action\":");
    reveal_strlit("\"}");
    assert(head =~= member(a) + ","@ + quoted("message"@) + ":"@ + "\""@ + "[mtdi] "@);
    assert(middle =~= "\""@ + ","@ + quoted("mtdi"@) + ":"@ + "{"@ + quoted("log"@) + ":"@ + "\""@);
    assert(member(b) =~= quoted("message"@) + ":"@ + "\""@ + "[mtdi] "@ + e + "\""@);
    assert(written(c.1) == "{"@ + member(inner) + "}"@);
    assert(member(c) =~= quoted("mtdi"@) + ":"@ + "{"@ + quoted("log"@) + ":"@ + "\""@ + e
        + "\"}"@);
    assert forall|json: bool|
        #[trigger] raw_event(s, json, true) == written_members(event_members(s, true)) by {
        assert(raw_event(s, json, true) =~= member(a) + ","@ + member(b) + ","@ + member(c));
    }
}

proof fn lemma_line_literals(key: Seq<char>, ecs: bool)
    requires
        key == (if ecs {
            "@timestamp"@
        } else {
            "timestamp"@
        }),
    ensures
        "}\n"@ == "}"@ + "\n"@,
        "\","@ == "\""@ + ","@,
        (if ecs {
            "{\"@timestamp\":\""@
        } else {
            "{\"timestamp\":\""@
        }) == "{"@ + (quoted(key) + ":"@) + "\""@,
{
    lemma_quote_marks();
    reveal_strlit("}\n");
    reveal_strlit("\n");
    reveal_strlit("\",");
    assert("}\n"@ =~= "}"@ + "\n"@);
    assert("\","@ =~= "\""@ + ","@);
    if ecs {
        reveal_strlit("@timestamp");
        reveal_strlit("{\"@timestamp\":\"");
        lemma_plain("@timestamp"@);
        assert("{\"@timestamp\":\""@ =~= "{"@ + (quoted(key) + ":"@) + "\""@);
    } else {
        reveal_strlit("timestamp");
        reveal_strlit("{\"timestamp\":\"");
        lemma_plain("timestamp"@);
        assert("{\"timestamp\":\""@ =~= "{"@ + (quoted(key) + ":"@) + "\""@);
    }
}

proof fn lemma_regroup_line(
    open: Seq<char>,
    key: Seq<char>,
    mark: Seq<char>,
    time: Seq<char>,
    comma: Seq<char>,
    rest: Seq<char>,
    close: Seq<char>,
    end: Seq<char>,
)
    ensures
        (open + key + mark) + time + (mark + comma) + rest + (close + end) == open + (key + (mark
            + time + mark) + comma + rest) + close + end,
{
    assert((open + key + mark) + time + (mark + comma) + rest + (close + end) =~= open + (key + (mark
        + time + mark) + comma + rest) + close + end);
}

/// Every line of JSON or ECS output holds one JSON document, and nothing but its end of line
/// after it, whatever bytes were captured. Slots that were never filled have no line.
#[verifier::rlimit(40)]
pub proof fn json_lines_hold_documents(
    s: Slot,
    json: bool,
    ecs: bool,
    t: EventTime,
    c: CalendarTime,
)
    requires
        json || ecs,
        s.formatter is Some,
    ensures
        event_line(s, json, ecs, t, c) == written(event_document(s, ecs, t, c)) + "\n"@,
{
    let rest = event_members(s, ecs);
    match s.formatter {
        Some(SlotFormatterFn::Open) => if ecs {
            lemma_open_ecs(s, json);
        } else {
            lemma_open_json(s);
        },
        _ => if ecs {
            lemma_raw_ecs(s);
        } else {
            lemma_raw_json(s);
        },
    }
    assert(event_text(s, json, ecs) == written_members(rest));
    let (key, time) = if ecs {
        ("@timestamp"@, calendar_time(c, t.usec))
    } else {
        ("timestamp"@, clock_time(t))
    };
    let first = (key, Json::Text(time));
    assert(rest.len() > 0);
    lemma_members_front(first, rest);
    lemma_values(0, time);
    lemma_line_literals(key, ecs);
    if ecs {
        lemma_calendar_time_plain(c, t.usec);
    } else {
        lemma_clock_time_plain(t);
    }
    lemma_plain(time);
    lemma_regroup_line(
        "{"@,
        quoted(key) + ":"@,
        "\""@,
        time,
        ","@,
        written_members(rest),
        "}"@,
        "\n"@,
    );
}

/// How documents are written, kind by kind: a number by its digits in base ten, a text between
/// quotes with what must be escaped escaped, items and members behind one another with commas
/// between, and a member as its name, a colon and its value.
pub proof fn documents_are_written_by_kind(
    n: nat,
    t: Seq<char>,
    items: Seq<Json>,
    item: Json,
    members: Seq<(Seq<char>, Json)>,
    name: Seq<char>,
)
    ensures
        reading(written(Json::Number(n)), 10) == n,
        written(Json::Text(t)) == "\""@ + escaped(t) + "\""@,
        written(Json::List(items)) == "["@ + written_items(items) + "]"@,
        written(Json::Object(members)) == "{"@ + written_members(members) + "}"@,
        written_items(Seq::empty()).len() == 0,
        written_items(seq![item]) == written(item),
        items.len() > 0 ==> written_items(items.push(item)) == written_items(items) + ","@
            + written(item),
        written_members(Seq::empty()).len() == 0,
        written_members(seq![(name, item)]) == "\""@ + escaped(name) + "\""@ + ":"@ + written(item),
        members.len() > 0 ==> written_members(members.push((name, item))) == written_members(
            members,
        ) + ","@ + ("\""@ + escaped(name) + "\""@) + ":"@ + written(item),
{
    numerals_are_read_back(n, 10);
    assert(items.push(item).drop_last() =~= items);
    assert(members.push((name, item)).drop_last() =~= members);
    assert(items.push(item)[items.len() as int] == item);
    assert(members.push((name, item))[members.len() as int] == (name, item));
    assert(seq![item][0] == item);
    assert(seq![(name, item)][0] == (name, item));
}

} // verus!
