//! How events are written out.
use super::json::{escaped, json_escape};
use super::slot::{Slot, SlotFormatterFn};
use crate::encoding::wrap64;
use crate::text::{
    decimal, digits, padded, padded_decimal, push_decimal, push_padded, push_padded_signed,
};
use vstd::prelude::*;

verus! {

/// What is written of a call of `open`.
pub open spec fn open_event(s: Slot, json: bool, ecs: bool) -> Seq<char> {
    let path = escaped(s.str1_text());
    let oflag = decimal(s.args@[0] as int);
    let mode = decimal(s.args@[1] as int);
    if ecs {
        "\"event\":{\"category\":[\"process\"],\"action\":\"open\"},\"message\":\"[mtdi] Caught open("@
            + path + ", "@ + oflag + ", "@ + mode + ")\",\"mtdi\":{\"path\":\""@ + path
            + "\",\"oflag\":"@ + oflag + ",\"mode\":"@ + mode + "}"@
    } else if json {
        "\"syscall\":\"open\",\"args\":{\"path\":\""@ + path + "\",\"oflag\":"@ + oflag
            + ",\"mode\":"@ + mode + "}"@
    } else {
        "open(\""@ + s.str1_text() + "\", "@ + oflag + ", "@ + mode + ")"@
    }
}

/// What is written of a log line.
pub open spec fn raw_event(s: Slot, json: bool, ecs: bool) -> Seq<char> {
    let msg = escaped(s.str1_text());
    if ecs {
        "\"event\":{\"category\":[\"process\"],\"action\":\"log\"},\"message\":\"[mtdi] "@ + msg
            + "\",\"mtdi\":{\"log\":\""@ + msg + "\"}"@
    } else if json {
        "\"event\":\"log\",\"message\":\""@ + msg + "\""@
    } else {
        s.str1_text()
    }
}

/// What is written of the event in a slot: nothing where the slot was never filled.
pub open spec fn event_text(s: Slot, json: bool, ecs: bool) -> Seq<char> {
    match s.formatter {
        Some(SlotFormatterFn::Open) => open_event(s, json, ecs),
        Some(SlotFormatterFn::Raw) => raw_event(s, json, ecs),
        None => Seq::empty(),
    }
}

/// Writes a call of `open`.
pub fn fmt_open(s: &Slot, json: bool, ecs: bool, f: &mut String)
    requires
        s.wf(),
    ensures
        final(f)@ == old(f)@ + open_event(*s, json, ecs),
{
    let text = s.get_str1();
    let path = json_escape(text.as_str());
    let oflag: u64 = s.args[0];
    let mode: u64 = s.args[1];
    if ecs {
        f.append(
            "\"event\":{\"category\":[\"process\"],\"action\":\"open\"},\"message\":\"[mtdi] Caught open(",
        );
        f.append(path.as_str());
        f.append(", ");
        push_decimal(f, oflag);
        f.append(", ");
        push_decimal(f, mode);
        f.append(")\",\"mtdi\":{\"path\":\"");
        f.append(path.as_str());
        f.append("\",\"oflag\":");
        push_decimal(f, oflag);
        f.append(",\"mode\":");
        push_decimal(f, mode);
        f.append("}");
    } else if json {
        f.append("\"syscall\":\"open\",\"args\":{\"path\":\"");
        f.append(path.as_str());
        f.append("\",\"oflag\":");
        push_decimal(f, oflag);
        f.append(",\"mode\":");
        push_decimal(f, mode);
        f.append("}");
    } else {
        f.append("open(\"");
        f.append(text.as_str());
        f.append("\", ");
        push_decimal(f, oflag);
        f.append(", ");
        push_decimal(f, mode);
        f.append(")");
    }
    assert(f@ =~= old(f)@ + open_event(*s, json, ecs));
}

/// Writes a log line.
pub fn fmt_raw(s: &Slot, json: bool, ecs: bool, f: &mut String)
    requires
        s.wf(),
    ensures
        final(f)@ == old(f)@ + raw_event(*s, json, ecs),
{
    let text = s.get_str1();
    let msg = json_escape(text.as_str());
    if ecs {
        f.append(
            "\"event\":{\"category\":[\"process\"],\"action\":\"log\"},\"message\":\"[mtdi] ",
        );
        f.append(msg.as_str());
        f.append("\",\"mtdi\":{\"log\":\"");
        f.append(msg.as_str());
        f.append("\"}");
    } else if json {
        f.append("\"event\":\"log\",\"message\":\"");
        f.append(msg.as_str());
        f.append("\"");
    } else {
        f.append(text.as_str());
    }
    assert(f@ =~= old(f)@ + raw_event(*s, json, ecs));
}

/// Writes the event in a slot.
pub fn fmt_slot(s: &Slot, json: bool, ecs: bool, f: &mut String)
    requires
        s.wf(),
    ensures
        final(f)@ == old(f)@ + event_text(*s, json, ecs),
{
    match s.formatter {
        Some(SlotFormatterFn::Open) => fmt_open(s, json, ecs, f),
        Some(SlotFormatterFn::Raw) => fmt_raw(s, json, ecs, f),
        None => {
            assert(f@ =~= old(f)@ + event_text(*s, json, ecs));
        },
    }
}

/// The clock: how long a tick is, in nanoseconds, and a tick with its time of day.
#[derive(Debug, Clone, Copy)]
pub struct Clock {
    pub numer: u32,
    pub denom: u32,
    pub init_usec: u64,
    pub init_mach: u64,
}

/// A time since the epoch.
#[derive(Debug, Clone, Copy, PartialEq, Eq, Structural)]
pub struct EventTime {
    pub sec: u64,
    pub usec: u64,
}

/// The microseconds since the epoch at tick `timestamp`. Ticks before the anchor count as it.
pub open spec fn event_usec(clock: Clock, timestamp: u64) -> u64 {
    let ticks = if timestamp >= clock.init_mach {
        timestamp - clock.init_mach
    } else {
        0
    };
    wrap64(clock.init_usec + wrap64(ticks * clock.numer) as int / clock.denom as int / 1000)
}

impl Clock {
    /// The clock that is anchored at tick `mach`, at this time of day.
    pub fn new(numer: u32, denom: u32, tv_sec: u64, tv_usec: u64, mach: u64) -> (r: Clock)
        ensures
            r == (Clock {
                numer,
                denom,
                init_usec: wrap64(tv_sec * 1_000_000 + tv_usec),
                init_mach: mach,
            }),
    {
        Clock {
            numer,
            denom,
            init_usec: tv_sec.wrapping_mul(1_000_000).wrapping_add(tv_usec),
            init_mach: mach,
        }
    }

    /// The time at tick `timestamp`.
    pub fn event_time(&self, timestamp: u64) -> (r: EventTime)
        requires
            self.denom > 0,
        ensures
            r.sec == event_usec(*self, timestamp) / 1_000_000,
            r.usec == event_usec(*self, timestamp) % 1_000_000,
    {
        let ticks: u64 = timestamp.saturating_sub(self.init_mach);
        let ns: u64 = ticks.wrapping_mul(self.numer as u64) / (self.denom as u64);
        let usec: u64 = self.init_usec.wrapping_add(ns / 1000);
        EventTime { sec: usec / 1_000_000, usec: usec % 1_000_000 }
    }
}

/// Time does not run backwards in a trace: a later tick has a time that is no earlier, as long as
/// the nanoseconds since the anchor, and the microseconds since the epoch, can be counted.
pub proof fn times_follow_ticks(clock: Clock, a: u64, b: u64)
    requires
        clock.denom > 0,
        a <= b,
        (b - clock.init_mach) * clock.numer <= u64::MAX,
        clock.init_usec + (b - clock.init_mach) * clock.numer / clock.denom as int / 1000
            <= u64::MAX,
    ensures
        clock.init_usec <= event_usec(clock, a) <= event_usec(clock, b),
        b <= clock.init_mach ==> event_usec(clock, b) == clock.init_usec,
{
    let ticks = |t: u64|
        if t >= clock.init_mach {
            t - clock.init_mach
        } else {
            0
        };
    let (ta, tb) = (ticks(a), ticks(b));
    let n = clock.numer as int;
    let d = clock.denom as int;
    assert(0 <= ta * n <= tb * n) by (nonlinear_arith)
        requires
            0 <= ta <= tb,
            0 <= n,
    ;
    assert(ta * n / d <= tb * n / d && 0 <= ta * n / d)
        by (nonlinear_arith)
        requires
            0 <= ta * n <= tb * n,
            d >= 1,
    ;
    assert(ta == 0 ==> ta * n == 0);
    assert(tb == 0 ==> tb * n == 0 && 0int / d == 0) by (nonlinear_arith)
        requires
            d >= 1,
    ;
}

/// A date and a time of day, with years from 1900 and months from 0.
#[derive(Debug, Clone, Copy)]
pub struct CalendarTime {
    pub tm_year: i32,
    pub tm_mon: i32,
    pub tm_mday: i32,
    pub tm_hour: i32,
    pub tm_min: i32,
    pub tm_sec: i32,
}

/// `HH:MM:SS.ffffff`
pub open spec fn clock_time(t: EventTime) -> Seq<char> {
    padded(digits((t.sec / 3600 % 24) as nat, 10), 2) + ":"@ + padded(
        digits((t.sec / 60 % 60) as nat, 10),
        2,
    ) + ":"@ + padded(digits((t.sec % 60) as nat, 10), 2) + "."@ + padded(
        digits(t.usec as nat, 10),
        6,
    )
}

/// `YYYY-MM-DDTHH:MM:SS.mmmZ`
pub open spec fn calendar_time(c: CalendarTime, usec: u64) -> Seq<char> {
    padded_decimal(c.tm_year + 1900, 4) + "-"@ + padded_decimal(c.tm_mon + 1, 2) + "-"@
        + padded_decimal(c.tm_mday as int, 2) + "T"@ + padded_decimal(c.tm_hour as int, 2) + ":"@
        + padded_decimal(c.tm_min as int, 2) + ":"@ + padded_decimal(c.tm_sec as int, 2) + "."@
        + padded(digits((usec / 1000) as nat, 10), 3) + "Z"@
}

/// The line of an event.
pub open spec fn event_line(
    s: Slot,
    json: bool,
    ecs: bool,
    t: EventTime,
    c: CalendarTime,
) -> Seq<char> {
    if ecs {
        "{\"@timestamp\":\""@ + calendar_time(c, t.usec) + "\","@ + event_text(s, json, ecs)
            + "}\n"@
    } else if json {
        "{\"timestamp\":\""@ + clock_time(t) + "\","@ + event_text(s, json, ecs) + "}\n"@
    } else {
        "["@ + clock_time(t) + "] [mtdi] Caught "@ + event_text(s, json, ecs) + "\n"@
    }
}

fn push_clock_time(out: &mut String, t: EventTime)
    ensures
        final(out)@ == old(out)@ + clock_time(t),
{
    push_padded(out, t.sec / 3600 % 24, 10, 2);
    out.append(":");
    push_padded(out, t.sec / 60 % 60, 10, 2);
    out.append(":");
    push_padded(out, t.sec % 60, 10, 2);
    out.append(".");
    push_padded(out, t.usec, 10, 6);
    assert(out@ =~= old(out)@ + clock_time(t));
}

fn push_calendar_time(out: &mut String, c: &CalendarTime, usec: u64)
    requires
        c.tm_year <= i32::MAX - 1900,
        c.tm_mon < i32::MAX,
    ensures
        final(out)@ == old(out)@ + calendar_time(*c, usec),
{
    push_padded_signed(out, c.tm_year + 1900, 4);
    out.append("-");
    push_padded_signed(out, c.tm_mon + 1, 2);
    out.append("-");
    push_padded_signed(out, c.tm_mday, 2);
    out.append("T");
    push_padded_signed(out, c.tm_hour, 2);
    out.append(":");
    push_padded_signed(out, c.tm_min, 2);
    out.append(":");
    push_padded_signed(out, c.tm_sec, 2);
    out.append(".");
    push_padded(out, usec / 1000, 10, 3);
    out.append("Z");
    assert(out@ =~= old(out)@ + calendar_time(*c, usec));
}

/// The line of an event. The calendar's time is that of `t`; it is looked at in ECS output alone.
pub fn render_line(
    s: &Slot,
    json: bool,
    ecs: bool,
    t: EventTime,
    c: &CalendarTime,
) -> (r: String)
    requires
        s.wf(),
        c.tm_year <= i32::MAX - 1900,
        c.tm_mon < i32::MAX,
    ensures
        r@ == event_line(*s, json, ecs, t, *c),
{
    let mut out = String::new();
    if ecs {
        out.append("{\"@timestamp\":\"");
        push_calendar_time(&mut out, c, t.usec);
        out.append("\",");
        fmt_slot(s, json, ecs, &mut out);
        out.append("}\n");
    } else if json {
        out.append("{\"timestamp\":\"");
        push_clock_time(&mut out, t);
        out.append("\",");
        fmt_slot(s, json, ecs, &mut out);
        out.append("}\n");
    } else {
        out.append("[");
        push_clock_time(&mut out, t);
        out.append("] [mtdi] Caught ");
        fmt_slot(s, json, ecs, &mut out);
        out.append("\n");
    }
    assert(out@ =~= event_line(*s, json, ecs, t, *c));
    out
}

} // verus!
