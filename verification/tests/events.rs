use mtdi::events::filter::{filter_mask, should_log, ALL_CALLS};
use mtdi::events::format::{
    fmt_open, fmt_raw, fmt_slot, render_line, CalendarTime, Clock, EventTime,
};
use mtdi::events::handlers::{
    attach_warnings, banner, flush_on_exit, hook_skipped, log_destination, mtdi_log, my_open,
    Destination, LogAction, OpenAction,
};
use mtdi::events::json::json_escape;
use mtdi::events::queue::{
    AfterPass, QueueClaims, Reader, ThreadQueue, BATCH, MAX_THREADS, QUEUE_SIZE,
};
use mtdi::events::size::LINE_MAX;
use mtdi::events::slot::{Slot, SlotFormatterFn};

fn open_slot(path: &[u8], oflag: u64, mode: u64) -> Slot {
    let mut s = Slot::new();
    s.fill(7, SlotFormatterFn::Open, [oflag, mode, 0, 0, 0, 0], Some(path), None);
    s
}

fn raw_slot(msg: &[u8]) -> Slot {
    let mut s = Slot::new();
    s.fill(7, SlotFormatterFn::Raw, [0; 6], Some(msg), None);
    s
}

const MIDNIGHT: CalendarTime =
    CalendarTime { tm_year: 124, tm_mon: 0, tm_mday: 2, tm_hour: 3, tm_min: 4, tm_sec: 5 };

const TIME: EventTime = EventTime { sec: 3600 * 25 + 61, usec: 7089 };

#[test]
fn slots_hold_both_strings() {
    let mut s = Slot::new();
    s.fill(9, SlotFormatterFn::Raw, [1, 2, 3, 4, 5, 6], Some(b"first\0junk"), Some(b"second"));
    assert_eq!((s.timestamp, s.formatter, s.args), (9, Some(SlotFormatterFn::Raw), [1, 2, 3, 4, 5, 6]));
    assert_eq!((s.str1_len, s.str2_len), (5, 6));
    assert_eq!(&s.str_data[..12], b"firstsecond\0");
    assert_eq!(s.get_str1(), "first");
    s.fill(10, SlotFormatterFn::Open, [0; 6], None, Some(b"x"));
    assert_eq!((s.str1_len, s.str2_len), (0, 1));
    assert_eq!(&s.str_data[..12], b"xirstsecond\0");
    assert_eq!(s.get_str1(), "");
}

#[test]
fn strings_are_captured_up_to_a_limit() {
    let long = vec![b'a'; 600];
    let mut s = Slot::new();
    s.fill(0, SlotFormatterFn::Raw, [0; 6], Some(&long), Some(&long));
    assert_eq!((s.str1_len, s.str2_len), (512, 512));
    assert_eq!(s.get_str1().len(), 512);
}

#[test]
fn bytes_that_are_no_text_are_marked() {
    assert_eq!(raw_slot(&[0xFF, b'a']).get_str1(), "<invalid>");
    assert_eq!(raw_slot("h\u{e9}".as_bytes()).get_str1(), "h\u{e9}");
}

#[test]
fn queues_are_first_in_first_out() {
    let mut q = ThreadQueue::new();
    assert!(q.next_event(0).is_none());
    for t in 0..3 {
        q.push_binary_event(t, SlotFormatterFn::Raw, [t; 6], Some(b"m"), None);
    }
    assert_eq!(q.write_head, 3);
    for head in 0..3 {
        let slot = q.next_event(head).unwrap();
        assert_eq!((slot.timestamp, slot.args), (head as u64, [head as u64; 6]));
        q.release(head);
        assert!(q.next_event(head).is_none());
    }
    assert!(q.next_event(3).is_none());
}

#[test]
fn full_queues_drop_events() {
    let mut q = ThreadQueue::new();
    for t in 0..QUEUE_SIZE as u64 {
        q.push_binary_event(t, SlotFormatterFn::Raw, [0; 6], None, None);
    }
    assert_eq!(q.write_head, QUEUE_SIZE);
    q.push_binary_event(5000, SlotFormatterFn::Raw, [0; 6], None, None);
    assert_eq!(q.write_head, QUEUE_SIZE);
    assert_eq!(q.next_event(0).unwrap().timestamp, 0);
    q.release(0);
    q.push_binary_event(6000, SlotFormatterFn::Raw, [0; 6], None, None);
    assert_eq!(q.write_head, QUEUE_SIZE + 1);
    assert_eq!(q.next_event(1).unwrap().timestamp, 1);
    assert_eq!(q.next_event(QUEUE_SIZE).unwrap().timestamp, 6000);
}

#[test]
fn queues_are_claimed_up_to_a_limit() {
    let mut claims = QueueClaims::new();
    for i in 0..MAX_THREADS {
        assert_eq!(claims.claim(), Some(i));
    }
    assert_eq!(claims.claim(), None);
    assert_eq!(claims.active, MAX_THREADS);
}

#[test]
fn the_reader_takes_batches() {
    let mut r = Reader::new();
    assert_eq!(r.heads, vec![0; MAX_THREADS]);
    assert_eq!(r.target(0), None);
    for i in 0..BATCH {
        assert_eq!(r.target(2), Some((0, i)));
        r.took_event();
    }
    assert_eq!(r.target(2), Some((1, 0)));
    r.took_event();
    r.found_none();
    assert_eq!(r.target(2), None);
    assert!(!r.idle);
    r.begin_pass();
    assert!(r.idle);
    assert_eq!(r.target(2), Some((0, BATCH)));
    r.found_none();
    assert_eq!(r.target(2), Some((1, 1)));
    r.found_none();
    assert!(r.idle);
    assert_eq!(r.target(2), None);
}

#[test]
fn json_strings_are_escaped() {
    assert_eq!(json_escape("plain/\u{e9}"), "plain/\u{e9}");
    assert_eq!(json_escape("\"\\\n\r\t"), "\\\"\\\\\\n\\r\\t");
    assert_eq!(json_escape("\u{1}\u{1f} \u{7f}"), "\\u0001\\u001f \u{7f}");
    assert_eq!(json_escape(""), "");
}

#[test]
fn escaped_text_is_read_back() {
    let text = "a\"b\\c\nd\re\tf\u{0}\u{1b}g\u{1F600}";
    let out = json_escape(text);
    assert!(out.chars().all(|c| c >= ' '));
    let mut back = String::new();
    let mut it = out.chars();
    while let Some(c) = it.next() {
        if c != '\\' {
            assert_ne!(c, '"');
            back.push(c);
            continue;
        }
        match it.next().unwrap() {
            'n' => back.push('\n'),
            'r' => back.push('\r'),
            't' => back.push('\t'),
            'u' => {
                let hex: String = (0..4).map(|_| it.next().unwrap()).collect();
                back.push(char::from_u32(u32::from_str_radix(&hex, 16).unwrap()).unwrap());
            }
            other => back.push(other),
        }
    }
    assert_eq!(back, text);
}

#[test]
fn open_is_written_in_three_ways() {
    let s = open_slot(b"/tmp/\"x\"", 0x601, 420);
    let mut out = String::from(">");
    fmt_open(&s, false, false, &mut out);
    assert_eq!(out, ">open(\"/tmp/\"x\"\", 1537, 420)");
    let mut out = String::new();
    fmt_open(&s, true, false, &mut out);
    assert_eq!(out, r#""syscall":"open","args":{"path":"/tmp/\"x\"","oflag":1537,"mode":420}"#);
    for json in [false, true] {
        let mut out = String::new();
        fmt_open(&s, json, true, &mut out);
        assert_eq!(
            out,
            r#""event":{"category":["process"],"action":"open"},"message":"[mtdi] Caught open(/tmp/\"x\", 1537, 420)","mtdi":{"path":"/tmp/\"x\"","oflag":1537,"mode":420}"#
        );
    }
}

#[test]
fn log_lines_are_written_in_three_ways() {
    let s = raw_slot(b"a\tb");
    let mut out = String::new();
    fmt_raw(&s, false, false, &mut out);
    assert_eq!(out, "a\tb");
    let mut out = String::new();
    fmt_raw(&s, true, false, &mut out);
    assert_eq!(out, r#""event":"log","message":"a\tb""#);
    let mut out = String::new();
    fmt_raw(&s, true, true, &mut out);
    assert_eq!(
        out,
        r#""event":{"category":["process"],"action":"log"},"message":"[mtdi] a\tb","mtdi":{"log":"a\tb"}"#
    );
}

#[test]
fn slots_choose_their_format() {
    let mut out = String::new();
    fmt_slot(&Slot::new(), true, true, &mut out);
    assert_eq!(out, "");
    fmt_slot(&raw_slot(b"m"), false, false, &mut out);
    fmt_slot(&open_slot(b"p", 1, 2), false, false, &mut out);
    assert_eq!(out, "mopen(\"p\", 1, 2)");
}

#[test]
fn plain_lines_carry_the_time_of_day() {
    let line = render_line(&open_slot(b"/etc/hosts", 0, 0), false, false, TIME, &MIDNIGHT);
    assert_eq!(line, "[01:01:01.007089] [mtdi] Caught open(\"/etc/hosts\", 0, 0)\n");
}

#[test]
fn json_lines_are_objects() {
    let line = render_line(&open_slot(b"/etc/hosts", 0, 0), true, false, TIME, &MIDNIGHT);
    assert_eq!(
        line,
        "{\"timestamp\":\"01:01:01.007089\",\"syscall\":\"open\",\"args\":{\"path\":\"/etc/hosts\",\"oflag\":0,\"mode\":0}}\n"
    );
}

#[test]
fn ecs_lines_carry_the_date() {
    let line = render_line(&raw_slot(b"hi"), false, true, TIME, &MIDNIGHT);
    assert_eq!(
        line,
        "{\"@timestamp\":\"2024-01-02T03:04:05.007Z\",\"event\":{\"category\":[\"process\"],\"action\":\"log\"},\"message\":\"[mtdi] hi\",\"mtdi\":{\"log\":\"hi\"}}\n"
    );
    let early = CalendarTime { tm_year: -1901, tm_mon: 8, ..MIDNIGHT };
    let line = render_line(&raw_slot(b""), false, true, TIME, &early);
    assert!(line.starts_with("{\"@timestamp\":\"-001-09-02T"));
}

#[test]
fn json_lines_stay_one_line() {
    for slot in [raw_slot(b"a\nb\n"), open_slot(b"\n", 1, 2), raw_slot(&[0xFF])] {
        for (json, ecs) in [(true, false), (false, true), (true, true)] {
            let line = render_line(&slot, json, ecs, TIME, &MIDNIGHT);
            assert_eq!(line.matches('\n').count(), 1);
            assert!(line.ends_with("}\n"));
            assert!(line.starts_with('{'));
        }
    }
}

#[test]
fn the_longest_line_fits() {
    let path = vec![1u8; 600];
    let slot = open_slot(&path, u64::MAX, u64::MAX);
    let line = render_line(&slot, true, true, TIME, &MIDNIGHT);
    assert!(line.len() > 4096);
    assert!(line.len() <= LINE_MAX);
    assert!(line.ends_with("}}\n"));
}

#[test]
fn ticks_become_times() {
    let clock = Clock::new(125, 3, 1_700_000_000, 250_000, 1000);
    assert_eq!(clock.init_usec, 1_700_000_000_250_000);
    // 24 million ticks at 125/3 ns are a second
    assert_eq!(
        clock.event_time(1000 + 24_000_000),
        EventTime { sec: 1_700_000_001, usec: 250_000 }
    );
    assert_eq!(clock.event_time(1000), EventTime { sec: 1_700_000_000, usec: 250_000 });
    assert_eq!(clock.event_time(1), clock.event_time(1000));
    let mut last = clock.event_time(1000);
    for t in (1000..100_000).step_by(997) {
        let now = clock.event_time(t);
        assert!((now.sec, now.usec) >= (last.sec, last.usec));
        last = now;
    }
}

#[test]
fn filters_name_calls() {
    assert_eq!(filter_mask(None), ALL_CALLS);
    assert_eq!(filter_mask(Some(b"open")), 1);
    assert_eq!(filter_mask(Some(b"read, \topen\n,write")), 1);
    assert_eq!(filter_mask(Some("\u{3000}open\u{a0}".as_bytes())), 1);
    assert_eq!(filter_mask(Some(b"")), 0);
    assert_eq!(filter_mask(Some(b"reopen,open2,o pen,OPEN")), 0);
    assert_eq!(filter_mask(Some(&[b'o', b'p', b'e', b'n', b',', 0xFF])), 0);
}

#[test]
fn masks_decide_what_is_logged() {
    for bit in 0..32 {
        assert!(should_log(ALL_CALLS, bit));
        assert_eq!(should_log(filter_mask(Some(b"open")), bit), bit == 0);
        assert!(!should_log(0, bit));
    }
}

#[test]
fn open_is_swapped_forwarded_or_captured() {
    let path = &b"/tmp/x"[..];
    match my_open(true, ALL_CALLS, path, 1, 2) {
        OpenAction::Swap(call) => assert_eq!((call.path, call.oflag, call.mode), (path, 1, 2)),
        other => panic!("{:?}", other),
    }
    match my_open(false, 0xFFFF_FFFE, path, 1, 2) {
        OpenAction::Forward(call) => assert_eq!((call.path, call.oflag, call.mode), (path, 1, 2)),
        other => panic!("{:?}", other),
    }
    match my_open(false, 1, path, -1, 438) {
        OpenAction::CaptureAndForward(event, call) => {
            assert_eq!(event.formatter, SlotFormatterFn::Open);
            assert_eq!(event.args, [u64::MAX, 438, 0, 0, 0, 0]);
            assert_eq!((event.str1, event.str2), (Some(path), None));
            assert_eq!((call.path, call.oflag, call.mode), (path, -1, 438));
        }
        other => panic!("{:?}", other),
    }
}

#[test]
fn messages_go_where_they_can() {
    assert!(matches!(mtdi_log(None, true), LogAction::Ignore));
    assert!(matches!(mtdi_log(None, false), LogAction::Ignore));
    match mtdi_log(Some(b"m"), true) {
        LogAction::Capture(event) => {
            assert_eq!(event.formatter, SlotFormatterFn::Raw);
            assert_eq!(event.args, [0; 6]);
            assert_eq!((event.str1, event.str2), (Some(&b"m"[..]), None));
        }
        other => panic!("{:?}", other),
    }
    for (msg, line) in [
        (&b"hello"[..], &b"hello\n"[..]),
        (b"hello\n", b"hello\n"),
        (b"", b"\n"),
        (b"cut\0off", b"cut\n"),
    ] {
        match mtdi_log(Some(msg), false) {
            LogAction::Write(bytes) => assert_eq!(bytes, line),
            other => panic!("{:?}", other),
        }
    }
    match mtdi_log(Some(&vec![b'x'; 5000]), false) {
        LogAction::Write(bytes) => {
            assert_eq!(bytes.len(), 4097);
            assert_eq!(bytes[4096], b'\n');
        }
        other => panic!("{:?}", other),
    }
}

#[test]
fn tracing_begins_with_a_banner() {
    assert_eq!(banner(false, false), "[mtdi] Active! Monitoring system calls...\n");
    assert_eq!(banner(true, false), "{\"event\":\"mtdi_active\"}\n");
    assert_eq!(
        banner(true, true),
        "{\"@timestamp\":\"2000-01-01T00:00:00Z\",\"event\":{\"action\":\"init\"},\"message\":\"mtdi active\"}\n"
    );
    assert_eq!(hook_skipped("open", "no room"), "[mtdi] Hook skipped for open: no room");
    assert!(attach_warnings(true).is_empty());
    assert_eq!(
        attach_warnings(false)[1],
        "[mtdi] things will break if you try to trace syscalls anyway with PID attaching"
    );
}

#[test]
fn lines_go_where_they_are_seen() {
    for launched in [false, true] {
        for terminal in [false, true] {
            let d = log_destination(true, launched, terminal, "/tmp", 7);
            assert!(matches!(d, Destination::Output));
            let d = log_destination(false, launched, terminal, "/tmp", 7);
            if launched || terminal {
                assert!(matches!(d, Destination::StandardError));
            } else {
                assert!(matches!(d, Destination::File(p) if p == "/tmp/mtdi_7.log"));
            }
        }
    }
}

#[test]
fn only_the_traced_process_waits_for_its_reader() {
    assert_eq!(flush_on_exit(10, 10), 100);
    assert_eq!(flush_on_exit(11, 10), 0);
}

#[test]
fn the_reader_ends_when_it_is_told_and_done() {
    let mut r = Reader::new();
    assert_eq!(r.after_pass(false), AfterPass::Sleep);
    assert_eq!(r.after_pass(true), AfterPass::Stop);
    r.took_event();
    assert_eq!(r.after_pass(false), AfterPass::Again);
    assert_eq!(r.after_pass(true), AfterPass::Again);
}

#[test]
fn captured_strings_begin_where_they_begin() {
    let exact: Vec<u8> = (0..512).map(|i| (i % 255 + 1) as u8).collect();
    let mut s = Slot::new();
    s.fill(0, SlotFormatterFn::Raw, [0; 6], Some(&exact), Some(&exact[..3]));
    assert_eq!(&s.str_data[..512], &exact[..]);
    assert_eq!(&s.str_data[512..515], &exact[..3]);
    let mut cut = exact.clone();
    cut[100] = 0;
    s.fill(0, SlotFormatterFn::Raw, [0; 6], Some(&cut), None);
    assert_eq!((s.str1_len, &s.str_data[..100]), (100, &exact[..100]));
}
