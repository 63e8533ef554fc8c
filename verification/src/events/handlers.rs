//! What a traced call and a log message lead to.
use super::filter::{should_log, OPEN_BIT};
use super::slot::SlotFormatterFn;
use crate::encoding::{offset64, wrap64};
use crate::text::{
    decimal, push_decimal, reading, signed_numbers_are_read_back, text_ends_at_nul, text_len,
    until_nul, views,
};
use vstd::prelude::*;

verus! {

/// How much of a message is written before there is a queue to put it in.
pub const DIRECT_MAX: usize = 4096;

/// An event to capture. A string is whatever a caller knows it by.
#[derive(Debug, Clone, Copy)]
pub struct Event<S> {
    pub formatter: SlotFormatterFn,
    pub args: [u64; 6],
    pub str1: Option<S>,
    pub str2: Option<S>,
}

/// Whether `e` is the event with these parts.
pub open spec fn is_event<S>(
    e: Event<S>,
    formatter: SlotFormatterFn,
    args: Seq<u64>,
    str1: Option<S>,
    str2: Option<S>,
) -> bool {
    e.formatter == formatter && e.args@ == args && e.str1 == str1 && e.str2 == str2
}

/// The arguments of a call of `open`.
#[derive(Debug, Clone, Copy)]
pub struct OpenCall<S> {
    pub path: S,
    pub oflag: i32,
    pub mode: i32,
}

/// What a call of `open` leads to.
#[derive(Debug, Clone, Copy)]
pub enum OpenAction<S> {
    /// The swap dylib takes the call.
    Swap(OpenCall<S>),
    /// The call goes on, untraced.
    Forward(OpenCall<S>),
    /// The event is captured, and then the call goes on.
    CaptureAndForward(Event<S>, OpenCall<S>),
}

/// What a call of `open` leads to. A swap dylib comes first; otherwise the filter decides whether
/// the call is traced, and it goes on either way, with the arguments that it came with.
pub fn my_open<S: Copy>(swapped: bool, mask: u32, path: S, oflag: i32, mode: i32) -> (r: OpenAction<
    S,
>)
    ensures
        swapped ==> r == OpenAction::Swap(OpenCall { path, oflag, mode }),
        !swapped && mask & (1u32 << OPEN_BIT) == 0 ==> r == OpenAction::Forward(
            OpenCall { path, oflag, mode },
        ),
        !swapped && mask & (1u32 << OPEN_BIT) != 0 ==> (r matches OpenAction::CaptureAndForward(
            event,
            call,
        ) && call == (OpenCall { path, oflag, mode }) && is_event(
            event,
            SlotFormatterFn::Open,
            seq![wrap64(oflag as int), wrap64(mode as int), 0, 0, 0, 0],
            Some(path),
            None,
        )),
{
    let call = OpenCall { path, oflag, mode };
    if swapped {
        return OpenAction::Swap(call);
    }
    if !should_log(mask, OPEN_BIT) {
        return OpenAction::Forward(call);
    }
    let args: [u64; 6] = [offset64(0, oflag as i64), offset64(0, mode as i64), 0, 0, 0, 0];
    assert(args@ =~= seq![wrap64(oflag as int), wrap64(mode as int), 0, 0, 0, 0]);
    let event = Event { formatter: SlotFormatterFn::Open, args, str1: Some(path), str2: None };
    OpenAction::CaptureAndForward(event, call)
}

/// What a log message leads to.
#[derive(Debug)]
pub enum LogAction<'a> {
    /// Nothing: there is no message.
    Ignore,
    /// This event is captured.
    Capture(Event<&'a [u8]>),
    /// These bytes are written at once.
    Write(Vec<u8>),
}

/// What is written of a message before there is a queue: its beginning, as a line.
pub open spec fn direct_line(msg: Seq<u8>) -> Seq<u8> {
    let text = msg.take(text_len(msg) as int);
    let head = if text.len() <= DIRECT_MAX {
        text
    } else {
        text.take(DIRECT_MAX as int)
    };
    if head.len() > 0 && head.last() == 10 {
        head
    } else {
        head.push(10)
    }
}

/// What a log message leads to: it goes through the queues once there are any.
pub fn mtdi_log<'a>(msg: Option<&'a [u8]>, queues_ready: bool) -> (r: LogAction<'a>)
    ensures
        msg is None ==> r is Ignore,
        msg is Some && queues_ready ==> (r matches LogAction::Capture(event) && is_event(
            event,
            SlotFormatterFn::Raw,
            seq![0, 0, 0, 0, 0, 0],
            msg,
            None,
        )),
        !queues_ready ==> (msg matches Some(bytes) ==> (r matches LogAction::Write(line) && line@
            == direct_line(bytes@))),
{
    match msg {
        None => LogAction::Ignore,
        Some(bytes) => {
            if queues_ready {
                let args: [u64; 6] = [0, 0, 0, 0, 0, 0];
                assert(args@ =~= seq![0, 0, 0, 0, 0, 0]);
                return LogAction::Capture(
                    Event { formatter: SlotFormatterFn::Raw, args, str1: Some(bytes), str2: None },
                );
            }
            let len: usize = until_nul(bytes);
            let cap: usize = if len <= DIRECT_MAX {
                len
            } else {
                DIRECT_MAX
            };
            let mut line: Vec<u8> = Vec::new();
            line.extend_from_slice(vstd::slice::slice_subrange(bytes, 0, cap));
            let ghost text = bytes@.take(len as int);
            assert(line@ =~= (if text.len() <= DIRECT_MAX {
                text
            } else {
                text.take(DIRECT_MAX as int)
            }));
            if cap == 0 || line[cap - 1] != 10 {
                line.push(10);
            }
            LogAction::Write(line)
        },
    }
}

/// Where lines are written.
#[derive(Debug)]
pub enum Destination {
    /// To the file that was asked for.
    Output,
    /// To a file of their own at this path.
    File(String),
    /// To standard error.
    StandardError,
}

/// The path of the file for the lines of process `pid`.
pub open spec fn own_log_path(directory: Seq<char>, pid: u32) -> Seq<char> {
    directory + "/mtdi_"@ + decimal(pid as int) + ".log"@
}

/// Where lines are written. A process that was attached to, and whose standard error is no
/// terminal, gets a file of its own: nobody would see them.
pub fn log_destination(
    output: bool,
    launched: bool,
    terminal: bool,
    directory: &str,
    pid: u32,
) -> (r: Destination)
    ensures
        output ==> r is Output,
        !output && !launched && !terminal ==> (r matches Destination::File(path) && path@
            == own_log_path(directory@, pid)),
        !output && (launched || terminal) ==> r is StandardError,
{
    if output {
        Destination::Output
    } else if !launched && !terminal {
        let mut path = directory.to_owned();
        path.append("/mtdi_");
        push_decimal(&mut path, pid as u64);
        path.append(".log");
        Destination::File(path)
    } else {
        Destination::StandardError
    }
}

/// How many milliseconds an exiting process waits for the reader at most.
pub const EXIT_WAIT_MS: u32 = 100;

/// How many milliseconds the exiting process `pid` waits for the reader at most. The reader runs
/// in the process that tracing began in: a child of that has none, and does not wait.
pub fn flush_on_exit(pid: u32, traced_pid: u32) -> (r: u32)
    ensures
        r == (if pid == traced_pid {
            EXIT_WAIT_MS
        } else {
            0
        }),
{
    if pid == traced_pid {
        EXIT_WAIT_MS
    } else {
        0
    }
}

/// The line that is written when tracing begins.
pub open spec fn banner_text(json: bool, ecs: bool) -> Seq<char> {
    if ecs {
        "{\"@timestamp\":\"2000-01-01T00:00:00Z\",\"event\":{\"action\":\"init\"},\"message\":\"mtdi active\"}\n"@
    } else if json {
        "{\"event\":\"mtdi_active\"}\n"@
    } else {
        "[mtdi] Active! Monitoring system calls...\n"@
    }
}

/// The line that is written when tracing begins.
pub fn banner(json: bool, ecs: bool) -> (r: &'static str)
    ensures
        r@ == banner_text(json, ecs),
{
    if ecs {
        "{\"@timestamp\":\"2000-01-01T00:00:00Z\",\"event\":{\"action\":\"init\"},\"message\":\"mtdi active\"}\n"
    } else if json {
        "{\"event\":\"mtdi_active\"}\n"
    } else {
        "[mtdi] Active! Monitoring system calls...\n"
    }
}

/// What is logged first in a process that was attached to.
pub open spec fn attach_warning(launched: bool) -> Seq<Seq<char>> {
    if launched {
        Seq::empty()
    } else {
        seq![
            "[mtdi] PID attach only covers the PPL-writable subset of the hooks."@,
            "[mtdi] things will break if you try to trace syscalls anyway with PID attaching"@,
        ]
    }
}

/// What is logged first in a process that was attached to.
pub fn attach_warnings(launched: bool) -> (r: Vec<String>)
    ensures
        views(r@) == attach_warning(launched),
{
    let mut lines: Vec<String> = Vec::new();
    if !launched {
        lines.push("[mtdi] PID attach only covers the PPL-writable subset of the hooks.".to_owned());
        lines.push(
            "[mtdi] things will break if you try to trace syscalls anyway with PID attaching".to_owned(),
        );
    }
    assert(views(lines@) =~= attach_warning(launched));
    lines
}

/// The line that reports a call that could not be hooked.
pub fn hook_skipped(name: &str, error: &str) -> (r: String)
    ensures
        r@ == "[mtdi] Hook skipped for "@ + name@ + ": "@ + error@,
{
    let mut s = "[mtdi] Hook skipped for ".to_owned();
    s.append(name);
    s.append(": ");
    s.append(error);
    s
}

/// A message that is written at once is written as a line: it ends with the end of a line, and is
/// no longer than what is taken of it and that.
pub proof fn direct_messages_are_lines(msg: Seq<u8>)
    ensures
        direct_line(msg).len() > 0,
        direct_line(msg).last() == 10,
        direct_line(msg).len() <= DIRECT_MAX + 1,
{
}

/// A message that is written at once is its own bytes up to its end, or the first 4096 of them, and
/// then an end of line, unless those bytes end with one.
pub proof fn direct_messages_keep_their_bytes(msg: Seq<u8>)
    ensures
        ({
            let line = direct_line(msg);
            let n = if text_len(msg) <= 4096 {
                text_len(msg) as int
            } else {
                4096
            };
            &&& n <= msg.len()
            &&& line.len() == n || line.len() == n + 1
            &&& forall|i: int| 0 <= i < n ==> #[trigger] line[i] == msg[i]
            &&& line.len() == n <==> n > 0 && msg[n - 1] == 10
            &&& line.last() == 10
        }),
{
    text_ends_at_nul(msg);
}

/// An event that is to be captured is this event, in all its parts.
pub proof fn events_are_whole<S>(
    e: Event<S>,
    formatter: SlotFormatterFn,
    args: Seq<u64>,
    str1: Option<S>,
    str2: Option<S>,
)
    requires
        is_event(e, formatter, args, str1, str2),
    ensures
        e.formatter == formatter,
        args.len() == 6,
        forall|i: int| 0 <= i < 6 ==> #[trigger] e.args@[i] == args[i],
        e.str1 == str1,
        e.str2 == str2,
{
}

/// The file of a process that was attached to lies in the directory and has the process id in its
/// name.
pub proof fn own_logs_are_told_apart(directory: Seq<char>, pid: u32)
    ensures
        exists|n: Seq<char>|
            reading(n, 10) == pid && own_log_path(directory, pid) == #[trigger] (directory
                + "/mtdi_"@ + n + ".log"@),
{
    signed_numbers_are_read_back(pid as int, 0);
    let n = decimal(pid as int);
    assert(own_log_path(directory, pid) == directory + "/mtdi_"@ + n + ".log"@);
}

/// Where ECS output is asked for it comes before JSON output, and either before plain text.
pub proof fn banners_follow_the_output(json: bool)
    ensures
        banner_text(json, true) == banner_text(!json, true),
        banner_text(json, true)[2] == '@',
        banner_text(true, false)[2] == 'e',
        banner_text(false, false)[0] == '[',
{
    reveal_strlit("{\"@timestamp\":\"2000-01-01T00:00:00Z\",\"event\":{\"action\":\"init\"},\"message\":\"mtdi active\"}\n");
    reveal_strlit("{\"event\":\"mtdi_active\"}\n");
    reveal_strlit("[mtdi] Active! Monitoring system calls...\n");
}

/// An exiting process waits for the reader for a tenth of a second at most.
pub proof fn exits_wait_a_tenth_of_a_second()
    ensures
        EXIT_WAIT_MS * 10 == 1000,
{
}

} // verus!
