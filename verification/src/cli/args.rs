//! The command line.
use crate::events::filter::{unknown_call, unknown_name, KNOWN_CALLS};
use crate::text::{begins, begins_with, chars_of, text_eq, text_view, views};
use vstd::prelude::*;

verus! {

/// What the command line asks for.
#[derive(Debug)]
pub struct AppArgs {
    pub target_pid: Option<i32>,
    pub cmd_name: Option<String>,
    pub cmd_args: Vec<String>,
    pub output_file: Option<String>,
    pub trace_filter: Option<String>,
    pub script_file: Option<String>,
    pub custom_dylib: Option<String>,
    pub json_output: bool,
    pub ecs_output: bool,
    pub ndump: bool,
    pub legacy_unwind: bool,
    pub check_only: bool,
}

/// What the command line asks for, with texts as sequences.
pub struct ArgsView {
    pub target_pid: Option<i32>,
    pub cmd_name: Option<Seq<char>>,
    pub cmd_args: Seq<Seq<char>>,
    pub output_file: Option<Seq<char>>,
    pub trace_filter: Option<Seq<char>>,
    pub script_file: Option<Seq<char>>,
    pub custom_dylib: Option<Seq<char>>,
    pub json_output: bool,
    pub ecs_output: bool,
    pub ndump: bool,
    pub legacy_unwind: bool,
    pub check_only: bool,
}

impl View for AppArgs {
    type V = ArgsView;

    open spec fn view(&self) -> ArgsView {
        ArgsView {
            target_pid: self.target_pid,
            cmd_name: text_view(self.cmd_name),
            cmd_args: views(self.cmd_args@),
            output_file: text_view(self.output_file),
            trace_filter: text_view(self.trace_filter),
            script_file: text_view(self.script_file),
            custom_dylib: text_view(self.custom_dylib),
            json_output: self.json_output,
            ecs_output: self.ecs_output,
            ndump: self.ndump,
            legacy_unwind: self.legacy_unwind,
            check_only: self.check_only,
        }
    }
}

/// The options that take a value.
#[derive(Debug, Clone, Copy, PartialEq, Eq, Structural)]
pub enum Valued {
    Output,
    Trace,
    Pid,
    Load,
    Script,
}

/// The options that take none.
#[derive(Debug, Clone, Copy, PartialEq, Eq, Structural)]
pub enum Switch {
    Json,
    Ecs,
    LegacyUnwind,
    CheckOnly,
    Ndump,
}

/// What a word of the command line is.
#[derive(Debug, Clone, Copy, PartialEq, Eq, Structural)]
pub enum Word {
    Takes(Valued),
    Sets(Switch),
    Help,
    Unknown,
    Command,
}

/// What ends the program before it does anything else.
#[derive(Debug)]
pub enum Stop {
    /// There are no words at all: the help is due.
    NoArguments,
    /// The help was asked for.
    Help,
    /// An option has no value.
    MissingValue(Valued),
    /// The value of an option is no process id.
    InvalidPid,
    /// A word begins as an option and is none.
    UnknownArgument(String),
    /// A name in the filter is the name of no call.
    UnknownCall(String),
    /// There is nothing to trace.
    NoCommand,
}

/// What ends the program, with texts as sequences.
pub enum StopView {
    NoArguments,
    Help,
    MissingValue(Valued),
    InvalidPid,
    UnknownArgument(Seq<char>),
    UnknownCall(Seq<char>),
    NoCommand,
}

impl View for Stop {
    type V = StopView;

    open spec fn view(&self) -> StopView {
        match self {
            Stop::NoArguments => StopView::NoArguments,
            Stop::Help => StopView::Help,
            Stop::MissingValue(option) => StopView::MissingValue(*option),
            Stop::InvalidPid => StopView::InvalidPid,
            Stop::UnknownArgument(word) => StopView::UnknownArgument(word@),
            Stop::UnknownCall(name) => StopView::UnknownCall(name@),
            Stop::NoCommand => StopView::NoCommand,
        }
    }
}

/// What the word `w` is.
pub open spec fn word(w: Seq<char>) -> Word {
    if w == "-o"@ || w == "--output"@ {
        Word::Takes(Valued::Output)
    } else if w == "-t"@ || w == "--trace"@ {
        Word::Takes(Valued::Trace)
    } else if w == "-p"@ || w == "--pid"@ {
        Word::Takes(Valued::Pid)
    } else if w == "-j"@ || w == "--json"@ {
        Word::Sets(Switch::Json)
    } else if w == "-e"@ || w == "--ecs"@ {
        Word::Sets(Switch::Ecs)
    } else if w == "-l"@ || w == "--load"@ {
        Word::Takes(Valued::Load)
    } else if w == "-s"@ || w == "--script"@ || w == "--sandboxed"@ || w == "--swap"@ {
        Word::Takes(Valued::Script)
    } else if w == "-u"@ || w == "--legacy-unwind"@ {
        Word::Sets(Switch::LegacyUnwind)
    } else if w == "-c"@ || w == "--check-only"@ {
        Word::Sets(Switch::CheckOnly)
    } else if w == "--ndump"@ || w == "-ndump"@ {
        Word::Sets(Switch::Ndump)
    } else if w == "-h"@ || w == "-help"@ || w == "--help"@ {
        Word::Help
    } else if begins(w, "-"@) {
        Word::Unknown
    } else {
        Word::Command
    }
}

fn classify(w: &str) -> (r: Word)
    ensures
        r == word(w@),
{
    if text_eq(w, "-o") || text_eq(w, "--output") {
        Word::Takes(Valued::Output)
    } else if text_eq(w, "-t") || text_eq(w, "--trace") {
        Word::Takes(Valued::Trace)
    } else if text_eq(w, "-p") || text_eq(w, "--pid") {
        Word::Takes(Valued::Pid)
    } else if text_eq(w, "-j") || text_eq(w, "--json") {
        Word::Sets(Switch::Json)
    } else if text_eq(w, "-e") || text_eq(w, "--ecs") {
        Word::Sets(Switch::Ecs)
    } else if text_eq(w, "-l") || text_eq(w, "--load") {
        Word::Takes(Valued::Load)
    } else if text_eq(w, "-s") || text_eq(w, "--script") || text_eq(w, "--sandboxed") || text_eq(
        w,
        "--swap",
    ) {
        Word::Takes(Valued::Script)
    } else if text_eq(w, "-u") || text_eq(w, "--legacy-unwind") {
        Word::Sets(Switch::LegacyUnwind)
    } else if text_eq(w, "-c") || text_eq(w, "--check-only") {
        Word::Sets(Switch::CheckOnly)
    } else if text_eq(w, "--ndump") || text_eq(w, "-ndump") {
        Word::Sets(Switch::Ndump)
    } else if text_eq(w, "-h") || text_eq(w, "-help") || text_eq(w, "--help") {
        Word::Help
    } else if begins_with(w, "-") {
        Word::Unknown
    } else {
        Word::Command
    }
}

/// Whether every character is a decimal digit.
pub open spec fn all_digits(s: Seq<char>) -> bool {
    forall|i: int| 0 <= i < s.len() ==> '0' <= #[trigger] s[i] <= '9'
}

/// The number that decimal digits stand for.
pub open spec fn value(s: Seq<char>) -> int
    decreases s.len(),
{
    if s.len() == 0 {
        0
    } else {
        value(s.drop_last()) * 10 + (s.last() as int - '0' as int)
    }
}

/// The 32-bit number that `s` stands for: digits, perhaps behind a sign.
pub open spec fn number(s: Seq<char>) -> Option<i32> {
    let signed = s.len() > 0 && (s[0] == '-' || s[0] == '+');
    let body = if signed {
        s.drop_first()
    } else {
        s
    };
    let n = if signed && s[0] == '-' {
        -value(body)
    } else {
        value(body)
    };
    if body.len() > 0 && all_digits(body) && i32::MIN <= n <= i32::MAX {
        Some(n as i32)
    } else {
        None
    }
}

proof fn lemma_value_grows(s: Seq<char>, i: int)
    requires
        0 <= i <= s.len(),
        all_digits(s),
    ensures
        0 <= value(s.take(i)) <= value(s),
    decreases s.len(),
{
    if i == s.len() {
        assert(s.take(i) =~= s);
        if i > 0 {
            let front = s.drop_last();
            assert forall|j: int| 0 <= j < front.len() implies '0' <= #[trigger] front[j] <= '9' by {
                assert(front[j] == s[j]);
            }
            lemma_value_grows(front, front.len() as int);
            assert(front.take(front.len() as int) =~= front);
            assert(s[s.len() - 1] == s.last());
        }
    } else {
        let front = s.drop_last();
        assert forall|j: int| 0 <= j < front.len() implies '0' <= #[trigger] front[j] <= '9' by {
            assert(front[j] == s[j]);
        }
        lemma_value_grows(front, i);
        assert(front.take(i) =~= s.take(i));
        assert(s[s.len() - 1] == s.last());
    }
}

/// The 32-bit number that `s` stands for.
pub fn parse_number(s: &str) -> (r: Option<i32>)
    ensures
        r == number(s@),
{
    let chars = chars_of(s);
    let signed = chars.len() > 0 && (chars[0] == '-' || chars[0] == '+');
    let negative = signed && chars[0] == '-';
    let start: usize = if signed {
        1
    } else {
        0
    };
    let ghost body = if signed {
        s@.drop_first()
    } else {
        s@
    };
    assert(body =~= s@.skip(start as int));
    if chars.len() == start {
        return None;
    }
    let mut n: i64 = 0;
    let mut i: usize = start;
    assert(body.take(0) =~= Seq::<char>::empty());
    while i < chars.len()
        invariant
            chars@ == s@,
            start <= i <= chars@.len(),
            body == s@.skip(start as int),
            signed == (s@.len() > 0 && (s@[0] == '-' || s@[0] == '+')),
            body == (if signed {
                s@.drop_first()
            } else {
                s@
            }),
            all_digits(body.take(i - start)),
            n == value(body.take(i - start)),
            0 <= n <= 0x8000_0000,
        decreases chars@.len() - i,
    {
        let c: char = chars[i];
        assert(body[i - start] == c);
        if c < '0' || c > '9' {
            assert(!all_digits(body));
            return None;
        }
        let digit: i64 = ((c as u32) - 48) as i64;
        n = n * 10 + digit;
        let ghost longer = body.take(i + 1 - start);
        assert(longer.drop_last() =~= body.take(i - start));
        assert(longer.last() == c);
        assert(all_digits(longer)) by {
            assert forall|j: int| 0 <= j < longer.len() implies '0' <= #[trigger] longer[j]
                <= '9' by {
                if j < i - start {
                    assert(longer[j] == body.take(i - start)[j]);
                }
            }
        }
        if n > 0x8000_0000 {
            proof {
                if all_digits(body) {
                    lemma_value_grows(body, i + 1 - start);
                }
            }
            return None;
        }
        i += 1;
    }
    assert(body.take(body.len() as int) =~= body);
    if negative {
        Some((-n) as i32)
    } else if n <= 0x7FFF_FFFF {
        Some(n as i32)
    } else {
        None
    }
}

/// Nothing asked for yet.
pub open spec fn no_args() -> ArgsView {
    ArgsView {
        target_pid: None,
        cmd_name: None,
        cmd_args: Seq::empty(),
        output_file: None,
        trace_filter: None,
        script_file: None,
        custom_dylib: None,
        json_output: false,
        ecs_output: false,
        ndump: false,
        legacy_unwind: false,
        check_only: false,
    }
}

/// `acc` with `switch` set.
pub open spec fn with_switch(acc: ArgsView, switch: Switch) -> ArgsView {
    match switch {
        Switch::Json => ArgsView { json_output: true, ..acc },
        Switch::Ecs => ArgsView { ecs_output: true, ..acc },
        Switch::LegacyUnwind => ArgsView { legacy_unwind: true, ..acc },
        Switch::CheckOnly => ArgsView { check_only: true, ..acc },
        Switch::Ndump => ArgsView { ndump: true, ..acc },
    }
}

/// `acc` with the value of `option`.
pub open spec fn with_value(acc: ArgsView, option: Valued, v: Seq<char>) -> Result<
    ArgsView,
    StopView,
> {
    match option {
        Valued::Output => Ok(ArgsView { output_file: Some(v), ..acc }),
        Valued::Trace => Ok(ArgsView { trace_filter: Some(v), ..acc }),
        Valued::Load => Ok(ArgsView { custom_dylib: Some(v), ..acc }),
        Valued::Script => Ok(ArgsView { script_file: Some(v), ..acc }),
        Valued::Pid => match number(v) {
            Some(pid) => Ok(ArgsView { target_pid: Some(pid), ..acc }),
            None => Err(StopView::InvalidPid),
        },
    }
}

/// The options that `words` begin with, on top of `acc`, and the words from the first that is
/// none.
pub open spec fn options(words: Seq<Seq<char>>, acc: ArgsView) -> Result<
    (ArgsView, Seq<Seq<char>>),
    StopView,
>
    decreases words.len(),
{
    if words.len() == 0 {
        Ok((acc, words))
    } else {
        match word(words[0]) {
            Word::Command => Ok((acc, words)),
            Word::Help => Err(StopView::Help),
            Word::Unknown => Err(StopView::UnknownArgument(words[0])),
            Word::Sets(switch) => options(words.skip(1), with_switch(acc, switch)),
            Word::Takes(option) => if words.len() < 2 {
                Err(StopView::MissingValue(option))
            } else {
                match with_value(acc, option, words[1]) {
                    Ok(next) => options(words.skip(2), next),
                    Err(stop) => Err(stop),
                }
            },
        }
    }
}

/// The first name in the filter, where there is one, that is the name of no call.
pub open spec fn unknown_traced(filter: Option<Seq<char>>) -> Option<Seq<char>> {
    match filter {
        Some(list) => unknown_name(list),
        None => None,
    }
}

/// What a command line asks for. A filter names calls that there are. The first word that is no
/// option is the command, and what follows are its arguments. There is none to give where a process is attached to, and none is
/// needed where a probe is only checked.
pub open spec fn parsed(words: Seq<Seq<char>>) -> Result<ArgsView, StopView> {
    if words.len() == 0 {
        Err(StopView::NoArguments)
    } else {
        match options(words, no_args()) {
            Err(stop) => Err(stop),
            Ok((acc, rest)) => if let Some(name) = unknown_traced(acc.trace_filter) {
                Err(StopView::UnknownCall(name))
            } else if acc.target_pid is Some {
                Ok(acc)
            } else if rest.len() > 0 {
                Ok(ArgsView { cmd_name: Some(rest[0]), cmd_args: rest.skip(1), ..acc })
            } else if acc.check_only {
                Ok(acc)
            } else {
                Err(StopView::NoCommand)
            },
        }
    }
}

/// The views of a result.
pub open spec fn parse_view(r: Result<AppArgs, Stop>) -> Result<ArgsView, StopView> {
    match r {
        Ok(args) => Ok(args@),
        Err(stop) => Err(stop@),
    }
}

/// What the command line `args`, without the program's name, asks for.
pub fn parse_args(args: &Vec<String>) -> (r: Result<AppArgs, Stop>)
    ensures
        parse_view(r) == parsed(views(args@)),
{
    if args.len() == 0 {
        return Err(Stop::NoArguments);
    }
    let mut a = AppArgs {
        target_pid: None,
        cmd_name: None,
        cmd_args: Vec::new(),
        output_file: None,
        trace_filter: None,
        script_file: None,
        custom_dylib: None,
        json_output: false,
        ecs_output: false,
        ndump: false,
        legacy_unwind: false,
        check_only: false,
    };
    let ghost words = views(args@);
    assert(a@.cmd_args =~= no_args().cmd_args);
    assert(words.skip(0) =~= words);
    let mut i: usize = 0;
    while i < args.len()
        invariant_except_break
            i <= args@.len(),
            words == views(args@),
            words.len() > 0,
            options(words, no_args()) == options(words.skip(i as int), a@),
            a.cmd_name is None,
            a.cmd_args@.len() == 0,
        ensures
            i <= args@.len(),
            a.cmd_name is None,
            a.cmd_args@.len() == 0,
            options(words, no_args()) == Ok::<(ArgsView, Seq<Seq<char>>), StopView>(
                (a@, words.skip(i as int)),
            ),
        decreases args@.len() - i,
    {
        let ghost rest = words.skip(i as int);
        assert(rest[0] == args@[i as int]@);
        match classify(args[i].as_str()) {
            Word::Command => {
                break;
            },
            Word::Help => {
                return Err(Stop::Help);
            },
            Word::Unknown => {
                return Err(Stop::UnknownArgument(args[i].as_str().to_owned()));
            },
            Word::Sets(switch) => {
                let ghost before = a@;
                match switch {
                    Switch::Json => {
                        a.json_output = true;
                    },
                    Switch::Ecs => {
                        a.ecs_output = true;
                    },
                    Switch::LegacyUnwind => {
                        a.legacy_unwind = true;
                    },
                    Switch::CheckOnly => {
                        a.check_only = true;
                    },
                    Switch::Ndump => {
                        a.ndump = true;
                    },
                }
                assert(a@ == with_switch(before, switch));
                assert(rest.skip(1) =~= words.skip(i + 1));
                i += 1;
            },
            Word::Takes(option) => {
                if args.len() - i < 2 {
                    return Err(Stop::MissingValue(option));
                }
                let ghost before = a@;
                assert(rest[1] == args@[i + 1]@);
                let v = args[i + 1].as_str().to_owned();
                match option {
                    Valued::Output => {
                        a.output_file = Some(v);
                    },
                    Valued::Trace => {
                        a.trace_filter = Some(v);
                    },
                    Valued::Load => {
                        a.custom_dylib = Some(v);
                    },
                    Valued::Script => {
                        a.script_file = Some(v);
                    },
                    Valued::Pid => match parse_number(v.as_str()) {
                        Some(pid) => {
                            a.target_pid = Some(pid);
                        },
                        None => {
                            return Err(Stop::InvalidPid);
                        },
                    },
                }
                assert(with_value(before, option, rest[1]) == Ok::<ArgsView, StopView>(a@));
                assert(rest.skip(2) =~= words.skip(i + 2));
                i += 2;
            },
        }
    }
    let unknown = match &a.trace_filter {
        Some(list) => unknown_call(list.as_str()),
        None => None,
    };
    if let Some(name) = unknown {
        return Err(Stop::UnknownCall(name));
    }
    if a.target_pid.is_some() {
        return Ok(a);
    }
    if i == args.len() {
        if a.check_only {
            return Ok(a);
        }
        return Err(Stop::NoCommand);
    }
    let ghost rest = words.skip(i as int);
    let ghost before = a@;
    a.cmd_name = Some(args[i].as_str().to_owned());
    let mut k: usize = i + 1;
    assert(views(a.cmd_args@) =~= words.subrange(i + 1, k as int));
    while k < args.len()
        invariant
            i < k <= args@.len(),
            words == views(args@),
            views(a.cmd_args@) == words.subrange(i + 1, k as int),
            a@ == (ArgsView { cmd_name: a@.cmd_name, cmd_args: a@.cmd_args, ..before }),
            text_view(a.cmd_name) == Some(words[i as int]),
        decreases args@.len() - k,
    {
        let ghost had = a.cmd_args@;
        let text = args[k].as_str().to_owned();
        a.cmd_args.push(text);
        assert(views(a.cmd_args@) =~= views(had).push(words[k as int]));
        assert(words.subrange(i + 1, k + 1) =~= words.subrange(i + 1, k as int).push(
            words[k as int],
        ));
        k += 1;
    }
    assert(words.subrange(i + 1, words.len() as int) =~= rest.skip(1));
    Ok(a)
}

/// The first word that is no option ends the options: the words from it on are the command and
/// its arguments, whatever they look like.
pub proof fn command_keeps_its_words(command: Seq<char>, rest: Seq<Seq<char>>)
    requires
        word(command) == Word::Command,
    ensures
        parsed(seq![command] + rest) == Ok::<ArgsView, StopView>(
            ArgsView { cmd_name: Some(command), cmd_args: rest, ..no_args() },
        ),
{
    let words = seq![command] + rest;
    assert(words[0] == command);
    assert(words.skip(1) =~= rest);
}

/// What is left after the options is the end of the command line, and begins with a command where
/// there is anything left.
pub proof fn options_come_first(words: Seq<Seq<char>>, acc: ArgsView)
    ensures
        options(words, acc) matches Ok(p) ==> {
            &&& p.1.len() <= words.len()
            &&& p.1 == words.skip(words.len() - p.1.len())
            &&& p.1.len() > 0 ==> word(p.1[0]) == Word::Command
        },
    decreases words.len(),
{
    assert(words.skip(0) =~= words);
    if words.len() > 0 {
        match word(words[0]) {
            Word::Sets(switch) => {
                let rest = words.skip(1);
                options_come_first(rest, with_switch(acc, switch));
                if let Ok(p) = options(rest, with_switch(acc, switch)) {
                    assert(p.1 =~= words.skip(words.len() - p.1.len()));
                }
            },
            Word::Takes(option) => {
                if words.len() >= 2 {
                    if let Ok(next) = with_value(acc, option, words[1]) {
                        let rest = words.skip(2);
                        options_come_first(rest, next);
                        if let Ok(p) = options(rest, next) {
                            assert(p.1 =~= words.skip(words.len() - p.1.len()));
                        }
                    }
                }
            },
            _ => {},
        }
    }
}

/// What is said of a missing value.
pub open spec fn missing_value(option: Valued) -> Seq<char> {
    match option {
        Valued::Output => "Error: -o requires a file path"@,
        Valued::Trace => "Error: -t requires a comma-separated list of syscalls"@,
        Valued::Pid => "Error: -p requires a PID"@,
        Valued::Load => "Error: -l requires a path to a dylib"@,
        Valued::Script => "Error: -s requires a safe Rust probe script (.rs)"@,
    }
}

/// The lines that go to standard error before the program ends.
pub open spec fn complaint(stop: StopView) -> Seq<Seq<char>> {
    match stop {
        StopView::NoArguments | StopView::Help => Seq::empty(),
        StopView::MissingValue(option) => seq![missing_value(option)],
        StopView::InvalidPid => seq!["Invalid PID."@],
        StopView::UnknownArgument(w) => seq![
            "Unknown argument: "@ + w,
            "Use -h or --help for usage information."@,
        ],
        StopView::UnknownCall(name) => seq![
            "Error: unknown syscall in -t: "@ + name,
            "Known syscalls: "@ + KNOWN_CALLS@,
        ],
        StopView::NoCommand => seq!["Error: No command specified to trace."@],
    }
}

/// How the program ends before it does anything else.
#[derive(Debug)]
pub struct Ending {
    /// Whether the help goes to standard output.
    pub help: bool,
    /// The lines that go to standard error.
    pub lines: Vec<String>,
    /// The exit status.
    pub status: i32,
}

/// The status with which a panic ends the program.
pub const PANIC_STATUS: i32 = 101;

/// How the program ends before it does anything else. Only asking for help is no failure; a value
/// that is no process id ends it as a panic does.
pub fn ending(stop: &Stop) -> (r: Ending)
    ensures
        r.help == (stop is NoArguments || stop is Help),
        views(r.lines@) == complaint(stop@),
        r.status == (if stop is Help {
            0
        } else if stop is InvalidPid {
            PANIC_STATUS
        } else {
            1
        }),
{
    let mut lines: Vec<String> = Vec::new();
    let mut help = false;
    let mut status: i32 = 1;
    match stop {
        Stop::NoArguments => {
            help = true;
        },
        Stop::Help => {
            help = true;
            status = 0;
        },
        Stop::MissingValue(option) => {
            let text = match option {
                Valued::Output => "Error: -o requires a file path",
                Valued::Trace => "Error: -t requires a comma-separated list of syscalls",
                Valued::Pid => "Error: -p requires a PID",
                Valued::Load => "Error: -l requires a path to a dylib",
                Valued::Script => "Error: -s requires a safe Rust probe script (.rs)",
            };
            lines.push(text.to_owned());
        },
        Stop::InvalidPid => {
            lines.push("Invalid PID.".to_owned());
            status = PANIC_STATUS;
        },
        Stop::UnknownArgument(w) => {
            let mut text = "Unknown argument: ".to_owned();
            text.append(w.as_str());
            lines.push(text);
            lines.push("Use -h or --help for usage information.".to_owned());
        },
        Stop::UnknownCall(name) => {
            let mut text = "Error: unknown syscall in -t: ".to_owned();
            text.append(name.as_str());
            lines.push(text);
            let mut known = "Known syscalls: ".to_owned();
            known.append(KNOWN_CALLS);
            lines.push(known);
        },
        Stop::NoCommand => {
            lines.push("Error: No command specified to trace.".to_owned());
        },
    }
    assert(views(lines@) =~= complaint(stop@));
    Ending { help, lines, status }
}

/// The help.
pub const HELP: &'static str = "mtdi - High-speed macOS user-space dynamic instrumentation

Usage: mtdi [OPTIONS] <command> [args...]
       mtdi -p <PID>

Options:
  -s, --script <file.rs> Compile, sandbox-verify, and inject a safe Rust probe
  -l, --load <dylib>     Load a custom pre-compiled dylib directly (BYOB)
  -p, --pid <PID>        Attach to an already running process
  -t, --trace <calls>    Comma-separated list of syscalls to intercept (e.g. open,read)
  -o, --output <file>    Write output to a specific file instead of stderr
  -j, --json             Export logs in NDJSON format
  -e, --ecs              Export logs in Elastic Common Schema (ECS) JSON format
  -u, --legacy-unwind    Bypass AST verification; permit panics (slower)
  -c, --check-only       Compile and verify the probe only, never inject it
  -h, --help             Print this help message and exit

Examples:
  mtdi -s my_probe.rs curl http://example.com
  mtdi -s my_probe.rs -p 1234
  mtdi -l custom_hook.dylib -p 1234
";

/// The help.
pub fn print_help() -> (r: &'static str)
    ensures
        r@ == HELP@,
{
    HELP
}

/// What the command line asks for is seen as it is, field by field, and so is what ends the program.
pub proof fn arguments_are_seen_as_they_are(a: AppArgs, stop: Stop)
    ensures
        a@.target_pid == a.target_pid,
        a@.cmd_name == text_view(a.cmd_name),
        a@.cmd_args == views(a.cmd_args@),
        a@.output_file == text_view(a.output_file),
        a@.trace_filter == text_view(a.trace_filter),
        a@.script_file == text_view(a.script_file),
        a@.custom_dylib == text_view(a.custom_dylib),
        a@.json_output == a.json_output,
        a@.ecs_output == a.ecs_output,
        a@.ndump == a.ndump,
        a@.legacy_unwind == a.legacy_unwind,
        a@.check_only == a.check_only,
        parse_view(Ok(a)) == Ok::<ArgsView, StopView>(a@),
        parse_view(Err(stop)) == Err::<ArgsView, StopView>(stop@),
        stop is NoArguments <==> stop@ is NoArguments,
        stop is Help <==> stop@ is Help,
        stop is InvalidPid <==> stop@ is InvalidPid,
        stop is NoCommand <==> stop@ is NoCommand,
        stop matches Stop::MissingValue(o) ==> stop@ == StopView::MissingValue(o),
        stop matches Stop::UnknownArgument(w) ==> stop@ == StopView::UnknownArgument(w@),
        stop matches Stop::UnknownCall(n) ==> stop@ == StopView::UnknownCall(n@),
{
}

/// What is said before the program ends. A missing value is told with the option that lacks it, and
/// an unknown word or call by its name; help is no complaint.
pub proof fn complaints_name_their_cause(w: Seq<char>)
    ensures
        complaint(StopView::NoArguments).len() == 0,
        complaint(StopView::Help).len() == 0,
        complaint(StopView::MissingValue(Valued::Output)) == seq![
            "Error: -o requires a file path"@,
        ],
        complaint(StopView::MissingValue(Valued::Trace)) == seq![
            "Error: -t requires a comma-separated list of syscalls"@,
        ],
        complaint(StopView::MissingValue(Valued::Pid)) == seq!["Error: -p requires a PID"@],
        complaint(StopView::MissingValue(Valued::Load)) == seq![
            "Error: -l requires a path to a dylib"@,
        ],
        complaint(StopView::MissingValue(Valued::Script)) == seq![
            "Error: -s requires a safe Rust probe script (.rs)"@,
        ],
        complaint(StopView::UnknownArgument(w))[0] == "Unknown argument: "@ + w,
        complaint(StopView::UnknownCall(w))[0] == "Error: unknown syscall in -t: "@ + w,
        complaint(StopView::UnknownCall(w))[1] == "Known syscalls: "@ + KNOWN_CALLS@,
        complaint(StopView::NoCommand) == seq!["Error: No command specified to trace."@],
        complaint(StopView::InvalidPid) == seq!["Invalid PID."@],
{
}

} // verus!
