//! A probe that flags calls with suspicious arguments: files that are opened again, writes into
//! application bundles, truncation, files that are created without permissions, paths that are
//! looked up over and over, traffic on the standard descriptors, and exits.
use super::api::{Handler, MtdiRegistry, MtdiSafeContext};
use crate::text::{
    contains_text, decimal, digits, hex, numerals_are_read_back, occurs, push_decimal, push_digits,
    reading, tens,
};
use vstd::hash_map::StringHashMap;
use vstd::prelude::*;

verus! {

/// How many lines are logged at most.
pub const EVENT_CAP: usize = 20000;

/// Where the lines go.
pub const LOG_PATH: &'static str = "/tmp/mtdi_bughunt_vlc.log";

/// What the probe remembers: how many lines it had to log, whether one is being written, and how
/// often each path was opened and looked up.
pub struct Bughunt {
    pub events: usize,
    pub creating: bool,
    pub open_counts: StringHashMap<u64>,
    pub stat_counts: StringHashMap<u64>,
}

/// How often `key` was counted.
pub open spec fn count(counts: Map<Seq<char>, u64>, key: Seq<char>) -> u64 {
    if counts.contains_key(key) {
        counts[key]
    } else {
        0
    }
}

/// One more than `n`, and 0 after the last number.
pub open spec fn one_more(n: u64) -> u64 {
    if n == u64::MAX {
        0
    } else {
        (n + 1) as u64
    }
}

/// Counts `key` once more, and says how often it was counted.
pub fn bump_count(m: &mut StringHashMap<u64>, key: &str) -> (r: u64)
    ensures
        r == one_more(count(old(m)@, key@)),
        final(m)@ == old(m)@.insert(key@, r),
{
    let n: u64 = match m.get(key) {
        Some(n) => *n,
        None => 0,
    };
    let next: u64 = n.wrapping_add(1);
    m.insert(key.to_owned(), next);
    next
}

impl Bughunt {
    /// Whether a line is logged: there are not too many yet, and none is being written.
    pub open spec fn logs(self) -> bool {
        self.events < EVENT_CAP && !self.creating
    }

    /// What is remembered once there was a line to log. While it is written no other is.
    pub open spec fn logged(self) -> Bughunt {
        Bughunt {
            events: if self.events == usize::MAX {
                0
            } else {
                (self.events + 1) as usize
            },
            creating: self.creating || self.logs(),
            ..self
        }
    }

    /// Nothing remembered.
    pub fn new() -> (r: Bughunt)
        ensures
            r.events == 0,
            !r.creating,
            r.open_counts@ == Map::<Seq<char>, u64>::empty(),
            r.stat_counts@ == Map::<Seq<char>, u64>::empty(),
    {
        Bughunt {
            events: 0,
            creating: false,
            open_counts: StringHashMap::new(),
            stat_counts: StringHashMap::new(),
        }
    }

    /// There is a line to log: hands it back where it is to be written. Once it is,
    /// `line_written` has to be called.
    pub fn log_line(&mut self, line: String) -> (r: Option<String>)
        ensures
            *final(self) == old(self).logged(),
            r == (if old(self).logs() {
                Some(line)
            } else {
                None
            }),
    {
        let seen: usize = self.events;
        self.events = self.events.wrapping_add(1);
        if seen >= EVENT_CAP {
            return None;
        }
        if self.creating {
            return None;
        }
        self.creating = true;
        Some(line)
    }

    /// The line was written.
    pub fn line_written(&mut self)
        ensures
            *final(self) == (Bughunt { creating: false, ..*old(self) }),
    {
        self.creating = false;
    }
}

/// What is said of a call of `open` beside its arguments.
pub open spec fn open_note(flags: u64, mode: u64, path: Seq<char>) -> Seq<char> {
    let none = Seq::<char>::empty();
    (if flags & 3 != 0 && occurs(path, "/Applications/"@) {
        " WRITE-TO-BUNDLE"@
    } else {
        none
    }) + (if flags & 0x400 != 0 {
        " O_TRUNC"@
    } else {
        none
    }) + (if flags & 0x200 != 0 && mode == 0 {
        " CREATE-MODE-0"@
    } else {
        none
    }) + (if occurs(path, "//"@) {
        " DOUBLE-SLASH"@
    } else {
        none
    })
}

/// The line of a call of `open` on a path that was opened `n` times.
pub open spec fn open_text(flags: u64, mode: u64, path: Seq<char>, n: u64) -> Seq<char> {
    "[open] flags=0x"@ + hex(flags as nat) + " mode=0o"@ + digits(mode as nat, 8) + " \""@ + path
        + "\""@ + open_note(flags, mode, path) + (if n == 2 {
        "  <-- REPEAT-OPEN (2nd time)"@
    } else {
        Seq::empty()
    })
}

fn open_line(flags: u64, mode: u64, path: &str, n: u64) -> (r: String)
    ensures
        r@ == open_text(flags, mode, path@, n),
{
    let mut s = "[open] flags=0x".to_owned();
    push_digits(&mut s, flags, 16);
    s.append(" mode=0o");
    push_digits(&mut s, mode, 8);
    s.append(" \"");
    s.append(path);
    s.append("\"");
    let ghost head = s@;
    if flags & 3 != 0 && contains_text(path, "/Applications/") {
        s.append(" WRITE-TO-BUNDLE");
    }
    if flags & 0x400 != 0 {
        s.append(" O_TRUNC");
    }
    if flags & 0x200 != 0 && mode == 0 {
        s.append(" CREATE-MODE-0");
    }
    if contains_text(path, "//") {
        s.append(" DOUBLE-SLASH");
    }
    assert(s@ =~= head + open_note(flags, mode, path@));
    if n == 2 {
        s.append("  <-- REPEAT-OPEN (2nd time)");
    }
    assert(s@ =~= open_text(flags, mode, path@, n));
    s
}

/// What a handler that has the line `text` to log hands back.
pub open spec fn hands_back(state: Bughunt, text: Seq<char>, r: Option<String>) -> bool {
    if state.logs() {
        r matches Some(line) && line@ == text
    } else {
        r is None
    }
}

/// Counts a call of `open` and logs it. Where its path cannot be read nothing is done.
pub fn on_open(state: &mut Bughunt, ctx: &mut MtdiSafeContext) -> (r: Option<String>)
    ensures
        *final(ctx) == *old(ctx),
        match old(ctx).argument_text(0, 512) {
            Some(path) => {
                let n = one_more(count(old(state).open_counts@, path));
                &&& final(state).open_counts@ == old(state).open_counts@.insert(path, n)
                &&& final(state).stat_counts == old(state).stat_counts
                &&& final(state).events == old(state).logged().events
                &&& final(state).creating == old(state).logged().creating
                &&& hands_back(
                    *old(state),
                    open_text(old(ctx).argument(1), old(ctx).argument(2), path, n),
                    r,
                )
            },
            None => r is None && *final(state) == *old(state),
        },
{
    let flags: u64 = ctx.arg(1);
    let mode: u64 = ctx.arg(2);
    match ctx.read_arg_str(0, 512) {
        Some(path) => {
            let n: u64 = bump_count(&mut state.open_counts, path.as_str());
            let line = open_line(flags, mode, path.as_str(), n);
            state.log_line(line)
        },
        None => None,
    }
}

/// The counts at which a look-up is logged.
pub open spec fn milestone(n: u64) -> bool {
    n == 1 || n == 10 || n == 100 || n == 1000 || n == 10000
}

/// The line of a look-up by `call` of a path that was looked up `n` times.
pub open spec fn lookup_text(call: Seq<char>, path: Seq<char>, n: u64) -> Seq<char> {
    "["@ + call + "] \""@ + path + "\" (seen "@ + decimal(n as int) + " times)"@
}

/// What a look-up of `path` by `call` does.
pub open spec fn looks_up(
    before: Bughunt,
    after: Bughunt,
    call: Seq<char>,
    path: Option<Seq<char>>,
    r: Option<String>,
) -> bool {
    match path {
        Some(p) => {
            let n = one_more(count(before.stat_counts@, p));
            &&& after.stat_counts@ == before.stat_counts@.insert(p, n)
            &&& after.open_counts == before.open_counts
            &&& if milestone(n) {
                &&& after.events == before.logged().events
                &&& after.creating == before.logged().creating
                &&& hands_back(before, lookup_text(call, p, n), r)
            } else {
                after.events == before.events && after.creating == before.creating && r is None
            }
        },
        None => r is None && after == before,
    }
}

fn look_up(state: &mut Bughunt, call: &str, ctx: &MtdiSafeContext) -> (r: Option<String>)
    ensures
        looks_up(*old(state), *final(state), call@, ctx.argument_text(0, 512), r),
{
    match ctx.read_arg_str(0, 512) {
        Some(path) => {
            let n: u64 = bump_count(&mut state.stat_counts, path.as_str());
            if n == 1 || n == 10 || n == 100 || n == 1000 || n == 10000 {
                let mut s = "[".to_owned();
                s.append(call);
                s.append("] \"");
                s.append(path.as_str());
                s.append("\" (seen ");
                push_decimal(&mut s, n);
                s.append(" times)");
                state.log_line(s)
            } else {
                None
            }
        },
        None => None,
    }
}

/// Counts a call of `stat`, and logs the first and then ever fewer of them.
pub fn on_stat(state: &mut Bughunt, ctx: &mut MtdiSafeContext) -> (r: Option<String>)
    ensures
        *final(ctx) == *old(ctx),
        looks_up(*old(state), *final(state), "stat"@, old(ctx).argument_text(0, 512), r),
{
    look_up(state, "stat", ctx)
}

/// Counts a call of `lstat` with those of `stat`, and logs the first and then ever fewer of them.
pub fn on_lstat(state: &mut Bughunt, ctx: &mut MtdiSafeContext) -> (r: Option<String>)
    ensures
        *final(ctx) == *old(ctx),
        looks_up(*old(state), *final(state), "lstat"@, old(ctx).argument_text(0, 512), r),
{
    look_up(state, "lstat", ctx)
}

/// Logs a call of `fstat` on a standard descriptor.
pub fn on_fstat(state: &mut Bughunt, ctx: &mut MtdiSafeContext) -> (r: Option<String>)
    ensures
        *final(ctx) == *old(ctx),
        old(ctx).argument(0) < 3 ==> *final(state) == old(state).logged() && hands_back(
            *old(state),
            "[fstat] fd="@ + decimal(old(ctx).argument(0) as int) + " (stdio fd)"@,
            r,
        ),
        old(ctx).argument(0) >= 3 ==> *final(state) == *old(state) && r is None,
{
    let fd: u64 = ctx.arg(0);
    if fd < 3 {
        let mut s = "[fstat] fd=".to_owned();
        push_decimal(&mut s, fd);
        s.append(" (stdio fd)");
        state.log_line(s)
    } else {
        None
    }
}

/// The line of traffic by `call`.
pub open spec fn traffic_text(call: Seq<char>, fd: u64, len: u64, flags: u64) -> Seq<char> {
    "["@ + call + "] fd="@ + decimal(fd as int) + " len="@ + decimal(len as int) + " flags=0x"@
        + hex(flags as nat) + (if fd < 3 {
        " STDIO-FD"@
    } else {
        Seq::empty()
    }) + (if len == 0 {
        " ZERO-LEN"@
    } else {
        Seq::empty()
    })
}

fn traffic_line(call: &str, fd: u64, len: u64, flags: u64) -> (r: String)
    ensures
        r@ == traffic_text(call@, fd, len, flags),
{
    let mut s = "[".to_owned();
    s.append(call);
    s.append("] fd=");
    push_decimal(&mut s, fd);
    s.append(" len=");
    push_decimal(&mut s, len);
    s.append(" flags=0x");
    push_digits(&mut s, flags, 16);
    if fd < 3 {
        s.append(" STDIO-FD");
    }
    if len == 0 {
        s.append(" ZERO-LEN");
    }
    assert(s@ =~= traffic_text(call@, fd, len, flags));
    s
}

/// Logs a call of `send`.
pub fn on_send(state: &mut Bughunt, ctx: &mut MtdiSafeContext) -> (r: Option<String>)
    ensures
        *final(ctx) == *old(ctx),
        *final(state) == old(state).logged(),
        hands_back(
            *old(state),
            traffic_text(
                "send"@,
                old(ctx).argument(0),
                old(ctx).argument(2),
                old(ctx).argument(3),
            ),
            r,
        ),
{
    let line = traffic_line("send", ctx.arg(0), ctx.arg(2), ctx.arg(3));
    state.log_line(line)
}

/// Logs a call of `recv`.
pub fn on_recv(state: &mut Bughunt, ctx: &mut MtdiSafeContext) -> (r: Option<String>)
    ensures
        *final(ctx) == *old(ctx),
        *final(state) == old(state).logged(),
        hands_back(
            *old(state),
            traffic_text(
                "recv"@,
                old(ctx).argument(0),
                old(ctx).argument(2),
                old(ctx).argument(3),
            ),
            r,
        ),
{
    let line = traffic_line("recv", ctx.arg(0), ctx.arg(2), ctx.arg(3));
    state.log_line(line)
}

/// Logs a call of `fork`.
pub fn on_fork(state: &mut Bughunt, ctx: &mut MtdiSafeContext) -> (r: Option<String>)
    ensures
        *final(ctx) == *old(ctx),
        *final(state) == old(state).logged(),
        hands_back(*old(state), "[fork]"@, r),
{
    state.log_line("[fork]".to_owned())
}

/// Logs a call of `exit`.
pub fn on_exit(state: &mut Bughunt, ctx: &mut MtdiSafeContext) -> (r: Option<String>)
    ensures
        *final(ctx) == *old(ctx),
        *final(state) == old(state).logged(),
        hands_back(
            *old(state),
            "[exit] status="@ + decimal(old(ctx).argument(0) as int),
            r,
        ),
{
    let mut s = "[exit] status=".to_owned();
    push_decimal(&mut s, ctx.arg(0));
    state.log_line(s)
}

/// Asks for the hooks.
pub fn register(reg: &mut MtdiRegistry)
    ensures
        final(reg)@ == old(reg)@ + seq![
            ("open"@, Handler::OnOpen),
            ("stat"@, Handler::OnStat),
            ("lstat"@, Handler::OnLstat),
            ("fstat"@, Handler::OnFstat),
            ("send"@, Handler::OnSend),
            ("recv"@, Handler::OnRecv),
            ("fork"@, Handler::OnFork),
            ("exit"@, Handler::OnExit),
        ],
{
    reg.hook_symbol("open", Handler::OnOpen);
    reg.hook_symbol("stat", Handler::OnStat);
    reg.hook_symbol("lstat", Handler::OnLstat);
    reg.hook_symbol("fstat", Handler::OnFstat);
    reg.hook_symbol("send", Handler::OnSend);
    reg.hook_symbol("recv", Handler::OnRecv);
    reg.hook_symbol("fork", Handler::OnFork);
    reg.hook_symbol("exit", Handler::OnExit);
    assert(reg@ =~= old(reg)@ + seq![
            ("open"@, Handler::OnOpen),
            ("stat"@, Handler::OnStat),
            ("lstat"@, Handler::OnLstat),
            ("fstat"@, Handler::OnFstat),
            ("send"@, Handler::OnSend),
            ("recv"@, Handler::OnRecv),
            ("fork"@, Handler::OnFork),
            ("exit"@, Handler::OnExit),
        ]);
}

/// A line that is being written keeps every other from being logged, and a full log takes no
/// more: the probe does not answer to the calls that its own logging makes.
pub proof fn logging_does_not_log(state: Bughunt)
    ensures
        state.logs() ==> !state.logged().logs(),
        state.creating ==> state.logged().creating && !state.logged().logs(),
        EVENT_CAP <= state.events < usize::MAX ==> !state.logged().logs()
            && state.logged().events >= EVENT_CAP,
{
}

/// Counting counts: a path that was counted is counted once more, and no other is. A path that was
/// never counted was counted 0 times.
pub proof fn counts_go_up_by_one(counts: Map<Seq<char>, u64>, key: Seq<char>, other: Seq<char>)
    ensures
        !counts.contains_key(key) ==> count(counts, key) == 0,
        count(counts, key) < u64::MAX ==> one_more(count(counts, key)) == count(counts, key) + 1,
        count(counts, key) == u64::MAX ==> one_more(count(counts, key)) == 0,
        ({
            let after = counts.insert(key, one_more(count(counts, key)));
            &&& count(counts, key) < u64::MAX ==> count(after, key) == count(counts, key) + 1
            &&& other != key ==> count(after, other) == count(counts, other)
        }),
{
}

/// A line is written exactly while fewer than 20000 had to be and none is being written. Either way
/// it is counted, and what was counted of paths stays.
pub proof fn lines_are_logged_up_to_the_cap(state: Bughunt)
    ensures
        state.logs() <==> state.events < 20000 && !state.creating,
        state.events < usize::MAX ==> state.logged().events == state.events + 1,
        state.logged().creating <==> state.creating || state.logs(),
        state.logged().open_counts == state.open_counts,
        state.logged().stat_counts == state.stat_counts,
{
}

/// Whether `line` tells these flags in hexadecimal, this mode in octal and this path, and then `rest`.
pub open spec fn tells_open(
    line: Seq<char>,
    flags: u64,
    mode: u64,
    path: Seq<char>,
    rest: Seq<char>,
) -> bool {
    exists|f: Seq<char>, m: Seq<char>|
        reading(f, 16) == flags && reading(m, 8) == mode && line == #[trigger] ("[open] flags=0x"@
            + f + " mode=0o"@ + m + " \""@ + path + "\""@ + rest)
}

/// Whether `line` tells traffic by `call` with these arguments, and then `rest`.
pub open spec fn tells_traffic(
    line: Seq<char>,
    call: Seq<char>,
    fd: u64,
    len: u64,
    flags: u64,
    rest: Seq<char>,
) -> bool {
    exists|d: Seq<char>, l: Seq<char>, f: Seq<char>|
        reading(d, 10) == fd && reading(l, 10) == len && reading(f, 16) == flags && line
            == #[trigger] ("["@ + call + "] fd="@ + d + " len="@ + l + " flags=0x"@ + f + rest)
}

/// The line of a call of `open` tells the flags in hexadecimal, the mode in octal, and the path; then
/// what is suspicious of it, and that alone: a file in a bundle that is opened for writing, one that
/// is truncated, one that is created without permissions, a doubled slash; and a second opening.
pub proof fn open_lines_tell_what_is_suspicious(flags: u64, mode: u64, path: Seq<char>, n: u64)
    ensures
        ({
            let none = Seq::<char>::empty();
            let written = if flags % 4 != 0 && occurs(path, "/Applications/"@) {
                " WRITE-TO-BUNDLE"@
            } else {
                none
            };
            let truncated = if (flags / 0x400) % 2 == 1 {
                " O_TRUNC"@
            } else {
                none
            };
            let created = if (flags / 0x200) % 2 == 1 && mode == 0 {
                " CREATE-MODE-0"@
            } else {
                none
            };
            let doubled = if occurs(path, "//"@) {
                " DOUBLE-SLASH"@
            } else {
                none
            };
            let again = if n == 2 {
                "  <-- REPEAT-OPEN (2nd time)"@
            } else {
                none
            };
            tells_open(
                open_text(flags, mode, path, n),
                flags,
                mode,
                path,
                written + truncated + created + doubled + again,
            )
        }),
{
    lemma_flags(flags);
    numerals_are_read_back(flags as nat, 16);
    numerals_are_read_back(mode as nat, 8);
    let f = digits(flags as nat, 16);
    let m = digits(mode as nat, 8);
    let again = if n == 2 {
        "  <-- REPEAT-OPEN (2nd time)"@
    } else {
        Seq::empty()
    };
    let rest = open_note(flags, mode, path) + again;
    assert(open_text(flags, mode, path, n) =~= "[open] flags=0x"@ + f + " mode=0o"@ + m + " \""@
        + path + "\""@ + rest);
    assert(tells_open(open_text(flags, mode, path, n), flags, mode, path, rest));
}

proof fn lemma_flags(flags: u64)
    ensures
        flags & 3 == flags % 4,
        (flags & 0x400 != 0) == ((flags / 0x400) % 2 == 1),
        (flags & 0x200 != 0) == ((flags / 0x200) % 2 == 1),
{
    assert(flags & 3 == flags % 4 && (flags & 0x400 != 0) == ((flags / 0x400) % 2 == 1) && (flags
        & 0x200 != 0) == ((flags / 0x200) % 2 == 1)) by (bit_vector);
}

/// A look-up is told at its first time and at each power of ten up to ten thousand, with the path and
/// how often it was seen; traffic is told with its descriptor, its length and its flags, and with
/// what is suspicious of them.
pub proof fn lines_tell_what_was_seen(
    call: Seq<char>,
    path: Seq<char>,
    n: u64,
    fd: u64,
    len: u64,
    flags: u64,
)
    ensures
        milestone(n) <==> n == tens(0) || n == tens(1) || n == tens(2) || n == tens(3) || n == tens(
            4,
        ),
        exists|t: Seq<char>|
            reading(t, 10) == n && lookup_text(call, path, n) == #[trigger] ("["@ + call + "] \""@
                + path + "\" (seen "@ + t + " times)"@),
        ({
            let standard = if fd == 0 || fd == 1 || fd == 2 {
                " STDIO-FD"@
            } else {
                Seq::empty()
            };
            let nothing = if len == 0 {
                " ZERO-LEN"@
            } else {
                Seq::empty()
            };
            tells_traffic(
                traffic_text(call, fd, len, flags),
                call,
                fd,
                len,
                flags,
                standard + nothing,
            )
        }),
{
    reveal_with_fuel(tens, 5);
    numerals_are_read_back(n as nat, 10);
    numerals_are_read_back(fd as nat, 10);
    numerals_are_read_back(len as nat, 10);
    numerals_are_read_back(flags as nat, 16);
    let t = decimal(n as int);
    assert(lookup_text(call, path, n) == "["@ + call + "] \""@ + path + "\" (seen "@ + t
        + " times)"@);
    let (d, l, f) = (decimal(fd as int), decimal(len as int), hex(flags as nat));
    let standard = if fd == 0 || fd == 1 || fd == 2 {
        " STDIO-FD"@
    } else {
        Seq::empty()
    };
    let nothing = if len == 0 {
        " ZERO-LEN"@
    } else {
        Seq::empty()
    };
    let rest = standard + nothing;
    assert(traffic_text(call, fd, len, flags) =~= "["@ + call + "] fd="@ + d + " len="@ + l
        + " flags=0x"@ + f + rest);
    assert(tells_traffic(traffic_text(call, fd, len, flags), call, fd, len, flags, rest));
}

} // verus!
