//! What a command line means.
use super::args::{
    all_digits, number, options, parsed, value, with_switch, with_value, word, ArgsView, StopView,
    Switch, Valued, Word,
};
use crate::events::filter::unknown_name;
use crate::text::{begins, reading, worth};
use vstd::prelude::*;

verus! {

/// Whether the word names the output file.
pub open spec fn sets_output(w: Seq<char>) -> bool {
    w == "-o"@ || w == "--output"@
}

/// Whether the word names the filter.
pub open spec fn sets_trace(w: Seq<char>) -> bool {
    w == "-t"@ || w == "--trace"@
}

/// Whether the word names the process to attach to.
pub open spec fn sets_pid(w: Seq<char>) -> bool {
    w == "-p"@ || w == "--pid"@
}

/// Whether the word names a dylib to load.
pub open spec fn sets_dylib(w: Seq<char>) -> bool {
    w == "-l"@ || w == "--load"@
}

/// Whether the word names a probe.
pub open spec fn sets_script(w: Seq<char>) -> bool {
    w == "-s"@ || w == "--script"@ || w == "--sandboxed"@ || w == "--swap"@
}

/// Whether the word asks for JSON output.
pub open spec fn sets_json(w: Seq<char>) -> bool {
    w == "-j"@ || w == "--json"@
}

/// Whether the word asks for ECS output.
pub open spec fn sets_ecs(w: Seq<char>) -> bool {
    w == "-e"@ || w == "--ecs"@
}

/// Whether the word permits panics.
pub open spec fn sets_unwind(w: Seq<char>) -> bool {
    w == "-u"@ || w == "--legacy-unwind"@
}

/// Whether the word asks for a check alone.
pub open spec fn sets_check(w: Seq<char>) -> bool {
    w == "-c"@ || w == "--check-only"@
}

/// Whether the word is the one that is kept for dumps.
pub open spec fn sets_ndump(w: Seq<char>) -> bool {
    w == "--ndump"@ || w == "-ndump"@
}

/// Whether the word asks for help.
pub open spec fn asks_for_help(w: Seq<char>) -> bool {
    w == "-h"@ || w == "-help"@ || w == "--help"@
}

/// Whether the word takes the next one as its value.
pub open spec fn takes_a_value(w: Seq<char>) -> bool {
    sets_output(w) || sets_trace(w) || sets_pid(w) || sets_dylib(w) || sets_script(w)
}

/// Whether the word is an option by itself.
pub open spec fn stands_alone(w: Seq<char>) -> bool {
    sets_json(w) || sets_ecs(w) || sets_unwind(w) || sets_check(w) || sets_ndump(w)
}

/// The options that a command line begins with, each with its value where it takes one.
pub open spec fn given(words: Seq<Seq<char>>) -> Seq<(Seq<char>, Seq<char>)>
    decreases words.len(),
{
    if words.len() >= 1 && stands_alone(words[0]) {
        seq![(words[0], Seq::empty())] + given(words.skip(1))
    } else if words.len() >= 2 && takes_a_value(words[0]) {
        seq![(words[0], words[1])] + given(words.skip(2))
    } else {
        Seq::empty()
    }
}

/// The words behind those options.
pub open spec fn behind(words: Seq<Seq<char>>) -> Seq<Seq<char>>
    decreases words.len(),
{
    if words.len() >= 1 && stands_alone(words[0]) {
        behind(words.skip(1))
    } else if words.len() >= 2 && takes_a_value(words[0]) {
        behind(words.skip(2))
    } else {
        words
    }
}

/// The value of the last of the options that `sets` tells, where there is one.
pub open spec fn last_value(
    g: Seq<(Seq<char>, Seq<char>)>,
    sets: spec_fn(Seq<char>) -> bool,
) -> Option<Seq<char>>
    decreases g.len(),
{
    if g.len() == 0 {
        None
    } else if sets(g.last().0) {
        Some(g.last().1)
    } else {
        last_value(g.drop_last(), sets)
    }
}

/// Whether one of the options is one that `sets` tells.
pub open spec fn mentioned(
    g: Seq<(Seq<char>, Seq<char>)>,
    sets: spec_fn(Seq<char>) -> bool,
) -> bool {
    exists|i: int| 0 <= i < g.len() && sets((#[trigger] g[i]).0)
}

/// Whether every process id is a number.
pub open spec fn pids_are_numbers(g: Seq<(Seq<char>, Seq<char>)>) -> bool {
    forall|i: int| 0 <= i < g.len() && sets_pid((#[trigger] g[i]).0) ==> number(g[i].1) is Some
}

/// What comes of `g` on top of `acc`: each field is set by its own options alone, the last of them.
spec fn gathered(g: Seq<(Seq<char>, Seq<char>)>, acc: ArgsView) -> ArgsView {
    let or = |new: Option<Seq<char>>, old: Option<Seq<char>>|
        if new is Some {
            new
        } else {
            old
        };
    ArgsView {
        target_pid: match last_value(g, |w: Seq<char>| sets_pid(w)) {
            Some(v) => number(v),
            None => acc.target_pid,
        },
        cmd_name: acc.cmd_name,
        cmd_args: acc.cmd_args,
        output_file: or(last_value(g, |w: Seq<char>| sets_output(w)), acc.output_file),
        trace_filter: or(last_value(g, |w: Seq<char>| sets_trace(w)), acc.trace_filter),
        script_file: or(last_value(g, |w: Seq<char>| sets_script(w)), acc.script_file),
        custom_dylib: or(last_value(g, |w: Seq<char>| sets_dylib(w)), acc.custom_dylib),
        json_output: acc.json_output || mentioned(g, |w: Seq<char>| sets_json(w)),
        ecs_output: acc.ecs_output || mentioned(g, |w: Seq<char>| sets_ecs(w)),
        ndump: acc.ndump || mentioned(g, |w: Seq<char>| sets_ndump(w)),
        legacy_unwind: acc.legacy_unwind || mentioned(g, |w: Seq<char>| sets_unwind(w)),
        check_only: acc.check_only || mentioned(g, |w: Seq<char>| sets_check(w)),
    }
}

/// What each word of a command line is: an option, and which one, is told by the word alone. Another
/// word is a mistake where it begins with a dash, and else the command.
pub proof fn words_have_their_meaning(w: Seq<char>)
    ensures
        sets_output(w) <==> word(w) == Word::Takes(Valued::Output),
        sets_trace(w) <==> word(w) == Word::Takes(Valued::Trace),
        sets_pid(w) <==> word(w) == Word::Takes(Valued::Pid),
        sets_dylib(w) <==> word(w) == Word::Takes(Valued::Load),
        sets_script(w) <==> word(w) == Word::Takes(Valued::Script),
        sets_json(w) <==> word(w) == Word::Sets(Switch::Json),
        sets_ecs(w) <==> word(w) == Word::Sets(Switch::Ecs),
        sets_unwind(w) <==> word(w) == Word::Sets(Switch::LegacyUnwind),
        sets_check(w) <==> word(w) == Word::Sets(Switch::CheckOnly),
        sets_ndump(w) <==> word(w) == Word::Sets(Switch::Ndump),
        asks_for_help(w) <==> word(w) == Word::Help,
        word(w) == Word::Command <==> w.len() == 0 || w[0] != '-',
        word(w) == Word::Unknown <==> w.len() > 0 && w[0] == '-' && !takes_a_value(w)
            && !stands_alone(w) && !asks_for_help(w),
{
    lemma_names();
    reveal_strlit("-");
    assert(begins(w, "-"@) == (w.len() > 0 && w[0] == '-')) by {
        if w.len() > 0 {
            assert(w.subrange(0, 1)[0] == w[0]);
            if w[0] == '-' {
                assert(w.subrange(0, 1) =~= "-"@);
            }
        }
    }
}

/// The option that a word names which takes a value.
pub open spec fn option_named(w: Seq<char>) -> Valued {
    if sets_output(w) {
        Valued::Output
    } else if sets_trace(w) {
        Valued::Trace
    } else if sets_pid(w) {
        Valued::Pid
    } else if sets_dylib(w) {
        Valued::Load
    } else {
        Valued::Script
    }
}

proof fn lemma_last_value(
    x: (Seq<char>, Seq<char>),
    g: Seq<(Seq<char>, Seq<char>)>,
    sets: spec_fn(Seq<char>) -> bool,
)
    ensures
        last_value(seq![x] + g, sets) == (if last_value(g, sets) is Some {
            last_value(g, sets)
        } else if sets(x.0) {
            Some(x.1)
        } else {
            None
        }),
        mentioned(seq![x] + g, sets) == (sets(x.0) || mentioned(g, sets)),
    decreases g.len(),
{
    let s = seq![x] + g;
    assert(s[0] == x);
    assert forall|i: int| 0 <= i < g.len() implies s[i + 1] == #[trigger] g[i] by {}
    if mentioned(g, sets) {
        let i = choose|i: int| 0 <= i < g.len() && sets((#[trigger] g[i]).0);
        assert(sets(s[i + 1].0));
    }
    if mentioned(s, sets) {
        let i = choose|i: int| 0 <= i < s.len() && sets((#[trigger] s[i]).0);
        if i > 0 {
            assert(sets(g[i - 1].0));
        }
    }
    if g.len() > 0 {
        assert(s.last() == g.last());
        assert(s.drop_last() =~= seq![x] + g.drop_last());
        lemma_last_value(x, g.drop_last(), sets);
    } else {
        assert(s =~= seq![x]);
        assert(s.drop_last() =~= Seq::<(Seq<char>, Seq<char>)>::empty());
        reveal_with_fuel(last_value, 2);
    }
}

proof fn lemma_pids(x: (Seq<char>, Seq<char>), g: Seq<(Seq<char>, Seq<char>)>)
    ensures
        pids_are_numbers(seq![x] + g) == ((sets_pid(x.0) ==> number(x.1) is Some)
            && pids_are_numbers(g)),
{
    let s = seq![x] + g;
    assert(s[0] == x);
    assert forall|i: int| 0 <= i < g.len() implies s[i + 1] == #[trigger] g[i] by {}
    if pids_are_numbers(s) {
        assert(sets_pid(s[0].0) ==> number(s[0].1) is Some);
        assert forall|i: int| 0 <= i < g.len() && sets_pid((#[trigger] g[i]).0) implies number(
            g[i].1,
        ) is Some by {
            assert(sets_pid(s[i + 1].0));
        }
    }
    if (sets_pid(x.0) ==> number(x.1) is Some) && pids_are_numbers(g) {
        assert forall|i: int| 0 <= i < s.len() && sets_pid((#[trigger] s[i]).0) implies number(
            s[i].1,
        ) is Some by {
            if i > 0 {
                assert(sets_pid(g[i - 1].0));
            }
        }
    }
}

/// One option in front of others.
proof fn lemma_gathered(
    x: (Seq<char>, Seq<char>),
    g: Seq<(Seq<char>, Seq<char>)>,
    acc: ArgsView,
)
    ensures
        ({
            let or = |new: Option<Seq<char>>, old: Option<Seq<char>>|
                if new is Some {
                    new
                } else {
                    old
                };
            let set = |is: bool, old: Option<Seq<char>>|
                if is {
                    Some(x.1)
                } else {
                    old
                };
            let next = ArgsView {
                target_pid: if sets_pid(x.0) {
                    number(x.1)
                } else {
                    acc.target_pid
                },
                cmd_name: acc.cmd_name,
                cmd_args: acc.cmd_args,
                output_file: set(sets_output(x.0), acc.output_file),
                trace_filter: set(sets_trace(x.0), acc.trace_filter),
                script_file: set(sets_script(x.0), acc.script_file),
                custom_dylib: set(sets_dylib(x.0), acc.custom_dylib),
                json_output: acc.json_output || sets_json(x.0),
                ecs_output: acc.ecs_output || sets_ecs(x.0),
                ndump: acc.ndump || sets_ndump(x.0),
                legacy_unwind: acc.legacy_unwind || sets_unwind(x.0),
                check_only: acc.check_only || sets_check(x.0),
            };
            gathered(seq![x] + g, acc) == gathered(g, next)
        }),
{
    lemma_last_value(x, g, |w: Seq<char>| sets_pid(w));
    lemma_last_value(x, g, |w: Seq<char>| sets_output(w));
    lemma_last_value(x, g, |w: Seq<char>| sets_trace(w));
    lemma_last_value(x, g, |w: Seq<char>| sets_script(w));
    lemma_last_value(x, g, |w: Seq<char>| sets_dylib(w));
    lemma_last_value(x, g, |w: Seq<char>| sets_json(w));
    lemma_last_value(x, g, |w: Seq<char>| sets_ecs(w));
    lemma_last_value(x, g, |w: Seq<char>| sets_ndump(w));
    lemma_last_value(x, g, |w: Seq<char>| sets_unwind(w));
    lemma_last_value(x, g, |w: Seq<char>| sets_check(w));
}

spec fn options_come_to(words: Seq<Seq<char>>, acc: ArgsView) -> Result<
    (ArgsView, Seq<Seq<char>>),
    StopView,
> {
    let g = given(words);
    let rest = behind(words);
    if !pids_are_numbers(g) {
        Err(StopView::InvalidPid)
    } else if rest.len() > 0 && asks_for_help(rest[0]) {
        Err(StopView::Help)
    } else if rest.len() > 0 && takes_a_value(rest[0]) {
        Err(StopView::MissingValue(option_named(rest[0])))
    } else if rest.len() > 0 && rest[0].len() > 0 && rest[0][0] == '-' {
        Err(StopView::UnknownArgument(rest[0]))
    } else {
        Ok((gathered(g, acc), rest))
    }
}

#[verifier::rlimit(60)]
proof fn lemma_options(words: Seq<Seq<char>>, acc: ArgsView)
    ensures
        options(words, acc) == options_come_to(words, acc),
    decreases words.len(),
{
    if words.len() == 0 {
        lemma_none(acc);
    } else {
        let w = words[0];
        words_have_their_meaning(w);
        match word(w) {
            Word::Sets(switch) => {
                let rest = words.skip(1);
                let x = (w, Seq::<char>::empty());
                let next = with_switch(acc, switch);
                lemma_options(rest, next);
                lemma_pids(x, given(rest));
                lemma_gathered(x, given(rest), acc);
            },
            Word::Takes(option) => {
                if words.len() >= 2 {
                    let rest = words.skip(2);
                    let x = (w, words[1]);
                    lemma_pids(x, given(rest));
                    lemma_gathered(x, given(rest), acc);
                    if let Ok(next) = with_value(acc, option, words[1]) {
                        lemma_options(rest, next);
                    }
                } else {
                    lemma_none(acc);
                }
            },
            _ => {
                lemma_none(acc);
            },
        }
    }
}

proof fn lemma_none(acc: ArgsView)
    ensures
        gathered(Seq::empty(), acc) == acc,
        pids_are_numbers(Seq::empty()),
{
}

/// Options are independent. What a command line asks for is told by its options one by one: each
/// field is what the last of its own options says, wherever in the line that stands and whatever
/// stands beside it, and is as if nothing was asked where there is none. The command and its
/// arguments are the words behind the options, unless a process is attached to.
pub proof fn options_are_independent(words: Seq<Seq<char>>)
    ensures
        ({
            let g = given(words);
            let rest = behind(words);
            parsed(words) matches Ok(a) ==> {
                &&& a.custom_dylib == last_value(g, |w: Seq<char>| sets_dylib(w))
                &&& a.script_file == last_value(g, |w: Seq<char>| sets_script(w))
                &&& a.output_file == last_value(g, |w: Seq<char>| sets_output(w))
                &&& a.trace_filter == last_value(g, |w: Seq<char>| sets_trace(w))
                &&& a.target_pid == match last_value(g, |w: Seq<char>| sets_pid(w)) {
                    Some(v) => number(v),
                    None => None,
                }
                &&& a.json_output == mentioned(g, |w: Seq<char>| sets_json(w))
                &&& a.ecs_output == mentioned(g, |w: Seq<char>| sets_ecs(w))
                &&& a.ndump == mentioned(g, |w: Seq<char>| sets_ndump(w))
                &&& a.legacy_unwind == mentioned(g, |w: Seq<char>| sets_unwind(w))
                &&& a.check_only == mentioned(g, |w: Seq<char>| sets_check(w))
                &&& if a.target_pid is None && rest.len() > 0 {
                    a.cmd_name == Some(rest[0]) && a.cmd_args == rest.skip(1)
                } else {
                    a.cmd_name is None && a.cmd_args.len() == 0
                }
            }
        }),
{
    lemma_options(words, super::args::no_args());
}

/// When a command line is accepted, and what is wrong with it otherwise: the first mistake counts,
/// and a process id that is none comes before what stands behind it.
pub proof fn mistakes_are_told(words: Seq<Seq<char>>)
    ensures
        ({
            let g = given(words);
            let rest = behind(words);
            let filter = last_value(g, |w: Seq<char>| sets_trace(w));
            let unknown = match filter {
                Some(list) => unknown_name(list),
                None => None,
            };
            if words.len() == 0 {
                parsed(words) == Err::<ArgsView, StopView>(StopView::NoArguments)
            } else if !pids_are_numbers(g) {
                parsed(words) == Err::<ArgsView, StopView>(StopView::InvalidPid)
            } else if rest.len() > 0 && asks_for_help(rest[0]) {
                parsed(words) == Err::<ArgsView, StopView>(StopView::Help)
            } else if rest.len() > 0 && takes_a_value(rest[0]) {
                parsed(words) == Err::<ArgsView, StopView>(
                    StopView::MissingValue(option_named(rest[0])),
                )
            } else if rest.len() > 0 && rest[0].len() > 0 && rest[0][0] == '-' {
                parsed(words) == Err::<ArgsView, StopView>(StopView::UnknownArgument(rest[0]))
            } else if unknown is Some {
                parsed(words) == Err::<ArgsView, StopView>(StopView::UnknownCall(unknown->0))
            } else if rest.len() == 0 && !mentioned(g, |w: Seq<char>| sets_pid(w)) && !mentioned(
                g,
                |w: Seq<char>| sets_check(w),
            ) {
                parsed(words) == Err::<ArgsView, StopView>(StopView::NoCommand)
            } else {
                parsed(words) is Ok
            }
        }),
{
    let g = given(words);
    lemma_options(words, super::args::no_args());
    lemma_last_is_mentioned(g, |w: Seq<char>| sets_pid(w));
    if pids_are_numbers(g) {
        lemma_last_pid(g);
    }
}

proof fn lemma_last_is_mentioned(
    g: Seq<(Seq<char>, Seq<char>)>,
    sets: spec_fn(Seq<char>) -> bool,
)
    ensures
        last_value(g, sets) is Some <==> mentioned(g, sets),
    decreases g.len(),
{
    if g.len() > 0 {
        let f = g.drop_last();
        lemma_last_is_mentioned(f, sets);
        assert(g.last() == g[g.len() - 1]);
        if mentioned(f, sets) {
            let i = choose|i: int| 0 <= i < f.len() && sets((#[trigger] f[i]).0);
            assert(sets(g[i].0));
        }
        if mentioned(g, sets) && !sets(g.last().0) {
            let i = choose|i: int| 0 <= i < g.len() && sets((#[trigger] g[i]).0);
            assert(sets(f[i].0));
        }
    }
}

proof fn lemma_last_pid(g: Seq<(Seq<char>, Seq<char>)>)
    requires
        pids_are_numbers(g),
    ensures
        last_value(g, |w: Seq<char>| sets_pid(w)) matches Some(v) ==> number(v) is Some,
    decreases g.len(),
{
    if g.len() > 0 {
        assert(g.last() == g[g.len() - 1]);
        let f = g.drop_last();
        assert forall|i: int| 0 <= i < f.len() && sets_pid((#[trigger] f[i]).0) implies number(
            f[i].1,
        ) is Some by {
            assert(sets_pid(g[i].0));
        }
        lemma_last_pid(f);
    }
}

/// Whether `t` is a numeral: digits, at least one.
pub open spec fn numeral(t: Seq<char>) -> bool {
    t.len() > 0 && forall|i: int| 0 <= i < t.len() ==> 0 <= worth(#[trigger] t[i]) < 10
}

proof fn lemma_value(t: Seq<char>)
    requires
        forall|i: int| 0 <= i < t.len() ==> 0 <= worth(#[trigger] t[i]) < 10,
    ensures
        value(t) == reading(t, 10),
        value(t) >= 0,
        all_digits(t),
    decreases t.len(),
{
    assert forall|i: int| 0 <= i < t.len() implies '0' <= #[trigger] t[i] <= '9' by {
        assert(0 <= worth(t[i]) < 10);
    }
    if t.len() > 0 {
        let f = t.drop_last();
        assert forall|i: int| 0 <= i < f.len() implies 0 <= worth(#[trigger] f[i]) < 10 by {
            assert(f[i] == t[i]);
        }
        lemma_value(f);
        assert(t.last() == t[t.len() - 1]);
    }
}

/// A process id is a numeral, perhaps behind a sign, that stands for a number of 32 bits: it is read
/// as that number. Nothing else is one.
pub proof fn numbers_are_read(t: Seq<char>, s: Seq<char>)
    ensures
        numeral(t) ==> number(t) == (if reading(t, 10) <= i32::MAX {
            Some(reading(t, 10) as i32)
        } else {
            None
        }),
        numeral(t) ==> number(seq!['+'] + t) == (if reading(t, 10) <= i32::MAX {
            Some(reading(t, 10) as i32)
        } else {
            None
        }),
        numeral(t) ==> number(seq!['-'] + t) == (if -reading(t, 10) >= i32::MIN {
            Some((-reading(t, 10)) as i32)
        } else {
            None
        }),
        number(s) is Some ==> numeral(s) || (s.len() > 0 && (s[0] == '+' || s[0] == '-') && numeral(
            s.skip(1),
        )),
{
    if numeral(t) {
        lemma_value(t);
        assert(0 <= worth(t[0]) < 10);
        assert((seq!['+'] + t).drop_first() =~= t);
        assert((seq!['-'] + t).drop_first() =~= t);
    }
    if number(s) is Some {
        let body = if s.len() > 0 && (s[0] == '-' || s[0] == '+') {
            s.drop_first()
        } else {
            s
        };
        assert forall|i: int| 0 <= i < body.len() implies 0 <= worth(#[trigger] body[i]) < 10 by {
            assert('0' <= body[i] <= '9');
        }
        assert(s.len() > 0 ==> s.drop_first() =~= s.skip(1));
    }
}

proof fn lemma_names()
    ensures
        "-o"@.len() == 2,
        "--output"@.len() == 8,
        "-t"@.len() == 2,
        "--trace"@.len() == 7,
        "-p"@.len() == 2,
        "--pid"@.len() == 5,
        "-j"@.len() == 2,
        "--json"@.len() == 6,
        "-e"@.len() == 2,
        "--ecs"@.len() == 5,
        "-l"@.len() == 2,
        "--load"@.len() == 6,
        "-s"@.len() == 2,
        "--script"@.len() == 8,
        "--sandboxed"@.len() == 11,
        "--swap"@.len() == 6,
        "-u"@.len() == 2,
        "--legacy-unwind"@.len() == 15,
        "-c"@.len() == 2,
        "--check-only"@.len() == 12,
        "--ndump"@.len() == 7,
        "-ndump"@.len() == 6,
        "-h"@.len() == 2,
        "-help"@.len() == 5,
        "--help"@.len() == 6,
        "-o"@[0] == '-' && "-o"@[1] == 'o',
        "--output"@[0] == '-' && "--output"@[1] == '-' && "--output"@[2] == 'o' && "--output"@[3] == 'u',
        "-t"@[0] == '-' && "-t"@[1] == 't',
        "--trace"@[0] == '-' && "--trace"@[1] == '-' && "--trace"@[2] == 't' && "--trace"@[3] == 'r',
        "-p"@[0] == '-' && "-p"@[1] == 'p',
        "--pid"@[0] == '-' && "--pid"@[1] == '-' && "--pid"@[2] == 'p' && "--pid"@[3] == 'i',
        "-j"@[0] == '-' && "-j"@[1] == 'j',
        "--json"@[0] == '-' && "--json"@[1] == '-' && "--json"@[2] == 'j' && "--json"@[3] == 's',
        "-e"@[0] == '-' && "-e"@[1] == 'e',
        "--ecs"@[0] == '-' && "--ecs"@[1] == '-' && "--ecs"@[2] == 'e' && "--ecs"@[3] == 'c',
        "-l"@[0] == '-' && "-l"@[1] == 'l',
        "--load"@[0] == '-' && "--load"@[1] == '-' && "--load"@[2] == 'l' && "--load"@[3] == 'o',
        "-s"@[0] == '-' && "-s"@[1] == 's',
        "--script"@[0] == '-' && "--script"@[1] == '-' && "--script"@[2] == 's' && "--script"@[3] == 'c',
        "--sandboxed"@[0] == '-' && "--sandboxed"@[1] == '-' && "--sandboxed"@[2] == 's' && "--sandboxed"@[3] == 'a',
        "--swap"@[0] == '-' && "--swap"@[1] == '-' && "--swap"@[2] == 's' && "--swap"@[3] == 'w',
        "-u"@[0] == '-' && "-u"@[1] == 'u',
        "--legacy-unwind"@[0] == '-' && "--legacy-unwind"@[1] == '-' && "--legacy-unwind"@[2] == 'l' && "--legacy-unwind"@[3] == 'e',
        "-c"@[0] == '-' && "-c"@[1] == 'c',
        "--check-only"@[0] == '-' && "--check-only"@[1] == '-' && "--check-only"@[2] == 'c' && "--check-only"@[3] == 'h',
        "--ndump"@[0] == '-' && "--ndump"@[1] == '-' && "--ndump"@[2] == 'n' && "--ndump"@[3] == 'd',
        "-ndump"@[0] == '-' && "-ndump"@[1] == 'n' && "-ndump"@[2] == 'd' && "-ndump"@[3] == 'u',
        "-h"@[0] == '-' && "-h"@[1] == 'h',
        "-help"@[0] == '-' && "-help"@[1] == 'h' && "-help"@[2] == 'e' && "-help"@[3] == 'l',
        "--help"@[0] == '-' && "--help"@[1] == '-' && "--help"@[2] == 'h' && "--help"@[3] == 'e',
{
    reveal_strlit("-o");
    reveal_strlit("--output");
    reveal_strlit("-t");
    reveal_strlit("--trace");
    reveal_strlit("-p");
    reveal_strlit("--pid");
    reveal_strlit("-j");
    reveal_strlit("--json");
    reveal_strlit("-e");
    reveal_strlit("--ecs");
    reveal_strlit("-l");
    reveal_strlit("--load");
    reveal_strlit("-s");
    reveal_strlit("--script");
    reveal_strlit("--sandboxed");
    reveal_strlit("--swap");
    reveal_strlit("-u");
    reveal_strlit("--legacy-unwind");
    reveal_strlit("-c");
    reveal_strlit("--check-only");
    reveal_strlit("--ndump");
    reveal_strlit("-ndump");
    reveal_strlit("-h");
    reveal_strlit("-help");
    reveal_strlit("--help");
}

} // verus!
