//! The launch of a target.
use super::args::AppArgs;
use crate::text::{
    begins, begins_is_a_prefix, begins_with, contains_text, lemma_occurs_inside, lossy_text, occurs,
    text_view, utf8_lossy, views,
};
use vstd::prelude::*;

verus! {

/// The text that a tool printed.
pub fn tool_text(output: &[u8]) -> (r: String)
    ensures
        r@ == utf8_lossy(output@),
{
    lossy_text(output)
}

/// Whether `csrutil status` says that System Integrity Protection is on.
pub fn is_sip_enabled(stdout: &str) -> (r: bool)
    ensures
        r == occurs(stdout@, "enabled"@),
{
    contains_text(stdout, "enabled")
}

/// Whether `codesign -dvv` says that a binary enforces the Hardened Runtime.
pub fn has_hardened_runtime(stderr: &str) -> (r: bool)
    ensures
        r == occurs(stderr@, "flags=0x10000(runtime)"@),
{
    contains_text(stderr, "flags=0x10000(runtime)")
}

/// Whether the entitlements of a binary let it be given a dylib.
pub open spec fn entitled(stdout: Seq<char>) -> bool {
    occurs(stdout, "com.apple.security.cs.allow-dyld-environment-variables"@) || occurs(
        stdout,
        "com.apple.security.cs.disable-library-validation"@,
    )
}

/// Whether `codesign -d --entitlements` says that a binary may be given a dylib.
pub fn has_dyld_entitlement(stdout: &str) -> (r: bool)
    ensures
        r == entitled(stdout@),
{
    contains_text(stdout, "com.apple.security.cs.allow-dyld-environment-variables")
        || contains_text(stdout, "com.apple.security.cs.disable-library-validation")
}

/// Whether `path` is that of a system binary.
pub open spec fn system_binary(path: Seq<char>) -> bool {
    ||| begins(path, "/bin/"@)
    ||| begins(path, "/usr/bin/"@)
    ||| begins(path, "/sbin/"@)
    ||| begins(path, "/usr/sbin/"@)
    ||| begins(path, "/System/"@)
}

fn is_system_binary(path: &str) -> (r: bool)
    ensures
        r == system_binary(path@),
{
    begins_with(path, "/bin/") || begins_with(path, "/usr/bin/") || begins_with(path, "/sbin/")
        || begins_with(path, "/usr/sbin/") || begins_with(path, "/System/")
}

/// What is said of an arm64e binary.
pub open spec fn arm64e_text(path: Seq<char>) -> Seq<char> {
    "'"@ + path
        + "' is an arm64e binary: dyld refuses to load a standard arm64 dylib into it (Apple restricts PAC-enabled arm64e to their own components)."@
}

/// What is said of a system binary.
pub open spec fn system_text(path: Seq<char>) -> Seq<char> {
    "SIP is enabled and '"@ + path
        + "' is an Apple system binary: DYLD_INSERT_LIBRARIES is stripped, launch-time injection cannot work."@
}

/// What is said of a hardened binary.
pub open spec fn hardened_text(path: Seq<char>) -> Seq<char> {
    "'"@ + path
        + "' enforces the Hardened Runtime without allow-dyld-environment-variables or disable-library-validation: DYLD_INSERT_LIBRARIES will be stripped."@
}

/// What the tools say of a binary: `file -b`, `csrutil status`, `codesign -dvv` and
/// `codesign -d --entitlements`.
pub struct Reports {
    pub file: Seq<char>,
    pub sip: Seq<char>,
    pub signature: Seq<char>,
    pub entitlements: Seq<char>,
}

/// Why the binary at `path` cannot be given a dylib at launch, where it cannot.
pub open spec fn refusal(path: Seq<char>, reports: Reports) -> Option<Seq<char>> {
    if occurs(reports.file, "arm64e"@) {
        Some(arm64e_text(path))
    } else if !occurs(reports.sip, "enabled"@) {
        None
    } else if system_binary(path) {
        Some(system_text(path))
    } else if occurs(reports.signature, "flags=0x10000(runtime)"@) && !entitled(
        reports.entitlements,
    ) {
        Some(hardened_text(path))
    } else {
        None
    }
}

/// The tool to run next.
#[derive(Debug, Clone, Copy, PartialEq, Eq, Structural)]
pub enum Tool {
    File,
    Sip,
    Signature,
    Entitlements,
}

/// What a tool's answer leads to.
#[derive(Debug)]
pub enum Verdict {
    /// Another tool is to be asked.
    Ask(Tool),
    /// The binary can be launched.
    Allowed,
    /// It cannot, for this reason.
    Refused(String),
}

/// A verdict, with its reason as a sequence.
pub enum VerdictView {
    Ask(Tool),
    Allowed,
    Refused(Seq<char>),
}

impl View for Verdict {
    type V = VerdictView;

    open spec fn view(&self) -> VerdictView {
        match self {
            Verdict::Ask(tool) => VerdictView::Ask(*tool),
            Verdict::Allowed => VerdictView::Allowed,
            Verdict::Refused(reason) => VerdictView::Refused(reason@),
        }
    }
}

/// What it leads to that `tool` printed `output` of the binary at `path`.
pub open spec fn verdict(path: Seq<char>, tool: Tool, output: Seq<char>) -> VerdictView {
    match tool {
        Tool::File => if occurs(output, "arm64e"@) {
            VerdictView::Refused(arm64e_text(path))
        } else {
            VerdictView::Ask(Tool::Sip)
        },
        Tool::Sip => if !occurs(output, "enabled"@) {
            VerdictView::Allowed
        } else if system_binary(path) {
            VerdictView::Refused(system_text(path))
        } else {
            VerdictView::Ask(Tool::Signature)
        },
        Tool::Signature => if occurs(output, "flags=0x10000(runtime)"@) {
            VerdictView::Ask(Tool::Entitlements)
        } else {
            VerdictView::Allowed
        },
        Tool::Entitlements => if entitled(output) {
            VerdictView::Allowed
        } else {
            VerdictView::Refused(hardened_text(path))
        },
    }
}

/// What `tool` prints.
pub open spec fn printed(reports: Reports, tool: Tool) -> Seq<char> {
    match tool {
        Tool::File => reports.file,
        Tool::Sip => reports.sip,
        Tool::Signature => reports.signature,
        Tool::Entitlements => reports.entitlements,
    }
}

/// What comes of asking the tools in turn, from `tool` on.
pub open spec fn asked(path: Seq<char>, tool: Tool, reports: Reports) -> Option<Seq<char>>
    decreases
            (match tool {
                Tool::File => 3int,
                Tool::Sip => 2,
                Tool::Signature => 1,
                Tool::Entitlements => 0,
            }),
{
    match verdict(path, tool, printed(reports, tool)) {
        VerdictView::Ask(next) => asked(path, next, reports),
        VerdictView::Allowed => None,
        VerdictView::Refused(reason) => Some(reason),
    }
}

/// What it leads to that `tool` printed `output` of the binary at `path`. The first tool to ask is
/// `Tool::File`.
pub fn check_sip_and_codesign(path: &str, tool: Tool, output: &str) -> (r: Verdict)
    ensures
        r@ == verdict(path@, tool, output@),
{
    match tool {
        Tool::File => {
            if contains_text(output, "arm64e") {
                let mut msg = "'".to_owned();
                msg.append(path);
                msg.append(
                    "' is an arm64e binary: dyld refuses to load a standard arm64 dylib into it (Apple restricts PAC-enabled arm64e to their own components).",
                );
                return Verdict::Refused(msg);
            }
            Verdict::Ask(Tool::Sip)
        },
        Tool::Sip => {
            if !is_sip_enabled(output) {
                return Verdict::Allowed;
            }
            if is_system_binary(path) {
                let mut msg = "SIP is enabled and '".to_owned();
                msg.append(path);
                msg.append(
                    "' is an Apple system binary: DYLD_INSERT_LIBRARIES is stripped, launch-time injection cannot work.",
                );
                return Verdict::Refused(msg);
            }
            Verdict::Ask(Tool::Signature)
        },
        Tool::Signature => {
            if has_hardened_runtime(output) {
                Verdict::Ask(Tool::Entitlements)
            } else {
                Verdict::Allowed
            }
        },
        Tool::Entitlements => {
            if has_dyld_entitlement(output) {
                return Verdict::Allowed;
            }
            let mut msg = "'".to_owned();
            msg.append(path);
            msg.append(
                "' enforces the Hardened Runtime without allow-dyld-environment-variables or disable-library-validation: DYLD_INSERT_LIBRARIES will be stripped.",
            );
            Verdict::Refused(msg)
        },
    }
}

/// Asking the tools in turn, and no more of them than needed, comes to what all of them together
/// say.
pub proof fn asking_in_turn_decides(path: Seq<char>, reports: Reports)
    ensures
        asked(path, Tool::File, reports) == refusal(path, reports),
{
    reveal_with_fuel(asked, 4);
}

/// The line that reports a refusal.
pub fn refused_line(reason: &str) -> (r: String)
    ensures
        r@ == "[mtdi] "@ + reason@,
{
    let mut s = "[mtdi] ".to_owned();
    s.append(reason);
    s
}

/// What is launched, and what its environment is given.
#[derive(Debug)]
pub struct Launch {
    pub command: String,
    pub args: Vec<String>,
    pub env: Vec<(String, String)>,
}

/// The texts of `v`.
pub open spec fn pair_views(v: Seq<(String, String)>) -> Seq<(Seq<char>, Seq<char>)> {
    Seq::new(v.len(), |i: int| (v[i].0@, v[i].1@))
}

/// The variables that a launched target is given.
pub open spec fn launch_env(
    dylib: Seq<char>,
    output: Option<Seq<char>>,
    filter: Option<Seq<char>>,
    json: bool,
    ecs: bool,
) -> Seq<(Seq<char>, Seq<char>)> {
    let none = Seq::<(Seq<char>, Seq<char>)>::empty();
    seq![("DYLD_INSERT_LIBRARIES"@, dylib)] + (match output {
        Some(path) => seq![("MTDI_OUTPUT"@, path)],
        None => none,
    }) + (match filter {
        Some(list) => seq![("MTDI_FILTER"@, list)],
        None => none,
    }) + (if json {
        seq![("MTDI_JSON"@, "1"@)]
    } else {
        none
    }) + (if ecs {
        seq![("MTDI_ECS"@, "1"@)]
    } else {
        none
    }) + seq![("MTDI_OWN_SIGTERM"@, "1"@)]
}

fn push_pair(env: &mut Vec<(String, String)>, name: &str, value: &str)
    ensures
        pair_views(final(env)@) == pair_views(old(env)@).push((name@, value@)),
{
    let ghost before = env@;
    env.push((name.to_owned(), value.to_owned()));
    assert(pair_views(env@) =~= pair_views(before).push((name@, value@)));
}

/// What is launched to trace a command with `dylib`.
pub fn spawn_target(args: &AppArgs, dylib: &str) -> (r: Launch)
    requires
        args.cmd_name is Some,
    ensures
        Some(r.command@) == text_view(args.cmd_name),
        views(r.args@) == views(args.cmd_args@),
        pair_views(r.env@) == launch_env(
            dylib@,
            text_view(args.output_file),
            text_view(args.trace_filter),
            args.json_output,
            args.ecs_output,
        ),
{
    let command = match &args.cmd_name {
        Some(name) => name.as_str().to_owned(),
        None => String::new(),
    };
    let mut words: Vec<String> = Vec::new();
    let mut i: usize = 0;
    while i < args.cmd_args.len()
        invariant
            i <= args.cmd_args@.len(),
            views(words@) =~= views(args.cmd_args@).take(i as int),
        decreases args.cmd_args@.len() - i,
    {
        let ghost before = words@;
        words.push(args.cmd_args[i].as_str().to_owned());
        assert(views(words@) =~= views(before).push(args.cmd_args@[i as int]@));
        i += 1;
    }
    assert(views(args.cmd_args@).take(i as int) =~= views(args.cmd_args@));
    let mut env: Vec<(String, String)> = Vec::new();
    assert(pair_views(env@) =~= Seq::<(Seq<char>, Seq<char>)>::empty());
    push_pair(&mut env, "DYLD_INSERT_LIBRARIES", dylib);
    match &args.output_file {
        Some(path) => push_pair(&mut env, "MTDI_OUTPUT", path.as_str()),
        None => {},
    }
    match &args.trace_filter {
        Some(list) => push_pair(&mut env, "MTDI_FILTER", list.as_str()),
        None => {},
    }
    if args.json_output {
        push_pair(&mut env, "MTDI_JSON", "1");
    }
    if args.ecs_output {
        push_pair(&mut env, "MTDI_ECS", "1");
    }
    push_pair(&mut env, "MTDI_OWN_SIGTERM", "1");
    assert(pair_views(env@) =~= launch_env(
        dylib@,
        text_view(args.output_file),
        text_view(args.trace_filter),
        args.json_output,
        args.ecs_output,
    ));
    Launch { command, args: words, env }
}

/// The line that reports how a command ended. `status` is the text of its status.
pub fn finished_line(command: &str, success: bool, status: &str) -> (r: String)
    ensures
        r@ == (if success {
            "[mtdi] Command '"@ + command@ + "' finished successfully!"@
        } else {
            "[mtdi] Command '"@ + command@ + "' exited with status: "@ + status@
        }),
{
    let mut s = "[mtdi] Command '".to_owned();
    s.append(command);
    if success {
        s.append("' finished successfully!");
    } else {
        s.append("' exited with status: ");
        s.append(status);
    }
    s
}

/// A launch is never tried where it cannot work: a system binary under System Integrity
/// Protection is refused whatever the other tools say, and so is an arm64e binary.
pub proof fn protected_binaries_are_refused(path: Seq<char>, reports: Reports)
    ensures
        occurs(reports.file, "arm64e"@) ==> refusal(path, reports) is Some,
        occurs(reports.sip, "enabled"@) && system_binary(path) ==> refusal(path, reports) is Some,
        !occurs(reports.file, "arm64e"@) && !occurs(reports.sip, "enabled"@) ==> refusal(
            path,
            reports,
        ) is None,
{
}

/// A binary is refused for exactly these reasons: it is an arm64e binary; or System Integrity
/// Protection is on, and it is a system binary, or one with the Hardened Runtime and neither of the
/// two entitlements. The reason names it.
pub proof fn refusals_have_their_reasons(path: Seq<char>, reports: Reports)
    ensures
        ({
            let system = "/bin/"@.is_prefix_of(path) || "/usr/bin/"@.is_prefix_of(path)
                || "/sbin/"@.is_prefix_of(path) || "/usr/sbin/"@.is_prefix_of(path)
                || "/System/"@.is_prefix_of(path);
            let hardened = occurs(reports.signature, "flags=0x10000(runtime)"@) && !occurs(
                reports.entitlements,
                "com.apple.security.cs.allow-dyld-environment-variables"@,
            ) && !occurs(
                reports.entitlements,
                "com.apple.security.cs.disable-library-validation"@,
            );
            &&& refusal(path, reports) is Some <==> occurs(reports.file, "arm64e"@) || (occurs(
                reports.sip,
                "enabled"@,
            ) && (system || hardened))
            &&& refusal(path, reports) matches Some(text) ==> occurs(text, path)
        }),
{
    assert forall|p: Seq<char>| begins(path, p) == #[trigger] p.is_prefix_of(path) by {
        begins_is_a_prefix(path, p);
    }
    if let Some(text) = refusal(path, reports) {
        if occurs(reports.file, "arm64e"@) {
            lemma_occurs_inside("'"@, path, "' is an arm64e binary: dyld refuses to load a standard arm64 dylib into it (Apple restricts PAC-enabled arm64e to their own components)."@);
        } else if system_binary(path) {
            lemma_occurs_inside("SIP is enabled and '"@, path, "' is an Apple system binary: DYLD_INSERT_LIBRARIES is stripped, launch-time injection cannot work."@);
        } else {
            lemma_occurs_inside("'"@, path, "' enforces the Hardened Runtime without allow-dyld-environment-variables or disable-library-validation: DYLD_INSERT_LIBRARIES will be stripped."@);
        }
    }
}

proof fn lemma_contains<A>(a: Seq<A>, b: Seq<A>, x: A)
    ensures
        (a + b).contains(x) <==> a.contains(x) || b.contains(x),
{
    let s = a + b;
    if a.contains(x) {
        let i = choose|i: int| 0 <= i < a.len() && a[i] == x;
        assert(s[i] == x);
    }
    if b.contains(x) {
        let i = choose|i: int| 0 <= i < b.len() && b[i] == x;
        assert(s[a.len() + i] == x);
    }
}

proof fn lemma_env(
    dylib: Seq<char>,
    output: Option<Seq<char>>,
    filter: Option<Seq<char>>,
    json: bool,
    ecs: bool,
    name: Seq<char>,
    value: Seq<char>,
)
    ensures
        launch_env(dylib, output, filter, json, ecs).contains((name, value)) <==> {
            ||| name == "DYLD_INSERT_LIBRARIES"@ && value == dylib
            ||| name == "MTDI_OUTPUT"@ && output == Some(value)
            ||| name == "MTDI_FILTER"@ && filter == Some(value)
            ||| name == "MTDI_JSON"@ && value == "1"@ && json
            ||| name == "MTDI_ECS"@ && value == "1"@ && ecs
            ||| name == "MTDI_OWN_SIGTERM"@ && value == "1"@
        },
{
    let none = Seq::<(Seq<char>, Seq<char>)>::empty();
    let x = (name, value);
    let a = seq![("DYLD_INSERT_LIBRARIES"@, dylib)];
    let b = match output {
        Some(path) => seq![("MTDI_OUTPUT"@, path)],
        None => none,
    };
    let c = match filter {
        Some(list) => seq![("MTDI_FILTER"@, list)],
        None => none,
    };
    let d = if json {
        seq![("MTDI_JSON"@, "1"@)]
    } else {
        none
    };
    let e = if ecs {
        seq![("MTDI_ECS"@, "1"@)]
    } else {
        none
    };
    let f = seq![("MTDI_OWN_SIGTERM"@, "1"@)];
    lemma_contains(a, b, x);
    lemma_contains(a + b, c, x);
    lemma_contains(a + b + c, d, x);
    lemma_contains(a + b + c + d, e, x);
    lemma_contains(a + b + c + d + e, f, x);
    assert(a.contains(x) <==> x == a[0]) by {
        assert(a[0] == ("DYLD_INSERT_LIBRARIES"@, dylib));
    }
    assert(b.len() == 1 ==> (b.contains(x) <==> x == b[0])) by {
        if b.len() == 1 && x == b[0] {
            assert(b[0] == x);
        }
    }
    assert(c.len() == 1 ==> (c.contains(x) <==> x == c[0])) by {
        if c.len() == 1 && x == c[0] {
            assert(c[0] == x);
        }
    }
    assert(d.len() == 1 ==> (d.contains(x) <==> x == d[0])) by {
        if d.len() == 1 && x == d[0] {
            assert(d[0] == x);
        }
    }
    assert(e.len() == 1 ==> (e.contains(x) <==> x == e[0])) by {
        if e.len() == 1 && x == e[0] {
            assert(e[0] == x);
        }
    }
    assert(f.contains(x) <==> x == f[0]) by {
        assert(f[0] == ("MTDI_OWN_SIGTERM"@, "1"@));
    }
}

/// Each option reaches the target through its own variable, and through no other, whatever the other
/// options are. The dylib is always given, and the target always told that it was launched; there is
/// an output file, a filter, JSON output and ECS output exactly where it was asked for, with the
/// value that was given; and there are no other variables.
pub proof fn options_reach_the_target(
    dylib: Seq<char>,
    output: Option<Seq<char>>,
    filter: Option<Seq<char>>,
    json: bool,
    ecs: bool,
    name: Seq<char>,
    value: Seq<char>,
)
    ensures
        ({
            let env = launch_env(dylib, output, filter, json, ecs);
            &&& env.contains(("DYLD_INSERT_LIBRARIES"@, value)) <==> value == dylib
            &&& env.contains(("MTDI_OUTPUT"@, value)) <==> output == Some(value)
            &&& env.contains(("MTDI_FILTER"@, value)) <==> filter == Some(value)
            &&& env.contains(("MTDI_JSON"@, value)) <==> json && value == "1"@
            &&& env.contains(("MTDI_ECS"@, value)) <==> ecs && value == "1"@
            &&& env.contains(("MTDI_OWN_SIGTERM"@, value)) <==> value == "1"@
            &&& env.contains((name, value)) ==> {
                ||| name == "DYLD_INSERT_LIBRARIES"@
                ||| name == "MTDI_OUTPUT"@
                ||| name == "MTDI_FILTER"@
                ||| name == "MTDI_JSON"@
                ||| name == "MTDI_ECS"@
                ||| name == "MTDI_OWN_SIGTERM"@
            }
        }),
{
    lemma_env(dylib, output, filter, json, ecs, "DYLD_INSERT_LIBRARIES"@, value);
    lemma_env(dylib, output, filter, json, ecs, "MTDI_OUTPUT"@, value);
    lemma_env(dylib, output, filter, json, ecs, "MTDI_FILTER"@, value);
    lemma_env(dylib, output, filter, json, ecs, "MTDI_JSON"@, value);
    lemma_env(dylib, output, filter, json, ecs, "MTDI_ECS"@, value);
    lemma_env(dylib, output, filter, json, ecs, "MTDI_OWN_SIGTERM"@, value);
    lemma_env(dylib, output, filter, json, ecs, name, value);
    reveal_strlit("DYLD_INSERT_LIBRARIES");
    reveal_strlit("MTDI_OUTPUT");
    reveal_strlit("MTDI_FILTER");
    reveal_strlit("MTDI_JSON");
    reveal_strlit("MTDI_ECS");
    reveal_strlit("MTDI_OWN_SIGTERM");
    assert("DYLD_INSERT_LIBRARIES"@.len() == 21 && "MTDI_OWN_SIGTERM"@.len() == 16);
    assert("MTDI_JSON"@.len() == 9 && "MTDI_ECS"@.len() == 8);
    assert("MTDI_OUTPUT"@.len() == 11 && "MTDI_FILTER"@.len() == 11);
    assert("MTDI_OUTPUT"@[5] == 'O');
    assert("MTDI_FILTER"@[5] == 'F');
}

/// Verdicts and environments are seen as they are.
pub proof fn launches_are_seen_as_they_are(v: Verdict, env: Seq<(String, String)>)
    ensures
        v matches Verdict::Ask(tool) ==> v@ == VerdictView::Ask(tool),
        v is Allowed ==> v@ is Allowed,
        v matches Verdict::Refused(reason) ==> v@ == VerdictView::Refused(reason@),
        pair_views(env).len() == env.len(),
        forall|i: int|
            0 <= i < env.len() ==> #[trigger] pair_views(env)[i] == (env[i].0@, env[i].1@),
{
}

/// What each tool's answer leads to, by itself: a tool is asked only where those before it have left
/// the matter open.
pub proof fn answers_lead_on(path: Seq<char>, output: Seq<char>)
    ensures
        occurs(output, "arm64e"@) ==> verdict(path, Tool::File, output) is Refused,
        !occurs(output, "arm64e"@) ==> verdict(path, Tool::File, output) == VerdictView::Ask(
            Tool::Sip,
        ),
        !occurs(output, "enabled"@) ==> verdict(path, Tool::Sip, output) is Allowed,
        occurs(output, "enabled"@) ==> verdict(path, Tool::Sip, output) == (if system_binary(path) {
            VerdictView::Refused(system_text(path))
        } else {
            VerdictView::Ask(Tool::Signature)
        }),
        occurs(output, "flags=0x10000(runtime)"@) ==> verdict(path, Tool::Signature, output)
            == VerdictView::Ask(Tool::Entitlements),
        !occurs(output, "flags=0x10000(runtime)"@) ==> verdict(
            path,
            Tool::Signature,
            output,
        ) is Allowed,
        verdict(path, Tool::Entitlements, output) is Allowed <==> occurs(
            output,
            "com.apple.security.cs.allow-dyld-environment-variables"@,
        ) || occurs(output, "com.apple.security.cs.disable-library-validation"@),
        verdict(path, Tool::Entitlements, output) is Allowed || verdict(
            path,
            Tool::Entitlements,
            output,
        ) is Refused,
{
}

} // verus!
