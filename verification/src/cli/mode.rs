//! What the program does.
use super::args::AppArgs;
use super::spawn::launch_env;
use crate::text::{text_view, views};
use vstd::prelude::*;

verus! {

/// Where the dylib comes from.
#[derive(Debug)]
pub enum DylibSource {
    /// The probe at this path is compiled.
    Script(String),
    /// The dylib at this path is taken as it is.
    Custom(String),
    /// The engine's own, beside the program.
    BuiltIn,
}

/// The name of the engine's own dylib.
pub const BUILT_IN_DYLIB: &'static str = "libmtdi_lib.dylib";

/// Where the dylib comes from: a probe comes before a dylib, and either before the engine's own.
pub fn dylib_source(args: &AppArgs) -> (r: DylibSource)
    ensures
        match (text_view(args.script_file), text_view(args.custom_dylib)) {
            (Some(path), _) => r matches DylibSource::Script(p) && p@ == path,
            (None, Some(path)) => r matches DylibSource::Custom(p) && p@ == path,
            (None, None) => r is BuiltIn,
        },
{
    match &args.script_file {
        Some(path) => DylibSource::Script(path.as_str().to_owned()),
        None => match &args.custom_dylib {
            Some(path) => DylibSource::Custom(path.as_str().to_owned()),
            None => DylibSource::BuiltIn,
        },
    }
}

/// What is done with the dylib.
#[derive(Debug, Clone, Copy, PartialEq, Eq, Structural)]
pub enum Mode {
    /// It is loaded into this running process.
    Attach(i32),
    /// Nothing: compiling it was all that was asked.
    CheckOnly,
    /// A command is launched with it.
    Launch,
}

/// What is said of options that need a launch.
pub const ATTACH_ERROR: &'static str =
    "Error: -o/-t/-j/-e cannot be used with -p: a running target's environment can't be set by attach";

/// What is said where there is no probe to check.
pub const CHECK_ERROR: &'static str = "Error: --check-only requires -s";

/// Whether there is an option whose value goes to the target through its environment.
pub open spec fn sets_environment(args: AppArgs) -> bool {
    args.output_file is Some || args.trace_filter is Some || args.json_output || args.ecs_output
}

/// What is done with the dylib, or what is wrong with the options. A check comes first: it loads the
/// dylib nowhere.
pub fn choose_mode(args: &AppArgs) -> (r: Result<Mode, String>)
    ensures
        args.check_only ==> if args.script_file is Some {
            r == Ok::<Mode, String>(Mode::CheckOnly)
        } else {
            r matches Err(e) && e@ == CHECK_ERROR@
        },
        !args.check_only ==> match args.target_pid {
            Some(pid) => if sets_environment(*args) {
                r matches Err(e) && e@ == ATTACH_ERROR@
            } else {
                r == Ok::<Mode, String>(Mode::Attach(pid))
            },
            None => r == Ok::<Mode, String>(Mode::Launch),
        },
{
    if args.check_only {
        if args.script_file.is_some() {
            return Ok(Mode::CheckOnly);
        }
        return Err(CHECK_ERROR.to_owned());
    }
    match args.target_pid {
        Some(pid) => {
            if args.output_file.is_some() || args.trace_filter.is_some() || args.json_output
                || args.ecs_output {
                Err(ATTACH_ERROR.to_owned())
            } else {
                Ok(Mode::Attach(pid))
            }
        },
        None => Ok(Mode::Launch),
    }
}

/// The line before a probe is compiled.
pub fn compiling_line(script: &str) -> (r: String)
    ensures
        r@ == "[mtdis] Verifying and compiling safe probe: "@ + script@ + "..."@,
{
    let mut s = "[mtdis] Verifying and compiling safe probe: ".to_owned();
    s.append(script);
    s.append("...");
    s
}

/// The line after a probe was compiled.
pub fn compiled_line(dylib: &str) -> (r: String)
    ensures
        r@ == "[mtdis] Successfully compiled sandboxed probe to "@ + dylib@,
{
    let mut s = "[mtdis] Successfully compiled sandboxed probe to ".to_owned();
    s.append(dylib);
    s
}

/// The line that ends a check.
pub const CHECKED: &'static str = "[mtdis] Check-only: probe compiles and passes verification.";

/// The lines that report a missing dylib. A dylib of the user's own is not built here.
pub fn missing_dylib(dylib: &str, custom: bool) -> (r: Vec<String>)
    ensures
        views(r@) == (if custom {
            seq!["[mtdi] Error: Dylib not found at "@ + dylib@]
        } else {
            seq![
                "[mtdi] Error: Dylib not found at "@ + dylib@,
                "[mtdi] Make sure you built the project with `cargo build`"@,
            ]
        }),
{
    let mut lines: Vec<String> = Vec::new();
    let mut s = "[mtdi] Error: Dylib not found at ".to_owned();
    s.append(dylib);
    lines.push(s);
    if !custom {
        lines.push("[mtdi] Make sure you built the project with `cargo build`".to_owned());
        assert(views(lines@) =~= seq![
            "[mtdi] Error: Dylib not found at "@ + dylib@,
            "[mtdi] Make sure you built the project with `cargo build`"@,
        ]);
    } else {
        assert(views(lines@) =~= seq!["[mtdi] Error: Dylib not found at "@ + dylib@]);
    }
    lines
}

/// The process that is told to end when the program is: the child, where there is one.
pub fn handle_signal(child: u32) -> (r: Option<u32>)
    ensures
        r == (if child > 0 {
            Some(child)
        } else {
            None
        }),
{
    if child > 0 {
        Some(child)
    } else {
        None
    }
}

/// A process that runs already is attached to exactly where a launch would give it nothing but the
/// dylib and the word that it was launched: its environment cannot be set any more.
pub proof fn attaching_sets_no_environment(args: AppArgs, dylib: Seq<char>)
    ensures
        sets_environment(args) <==> launch_env(
            dylib,
            text_view(args.output_file),
            text_view(args.trace_filter),
            args.json_output,
            args.ecs_output,
        ).len() > 2,
        sets_environment(args) <==> {
            ||| args.output_file is Some
            ||| args.trace_filter is Some
            ||| args.json_output
            ||| args.ecs_output
        },
{
}

} // verus!
