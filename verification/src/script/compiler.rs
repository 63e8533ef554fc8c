//! From a probe to a dylib.
use super::harness::{generate_harness, harness, harness_keeps_the_probe};
use super::policy::{constructs_of, verify, violations};
use crate::text::{
    digits_tell_the_number, hex, lossy_text, occurs, push_digits, reading,
    signed_numbers_are_read_back, utf8_lossy, views,
};
use std::collections::hash_map::DefaultHasher;
use std::hash::Hasher;
use vstd::prelude::*;
use vstd::std_specs::hash::DefaultHasherAdditionalSpecFns;
use vstd::utf8::encode_utf8;

verus! {

/// The hash of a text: what the standard hasher makes of its bytes and of a byte that ends them.
pub open spec fn text_hash(code: Seq<char>) -> u64 {
    DefaultHasher::spec_finish(seq![encode_utf8(code), seq![0xFFu8]])
}

/// The hash of a text.
pub fn content_hash(code: &str) -> (r: u64)
    ensures
        r == text_hash(code@),
{
    let mut hasher = DefaultHasher::new();
    hasher.write(code.as_bytes());
    let end: [u8; 1] = [0xFF];
    hasher.write(end.as_slice());
    assert(end@ =~= seq![0xFFu8]);
    assert(hasher@ =~= seq![encode_utf8(code@), seq![0xFFu8]]);
    hasher.finish()
}

/// What is to be written and run to compile a probe.
#[derive(Debug)]
pub struct CompilePlan {
    /// Where the source goes.
    pub wrapper_path: String,
    /// The source.
    pub source: String,
    /// The arguments of `rustc`.
    pub rustc_args: Vec<String>,
    /// The dylib that `rustc` makes.
    pub dylib_path: String,
}

/// Where the source of the probe with this hash goes.
pub open spec fn wrapper_path(code_hash: u64) -> Seq<char> {
    "/tmp/mtdis_wrap_"@ + hex(code_hash as nat) + ".rs"@
}

/// Where the dylib of the probe with this hash goes.
pub open spec fn dylib_path(code_hash: u64) -> Seq<char> {
    "/tmp/mtdis_lib_"@ + hex(code_hash as nat) + ".dylib"@
}

/// The arguments of `rustc`: without overflow checks and unwinding where the probe cannot panic.
pub open spec fn rustc_args(legacy_unwind: bool, source: Seq<char>, dylib: Seq<char>) -> Seq<
    Seq<char>,
> {
    seq!["--edition=2021"@, "--crate-type"@, "cdylib"@, "-O"@] + (if legacy_unwind {
        Seq::<Seq<char>>::empty()
    } else {
        seq!["-C"@, "overflow-checks=off"@, "-C"@, "panic=abort"@]
    }) + seq![source, "-o"@, dylib]
}

/// Whether `plan` compiles the probe `user_code` under the names that `code_hash` gives.
pub open spec fn plans(
    plan: CompilePlan,
    user_code: Seq<char>,
    legacy_unwind: bool,
    code_hash: u64,
) -> bool {
    &&& plan.wrapper_path@ == wrapper_path(code_hash)
    &&& plan.dylib_path@ == dylib_path(code_hash)
    &&& plan.source@ == harness(user_code, legacy_unwind)
    &&& views(plan.rustc_args@) == rustc_args(
        legacy_unwind,
        wrapper_path(code_hash),
        dylib_path(code_hash),
    )
}

/// A line for each violation.
pub open spec fn violation_lines(errors: Seq<Seq<char>>) -> Seq<char>
    decreases errors.len(),
{
    if errors.len() == 0 {
        Seq::empty()
    } else {
        violation_lines(errors.drop_last()) + "- "@ + errors.last() + "\n"@
    }
}

/// The report of a probe that the policy rejects.
pub open spec fn rejection(errors: Seq<Seq<char>>) -> Seq<char> {
    "[mtdis] Probe Verification Failed:\n"@ + violation_lines(errors)
}

/// The report of a probe that the policy rejects.
pub fn rejection_message(errors: &Vec<String>) -> (r: String)
    ensures
        r@ == rejection(views(errors@)),
{
    let mut msg = "[mtdis] Probe Verification Failed:\n".to_owned();
    let ghost all = views(errors@);
    let mut i: usize = 0;
    assert(msg@ =~= rejection(all.take(0)));
    while i < errors.len()
        invariant
            i <= errors@.len(),
            all == views(errors@),
            msg@ == rejection(all.take(i as int)),
        decreases errors@.len() - i,
    {
        msg.append("- ");
        msg.append(errors[i].as_str());
        msg.append("\n");
        assert(all.take(i + 1).drop_last() =~= all.take(i as int));
        i += 1;
        assert(msg@ =~= rejection(all.take(i as int)));
    }
    assert(all.take(all.len() as int) =~= all);
    msg
}

/// What to write and run to compile the probe `user_code`, under the names that `code_hash`
/// gives.
pub fn plan_compilation(user_code: &str, legacy_unwind: bool, code_hash: u64) -> (r: CompilePlan)
    ensures
        plans(r, user_code@, legacy_unwind, code_hash),
{
    let mut wrapper = "/tmp/mtdis_wrap_".to_owned();
    push_digits(&mut wrapper, code_hash, 16);
    wrapper.append(".rs");
    let mut dylib = "/tmp/mtdis_lib_".to_owned();
    push_digits(&mut dylib, code_hash, 16);
    dylib.append(".dylib");
    let mut args: Vec<String> = Vec::new();
    args.push("--edition=2021".to_owned());
    args.push("--crate-type".to_owned());
    args.push("cdylib".to_owned());
    args.push("-O".to_owned());
    if !legacy_unwind {
        args.push("-C".to_owned());
        args.push("overflow-checks=off".to_owned());
        args.push("-C".to_owned());
        args.push("panic=abort".to_owned());
    }
    args.push(wrapper.as_str().to_owned());
    args.push("-o".to_owned());
    args.push(dylib.as_str().to_owned());
    assert(views(args@) =~= rustc_args(legacy_unwind, wrapper@, dylib@));
    CompilePlan {
        wrapper_path: wrapper,
        source: generate_harness(user_code, legacy_unwind),
        rustc_args: args,
        dylib_path: dylib,
    }
}

/// What comes of a probe that the policy was applied to: `verdict` is what the policy says of it,
/// or the text of the parser's error.
pub fn compile_verified(user_code: &str, verdict: &Result<Vec<String>, String>) -> (r: Result<
    CompilePlan,
    String,
>)
    ensures
        match *verdict {
            Err(e) => r matches Err(text) && text@ == "[mtdis] AST Parse Error: "@ + e@,
            Ok(errors) => if errors@.len() > 0 {
                r matches Err(text) && text@ == rejection(views(errors@))
            } else {
                r matches Ok(plan) && plans(plan, user_code@, false, text_hash(user_code@))
            },
        },
{
    match verdict {
        Ok(errors) => {
            if errors.len() > 0 {
                return Err(rejection_message(errors));
            }
            let code_hash: u64 = content_hash(user_code);
            Ok(plan_compilation(user_code, false, code_hash))
        },
        Err(e) => {
            let mut msg = "[mtdis] AST Parse Error: ".to_owned();
            msg.append(e.as_str());
            Err(msg)
        },
    }
}

/// Checks the probe `user_code` against the policy, unless it may panic, and says what to write
/// and run to compile it. The names of the files come from a hash of the text.
pub fn compile_script(user_code: &str, legacy_unwind: bool) -> (r: Result<CompilePlan, String>)
    ensures
        legacy_unwind ==> (r matches Ok(plan) && plans(
            plan,
            user_code@,
            true,
            text_hash(user_code@),
        )),
        !legacy_unwind ==> match constructs_of(user_code@) {
            Err(e) => r matches Err(text) && text@ == "[mtdis] AST Parse Error: "@ + e,
            Ok(c) => if violations(c).len() > 0 {
                r matches Err(text) && text@ == rejection(violations(c))
            } else {
                r matches Ok(plan) && plans(plan, user_code@, false, text_hash(user_code@))
            },
        },
{
    if legacy_unwind {
        let code_hash: u64 = content_hash(user_code);
        return Ok(plan_compilation(user_code, true, code_hash));
    }
    let verdict = verify(user_code);
    assert(verdict matches Ok(errors) ==> views(errors@).len() == errors@.len());
    compile_verified(user_code, &verdict)
}

/// What came of running `rustc`: the dylib, or the report with what it printed.
pub fn compilation_result(plan: &CompilePlan, success: bool, printed: &str) -> (r: Result<
    String,
    String,
>)
    ensures
        success ==> (r matches Ok(path) && path@ == plan.dylib_path@),
        !success ==> (r matches Err(text) && text@ == "[mtdis] Compilation failed:\n"@ + printed@),
{
    if success {
        Ok(plan.dylib_path.as_str().to_owned())
    } else {
        let mut msg = "[mtdis] Compilation failed:\n".to_owned();
        msg.append(printed);
        Err(msg)
    }
}

/// What came of running `rustc`, from the bytes on its standard error.
pub fn rustc_finished(plan: &CompilePlan, success: bool, stderr: &[u8]) -> (r: Result<
    String,
    String,
>)
    ensures
        success ==> (r matches Ok(path) && path@ == plan.dylib_path@),
        !success ==> (r matches Err(text) && text@ == "[mtdis] Compilation failed:\n"@ + utf8_lossy(
            stderr@,
        )),
{
    let printed = lossy_text(stderr);
    compilation_result(plan, success, printed.as_str())
}

/// A probe that is compiled again uses the same files: what is planned depends on its text and
/// on whether it may panic, and on nothing else.
pub proof fn same_probe_same_plan(
    a: CompilePlan,
    b: CompilePlan,
    user_code: Seq<char>,
    legacy_unwind: bool,
)
    requires
        plans(a, user_code, legacy_unwind, text_hash(user_code)),
        plans(b, user_code, legacy_unwind, text_hash(user_code)),
    ensures
        a.wrapper_path@ == b.wrapper_path@,
        a.dylib_path@ == b.dylib_path@,
        a.source@ == b.source@,
        views(a.rustc_args@) == views(b.rustc_args@),
{
}

/// Probes share their files exactly where their hashes are the same.
pub proof fn files_follow_the_hash(a: u64, b: u64)
    ensures
        wrapper_path(a) == wrapper_path(b) <==> a == b,
        dylib_path(a) == dylib_path(b) <==> a == b,
{
    if wrapper_path(a) == wrapper_path(b) {
        lemma_middle_tells("/tmp/mtdis_wrap_"@, a, b, ".rs"@);
    }
    if dylib_path(a) == dylib_path(b) {
        lemma_middle_tells("/tmp/mtdis_lib_"@, a, b, ".dylib"@);
    }
}

proof fn lemma_middle_tells(before: Seq<char>, a: u64, b: u64, after: Seq<char>)
    requires
        before + hex(a as nat) + after == before + hex(b as nat) + after,
    ensures
        a == b,
{
    let (ha, hb) = (hex(a as nat), hex(b as nat));
    let ta = before + ha + after;
    let tb = before + hb + after;
    assert(ta.len() == before.len() + ha.len() + after.len());
    assert(tb.len() == before.len() + hb.len() + after.len());
    assert(ha =~= ta.subrange(before.len() as int, (before.len() + ha.len()) as int));
    assert(hb =~= tb.subrange(before.len() as int, (before.len() + hb.len()) as int));
    digits_tell_the_number(a as nat, b as nat, 16);
}

/// The policy goes with the flags that make a panic fatal: a probe that is not to unwind is
/// compiled without overflow checks, and aborts on a panic.
pub proof fn checked_probes_abort(source: Seq<char>, dylib: Seq<char>)
    ensures
        rustc_args(false, source, dylib).contains("panic=abort"@),
        rustc_args(false, source, dylib).contains("overflow-checks=off"@),
{
    let a = rustc_args(false, source, dylib);
    assert(a[5] == "overflow-checks=off"@);
    assert(a[7] == "panic=abort"@);
}

/// The report of a rejected probe has a line for each violation, in their order, behind its first
/// line: one violation more adds its line at the end.
pub proof fn every_violation_is_reported(errors: Seq<Seq<char>>, error: Seq<char>)
    ensures
        rejection(Seq::empty()) == "[mtdis] Probe Verification Failed:\n"@,
        rejection(errors.push(error)) == rejection(errors) + ("- "@ + error + "\n"@),
{
    assert(errors.push(error).drop_last() =~= errors);
    assert(rejection(Seq::empty()) =~= "[mtdis] Probe Verification Failed:\n"@);
    assert(rejection(errors.push(error)) =~= rejection(errors) + ("- "@ + error + "\n"@));
}

/// The compiler is told to make a dylib, optimised, of the source where it was written, and to put it
/// where the plan says. Whether panics may unwind changes the two flags that say so, and nothing
/// else. Both files carry the hash in their names.
pub proof fn plans_compile_the_probe(
    plan: CompilePlan,
    user_code: Seq<char>,
    legacy_unwind: bool,
    code_hash: u64,
)
    requires
        plans(plan, user_code, legacy_unwind, code_hash),
    ensures
        ({
            let args = views(plan.rustc_args@);
            let n = args.len() as int;
            &&& n == if legacy_unwind {
                7int
            } else {
                11
            }
            &&& args[0] == "--edition=2021"@ && args[1] == "--crate-type"@ && args[2] == "cdylib"@
                && args[3] == "-O"@
            &&& args[n - 3] == plan.wrapper_path@
            &&& args[n - 2] == "-o"@
            &&& args[n - 1] == plan.dylib_path@
            &&& !legacy_unwind ==> args[4] == "-C"@ && args[5] == "overflow-checks=off"@ && args[6]
                == "-C"@ && args[7] == "panic=abort"@
        }),
        plan.source@ == harness(user_code, legacy_unwind),
        occurs(plan.source@, user_code),
        text_hash(user_code) == DefaultHasher::spec_finish(
            seq![encode_utf8(user_code), seq![0xFFu8]],
        ),
        exists|h: Seq<char>|
            reading(h, 16) == code_hash && plan.wrapper_path@ == #[trigger] ("/tmp/mtdis_wrap_"@ + h
                + ".rs"@),
        exists|h: Seq<char>|
            reading(h, 16) == code_hash && plan.dylib_path@ == #[trigger] ("/tmp/mtdis_lib_"@ + h
                + ".dylib"@),
{
    signed_numbers_are_read_back(0, code_hash as nat);
    harness_keeps_the_probe(user_code, user_code, legacy_unwind);
    let h = hex(code_hash as nat);
    assert(plan.wrapper_path@ == "/tmp/mtdis_wrap_"@ + h + ".rs"@);
    assert(plan.dylib_path@ == "/tmp/mtdis_lib_"@ + h + ".dylib"@);
}

} // verus!
