//! A probe that reports every call of `open`.
use super::api::{Handler, MtdiRegistry, MtdiSafeContext};
use crate::text::{hex, push_hex, reading, signed_numbers_are_read_back, text_view};
use vstd::prelude::*;

verus! {

/// What is reported of a call of `open`: nothing where its path cannot be read.
pub open spec fn open_report(path: Option<Seq<char>>, flags: u64) -> Option<Seq<char>> {
    match path {
        Some(p) => Some(
            "[mtdis probe] Intercepted open() -> path: \""@ + p + "\", flags: "@ + "0x"@ + hex(
                flags as nat,
            ),
        ),
        None => None,
    }
}

/// Reports a call of `open`, which goes on unchanged.
pub fn on_open(ctx: &mut MtdiSafeContext) -> (r: Option<String>)
    ensures
        *final(ctx) == *old(ctx),
        text_view(r) == open_report(old(ctx).argument_text(0, 256), old(ctx).argument(1)),
{
    match ctx.read_arg_str(0, 256) {
        Some(path) => {
            let mut s = "[mtdis probe] Intercepted open() -> path: \"".to_owned();
            s.append(path.as_str());
            s.append("\", flags: ");
            push_hex(&mut s, ctx.arg(1));
            Some(s)
        },
        None => None,
    }
}

/// Asks for the hook, and says so.
pub fn register(reg: &mut MtdiRegistry) -> (r: String)
    ensures
        final(reg)@ == old(reg)@.push(("open"@, Handler::OnOpen)),
        r@ == "[mtdis probe] Registering safe hooks from probe_open.rs..."@,
{
    reg.hook_symbol("open", Handler::OnOpen);
    "[mtdis probe] Registering safe hooks from probe_open.rs...".to_owned()
}

/// A report tells the path and the flags of the call, and there is none exactly where the path could
/// not be read.
pub proof fn reports_tell_path_and_flags(path: Option<Seq<char>>, flags: u64)
    ensures
        open_report(path, flags) is None <==> path is None,
        path matches Some(p) ==> exists|f: Seq<char>|
            reading(f, 16) == flags && open_report(path, flags) == Some(
                #[trigger] ("[mtdis probe] Intercepted open() -> path: \""@ + p + "\", flags: "@
                    + "0x"@ + f),
            ),
{
    signed_numbers_are_read_back(0, flags as nat);
    if let Some(p) = path {
        let f = hex(flags as nat);
        assert(open_report(path, flags) == Some(
            "[mtdis probe] Intercepted open() -> path: \""@ + p + "\", flags: "@ + "0x"@ + f,
        ));
    }
}

} // verus!
