//! A probe on `stat` alone.
use super::api::{Handler, MtdiRegistry, MtdiSafeContext};
use vstd::prelude::*;

verus! {

/// Looks at the path of a call of `stat`, which goes on unchanged.
pub fn on_stat(ctx: &mut MtdiSafeContext)
    ensures
        *final(ctx) == *old(ctx),
{
    let _path = ctx.read_arg_str(0, 256);
}

/// Asks for the hook.
pub fn register(reg: &mut MtdiRegistry)
    ensures
        final(reg)@ == old(reg)@.push(("stat"@, Handler::OnStat)),
{
    reg.hook_symbol("stat", Handler::OnStat);
}

} // verus!
