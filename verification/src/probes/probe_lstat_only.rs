//! A probe on `lstat` alone.
use super::api::{Handler, MtdiRegistry, MtdiSafeContext};
use vstd::prelude::*;

verus! {

/// Looks at the path of a call of `lstat`, which goes on unchanged.
pub fn on_lstat(ctx: &mut MtdiSafeContext)
    ensures
        *final(ctx) == *old(ctx),
{
    let _path = ctx.read_arg_str(0, 256);
}

/// Asks for the hook.
pub fn register(reg: &mut MtdiRegistry)
    ensures
        final(reg)@ == old(reg)@.push(("lstat"@, Handler::OnLstat)),
{
    reg.hook_symbol("lstat", Handler::OnLstat);
}

} // verus!
