//! A probe on `send` alone.
use super::api::{Handler, MtdiRegistry, MtdiSafeContext};
use vstd::prelude::*;

verus! {

/// Looks at the first argument of a call of `send`, which goes on unchanged.
pub fn on_send(ctx: &mut MtdiSafeContext)
    ensures
        *final(ctx) == *old(ctx),
{
    let _first: u64 = ctx.arg(0);
}

/// Asks for the hook.
pub fn register(reg: &mut MtdiRegistry)
    ensures
        final(reg)@ == old(reg)@.push(("send"@, Handler::OnSend)),
{
    reg.hook_symbol("send", Handler::OnSend);
}

} // verus!
