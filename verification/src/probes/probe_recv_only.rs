//! A probe on `recv` alone.
use super::api::{Handler, MtdiRegistry, MtdiSafeContext};
use vstd::prelude::*;

verus! {

/// Looks at the first argument of a call of `recv`, which goes on unchanged.
pub fn on_recv(ctx: &mut MtdiSafeContext)
    ensures
        *final(ctx) == *old(ctx),
{
    let _first: u64 = ctx.arg(0);
}

/// Asks for the hook.
pub fn register(reg: &mut MtdiRegistry)
    ensures
        final(reg)@ == old(reg)@.push(("recv"@, Handler::OnRecv)),
{
    reg.hook_symbol("recv", Handler::OnRecv);
}

} // verus!
