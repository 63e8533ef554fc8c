//! A probe on `fork` alone.
use super::api::{Handler, MtdiRegistry, MtdiSafeContext};
use vstd::prelude::*;

verus! {

/// Looks at the first argument of a call of `fork`, which goes on unchanged.
pub fn on_fork(ctx: &mut MtdiSafeContext)
    ensures
        *final(ctx) == *old(ctx),
{
    let _first: u64 = ctx.arg(0);
}

/// Asks for the hook.
pub fn register(reg: &mut MtdiRegistry)
    ensures
        final(reg)@ == old(reg)@.push(("fork"@, Handler::OnFork)),
{
    reg.hook_symbol("fork", Handler::OnFork);
}

} // verus!
