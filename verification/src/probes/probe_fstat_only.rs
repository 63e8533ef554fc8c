//! A probe on `fstat` alone. Its first argument is no path.
use super::api::{Handler, MtdiRegistry, MtdiSafeContext};
use vstd::prelude::*;

verus! {

/// Looks at the first argument of a call of `fstat`, which goes on unchanged.
pub fn on_fstat(ctx: &mut MtdiSafeContext)
    ensures
        *final(ctx) == *old(ctx),
{
    let _first: u64 = ctx.arg(0);
}

/// Asks for the hook.
pub fn register(reg: &mut MtdiRegistry)
    ensures
        final(reg)@ == old(reg)@.push(("fstat"@, Handler::OnFstat)),
{
    reg.hook_symbol("fstat", Handler::OnFstat);
}

} // verus!
