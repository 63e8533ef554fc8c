//! A probe on four calls that look at files.
use super::api::{Handler, MtdiRegistry, MtdiSafeContext};
use vstd::prelude::*;

verus! {

/// Looks at the first argument of a call of `open`, which goes on unchanged.
pub fn on_open(ctx: &mut MtdiSafeContext)
    ensures
        *final(ctx) == *old(ctx),
{
    let _first: u64 = ctx.arg(0);
}

/// Looks at the first argument of a call of `stat`, which goes on unchanged.
pub fn on_stat(ctx: &mut MtdiSafeContext)
    ensures
        *final(ctx) == *old(ctx),
{
    let _first: u64 = ctx.arg(0);
}

/// Looks at the first argument of a call of `lstat`, which goes on unchanged.
pub fn on_lstat(ctx: &mut MtdiSafeContext)
    ensures
        *final(ctx) == *old(ctx),
{
    let _first: u64 = ctx.arg(0);
}

/// Looks at the first argument of a call of `fstat`, which goes on unchanged.
pub fn on_fstat(ctx: &mut MtdiSafeContext)
    ensures
        *final(ctx) == *old(ctx),
{
    let _first: u64 = ctx.arg(0);
}

/// Asks for the hooks.
pub fn register(reg: &mut MtdiRegistry)
    ensures
        final(reg)@ == old(reg)@ + seq![
            ("open"@, Handler::OnOpen),
            ("stat"@, Handler::OnStat),
            ("lstat"@, Handler::OnLstat),
            ("fstat"@, Handler::OnFstat),
        ],
{
    reg.hook_symbol("open", Handler::OnOpen);
    reg.hook_symbol("stat", Handler::OnStat);
    reg.hook_symbol("lstat", Handler::OnLstat);
    reg.hook_symbol("fstat", Handler::OnFstat);
    assert(reg@ =~= old(reg)@ + seq![
            ("open"@, Handler::OnOpen),
            ("stat"@, Handler::OnStat),
            ("lstat"@, Handler::OnLstat),
            ("fstat"@, Handler::OnFstat),
        ]);
}

} // verus!
