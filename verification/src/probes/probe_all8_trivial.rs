//! A probe on eight calls, with handlers that do nothing.
use super::api::{Handler, MtdiRegistry, MtdiSafeContext};
use vstd::prelude::*;

verus! {

/// Looks at the first argument of a call of `open`, which goes on unchanged.
pub fn on_open(ctx: &mut MtdiSafeContext)
    ensures
        *final(ctx) == *old(ctx),
{
    let _first: u64 = ctx.arg(0);
}

/// Looks at the first argument of a call of `stat`, which goes on unchanged.
pub fn on_stat(ctx: &mut MtdiSafeContext)
    ensures
        *final(ctx) == *old(ctx),
{
    let _first: u64 = ctx.arg(0);
}

/// Looks at the first argument of a call of `lstat`, which goes on unchanged.
pub fn on_lstat(ctx: &mut MtdiSafeContext)
    ensures
        *final(ctx) == *old(ctx),
{
    let _first: u64 = ctx.arg(0);
}

/// Looks at the first argument of a call of `fstat`, which goes on unchanged.
pub fn on_fstat(ctx: &mut MtdiSafeContext)
    ensures
        *final(ctx) == *old(ctx),
{
    let _first: u64 = ctx.arg(0);
}

/// Looks at the first argument of a call of `send`, which goes on unchanged.
pub fn on_send(ctx: &mut MtdiSafeContext)
    ensures
        *final(ctx) == *old(ctx),
{
    let _first: u64 = ctx.arg(0);
}

/// Looks at the first argument of a call of `recv`, which goes on unchanged.
pub fn on_recv(ctx: &mut MtdiSafeContext)
    ensures
        *final(ctx) == *old(ctx),
{
    let _first: u64 = ctx.arg(0);
}

/// Looks at the first argument of a call of `fork`, which goes on unchanged.
pub fn on_fork(ctx: &mut MtdiSafeContext)
    ensures
        *final(ctx) == *old(ctx),
{
    let _first: u64 = ctx.arg(0);
}

/// Looks at the first argument of a call of `exit`, which goes on unchanged.
pub fn on_exit(ctx: &mut MtdiSafeContext)
    ensures
        *final(ctx) == *old(ctx),
{
    let _first: u64 = ctx.arg(0);
}

/// Asks for the hooks.
pub fn register(reg: &mut MtdiRegistry)
    ensures
        final(reg)@ == old(reg)@ + seq![
            ("open"@, Handler::OnOpen),
            ("stat"@, Handler::OnStat),
            ("lstat"@, Handler::OnLstat),
            ("fstat"@, Handler::OnFstat),
            ("send"@, Handler::OnSend),
            ("recv"@, Handler::OnRecv),
            ("fork"@, Handler::OnFork),
            ("exit"@, Handler::OnExit),
        ],
{
    reg.hook_symbol("open", Handler::OnOpen);
    reg.hook_symbol("stat", Handler::OnStat);
    reg.hook_symbol("lstat", Handler::OnLstat);
    reg.hook_symbol("fstat", Handler::OnFstat);
    reg.hook_symbol("send", Handler::OnSend);
    reg.hook_symbol("recv", Handler::OnRecv);
    reg.hook_symbol("fork", Handler::OnFork);
    reg.hook_symbol("exit", Handler::OnExit);
    assert(reg@ =~= old(reg)@ + seq![
            ("open"@, Handler::OnOpen),
            ("stat"@, Handler::OnStat),
            ("lstat"@, Handler::OnLstat),
            ("fstat"@, Handler::OnFstat),
            ("send"@, Handler::OnSend),
            ("recv"@, Handler::OnRecv),
            ("fork"@, Handler::OnFork),
            ("exit"@, Handler::OnExit),
        ]);
}

} // verus!
