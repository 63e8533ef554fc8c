//! The register context that a full-context hook sees, and what the dispatcher does with it.
use crate::hook::manager::{HookInfo, HookTable};
use vstd::prelude::*;

verus! {

/// The registers of the hooked call, in the order in which the thunk spills them.
#[derive(Debug, Clone, Copy)]
pub struct RegisterContext {
    pub x: [u64; 29],
    pub fp: u64,
    pub lr: u64,
    pub sp: u64,
    pub cpsr: u64,
    pub hook_id: u64,
    pub q: [u128; 32],
}

/// The hook that a context belongs to, if there is one: its handler has to be run on the context
/// (where it has one), and then `finish_dispatch` called.
pub fn hook_dispatcher(hooks: &HookTable, ctx: &RegisterContext) -> (r: Option<HookInfo>)
    ensures
        r == if hooks@.contains_key(ctx.hook_id as usize) {
            Some(hooks@[ctx.hook_id as usize])
        } else {
            None
        },
{
    hooks.find(ctx.hook_id as usize)
}

/// Tells the thunk where to jump when it returns.
pub fn finish_dispatch(hook: &HookInfo, ctx: &mut RegisterContext)
    ensures
        final(ctx).x@ == old(ctx).x@.update(16, hook.trampoline_addr as u64),
        final(ctx).fp == old(ctx).fp,
        final(ctx).lr == old(ctx).lr,
        final(ctx).sp == old(ctx).sp,
        final(ctx).cpsr == old(ctx).cpsr,
        final(ctx).hook_id == old(ctx).hook_id,
        final(ctx).q == old(ctx).q,
{
    ctx.x[16] = hook.trampoline_addr as u64;
}

} // verus!
