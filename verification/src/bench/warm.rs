//! The benchmark of a warm loop.
use crate::hook::trampoline::thunk::RegisterContext;
use vstd::prelude::*;

verus! {

/// A handler that does nothing, to measure the hook alone.
pub fn handler_uprobe(ctx: &mut RegisterContext)
    ensures
        *final(ctx) == *old(ctx),
{
}

} // verus!
