//! A probe without hooks.
use super::api::MtdiRegistry;
use vstd::prelude::*;

verus! {

/// Asks for no hook.
pub fn register(reg: &mut MtdiRegistry)
    ensures
        final(reg)@ == old(reg)@,
{
}

} // verus!
