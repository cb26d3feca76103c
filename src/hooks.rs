//! Drop-tracking support for tests of the buffer's lifecycle.
use vstd::prelude::*;

verus! {

/// The report of the hook that guards an allocation that a test has not
/// registered a hook for: dropping such an allocation is an error that the
/// test raises with this message.
pub fn panic_hook() -> (r: &'static str)
    ensures
        r@ == "drop hook not registered"@,
{
    proof {
        reveal_strlit("drop hook not registered");
    }
    "drop hook not registered"
}

} // verus!
