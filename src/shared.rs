//! The shared allocation behind a buffer handle: a `Vec` held by a
//! `std::sync::Arc`, whose atomic strong count is the share count.
use std::sync::Arc;
use vstd::prelude::*;

verus! {

/// Relies on `Arc::clone`: a new handle to the same allocation, whose
/// contents it therefore sees unchanged (the strong count goes up by one).
#[verifier::external_body]
pub(crate) fn share<T>(a: &Arc<Vec<T>>) -> (r: Arc<Vec<T>>)
    ensures
        r@ == a@,
{
    Arc::clone(a)
}

/// Relies on `Arc::strong_count`: the number of live handles to the
/// allocation. It depends on other handles, possibly on other threads, so
/// only what holds of every outcome is stated: this handle is one of them.
#[verifier::external_body]
pub(crate) fn share_count<T>(a: &Arc<Vec<T>>) -> (r: usize)
    ensures
        r >= 1,
{
    Arc::strong_count(a)
}

/// Relies on `Arc::make_mut`: a mutable reference to the contents, cloning
/// them into a fresh allocation first if other handles still share it. For
/// `T: Copy` the clone of a `Vec<T>` holds the same elements, so in either
/// case the reference starts at the old contents, and what is written
/// through it is what the handle holds afterwards.
#[verifier::external_body]
pub(crate) fn exclusive<T: Copy>(a: &mut Arc<Vec<T>>) -> (r: &mut Vec<T>)
    ensures
        r@ == old(a)@,
        final(a)@ == final(r)@,
{
    Arc::make_mut(a)
}

} // verus!
