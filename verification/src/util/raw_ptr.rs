//! A handle to the output slot shared by the generator thread and the
//! threads that forward its output.
//!
//! Copies of the handle all reach one and the same slot. The slot is held
//! behind an [`Arc`], so the handle can be sent to and shared between
//! threads without `unsafe`; the slot type itself decides how concurrent
//! writes and reads are made (an atomic byte, for instance).

use std::sync::Arc;
use vstd::prelude::*;

verus! {

/// A cloneable, thread-shareable handle to one output slot of type `T`.
pub struct RawPtr<T> {
    /// The shared slot.
    pub ptr: Arc<T>,
}

/// `Arc::clone`: a second pointer to the same allocation, hence to the same
/// value.
#[verifier::external_body]
fn arc_clone<T>(a: &Arc<T>) -> (r: Arc<T>)
    ensures
        r == *a,
{
    a.clone()
}

impl<T> RawPtr<T> {
    /// A handle to a new slot holding `value`.
    pub fn new(value: T) -> (p: Self)
        ensures
            *p.ptr == value,
    {
        RawPtr { ptr: Arc::new(value) }
    }

    /// The slot the handle reaches.
    pub fn slot(&self) -> (r: &T)
        ensures
            *r == *self.ptr,
    {
        &*self.ptr
    }
}

impl<T> Clone for RawPtr<T> {
    /// Another handle to the same slot.
    fn clone(&self) -> (p: Self)
        ensures
            p.ptr == self.ptr,
    {
        RawPtr { ptr: arc_clone(&self.ptr) }
    }
}

} // verus!
