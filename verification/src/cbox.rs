//! The single-value heap box.
//!
//! A [`CBox`] owns one value on the heap. The value is moved into the box when
//! the box is made and moved out again when it is extracted, leaked or turned
//! into a standard box; it is never duplicated.

use vstd::prelude::*;
use vstd::layout::size_of;

verus! {

/// One value on the heap.
pub struct CBox<T> {
    slot: Box<T>,
}

impl<T> View for CBox<T> {
    type V = T;

    /// The value in the box.
    closed spec fn view(&self) -> T {
        *self.slot
    }
}

/// Calls `Box::leak`. Trusted: the reference that comes back is to the value
/// that was in the box.
#[verifier::external_body]
fn leak_box<T: 'static>(boxed: Box<T>) -> (value: &'static mut T)
    ensures
        *value == *boxed,
{
    Box::leak(boxed)
}

/// Moves `value` to the heap.
pub fn on_heap<T>(value: T) -> (boxed: CBox<T>)
    ensures
        boxed@ == value,
{
    CBox::new(value)
}

impl<T> CBox<T> {
    /// The size of the value in the box, in bytes.
    pub fn inner_size() -> (n: usize)
        ensures
            n == size_of::<T>(),
    {
        core::mem::size_of::<T>()
    }

    /// A box that holds `value`.
    pub fn new(value: T) -> (boxed: Self)
        ensures
            boxed@ == value,
    {
        CBox { slot: Box::new(value) }
    }

    /// Gives the value up for the rest of the program and returns a reference
    /// to it. The block is never released.
    pub fn leak(self) -> (value: &'static mut T) where T: 'static
        ensures
            *value == self@,
    {
        leak_box(self.to_box())
    }

    /// Takes the value out of the box.
    pub fn extract(self) -> (value: T)
        ensures
            value == self@,
    {
        *self.slot
    }

    /// The value in the box.
    pub fn as_value(&self) -> (value: &T)
        ensures
            *value == self@,
    {
        &*self.slot
    }

    /// The value in the box, to be written to.
    pub fn as_mut(&mut self) -> (value: &mut T)
        ensures
            *value == old(self)@,
            final(self)@ == *final(value),
    {
        &mut *self.slot
    }

    /// A clone of the value in the box.
    pub fn get_value(&self) -> (value: T) where T: Clone
        ensures
            cloned(self@, value),
    {
        self.as_value().clone()
    }

    /// The box as a standard box, with the same block and value.
    pub fn to_box(self) -> (boxed: Box<T>)
        ensures
            *boxed == self@,
    {
        self.slot
    }

    /// Takes the value of a standard box.
    pub fn from_box(bx: Box<T>) -> (boxed: Self)
        ensures
            boxed@ == *bx,
    {
        let value: T = *bx;
        Self::new(value)
    }
}

} // verus!
