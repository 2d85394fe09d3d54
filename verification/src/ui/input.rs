//! Input fields.

use vstd::prelude::*;
use std::ops::Deref;
use std::rc::Rc;

verus! {

/// HTML input element whose value can be read and written as a Rust value of
/// type `T`, for a wrapper over an `Rc` of the element type `E`.
pub trait InputElement<E>: Deref<Target = E> + From<Rc<E>> + Clone {
    /// Rust type corresponding to the value of the input element.
    type T;

    /// Gets the value of the input element, or `None` if its contents do not
    /// convert to a value of type `T`.
    fn get(&self) -> Option<Self::T>;

    /// Sets the contents of the input element to represent `value`.
    fn set(&self, value: &Self::T);
}

} // verus!
