//! Active elements.

use vstd::prelude::*;

verus! {

/// Trait to check if an element of a document is the active element.
pub trait IsElementActive {
    /// Returns `true` if the element with ID `id` is the active element.
    fn is_element_active(&self, id: &str) -> bool;
}

} // verus!
