//! WebGL2 uniforms.

use vstd::prelude::*;

verus! {

/// WebGL2 uniform: the identifier of a uniform together with its value.
pub struct Uniform<T> {
    name: String,
    data: T,
}

impl<T> Uniform<T> {
    /// Identifier of the uniform.
    pub closed spec fn spec_name(&self) -> Seq<char> {
        self.name@
    }

    /// Value of the uniform.
    pub closed spec fn spec_data(&self) -> T {
        self.data
    }

    /// Creates a new uniform with identifier `name` and initial value `data`.
    pub fn new(name: String, data: T) -> (r: Uniform<T>)
        ensures
            r.spec_name() == name@,
            r.spec_data() == data,
    {
        Uniform { name, data }
    }

    /// Returns the identifier of the uniform.
    pub fn name(&self) -> (r: &str)
        ensures
            r@ == self.spec_name(),
    {
        self.name.as_str()
    }

    /// Sets the value of the uniform to `value`.
    pub fn set_data(&mut self, value: T)
        ensures
            final(self).spec_data() == value,
            final(self).spec_name() == old(self).spec_name(),
    {
        self.data = value;
    }
}

impl<T: Copy> Uniform<T> {
    /// Returns a copy of the value of the uniform.
    pub fn get_data(&self) -> (r: T)
        ensures
            r == self.spec_data(),
    {
        self.data
    }
}

} // verus!
