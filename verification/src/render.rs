//! Render engine data.

use vstd::prelude::*;

pub mod texture_units;
pub mod uniform;

verus! {

/// WebGL2 shader program source: the sources of the vertex and fragment
/// shaders of a program that is to be compiled.
#[derive(Debug, Copy, Clone, PartialEq, Eq, Hash)]
pub struct ProgramSource<'a> {
    /// Source for the vertex shader.
    pub vertex_shader: &'a str,
    /// Source for the fragment shader.
    pub fragment_shader: &'a str,
}

} // verus!
