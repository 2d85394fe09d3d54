//! Waterfall colormaps.

use vstd::prelude::*;
use crate::text::str_eq;

verus! {

/// Waterfall colormap.
#[derive(Debug, Copy, Clone, PartialEq, Eq, Hash, Structural)]
pub enum Colormap {
    /// Turbo colormap.
    Turbo,
    /// Viridis colormap.
    Viridis,
    /// Inferno colormap.
    Inferno,
}

/// The text that names each colormap.
pub open spec fn colormap_name(c: Colormap) -> Seq<char> {
    match c {
        Colormap::Turbo => "Turbo"@,
        Colormap::Viridis => "Viridis"@,
        Colormap::Inferno => "Inferno"@,
    }
}

/// The colormap that a text names, if any.
pub open spec fn colormap_parse(s: Seq<char>) -> Result<Colormap, ()> {
    if s == "Turbo"@ {
        Ok(Colormap::Turbo)
    } else if s == "Viridis"@ {
        Ok(Colormap::Viridis)
    } else if s == "Inferno"@ {
        Ok(Colormap::Inferno)
    } else {
        Err(())
    }
}

impl Colormap {
    /// Parses a colormap from its name.
    pub fn from_str(s: &str) -> (r: Result<Colormap, ()>)
        ensures
            r == colormap_parse(s@),
    {
        if str_eq(s, "Turbo") {
            Ok(Colormap::Turbo)
        } else if str_eq(s, "Viridis") {
            Ok(Colormap::Viridis)
        } else if str_eq(s, "Inferno") {
            Ok(Colormap::Inferno)
        } else {
            Err(())
        }
    }

    /// Returns the name of the colormap.
    pub fn to_string(&self) -> (r: String)
        ensures
            r@ == colormap_name(*self),
    {
        match self {
            Colormap::Turbo => String::from_str("Turbo"),
            Colormap::Viridis => String::from_str("Viridis"),
            Colormap::Inferno => String::from_str("Inferno"),
        }
    }
}

/// Parsing the name of a colormap gives the colormap back, and a text that
/// parses is the name of what it parses to.
pub proof fn lemma_colormap_roundtrip(c: Colormap, s: Seq<char>)
    ensures
        colormap_parse(colormap_name(c)) == Ok::<Colormap, ()>(c),
        colormap_parse(s) matches Ok(d) ==> colormap_name(d) == s,
{
    reveal_strlit("Turbo");
    reveal_strlit("Viridis");
    reveal_strlit("Inferno");
    assert("Turbo"@.len() != "Viridis"@.len());
    assert("Turbo"@.len() != "Inferno"@.len());
    assert("Viridis"@[0] != "Inferno"@[0]);
}

/// Each colormap is written as its own name, and each of these names reads
/// back as that colormap: `Turbo`, `Viridis` and `Inferno`.
pub proof fn lemma_colormap_texts()
    ensures
        colormap_name(Colormap::Turbo) == "Turbo"@,
        colormap_name(Colormap::Viridis) == "Viridis"@,
        colormap_name(Colormap::Inferno) == "Inferno"@,
        colormap_parse("Turbo"@) == Ok::<Colormap, ()>(Colormap::Turbo),
        colormap_parse("Viridis"@) == Ok::<Colormap, ()>(Colormap::Viridis),
        colormap_parse("Inferno"@) == Ok::<Colormap, ()>(Colormap::Inferno),
{
    lemma_colormap_roundtrip(Colormap::Turbo, "Turbo"@);
    lemma_colormap_roundtrip(Colormap::Viridis, "Viridis"@);
    lemma_colormap_roundtrip(Colormap::Inferno, "Inferno"@);
}

} // verus!
