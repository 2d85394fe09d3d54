//! Texture unit assignment.
//!
//! The render engine keeps track of which texture is bound to each texture
//! unit, so that binding a texture that is already bound only activates its
//! unit. Textures that are not bound go to the units in round-robin order.
//! Textures are identified here by a number that stands for the identity of
//! the texture object.

use vstd::prelude::*;

verus! {

/// Textures bound to each texture unit.
pub struct TextureUnits {
    textures: Vec<Option<u64>>,
    write_pointer: usize,
}

/// What binding a texture requires: activating the unit to which the texture
/// is already bound, or loading it into a unit (activating the unit and
/// binding the texture there).
#[derive(Debug, Copy, Clone, PartialEq, Eq, Hash, Structural)]
pub enum TextureBinding {
    /// The texture is already bound to this unit.
    Activate(i32),
    /// The texture is loaded into this unit.
    Load(i32),
}

/// First unit to which `texture` is bound, if any.
pub open spec fn unit_of(units: Seq<Option<u64>>, texture: u64) -> Option<int> {
    if exists|j: int| 0 <= j < units.len() && units[j] == Some(texture) {
        Some(choose|j: int| 0 <= j < units.len() && units[j] == Some(texture) && forall|k: int| 0 <= k < j ==> units[k] != Some(texture))
    } else {
        None
    }
}

impl TextureUnits {
    /// Texture bound to each unit.
    pub closed spec fn units(&self) -> Seq<Option<u64>> {
        self.textures@
    }

    /// Unit into which the next texture is loaded.
    pub closed spec fn next_unit(&self) -> int {
        self.write_pointer as int
    }

    /// There is at least one unit, the units can be numbered with an `i32`,
    /// and the next unit is one of them.
    pub open spec fn wf(&self) -> bool {
        &&& 0 < self.units().len() <= i32::MAX
        &&& 0 <= self.next_unit() < self.units().len()
    }

    /// Creates the record of `num_textures` texture units, with no texture
    /// bound.
    pub fn new(num_textures: usize) -> (r: TextureUnits)
        requires
            0 < num_textures <= i32::MAX,
        ensures
            r.wf(),
            r.units() == Seq::new(num_textures as nat, |j: int| None::<u64>),
            r.next_unit() == 0,
    {
        let mut textures: Vec<Option<u64>> = Vec::new();
        let mut j: usize = 0;
        while j < num_textures
            invariant
                j <= num_textures,
                textures@ == Seq::new(j as nat, |k: int| None::<u64>),
            decreases num_textures - j,
        {
            textures.push(None);
            j = j + 1;
        }
        TextureUnits { textures, write_pointer: 0 }
    }

    /// Gives the first unit to which `texture` is bound, if any.
    pub fn find_texture_unit(&self, texture: u64) -> (r: Option<i32>)
        requires
            self.wf(),
        ensures
            r matches Some(j) ==> unit_of(self.units(), texture) == Some(j as int),
            r is None <==> unit_of(self.units(), texture) is None,
    {
        let mut j: usize = 0;
        while j < self.textures.len()
            invariant
                j <= self.textures.len(),
                self.textures.len() <= i32::MAX,
                forall|k: int| 0 <= k < j ==> self.textures@[k] != Some(texture),
            decreases self.textures.len() - j,
        {
            if self.textures[j] == Some(texture) {
                proof {
                    let w = choose|i: int| 0 <= i < self.units().len() && self.units()[i] == Some(texture)
                        && forall|k: int| 0 <= k < i ==> self.units()[k] != Some(texture);
                    assert(w == j) by {
                        if w < j {
                        } else if w > j {
                        }
                    }
                }
                return Some(j as i32);
            }
            j = j + 1;
        }
        None
    }

    /// Loads `texture` into the next unit in round-robin order and gives that
    /// unit.
    pub fn load_texture(&mut self, texture: u64) -> (r: i32)
        requires
            old(self).wf(),
        ensures
            final(self).wf(),
            r == old(self).next_unit(),
            final(self).units() == old(self).units().update(r as int, Some(texture)),
            final(self).next_unit() == (old(self).next_unit() + 1) % (old(self).units().len() as int),
    {
        let n = self.write_pointer;
        self.write_pointer = (self.write_pointer + 1) % self.textures.len();
        self.textures.set(n, Some(texture));
        n as i32
    }

    /// Decides how to bind `texture`: activate its unit if it is already
    /// bound to one, and otherwise load it into the next unit.
    pub fn bind_texture(&mut self, texture: u64) -> (r: TextureBinding)
        requires
            old(self).wf(),
        ensures
            final(self).wf(),
            match unit_of(old(self).units(), texture) {
                Some(j) => r == TextureBinding::Activate(j as i32) && final(self).units() == old(self).units()
                    && final(self).next_unit() == old(self).next_unit(),
                None => r == TextureBinding::Load(old(self).next_unit() as i32) && final(self).units()
                    == old(self).units().update(old(self).next_unit(), Some(texture)) && final(self).next_unit()
                    == (old(self).next_unit() + 1) % (old(self).units().len() as int),
            },
    {
        match self.find_texture_unit(texture) {
            Some(unit) => TextureBinding::Activate(unit),
            None => TextureBinding::Load(self.load_texture(texture)),
        }
    }
}

/// After a texture is bound, it is found at the unit that the binding names.
pub proof fn lemma_bound_texture_is_found(before: Seq<Option<u64>>, next: int, texture: u64)
    requires
        0 <= next < before.len(),
    ensures
        ({
            let after = match unit_of(before, texture) {
                Some(j) => before,
                None => before.update(next, Some(texture)),
            };
            let unit = match unit_of(before, texture) {
                Some(j) => j,
                None => next,
            };
            unit_of(after, texture) == Some(unit)
        }),
{
    match unit_of(before, texture) {
        Some(j) => {},
        None => {
            let after = before.update(next, Some(texture));
            assert(0 <= next < after.len() && after[next] == Some(texture));
            let w = choose|i: int| 0 <= i < after.len() && after[i] == Some(texture)
                && forall|k: int| 0 <= k < i ==> after[k] != Some(texture);
            assert forall|k: int| 0 <= k < next implies after[k] != Some(texture) by {
                assert(after[k] == before[k]);
            }
            assert(w == next) by {
                if w != next {
                    assert(after[w] == before[w]);
                }
            }
        },
    }
}

} // verus!
