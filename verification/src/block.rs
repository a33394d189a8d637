//! The closed catalogue of voxel materials and the biome classification.

use vstd::prelude::*;

verus! {

/// One voxel material. Compared by equality only; carries no per-instance state.
#[derive(Clone, Copy, PartialEq, Eq, Structural, Debug)]
pub enum Block {
    Air,
    Grass,
    Dirt,
    Stone,
    Sand,
    Wood,
    Planks,
    Bricks,
    Glass,
    Leaf,
    Snow,
    Target,
    Water,
    Mud,
    Cobblestone,
    CoalOre,
    IronOre,
    GoldOre,
    DiamondOre,
    Gravel,
    Clay,
    Basalt,
    Moss,
    RedSand,
    Ice,
    Cactus,
}

/// A coarse terrain style, recomputed on demand from the heat and moisture fields.
#[derive(Clone, Copy, PartialEq, Eq, Structural, Debug)]
pub enum Biome {
    Plains,
    Forest,
    Desert,
    Snow,
    Mountains,
    Swamp,
}

impl Block {
    /// Whether the material is the empty (passable) one.
    pub open spec fn spec_is_empty(self) -> bool {
        self == Block::Air
    }

    /// Classification predicate: only `Air` counts as empty.
    pub fn is_empty(self) -> (r: bool)
        ensures
            r == self.spec_is_empty(),
    {
        self == Block::Air
    }
}

} // verus!
