//! Deterministic procedural terrain: layered triangle-wave fields classify a
//! biome and shape a surface height for every world column, and a positional
//! hash scatters ores through the stone. Every function here is a pure
//! function of its arguments, so the bulk generation pass and the
//! out-of-bounds fallback always agree.

use vstd::prelude::*;

use crate::block::Biome;
use crate::block::Block;

verus! {

/// Water (or ice) fills columns up to this height where the terrain is lower.
pub const SEA_LEVEL: usize = 30;

/// Heights from the field formulas are clamped into `[MIN_SURFACE, MAX_SURFACE]`.
pub const MIN_SURFACE: usize = 8;
pub const MAX_SURFACE: usize = 94;

/// World coordinates shifted into the non-negative range, so that the wave
/// and hash arithmetic below never divides a negative number.
pub open spec fn spec_coord_u(x: int) -> int {
    x + 2147483648
}

/// A triangle wave over `u` with the given period, ranging over `[0, 2000]`.
pub open spec fn spec_tri01(u: int, period: int) -> int
    recommends
        0 <= u,
        2 <= period,
{
    let half = period / 2;
    let m = u % period;
    if m < half {
        2000 * m / half
    } else {
        2000 - 2000 * (m - half) / (period - half)
    }
}

/// Heat field in `[-1000, 1000]`: two triangle-wave octaves, weighted 10:4.
pub open spec fn spec_heat(x: int, z: int) -> int {
    let u = spec_coord_u(x);
    let v = spec_coord_u(z);
    (spec_tri01(13 * u + 7 * v, 577) * 10 + spec_tri01(29 * u + 3 * v, 223) * 4) / 14 - 1000
}

/// Moisture field in `[-1000, 1000]`: two triangle-wave octaves, weighted 10:5.
pub open spec fn spec_moisture(x: int, z: int) -> int {
    let u = spec_coord_u(x);
    let v = spec_coord_u(z);
    (spec_tri01(7 * u + 17 * v, 491) * 10 + spec_tri01(23 * u + 5 * v, 199) * 5) / 15 - 1000
}

/// Biome of a world column, decided by thresholds on heat and moisture.
pub open spec fn spec_biome_at(x: int, z: int) -> Biome {
    let heat = spec_heat(x, z);
    let moisture = spec_moisture(x, z);
    if heat > 620 {
        Biome::Desert
    } else if heat < -450 {
        Biome::Snow
    } else if moisture > 650 {
        Biome::Swamp
    } else if moisture < -350 {
        Biome::Mountains
    } else if moisture > 200 {
        Biome::Forest
    } else {
        Biome::Plains
    }
}

/// Surface height of a world column in milli-blocks, before clamping.
pub open spec fn spec_height_milli(x: int, z: int, biome: Biome) -> int {
    let u = spec_coord_u(x);
    let v = spec_coord_u(z);
    let mac = spec_tri01(3 * u + 2 * v, 997);
    let det = spec_tri01(11 * u + 5 * v, 131);
    let rid = if spec_tri01(17 * u + 9 * v, 61) >= 1000 {
        spec_tri01(17 * u + 9 * v, 61) - 1000
    } else {
        1000 - spec_tri01(17 * u + 9 * v, 61)
    };
    match biome {
        Biome::Plains => 28000 + mac * 63 / 10 - 6300 + det * 35 / 10 - 3500,
        Biome::Forest => 30000 + mac * 72 / 10 - 7200 + det * 35 / 10 - 3500,
        Biome::Desert => 24000 + mac * 45 / 10 - 4500 + det * 21 / 10 - 2100,
        Biome::Snow => 34000 + mac * 72 / 10 - 7200 + rid * 55 / 10,
        Biome::Mountains => 40000 + mac * 126 / 10 - 12600 + rid * 715 / 100,
        Biome::Swamp => 22000 + mac * 36 / 10 - 3600,
    }
}

/// Surface height of a world column, clamped into `[MIN_SURFACE, MAX_SURFACE]`.
pub open spec fn spec_terrain_height(x: int, z: int, biome: Biome) -> int {
    let h = spec_height_milli(x, z, biome) / 1000;
    if h < MIN_SURFACE as int {
        MIN_SURFACE as int
    } else if h > MAX_SURFACE as int {
        MAX_SURFACE as int
    } else {
        h
    }
}

/// Deep-rock material at a world cell: ore veins from positional hashes in
/// depth bands, basalt near the bottom, gravel and clay pockets, else stone.
pub open spec fn spec_stone_with_ores(x: int, y: int, z: int) -> Block {
    let u = spec_coord_u(x);
    let v = spec_coord_u(z);
    let salt = (u * 73856093 + v * 19349663) % 65537;
    if y < 10 && (u + v + y) % 43 == 0 {
        Block::DiamondOre
    } else if y < 20 && (u * 3 + v * 5 + y) % 37 == 0 {
        Block::GoldOre
    } else if y < 34 && (u * 7 + v * 11 + y * 2) % 29 == 0 {
        Block::IronOre
    } else if y < 40 && (u * 13 + v * 17 + y * 3) % 19 == 0 {
        Block::CoalOre
    } else if y < 14 {
        Block::Basalt
    } else if y < 26 && (salt + y) % 9 == 0 {
        Block::Gravel
    } else if y < 28 && (salt + y * 3) % 21 == 0 {
        Block::Clay
    } else {
        Block::Stone
    }
}

/// Material of one cell of the base terrain, given the column's biome and
/// surface height: a biome surface block, a shallow sub-surface band, deep
/// rock below, and water or ice above the surface up to the sea level.
pub open spec fn spec_terrain_block_at(
    wx: int,
    y: int,
    wz: int,
    biome: Biome,
    h: int,
    sea_level: int,
) -> Block {
    if y > h {
        if y <= sea_level {
            if biome == Biome::Snow {
                Block::Ice
            } else {
                Block::Water
            }
        } else {
            Block::Air
        }
    } else {
        let depth = h - y;
        match biome {
            Biome::Desert => if depth == 0 {
                Block::Sand
            } else if depth < 4 {
                Block::RedSand
            } else {
                spec_stone_with_ores(wx, y, wz)
            },
            Biome::Snow => if depth == 0 {
                Block::Snow
            } else if depth < 3 {
                Block::Dirt
            } else {
                spec_stone_with_ores(wx, y, wz)
            },
            Biome::Swamp => if depth == 0 {
                Block::Moss
            } else if depth < 4 {
                Block::Mud
            } else {
                spec_stone_with_ores(wx, y, wz)
            },
            Biome::Mountains => if depth == 0 && h > 52 {
                Block::Snow
            } else {
                spec_stone_with_ores(wx, y, wz)
            },
            Biome::Forest | Biome::Plains => if depth == 0 {
                Block::Grass
            } else if depth < 4 {
                Block::Dirt
            } else {
                spec_stone_with_ores(wx, y, wz)
            },
        }
    }
}

/// The block any single world cell would hold after base generation: the
/// shared definition behind bulk generation and the out-of-bounds fallback.
/// Kept opaque: callers reason about it as a pure function of `(x, y, z)`.
#[verifier::opaque]
pub open spec fn spec_procedural_block_at(x: int, y: int, z: int) -> Block {
    let biome = spec_biome_at(x, z);
    let h = spec_terrain_height(x, z, biome);
    spec_terrain_block_at(x, y, z, biome, h, SEA_LEVEL as int)
}

/// Triangle wave, executable form.
pub fn tri01(u: i64, period: i64) -> (r: i64)
    requires
        0 <= u,
        2 <= period <= 100_000,
    ensures
        r == spec_tri01(u as int, period as int),
        0 <= r <= 2000,
{
    let half: i64 = period / 2;
    let m: i64 = u % period;
    if m < half {
        let q: i64 = (2000 * m) / half;
        assert(0 <= 2000 * (m as int) / (half as int) <= 2000) by (nonlinear_arith)
            requires
                0 <= m < half,
        ;
        q
    } else {
        let q: i64 = (2000 * (m - half)) / (period - half);
        assert(0 <= 2000 * (m - half as int) / (period - half as int) <= 2000) by (nonlinear_arith)
            requires
                0 <= m - half < period - half,
        ;
        2000 - q
    }
}

/// Shift a world coordinate into the non-negative range.
fn coord_u(x: i32) -> (r: i64)
    ensures
        r == spec_coord_u(x as int),
        0 <= r < 4294967296,
{
    (x as i64) + 2147483648
}

/// Classify the biome of a world column. Deterministic: the result depends on
/// `(x, z)` alone.
pub fn biome_at(x: i32, z: i32) -> (r: Biome)
    ensures
        r == spec_biome_at(x as int, z as int),
{
    let u: i64 = coord_u(x);
    let v: i64 = coord_u(z);
    let h1: i64 = tri01(13 * u + 7 * v, 577);
    let h2: i64 = tri01(29 * u + 3 * v, 223);
    let heat: i64 = (h1 * 10 + h2 * 4) / 14 - 1000;
    let m1: i64 = tri01(7 * u + 17 * v, 491);
    let m2: i64 = tri01(23 * u + 5 * v, 199);
    let moisture: i64 = (m1 * 10 + m2 * 5) / 15 - 1000;
    if heat > 620 {
        Biome::Desert
    } else if heat < -450 {
        Biome::Snow
    } else if moisture > 650 {
        Biome::Swamp
    } else if moisture < -350 {
        Biome::Mountains
    } else if moisture > 200 {
        Biome::Forest
    } else {
        Biome::Plains
    }
}

/// Surface height of a world column. Deterministic: the result depends on the
/// arguments alone, and always lies in `[MIN_SURFACE, MAX_SURFACE]`.
pub fn terrain_height(x: i32, z: i32, biome: Biome) -> (r: usize)
    ensures
        r == spec_terrain_height(x as int, z as int, biome),
        MIN_SURFACE <= r <= MAX_SURFACE,
{
    let u: i64 = coord_u(x);
    let v: i64 = coord_u(z);
    let mac: i64 = tri01(3 * u + 2 * v, 997);
    let det: i64 = tri01(11 * u + 5 * v, 131);
    let rid_raw: i64 = tri01(17 * u + 9 * v, 61);
    let rid: i64 = if rid_raw >= 1000 {
        rid_raw - 1000
    } else {
        1000 - rid_raw
    };
    let base: i64 = match biome {
        Biome::Plains => 28000 + mac * 63 / 10 - 6300 + det * 35 / 10 - 3500,
        Biome::Forest => 30000 + mac * 72 / 10 - 7200 + det * 35 / 10 - 3500,
        Biome::Desert => 24000 + mac * 45 / 10 - 4500 + det * 21 / 10 - 2100,
        Biome::Snow => 34000 + mac * 72 / 10 - 7200 + rid * 55 / 10,
        Biome::Mountains => 40000 + mac * 126 / 10 - 12600 + rid * 715 / 100,
        Biome::Swamp => 22000 + mac * 36 / 10 - 3600,
    };
    let h: i64 = base / 1000;
    if h < MIN_SURFACE as i64 {
        MIN_SURFACE
    } else if h > MAX_SURFACE as i64 {
        MAX_SURFACE
    } else {
        h as usize
    }
}

/// Deep-rock material at a world cell.
pub fn stone_with_ores(x: i32, y: usize, z: i32) -> (r: Block)
    requires
        y <= 100_000,
    ensures
        r == spec_stone_with_ores(x as int, y as int, z as int),
{
    let u: i64 = coord_u(x);
    let v: i64 = coord_u(z);
    let yi: i64 = y as i64;
    let salt: i64 = (u * 73856093 + v * 19349663) % 65537;
    if y < 10 && (u + v + yi) % 43 == 0 {
        Block::DiamondOre
    } else if y < 20 && (u * 3 + v * 5 + yi) % 37 == 0 {
        Block::GoldOre
    } else if y < 34 && (u * 7 + v * 11 + yi * 2) % 29 == 0 {
        Block::IronOre
    } else if y < 40 && (u * 13 + v * 17 + yi * 3) % 19 == 0 {
        Block::CoalOre
    } else if y < 14 {
        Block::Basalt
    } else if y < 26 && (salt + yi) % 9 == 0 {
        Block::Gravel
    } else if y < 28 && (salt + yi * 3) % 21 == 0 {
        Block::Clay
    } else {
        Block::Stone
    }
}

/// Material of one cell of the base terrain.
pub fn terrain_block_at(wx: i32, y: usize, wz: i32, biome: Biome, h: usize, sea_level: usize) -> (r:
    Block)
    requires
        y <= 100_000,
        h <= 100_000,
        sea_level <= 100_000,
    ensures
        r == spec_terrain_block_at(wx as int, y as int, wz as int, biome, h as int, sea_level as int),
{
    if y > h {
        if y <= sea_level {
            if biome == Biome::Snow {
                return Block::Ice;
            } else {
                return Block::Water;
            }
        }
        return Block::Air;
    }
    let depth: usize = h - y;
    match biome {
        Biome::Desert => if depth == 0 {
            Block::Sand
        } else if depth < 4 {
            Block::RedSand
        } else {
            stone_with_ores(wx, y, wz)
        },
        Biome::Snow => if depth == 0 {
            Block::Snow
        } else if depth < 3 {
            Block::Dirt
        } else {
            stone_with_ores(wx, y, wz)
        },
        Biome::Swamp => if depth == 0 {
            Block::Moss
        } else if depth < 4 {
            Block::Mud
        } else {
            stone_with_ores(wx, y, wz)
        },
        Biome::Mountains => if depth == 0 && h > 52 {
            Block::Snow
        } else {
            stone_with_ores(wx, y, wz)
        },
        Biome::Forest | Biome::Plains => if depth == 0 {
            Block::Grass
        } else if depth < 4 {
            Block::Dirt
        } else {
            stone_with_ores(wx, y, wz)
        },
    }
}

/// The block any single world cell would hold after base generation: used by
/// the out-of-bounds fallback so edge queries never fail.
pub fn procedural_block_at(x: i32, y: usize, z: i32) -> (r: Block)
    requires
        y <= 100_000,
    ensures
        r == spec_procedural_block_at(x as int, y as int, z as int),
{
    proof {
        reveal(spec_procedural_block_at);
    }
    let biome = biome_at(x, z);
    let h: usize = terrain_height(x, z, biome);
    terrain_block_at(x, y, z, biome, h, SEA_LEVEL)
}

/// Generating the same column twice yields the same biome, the same height
/// and the same block at every cell: the generator is a pure function of the
/// world coordinates.
pub proof fn lemma_terrain_deterministic(x1: int, z1: int, x2: int, z2: int)
    requires
        x1 == x2,
        z1 == z2,
    ensures
        spec_biome_at(x1, z1) == spec_biome_at(x2, z2),
        spec_terrain_height(x1, z1, spec_biome_at(x1, z1)) == spec_terrain_height(
            x2,
            z2,
            spec_biome_at(x2, z2),
        ),
        forall|y: int| spec_procedural_block_at(x1, y, z1) == spec_procedural_block_at(x2, y, z2),
{
}

} // verus!
