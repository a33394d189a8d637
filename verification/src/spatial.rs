//! Spatial queries against the voxel volume: axis-aligned collision tests,
//! downward ground resolution, fixed-step ray marching, and the segment
//! geometry used to resolve projectile hits.

use vstd::prelude::*;

use crate::block::Block;
use crate::chunk::Chunk;
use crate::entity::Mob;
use crate::geom::cell_of;
use crate::geom::div_trunc_i128;
use crate::geom::floor_div;
use crate::geom::lemma_cell_of_in_i32;
use crate::geom::lemma_div_trunc_prod_bound;
use crate::geom::normalize;
use crate::geom::spec_abs;
use crate::geom::spec_cell_of;
use crate::geom::spec_clamp;
use crate::geom::spec_div_trunc;
use crate::geom::spec_normalize;
use crate::geom::Vec3;
use crate::geom::DIST_LIMIT;
use crate::geom::FIX_ONE;
use crate::geom::POS_LIMIT;
use crate::geom::RADIUS_LIMIT;

verus! {

/// The cell index at or above a fixed-point coordinate.
pub open spec fn spec_cell_ceil(p: int) -> int {
    (p + FIX_ONE - 1) / (FIX_ONE as int)
}

/// The cell index at or above a fixed-point coordinate, executable form.
pub fn cell_ceil(p: i64) -> (r: i64)
    requires
        -0x2000000000000000 <= p <= 0x2000000000000000,
    ensures
        r == spec_cell_ceil(p as int),
{
    floor_div(p + FIX_ONE - 1, FIX_ONE)
}

/// Some cell of the closed box holds a non-empty block.
pub open spec fn spec_solid_in_box(
    c: Chunk,
    x0: int,
    x1: int,
    y0: int,
    y1: int,
    z0: int,
    z1: int,
) -> bool {
    exists|bx: int, by: int, bz: int|
        #![trigger c.spec_get_world(bx, by, bz)]
        x0 <= bx <= x1 && y0 <= by <= y1 && z0 <= bz <= z1 && c.spec_get_world(bx, by, bz)
            != Block::Air
}

/// A body standing at `(x, y, z)` with the given horizontal radius and
/// vertical height overlaps some non-empty cell.
pub open spec fn spec_mob_collides(
    c: Chunk,
    x: int,
    y: int,
    z: int,
    radius: int,
    height: int,
) -> bool {
    spec_solid_in_box(
        c,
        spec_cell_of(x - radius),
        spec_cell_of(x + radius),
        spec_cell_of(y),
        spec_cell_ceil(y + height),
        spec_cell_of(z - radius),
        spec_cell_of(z + radius),
    )
}

/// Collision test for a vertical cylinder approximated as a box: true if any
/// voxel cell the body overlaps is non-empty. Used for mobs and, through the
/// embedding application, for the player.
pub fn mob_collides(chunk: &Chunk, x: i64, y: i64, z: i64, radius: i64, height: i64) -> (r: bool)
    requires
        chunk.wf(),
        -POS_LIMIT <= x <= POS_LIMIT,
        -POS_LIMIT <= y <= POS_LIMIT,
        -POS_LIMIT <= z <= POS_LIMIT,
        0 <= radius <= RADIUS_LIMIT,
        0 <= height <= RADIUS_LIMIT,
    ensures
        r == spec_mob_collides(*chunk, x as int, y as int, z as int, radius as int, height as int),
{
    let min_x: i64 = cell_of(x - radius);
    let max_x: i64 = cell_of(x + radius);
    let min_z: i64 = cell_of(z - radius);
    let max_z: i64 = cell_of(z + radius);
    let min_y: i64 = cell_of(y);
    let max_y: i64 = cell_ceil(y + height);
    proof {
        lemma_cell_of_in_i32(x as int - radius as int);
        lemma_cell_of_in_i32(x as int + radius as int);
        lemma_cell_of_in_i32(z as int - radius as int);
        lemma_cell_of_in_i32(z as int + radius as int);
        lemma_cell_of_in_i32(y as int);
        lemma_cell_of_in_i32(y as int + height + FIX_ONE - 1);
    }
    let mut bx: i64 = min_x;
    while bx <= max_x
        invariant
            chunk.wf(),
            min_x <= bx,
            min_x == spec_cell_of(x as int - radius),
            max_x == spec_cell_of(x as int + radius),
            min_y == spec_cell_of(y as int),
            max_y == spec_cell_ceil(y as int + height),
            min_z == spec_cell_of(z as int - radius),
            max_z == spec_cell_of(z as int + radius),
            -210000001 <= min_x && max_x <= 210000000,
            -210000001 <= min_y && max_y <= 210000001,
            -210000001 <= min_z && max_z <= 210000000,
            forall|i: int, j: int, k: int|
                #![trigger chunk.spec_get_world(i, j, k)]
                min_x <= i < bx && min_y <= j <= max_y && min_z <= k <= max_z
                    ==> chunk.spec_get_world(i, j, k) == Block::Air,
        decreases max_x + 1 - bx,
    {
        let mut by: i64 = min_y;
        while by <= max_y
            invariant
                chunk.wf(),
                min_x <= bx <= max_x,
                min_y <= by,
                min_x == spec_cell_of(x as int - radius),
                max_x == spec_cell_of(x as int + radius),
                min_y == spec_cell_of(y as int),
                max_y == spec_cell_ceil(y as int + height),
                min_z == spec_cell_of(z as int - radius),
                max_z == spec_cell_of(z as int + radius),
                -210000001 <= min_x && max_x <= 210000000,
                -210000001 <= min_y && max_y <= 210000001,
                -210000001 <= min_z && max_z <= 210000000,
                forall|i: int, j: int, k: int|
                    #![trigger chunk.spec_get_world(i, j, k)]
                    min_x <= i < bx && min_y <= j <= max_y && min_z <= k <= max_z
                        ==> chunk.spec_get_world(i, j, k) == Block::Air,
                forall|i: int, j: int, k: int|
                    #![trigger chunk.spec_get_world(i, j, k)]
                    i == bx && min_y <= j < by && min_z <= k <= max_z ==> chunk.spec_get_world(
                        i,
                        j,
                        k,
                    ) == Block::Air,
            decreases max_y + 1 - by,
        {
            let mut bz: i64 = min_z;
            while bz <= max_z
                invariant
                    chunk.wf(),
                    min_x <= bx <= max_x,
                    min_y <= by <= max_y,
                    min_z <= bz,
                    min_x == spec_cell_of(x as int - radius),
                    max_x == spec_cell_of(x as int + radius),
                    min_y == spec_cell_of(y as int),
                    max_y == spec_cell_ceil(y as int + height),
                    min_z == spec_cell_of(z as int - radius),
                    max_z == spec_cell_of(z as int + radius),
                    -210000001 <= min_x && max_x <= 210000000,
                    -210000001 <= min_y && max_y <= 210000001,
                    -210000001 <= min_z && max_z <= 210000000,
                    forall|i: int, j: int, k: int|
                        #![trigger chunk.spec_get_world(i, j, k)]
                        min_x <= i < bx && min_y <= j <= max_y && min_z <= k <= max_z
                            ==> chunk.spec_get_world(i, j, k) == Block::Air,
                    forall|i: int, j: int, k: int|
                        #![trigger chunk.spec_get_world(i, j, k)]
                        i == bx && min_y <= j < by && min_z <= k <= max_z
                            ==> chunk.spec_get_world(i, j, k) == Block::Air,
                    forall|i: int, j: int, k: int|
                        #![trigger chunk.spec_get_world(i, j, k)]
                        i == bx && j == by && min_z <= k < bz ==> chunk.spec_get_world(i, j, k)
                            == Block::Air,
                decreases max_z + 1 - bz,
            {
                if chunk.get_i32(bx as i32, by as i32, bz as i32) != Block::Air {
                    proof {
                        assert(chunk.spec_get_world(bx as int, by as int, bz as int)
                            != Block::Air);
                    }
                    return true;
                }
                bz = bz + 1;
            }
            by = by + 1;
        }
        bx = bx + 1;
    }
    proof {
        assert(!spec_mob_collides(
            *chunk,
            x as int,
            y as int,
            z as int,
            radius as int,
            height as int,
        ));
    }
    false
}

/// The highest solid cell's y at or below `y`, or -1 if the whole column
/// down to the bottom is empty.
pub open spec fn spec_first_solid_below(c: Chunk, xi: int, zi: int, y: int) -> int
    decreases y + 1,
{
    if y < 0 {
        -1
    } else if c.spec_get_world(xi, y, zi) != Block::Air {
        y
    } else {
        spec_first_solid_below(c, xi, zi, y - 1)
    }
}

/// Ground resolution: `None` outside the addressable extent; otherwise the
/// fixed-point height just above the first non-empty cell scanning downward
/// from `max_y`, or ground level zero for an entirely empty column.
///
/// This deliberately refuses columns outside the extent even when the
/// procedural read fallback is enabled: ground answers place and carry
/// entities, and virtual terrain that no write can reach must not.
pub open spec fn spec_highest_solid_below(c: Chunk, x: int, z: int, max_y: int) -> Option<int> {
    let xi = spec_cell_of(x);
    let zi = spec_cell_of(z);
    if xi < c.spec_origin_x() || xi >= c.spec_origin_x() + c.spec_width() || zi
        < c.spec_origin_z() || zi >= c.spec_origin_z() + c.spec_depth() {
        Option::None
    } else {
        let y0 = if spec_cell_of(max_y) <= c.spec_height() - 1 {
            spec_cell_of(max_y)
        } else {
            c.spec_height() - 1
        };
        Option::Some((spec_first_solid_below(c, xi, zi, y0) + 1) * FIX_ONE)
    }
}

/// Scan a column downward for the ground height, in fixed-point units.
#[verifier::rlimit(60)]
pub fn highest_solid_below_chunk(chunk: &Chunk, x: i64, z: i64, max_y: i64) -> (r: Option<i64>)
    requires
        chunk.wf(),
        -POS_LIMIT <= x <= POS_LIMIT,
        -POS_LIMIT <= z <= POS_LIMIT,
        -POS_LIMIT <= max_y <= POS_LIMIT,
    ensures
        match r {
            Option::Some(g) => spec_highest_solid_below(*chunk, x as int, z as int, max_y as int)
                == Option::Some(g as int),
            Option::None => spec_highest_solid_below(*chunk, x as int, z as int, max_y as int)
                is None,
        },
        r is Some ==> 0 <= r->Some_0 <= 41000000,
{
    let xi: i64 = cell_of(x);
    let zi: i64 = cell_of(z);
    proof {
        lemma_cell_of_in_i32(x as int);
        lemma_cell_of_in_i32(z as int);
        lemma_cell_of_in_i32(max_y as int);
    }
    let (ox, oz) = chunk.origin();
    let w: usize = chunk.width();
    let h: usize = chunk.height();
    let d: usize = chunk.depth();
    if xi < ox as i64 || xi >= ox as i64 + w as i64 || zi < oz as i64 || zi >= oz as i64
        + d as i64 {
        return Option::None;
    }
    let my: i64 = cell_of(max_y);
    let mut y: i64 = if my <= h as i64 - 1 {
        my
    } else {
        h as i64 - 1
    };
    let ghost y0 = y as int;
    while y >= 0
        invariant
            chunk.wf(),
            y <= y0,
            y0 <= chunk.spec_height() - 1,
            -210000002 <= y,
            xi == spec_cell_of(x as int),
            zi == spec_cell_of(z as int),
            -210000001 <= xi <= 210000000,
            -210000001 <= zi <= 210000000,
            chunk.spec_origin_x() <= xi && xi < chunk.spec_origin_x() + chunk.spec_width(),
            chunk.spec_origin_z() <= zi && zi < chunk.spec_origin_z() + chunk.spec_depth(),
            y0 == (if spec_cell_of(max_y as int) <= chunk.spec_height() - 1 {
                spec_cell_of(max_y as int)
            } else {
                chunk.spec_height() - 1
            }),
            spec_first_solid_below(*chunk, xi as int, zi as int, y0) == spec_first_solid_below(
                *chunk,
                xi as int,
                zi as int,
                y as int,
            ),
        decreases y + 1,
    {
        if chunk.get_i32(xi as i32, y as i32, zi as i32) != Block::Air {
            proof {
                assert(spec_first_solid_below(*chunk, xi as int, zi as int, y as int)
                    == y as int);
            }
            return Option::Some((y + 1) * FIX_ONE);
        }
        y = y - 1;
    }
    Option::Some(0)
}

/// The cell containing the marching point at parameter `t` along a
/// normalized direction from an origin.
pub open spec fn spec_ray_cell(origin: Vec3, nd: Vec3, t: int) -> (int, int, int) {
    let px = origin.x + spec_div_trunc(nd.x * t, FIX_ONE as int);
    let py = origin.y + spec_div_trunc(nd.y * t, FIX_ONE as int);
    let pz = origin.z + spec_div_trunc(nd.z * t, FIX_ONE as int);
    (spec_cell_of(px), spec_cell_of(py), spec_cell_of(pz))
}

/// Fixed-step ray march: the first non-empty cell met at parameters `t`,
/// `t + step`, ... up to the distance budget, or none.
pub open spec fn spec_march(
    c: Chunk,
    origin: Vec3,
    nd: Vec3,
    step: int,
    max_distance: int,
    t: int,
) -> Option<(int, int, int)>
    decreases max_distance + step - t,
    when step >= 1
{
    if t > max_distance {
        Option::None
    } else {
        let cell = spec_ray_cell(origin, nd, t);
        if c.spec_get_world(cell.0, cell.1, cell.2) != Block::Air {
            Option::Some(cell)
        } else {
            spec_march(c, origin, nd, step, max_distance, t + step)
        }
    }
}

/// What a raycast returns: nothing for a zero direction, else the march
/// along the normalized direction starting at the origin.
pub open spec fn spec_raycast(
    c: Chunk,
    origin: Vec3,
    direction: Vec3,
    step: int,
    max_distance: int,
) -> Option<(int, int, int)> {
    if direction.spec_is_zero() {
        Option::None
    } else {
        spec_march(c, origin, spec_normalize(direction), step, max_distance, 0)
    }
}

/// Advance a point along the normalized direction in fixed increments and
/// return the first non-empty cell, or none once the distance budget is
/// exhausted. A zero-length direction reports no hit without advancing.
#[verifier::rlimit(60)]
pub fn raycast(chunk: &Chunk, origin: Vec3, direction: Vec3, max_distance: i64, step: i64) -> (r:
    Option<(i32, i32, i32)>)
    requires
        chunk.wf(),
        origin.spec_in_pos_range(),
        direction.spec_in_pos_range(),
        1 <= step <= DIST_LIMIT,
        0 <= max_distance <= DIST_LIMIT,
    ensures
        match r {
            Option::Some(cell) => spec_raycast(
                *chunk,
                origin,
                direction,
                step as int,
                max_distance as int,
            ) == Option::Some((cell.0 as int, cell.1 as int, cell.2 as int)),
            Option::None => spec_raycast(
                *chunk,
                origin,
                direction,
                step as int,
                max_distance as int,
            ) is None,
        },
        direction.spec_is_zero() ==> r is None,
{
    let nd: Vec3 = match normalize(direction) {
        Option::None => { return Option::None },
        Option::Some(u) => u,
    };
    let mut t: i64 = 0;
    while t <= max_distance
        invariant
            chunk.wf(),
            origin.spec_in_pos_range(),
            0 <= t <= max_distance + step,
            1 <= step <= DIST_LIMIT,
            0 <= max_distance <= DIST_LIMIT,
            -FIX_ONE <= nd.x <= FIX_ONE,
            -FIX_ONE <= nd.y <= FIX_ONE,
            -FIX_ONE <= nd.z <= FIX_ONE,
            !direction.spec_is_zero(),
            nd == spec_normalize(direction),
            spec_march(*chunk, origin, nd, step as int, max_distance as int, 0) == spec_march(
                *chunk,
                origin,
                nd,
                step as int,
                max_distance as int,
                t as int,
            ),
        decreases max_distance + step - t,
    {
        proof {
            lemma_div_trunc_prod_bound(nd.x as int, t as int, FIX_ONE as int);
            lemma_div_trunc_prod_bound(nd.y as int, t as int, FIX_ONE as int);
            lemma_div_trunc_prod_bound(nd.z as int, t as int, FIX_ONE as int);
        }
        let off_x: i64 = div_trunc_i128((nd.x as i128) * (t as i128), FIX_ONE as i128) as i64;
        let off_y: i64 = div_trunc_i128((nd.y as i128) * (t as i128), FIX_ONE as i128) as i64;
        let off_z: i64 = div_trunc_i128((nd.z as i128) * (t as i128), FIX_ONE as i128) as i64;
        let px: i64 = origin.x + off_x;
        let py: i64 = origin.y + off_y;
        let pz: i64 = origin.z + off_z;
        let cx: i64 = cell_of(px);
        let cy: i64 = cell_of(py);
        let cz: i64 = cell_of(pz);
        proof {
            lemma_cell_of_in_i32(px as int);
            lemma_cell_of_in_i32(py as int);
            lemma_cell_of_in_i32(pz as int);
        }
        if chunk.get_i32(cx as i32, cy as i32, cz as i32) != Block::Air {
            proof {
                assert(spec_ray_cell(origin, nd, t as int) == (cx as int, cy as int, cz as int));
                assert(spec_march(*chunk, origin, nd, step as int, max_distance as int, t as int)
                    == Option::Some(spec_ray_cell(origin, nd, t as int)));
            }
            return Option::Some((cx as i32, cy as i32, cz as i32));
        }
        t = t + step;
    }
    Option::None
}

/// Whether the horizontal segment from `start` to `end` passes within the
/// mob's radius while overlapping its vertical span: closest point on the
/// segment in the x/z plane against the mob centre, with truncating
/// fixed-point division.
pub open spec fn spec_bullet_hits_mob(start: Vec3, end: Vec3, mob: Mob) -> bool {
    let seg_dx = end.x - start.x;
    let seg_dz = end.z - start.z;
    let seg_len_sq = seg_dx * seg_dx + seg_dz * seg_dz;
    let dot = (mob.position.x - start.x) * seg_dx + (mob.position.z - start.z) * seg_dz;
    let t_raw = if seg_len_sq > 10000 {
        spec_div_trunc(dot * FIX_ONE, seg_len_sq)
    } else {
        0
    };
    let t = spec_clamp(t_raw, 0, FIX_ONE as int);
    let cx = start.x + spec_div_trunc(seg_dx * t, FIX_ONE as int);
    let cz = start.z + spec_div_trunc(seg_dz * t, FIX_ONE as int);
    let dx = cx - mob.position.x;
    let dz = cz - mob.position.z;
    let in_radius = dx * dx + dz * dz <= mob.radius * mob.radius;
    let seg_min_y = if start.y <= end.y {
        start.y
    } else {
        end.y
    };
    let seg_max_y = if start.y >= end.y {
        start.y
    } else {
        end.y
    };
    let in_height = seg_max_y >= mob.position.y && seg_min_y <= mob.position.y + mob.height;
    in_radius && in_height
}

/// Segment-versus-mob intersection test for one bullet step.
pub fn bullet_hits_mob(start: Vec3, end: Vec3, mob: &Mob) -> (r: bool)
    requires
        start.spec_in_pos_range(),
        end.spec_in_pos_range(),
        mob.wf(),
        spec_abs(end.x - start.x) <= 2000000,
        spec_abs(end.z - start.z) <= 2000000,
    ensures
        r == spec_bullet_hits_mob(start, end, *mob),
{
    let seg_dx: i128 = (end.x as i128) - (start.x as i128);
    let seg_dz: i128 = (end.z as i128) - (start.z as i128);
    proof {
        assert(seg_dx * seg_dx >= 0 && seg_dz * seg_dz >= 0 && seg_dx * seg_dx
            <= 4000000000000 && seg_dz * seg_dz <= 4000000000000) by (nonlinear_arith)
            requires
                -2000000 <= seg_dx <= 2000000,
                -2000000 <= seg_dz <= 2000000,
        ;
    }
    let seg_len_sq: i128 = seg_dx * seg_dx + seg_dz * seg_dz;
    let mdx: i128 = (mob.position.x as i128) - (start.x as i128);
    let mdz: i128 = (mob.position.z as i128) - (start.z as i128);
    proof {
        assert(
            -8000000000000000000 <= mdx * seg_dx <= 8000000000000000000
                && -8000000000000000000 <= mdz * seg_dz <= 8000000000000000000)
            by (nonlinear_arith)
            requires
                -2000000000000 <= mdx <= 2000000000000,
                -2000000000000 <= mdz <= 2000000000000,
                -2000000 <= seg_dx <= 2000000,
                -2000000 <= seg_dz <= 2000000,
        ;
    }
    let dot: i128 = mdx * seg_dx + mdz * seg_dz;
    let t_raw: i128 = if seg_len_sq > 10000 {
        div_trunc_i128(dot * 10000, seg_len_sq)
    } else {
        0
    };
    let t: i128 = if t_raw < 0 {
        0
    } else if t_raw > FIX_ONE as i128 {
        FIX_ONE as i128
    } else {
        t_raw
    };
    proof {
        assert(t as int == spec_clamp(
            if seg_len_sq > 10000 {
                spec_div_trunc((dot as int) * 10000, seg_len_sq as int)
            } else {
                0
            },
            0,
            FIX_ONE as int,
        ));
        assert(seg_dx * t <= 20000000000 && seg_dx * t >= -20000000000 && seg_dz * t
            <= 20000000000 && seg_dz * t >= -20000000000) by (nonlinear_arith)
            requires
                -2000000 <= seg_dx <= 2000000,
                -2000000 <= seg_dz <= 2000000,
                0 <= t <= 10000,
        ;
    }
    let off_x: i128 = div_trunc_i128(seg_dx * t, 10000);
    let off_z: i128 = div_trunc_i128(seg_dz * t, 10000);
    let cx: i128 = (start.x as i128) + off_x;
    let cz: i128 = (start.z as i128) + off_z;
    let dx: i128 = cx - (mob.position.x as i128);
    let dz: i128 = cz - (mob.position.z as i128);
    proof {
        assert(dx * dx >= 0 && dz * dz >= 0 && dx * dx <= 0x10000000000000000000000000000
            && dz * dz <= 0x10000000000000000000000000000 && (mob.radius as i128) * (
        mob.radius as i128) <= 4000000000000) by (nonlinear_arith)
            requires
                -4100000000000 <= dx <= 4100000000000,
                -4100000000000 <= dz <= 4100000000000,
                0 <= mob.radius <= 2000000,
        ;
    }
    let in_radius: bool = dx * dx + dz * dz <= (mob.radius as i128) * (mob.radius as i128);
    let seg_min_y: i64 = if start.y <= end.y {
        start.y
    } else {
        end.y
    };
    let seg_max_y: i64 = if start.y >= end.y {
        start.y
    } else {
        end.y
    };
    let in_height: bool = seg_max_y >= mob.position.y && seg_min_y <= mob.position.y + mob.height;
    in_radius && in_height
}

/// Two standing bodies overlap in the horizontal plane: centre distance
/// (squared) below the sum of their radii (squared).
pub open spec fn spec_mob_overlap(x: int, z: int, radius: int, other: Mob) -> bool {
    let dx = x - other.position.x;
    let dz = z - other.position.z;
    let min_dist = radius + other.radius;
    dx * dx + dz * dz < min_dist * min_dist
}

/// Some mob other than the one at `skip` overlaps a body at `(x, z)` with
/// the given radius.
pub open spec fn spec_overlaps_any(x: int, z: int, radius: int, mobs: Seq<Mob>, skip: int) -> bool {
    exists|j: int|
        #![trigger mobs[j]]
        0 <= j < mobs.len() && j != skip && spec_mob_overlap(x, z, radius, mobs[j])
}

/// Footprint exclusion test: whether moving a mob to `(x, z)` would overlap
/// any other mob's footprint.
pub fn mob_collides_with_others(x: i64, z: i64, radius: i64, mobs: &Vec<Mob>, skip: usize) -> (r:
    bool)
    requires
        -POS_LIMIT <= x <= POS_LIMIT,
        -POS_LIMIT <= z <= POS_LIMIT,
        0 <= radius <= RADIUS_LIMIT,
        forall|j: int| 0 <= j < mobs@.len() ==> (#[trigger] mobs@[j]).wf(),
    ensures
        r == spec_overlaps_any(x as int, z as int, radius as int, mobs@, skip as int),
{
    let n: usize = mobs.len();
    let mut j: usize = 0;
    while j < n
        invariant
            n == mobs@.len(),
            j <= n,
            -POS_LIMIT <= x <= POS_LIMIT,
            -POS_LIMIT <= z <= POS_LIMIT,
            0 <= radius <= RADIUS_LIMIT,
            forall|i: int| 0 <= i < mobs@.len() ==> (#[trigger] mobs@[i]).wf(),
            forall|i: int|
                #![trigger mobs@[i]]
                0 <= i < j && i != skip as int ==> !spec_mob_overlap(
                    x as int,
                    z as int,
                    radius as int,
                    mobs@[i],
                ),
        decreases n - j,
    {
        if j != skip {
            let other = mobs[j];
            let dx: i128 = (x as i128) - (other.position.x as i128);
            let dz: i128 = (z as i128) - (other.position.z as i128);
            let min_dist: i128 = (radius + other.radius) as i128;
            proof {
                assert(dx * dx >= 0 && dz * dz >= 0 && dx * dx
                    <= 0x10000000000000000000000000000 && dz * dz
                    <= 0x10000000000000000000000000000 && min_dist * min_dist
                    <= 16000000000000) by (nonlinear_arith)
                    requires
                        -2000000000001 <= dx <= 2000000000001,
                        -2000000000001 <= dz <= 2000000000001,
                        0 <= min_dist <= 4000000,
                ;
            }
            if dx * dx + dz * dz < min_dist * min_dist {
                proof {
                    assert(spec_mob_overlap(x as int, z as int, radius as int, mobs@[j as int]));
                }
                return true;
            }
        }
        j = j + 1;
    }
    false
}

} // verus!
