//! The world aggregate: one voxel volume plus the four entity collections,
//! with the per-tick update rules and the block-interaction intents the
//! embedding application forwards once per frame.

use vstd::prelude::*;

use crate::block::Block;
use crate::chunk::Chunk;
use crate::entity::Bullet;
use crate::entity::Explosive;
use crate::entity::Mob;
use crate::entity::Particle;
use crate::geom::clamp_i64;
use crate::geom::div_trunc_i128;
use crate::geom::normalize;
use crate::geom::spec_cell_of;
use crate::geom::spec_clamp;
use crate::geom::spec_div_trunc;
use crate::geom::spec_normalize;
use crate::geom::Vec3;
use crate::geom::FIX_ONE;
use crate::geom::POS_LIMIT;
use crate::geom::FIX_HALF;
use crate::geom::RADIUS_LIMIT;
use crate::geom::VEL_LIMIT;
use crate::spatial::highest_solid_below_chunk;
use crate::spatial::spec_highest_solid_below;

verus! {

/// Largest mob population.
pub const MAX_MOBS: usize = 20;

/// Health a freshly spawned mob starts with.
pub const MOB_HEALTH: i64 = 100;

/// Horizontal radius of a mob's footprint, fixed-point.
pub const MOB_RADIUS: i64 = 4000;

/// Vertical extent of a mob's body, fixed-point.
pub const MOB_HEIGHT: i64 = 18000;

/// Damage one bullet deals on a mob hit.
pub const BULLET_DAMAGE: i64 = 34;

/// Per-tick speed of a bullet, fixed-point.
pub const BULLET_SPEED: i64 = 2000;

/// How far ahead of the origin a bullet spawns, fixed-point.
pub const BULLET_OFFSET: i64 = 5000;

/// Travel budget of a bullet, fixed-point.
pub const BULLET_RANGE: i64 = 1000000;

/// Downward acceleration applied to a bullet each tick.
pub const BULLET_GRAVITY: i64 = 20;

/// Per-tick speed of a thrown explosive, fixed-point.
pub const EXPLOSIVE_SPEED: i64 = 3400;

/// Upward boost given to a thrown explosive, fixed-point.
pub const EXPLOSIVE_LIFT: i64 = 1400;

/// How far ahead of the origin an explosive spawns, fixed-point.
pub const EXPLOSIVE_OFFSET: i64 = 8000;

/// Ticks before an explosive detonates on its own.
pub const EXPLOSIVE_TIMER: i64 = 120;

/// Blast radius of an explosive, fixed-point.
pub const EXPLOSIVE_RADIUS: i64 = 300000;

/// Downward acceleration applied to an explosive each tick.
pub const EXPLOSIVE_GRAVITY: i64 = 40;

/// Downward acceleration applied to a particle each tick.
pub const PARTICLE_GRAVITY: i64 = 15;

/// Downward acceleration applied to a mob each tick.
pub const MOB_GRAVITY: i64 = 30;

/// Vertical impulse of a mob jump, fixed-point.
pub const MOB_JUMP_VELOCITY: i64 = 600;

/// Ticks between mob jumps.
pub const MOB_JUMP_COOLDOWN: i64 = 20;

/// Damage a mob deals to the player per attack.
pub const MOB_ATTACK_DAMAGE: i64 = 8;

/// Ticks between mob attacks.
pub const MOB_ATTACK_COOLDOWN: i64 = 45;

/// Per-tick mob speed when far from the player, fixed-point.
pub const MOB_SPEED_FAR: i64 = 400;

/// Per-tick mob speed when near the player, fixed-point.
pub const MOB_SPEED_NEAR: i64 = 200;

/// Ticks between periodic mob spawn attempts.
pub const SPAWN_INTERVAL: i64 = 120;

/// Step length of the block-interaction rays, fixed-point.
pub const RAY_STEP: i64 = 500;

/// One tick of particle motion: light gravity on the vertical velocity,
/// then integration, then one unit of life spent. Coordinates saturate at
/// the world's numeric range.
pub open spec fn spec_advance_particle(p: Particle) -> Particle {
    let vy = spec_clamp(p.velocity.y - PARTICLE_GRAVITY, -VEL_LIMIT as int, VEL_LIMIT as int);
    Particle {
        position: Vec3 {
            x: spec_clamp(
                p.position.x + p.velocity.x,
                -POS_LIMIT as int,
                POS_LIMIT as int,
            ) as i64,
            y: spec_clamp(p.position.y + vy, -POS_LIMIT as int, POS_LIMIT as int) as i64,
            z: spec_clamp(
                p.position.z + p.velocity.z,
                -POS_LIMIT as int,
                POS_LIMIT as int,
            ) as i64,
        },
        velocity: Vec3 { x: p.velocity.x, y: vy as i64, z: p.velocity.z },
        life: (p.life - 1) as i64,
        color: p.color,
        size: p.size,
    }
}

/// One tick of explosive motion: stronger gravity, integration, and one
/// tick off the countdown.
pub open spec fn spec_advance_explosive(e: Explosive) -> Explosive {
    let vy = spec_clamp(e.velocity.y - EXPLOSIVE_GRAVITY, -VEL_LIMIT as int, VEL_LIMIT as int);
    Explosive {
        position: Vec3 {
            x: spec_clamp(
                e.position.x + e.velocity.x,
                -POS_LIMIT as int,
                POS_LIMIT as int,
            ) as i64,
            y: spec_clamp(e.position.y + vy, -POS_LIMIT as int, POS_LIMIT as int) as i64,
            z: spec_clamp(
                e.position.z + e.velocity.z,
                -POS_LIMIT as int,
                POS_LIMIT as int,
            ) as i64,
        },
        velocity: Vec3 { x: e.velocity.x, y: vy as i64, z: e.velocity.z },
        timer: (e.timer - 1) as i64,
        radius: e.radius,
    }
}

/// Whether the centre of world cell `(bx, by, bz)` lies within `radius` of
/// `center`: the boundary itself is included.
pub open spec fn spec_in_blast(center: Vec3, radius: int, bx: int, by: int, bz: int) -> bool {
    let dx = bx * FIX_ONE + FIX_HALF - center.x;
    let dy = by * FIX_ONE + FIX_HALF - center.y;
    let dz = bz * FIX_ONE + FIX_HALF - center.z;
    dx * dx + dy * dy + dz * dz <= radius * radius
}

/// One tick of bullet motion: gravity on the vertical velocity, integration,
/// and the step length added to the travelled distance.
pub open spec fn spec_advance_bullet(b: Bullet) -> Bullet {
    let vy = spec_clamp(b.velocity.y - BULLET_GRAVITY, -VEL_LIMIT as int, VEL_LIMIT as int);
    let v = Vec3 { x: b.velocity.x, y: vy as i64, z: b.velocity.z };
    Bullet {
        position: Vec3 {
            x: spec_clamp(b.position.x + v.x, -POS_LIMIT as int, POS_LIMIT as int) as i64,
            y: spec_clamp(b.position.y + v.y, -POS_LIMIT as int, POS_LIMIT as int) as i64,
            z: spec_clamp(b.position.z + v.z, -POS_LIMIT as int, POS_LIMIT as int) as i64,
        },
        velocity: v,
        damage: b.damage,
        max_distance: b.max_distance,
        traveled: (b.traveled + crate::geom::spec_len(v)) as i64,
    }
}

/// Whether a point lies in a non-empty cell of the addressable extent.
pub open spec fn spec_bullet_hit_block(c: Chunk, p: Vec3) -> bool {
    let bx = spec_cell_of(p.x as int);
    let by = spec_cell_of(p.y as int);
    let bz = spec_cell_of(p.z as int);
    &&& c.spec_origin_x() <= bx < c.spec_origin_x() + c.spec_width()
    &&& 0 <= by < c.spec_height()
    &&& c.spec_origin_z() <= bz < c.spec_origin_z() + c.spec_depth()
    &&& c.spec_get_world(bx, by, bz) != Block::Air
}

/// The first mob (by index) the segment from `s` to `e` hits, if any.
pub open spec fn spec_first_hit_mob(mobs: Seq<Mob>, s: Vec3, e: Vec3) -> Option<int>
    decreases mobs.len(),
{
    if mobs.len() == 0 {
        Option::None
    } else if crate::spatial::spec_bullet_hits_mob(s, e, mobs[0]) {
        Option::Some(0)
    } else {
        match spec_first_hit_mob(mobs.drop_first(), s, e) {
            Option::Some(j) => Option::Some(j + 1),
            Option::None => Option::None,
        }
    }
}

/// `spec_first_hit_mob` returns exactly the least index whose mob the
/// segment hits, or nothing when it hits none.
pub proof fn lemma_first_hit_mob(mobs: Seq<Mob>, s: Vec3, e: Vec3)
    ensures
        match spec_first_hit_mob(mobs, s, e) {
            Option::Some(j) => 0 <= j < mobs.len() && crate::spatial::spec_bullet_hits_mob(
                s,
                e,
                mobs[j],
            ) && (forall|i: int|
                0 <= i < j ==> !crate::spatial::spec_bullet_hits_mob(s, e, #[trigger] mobs[i])),
            Option::None => forall|i: int|
                0 <= i < mobs.len() ==> !crate::spatial::spec_bullet_hits_mob(
                    s,
                    e,
                    #[trigger] mobs[i],
                ),
        },
    decreases mobs.len(),
{
    if mobs.len() > 0 {
        if !crate::spatial::spec_bullet_hits_mob(s, e, mobs[0]) {
            let rest = mobs.drop_first();
            lemma_first_hit_mob(rest, s, e);
            match spec_first_hit_mob(rest, s, e) {
                Option::Some(j) => {
                    assert(spec_first_hit_mob(mobs, s, e) == Option::Some(j + 1));
                    assert(rest[j] == mobs[j + 1]);
                    assert forall|i: int|
                        0 <= i < j + 1 implies !crate::spatial::spec_bullet_hits_mob(
                        s,
                        e,
                        #[trigger] mobs[i],
                    ) by {
                        if i >= 1 {
                            assert(rest[i - 1] == mobs[i]);
                        }
                    }
                },
                Option::None => {
                    assert forall|i: int|
                        0 <= i < mobs.len() implies !crate::spatial::spec_bullet_hits_mob(
                        s,
                        e,
                        #[trigger] mobs[i],
                    ) by {
                        if i >= 1 {
                            assert(rest[i - 1] == mobs[i]);
                        }
                    }
                },
            }
        }
    }
}

/// The mob after taking a hit; health saturates at the numeric bound.
pub open spec fn spec_damaged(m: Mob, damage: int) -> Mob {
    Mob {
        health: spec_clamp(m.health - damage, -1000000000, 1000000000) as i64,
        ..m
    }
}

/// Whether a cell lies in the addressable extent.
pub open spec fn spec_cell_in_extent(c: Chunk, bx: int, by: int, bz: int) -> bool {
    &&& c.spec_origin_x() <= bx < c.spec_origin_x() + c.spec_width()
    &&& 0 <= by < c.spec_height()
    &&& c.spec_origin_z() <= bz < c.spec_origin_z() + c.spec_depth()
}

/// Whether a cell lies in the addressable extent and holds a non-empty block.
pub open spec fn spec_cell_solid_in_extent(c: Chunk, bx: int, by: int, bz: int) -> bool {
    spec_cell_in_extent(c, bx, by, bz) && c.spec_get_world(bx, by, bz) != Block::Air
}

/// The first in-extent non-empty cell met by the fixed-step march, or none
/// within the distance budget: the target of a block-breaking ray.
pub open spec fn spec_break_march(
    c: Chunk,
    origin: Vec3,
    nd: Vec3,
    step: int,
    max_distance: int,
    t: int,
) -> Option<(int, int, int)>
    decreases max_distance + step - t,
    when step >= 1
{
    if t > max_distance {
        Option::None
    } else {
        let cell = crate::spatial::spec_ray_cell(origin, nd, t);
        if spec_cell_solid_in_extent(c, cell.0, cell.1, cell.2) {
            Option::Some(cell)
        } else {
            spec_break_march(c, origin, nd, step, max_distance, t + step)
        }
    }
}

/// The last empty in-extent cell passed before the first in-extent solid
/// cell along the march: the target of a block-placing ray, or none when no
/// empty cell precedes the first solid cell or nothing solid is met.
pub open spec fn spec_place_march(
    c: Chunk,
    origin: Vec3,
    nd: Vec3,
    step: int,
    max_distance: int,
    t: int,
    last_air: Option<(int, int, int)>,
) -> Option<(int, int, int)>
    decreases max_distance + step - t,
    when step >= 1
{
    if t > max_distance {
        Option::None
    } else {
        let cell = crate::spatial::spec_ray_cell(origin, nd, t);
        if !spec_cell_in_extent(c, cell.0, cell.1, cell.2) {
            spec_place_march(c, origin, nd, step, max_distance, t + step, last_air)
        } else if c.spec_get_world(cell.0, cell.1, cell.2) == Block::Air {
            spec_place_march(c, origin, nd, step, max_distance, t + step, Option::Some(cell))
        } else {
            last_air
        }
    }
}

/// What one spawn attempt at a column appends: nothing at the population
/// cap, and nothing without solid ground strictly below within the vertical
/// extent (an entirely empty column resolves to ground level zero and is
/// refused); otherwise one fresh mob two blocks above the ground.
pub open spec fn spec_spawn_push(c: Chunk, mobs: Seq<Mob>, x: int, z: int) -> Seq<Mob> {
    let ground = spec_highest_solid_below(c, x, z, (c.spec_height() - 1) * (FIX_ONE as int));
    if mobs.len() >= MAX_MOBS as int || !(ground is Some) || ground->Some_0 <= 0 {
        mobs
    } else {
        mobs.push(
            Mob {
                position: Vec3 { x: x as i64, y: (ground->Some_0 + 2 * FIX_ONE) as i64, z: z as i64 },
                health: MOB_HEALTH,
                radius: MOB_RADIUS,
                height: MOB_HEIGHT,
                velocity_y: 0,
                grounded: false,
                jump_cooldown: 0,
                attack_cooldown: 0,
            },
        )
    }
}

/// The fixed candidate offsets of the periodic spawn, in the order tried.
pub open spec fn spec_spawn_offset(k: int) -> (int, int) {
    if k == 0 {
        (220000, 0)
    } else if k == 1 {
        (-220000, 0)
    } else if k == 2 {
        (0, 220000)
    } else if k == 3 {
        (0, -220000)
    } else {
        (160000, 160000)
    }
}

/// The window candidate positions are clamped into: two and a half blocks
/// inside the addressable extent, capped at the coordinate range. Returned
/// as (low x, high x, low z, high z).
pub open spec fn spec_spawn_window(c: Chunk) -> (int, int, int, int) {
    let lo_x = c.spec_origin_x() * FIX_ONE + 25000;
    let hi_x = (c.spec_origin_x() + c.spec_width()) * FIX_ONE - 25000;
    let lo_z = c.spec_origin_z() * FIX_ONE + 25000;
    let hi_z = (c.spec_origin_z() + c.spec_depth()) * FIX_ONE - 25000;
    (
        if lo_x < -POS_LIMIT as int {
            -POS_LIMIT as int
        } else {
            lo_x
        },
        if hi_x > POS_LIMIT as int {
            POS_LIMIT as int
        } else {
            hi_x
        },
        if lo_z < -POS_LIMIT as int {
            -POS_LIMIT as int
        } else {
            lo_z
        },
        if hi_z > POS_LIMIT as int {
            POS_LIMIT as int
        } else {
            hi_z
        },
    )
}

/// The k-th candidate position: the player offset clamped into the window.
pub open spec fn spec_spawn_candidate(c: Chunk, player: Vec3, k: int) -> (int, int) {
    let w = spec_spawn_window(c);
    let o = spec_spawn_offset(k);
    (spec_clamp(player.x + o.0, w.0, w.1), spec_clamp(player.z + o.1, w.2, w.3))
}

/// Try the candidates from `k` on, in order, and spawn on the first one
/// with solid ground; later candidates are not tried.
pub open spec fn spec_try_spawn_from(c: Chunk, mobs: Seq<Mob>, player: Vec3, k: int) -> Seq<Mob>
    decreases 5 - k,
{
    if k >= 5 {
        mobs
    } else {
        let cand = spec_spawn_candidate(c, player, k);
        let ground = spec_highest_solid_below(
            c,
            cand.0,
            cand.1,
            (c.spec_height() - 1) * (FIX_ONE as int),
        );
        if ground is Some && ground->Some_0 > 0 {
            spec_spawn_push(c, mobs, cand.0, cand.1)
        } else {
            spec_try_spawn_from(c, mobs, player, k + 1)
        }
    }
}

/// The whole periodic spawn attempt: nothing at the population cap or when
/// the window is degenerate, else the first-candidate rule above.
pub open spec fn spec_spawn_attempt(c: Chunk, mobs: Seq<Mob>, player: Vec3) -> Seq<Mob> {
    let w = spec_spawn_window(c);
    if mobs.len() >= MAX_MOBS as int || w.1 < w.0 || w.3 < w.2 {
        mobs
    } else {
        spec_try_spawn_from(c, mobs, player, 0)
    }
}

/// One mob's tick, given the volume, the mob list as it stands when this
/// mob is processed (earlier indices already moved), and the player: chase
/// movement along x then z, each step gated by the terrain and footprint
/// tests; a jump impulse when both axes are blocked while grounded off
/// cooldown; gravity with ground snapping; cooldown decrements; and the
/// melee attack. Returns the updated mob, the damage dealt to the player
/// (zero or `MOB_ATTACK_DAMAGE`), and whether the mob moved or jumped.
pub open spec fn spec_mob_step(c: Chunk, mobs: Seq<Mob>, i: int, player: Vec3) -> (Mob, int, bool) {
    let m0 = mobs[i];
    let dx = player.x - m0.position.x;
    let dz = player.z - m0.position.z;
    let d2 = dx * dx + dz * dz;
    let chase = if d2 > 10000 {
        let speed: int = if d2 > 196000000 {
            MOB_SPEED_FAR as int
        } else {
            MOB_SPEED_NEAR as int
        };
        let dist = crate::geom::spec_sqrt_floor(d2 as nat) as int;
        let move_x = spec_div_trunc(dx * speed, dist);
        let move_z = spec_div_trunc(dz * speed, dist);
        let px = spec_clamp(m0.position.x + move_x, -POS_LIMIT as int, POS_LIMIT as int);
        let can_x = !crate::spatial::spec_mob_collides(
            c,
            px,
            m0.position.y as int,
            m0.position.z as int,
            m0.radius as int,
            m0.height as int,
        ) && !crate::spatial::spec_overlaps_any(px, m0.position.z as int, m0.radius as int, mobs, i);
        let m1 = if can_x {
            Mob { position: Vec3 { x: px as i64, ..m0.position }, ..m0 }
        } else {
            m0
        };
        let pz = spec_clamp(m1.position.z + move_z, -POS_LIMIT as int, POS_LIMIT as int);
        let can_z = !crate::spatial::spec_mob_collides(
            c,
            m1.position.x as int,
            m1.position.y as int,
            pz,
            m1.radius as int,
            m1.height as int,
        ) && !crate::spatial::spec_overlaps_any(
            m1.position.x as int,
            pz,
            m1.radius as int,
            mobs,
            i,
        );
        let m2 = if can_z {
            Mob { position: Vec3 { z: pz as i64, ..m1.position }, ..m1 }
        } else {
            m1
        };
        let jumps = m2.grounded && !can_x && !can_z && m2.jump_cooldown <= 0;
        let m3 = if jumps {
            Mob {
                velocity_y: MOB_JUMP_VELOCITY,
                grounded: false,
                jump_cooldown: MOB_JUMP_COOLDOWN,
                ..m2
            }
        } else {
            m2
        };
        (m3, can_x || can_z || jumps)
    } else {
        (m0, false)
    };
    let ma = chase.0;
    let moved = chase.1;
    let vy = spec_clamp(ma.velocity_y - MOB_GRAVITY, -VEL_LIMIT as int, VEL_LIMIT as int);
    let mb = Mob { velocity_y: vy as i64, ..ma };
    let py = spec_clamp(mb.position.y + vy, -POS_LIMIT as int, POS_LIMIT as int);
    let mc = if !crate::spatial::spec_mob_collides(
        c,
        mb.position.x as int,
        py,
        mb.position.z as int,
        mb.radius as int,
        mb.height as int,
    ) {
        Mob { position: Vec3 { y: py as i64, ..mb.position }, grounded: false, ..mb }
    } else {
        let mba = if vy < 0 {
            let probe: int = if mb.position.y <= POS_LIMIT - FIX_HALF {
                mb.position.y + FIX_HALF
            } else {
                POS_LIMIT as int
            };
            let mbb = match spec_highest_solid_below(
                c,
                mb.position.x as int,
                mb.position.z as int,
                probe,
            ) {
                Option::Some(g) => Mob { position: Vec3 { y: g as i64, ..mb.position }, ..mb },
                Option::None => mb,
            };
            Mob { grounded: true, ..mbb }
        } else {
            mb
        };
        Mob { velocity_y: 0, ..mba }
    };
    let md = Mob {
        jump_cooldown: if mc.jump_cooldown > 0 {
            (mc.jump_cooldown - 1) as i64
        } else {
            mc.jump_cooldown
        },
        ..mc
    };
    let me = Mob {
        attack_cooldown: if md.attack_cooldown > 0 {
            (md.attack_cooldown - 1) as i64
        } else {
            md.attack_cooldown
        },
        ..md
    };
    let adx = player.x - me.position.x;
    let adz = player.z - me.position.z;
    let d2h = adx * adx + adz * adz;
    let dy = player.y - me.position.y;
    let touch = me.radius + 3500;
    let attacks = d2h <= touch * touch && crate::geom::spec_abs(dy) <= me.height
        && me.attack_cooldown <= 0;
    if attacks {
        (Mob { attack_cooldown: MOB_ATTACK_COOLDOWN, ..me }, MOB_ATTACK_DAMAGE as int, moved)
    } else {
        (me, 0, moved)
    }
}

/// The first `i` mobs processed in index order: the mob list after their
/// steps, the accumulated player damage, and whether any of them moved.
pub open spec fn spec_mobs_tick(c: Chunk, mobs: Seq<Mob>, player: Vec3, i: int) -> (
    Seq<Mob>,
    int,
    bool,
)
    decreases i,
{
    if i <= 0 {
        (mobs, 0, false)
    } else {
        let prev = spec_mobs_tick(c, mobs, player, i - 1);
        let step = spec_mob_step(c, prev.0, i - 1, player);
        (prev.0.update(i - 1, step.0), prev.1 + step.1, prev.2 || step.2)
    }
}

/// The first `i` bullets processed in index order: the surviving advanced
/// bullets, the mob list with each hit's damage applied, the number of mob
/// hits, and the number of hits that left the mob at or below zero health.
pub open spec fn spec_bullets_tick(c: Chunk, bullets: Seq<Bullet>, mobs: Seq<Mob>, i: int) -> (
    Seq<Bullet>,
    Seq<Mob>,
    int,
    int,
)
    decreases i,
{
    if i <= 0 {
        (Seq::<Bullet>::empty(), mobs, 0, 0)
    } else {
        let prev = spec_bullets_tick(c, bullets, mobs, i - 1);
        let b = bullets[i - 1];
        let adv = spec_advance_bullet(b);
        if spec_bullet_hit_block(c, adv.position) {
            prev
        } else {
            match spec_first_hit_mob(prev.1, b.position, adv.position) {
                Option::Some(j) => {
                    let dm = spec_damaged(prev.1[j], b.damage as int);
                    (
                        prev.0,
                        prev.1.update(j, dm),
                        prev.2 + 1,
                        prev.3 + (if dm.health <= 0 {
                            1int
                        } else {
                            0int
                        }),
                    )
                },
                Option::None => if adv.traveled < b.max_distance {
                    (prev.0.push(adv), prev.1, prev.2, prev.3)
                } else {
                    prev
                },
            }
        }
    }
}

/// The explosives that survive their tick: each advanced one tick, kept
/// when it neither touches a non-empty cell (judged against the volume as
/// the tick began) nor ran out its countdown.
pub open spec fn spec_explosives_kept(c: Chunk, es: Seq<Explosive>, i: int) -> Seq<Explosive>
    decreases i,
{
    if i <= 0 {
        Seq::<Explosive>::empty()
    } else {
        let prev = spec_explosives_kept(c, es, i - 1);
        let adv = spec_advance_explosive(es[i - 1]);
        if spec_bullet_hit_block(c, adv.position) || adv.timer <= 0 {
            prev
        } else {
            prev.push(adv)
        }
    }
}

/// The detonations of one explosive tick: the advanced position and blast
/// radius of every explosive that touched a block or ran out its countdown,
/// in index order.
pub open spec fn spec_detonations(c: Chunk, es: Seq<Explosive>, i: int) -> Seq<(Vec3, i64)>
    decreases i,
{
    if i <= 0 {
        Seq::<(Vec3, i64)>::empty()
    } else {
        let prev = spec_detonations(c, es, i - 1);
        let adv = spec_advance_explosive(es[i - 1]);
        if spec_bullet_hit_block(c, adv.position) || adv.timer <= 0 {
            prev.push((adv.position, adv.radius))
        } else {
            prev
        }
    }
}

/// The cells already visited by the blast scan: full rows below `wx`, full
/// columns of the current row below `wy`, and the current column below `wz`,
/// all within the scanned box. `bounds` is (min_x, min_y, min_z, max_y, max_z).
pub open spec fn spec_blast_scanned(
    bounds: (int, int, int, int, int),
    wx: int,
    wy: int,
    wz: int,
    a: int,
    b: int,
    c: int,
) -> bool {
    let (min_x, min_y, min_z, max_y, max_z) = bounds;
    ||| (min_x <= a < wx && min_y <= b <= max_y && min_z <= c <= max_z)
    ||| (a == wx && min_y <= b < wy && min_z <= c <= max_z)
    ||| (a == wx && b == wy && min_z <= c < wz)
}

/// The world: one chunk, the entity collections and the spawn timer. All
/// cross-entity interaction is resolved inside the per-tick updates.
pub struct World {
    pub chunk: Chunk,
    pub bullets: Vec<Bullet>,
    pub mobs: Vec<Mob>,
    pub particles: Vec<Particle>,
    pub explosives: Vec<Explosive>,
    pub spawn_timer: i64,
}

impl World {
    /// Ticks accumulated toward the next periodic spawn attempt.
    pub open spec fn spec_spawn_timer(self) -> int {
        self.spawn_timer as int
    }

    /// Well-formedness: the chunk and every entity are well-formed, the mob
    /// population respects its cap and the spawn timer stays in its cycle.
    pub open spec fn wf(self) -> bool {
        &&& self.chunk.wf()
        &&& forall|i: int| 0 <= i < self.bullets@.len() ==> (#[trigger] self.bullets@[i]).wf()
        &&& forall|i: int| 0 <= i < self.mobs@.len() ==> (#[trigger] self.mobs@[i]).wf()
        &&& forall|i: int| 0 <= i < self.particles@.len() ==> (#[trigger] self.particles@[i]).wf()
        &&& forall|i: int|
            0 <= i < self.explosives@.len() ==> (#[trigger] self.explosives@[i]).wf()
        &&& self.mobs@.len() <= MAX_MOBS
        &&& 0 <= self.spec_spawn_timer() <= SPAWN_INTERVAL
    }

    /// The entity collections other than the mobs are unchanged.
    pub open spec fn spec_same_non_mob_entities(self, other: World) -> bool {
        &&& self.bullets@ == other.bullets@
        &&& self.particles@ == other.particles@
        &&& self.explosives@ == other.explosives@
    }

    /// Wrap an existing volume into a world with no entities.
    pub fn from_chunk(chunk: Chunk) -> (w: World)
        requires
            chunk.wf(),
        ensures
            w.wf(),
            w.chunk == chunk,
            w.bullets@.len() == 0,
            w.mobs@.len() == 0,
            w.particles@.len() == 0,
            w.explosives@.len() == 0,
            w.spec_spawn_timer() == 0,
    {
        World {
            chunk,
            bullets: Vec::new(),
            mobs: Vec::new(),
            particles: Vec::new(),
            explosives: Vec::new(),
            spawn_timer: 0,
        }
    }

    /// A freshly generated world with the default volume and the initial
    /// mobs placed on the terrain.
    pub fn new() -> (w: World)
        ensures
            w.wf(),
            w.bullets@.len() == 0,
            w.particles@.len() == 0,
            w.explosives@.len() == 0,
            w.mobs@.len() <= 3,
            w.chunk.spec_width() == crate::chunk::CHUNK_WIDTH,
            w.chunk.spec_height() == crate::chunk::CHUNK_HEIGHT,
            w.chunk.spec_depth() == crate::chunk::CHUNK_DEPTH,
            w.chunk.spec_origin_x() == -256,
            w.chunk.spec_origin_z() == -256,
            w.chunk.spec_fallback(),
            w.spec_spawn_timer() == 0,
            forall|rx: int, ry: int, rz: int|
                #![trigger w.chunk.spec_dirty_at(rx, ry, rz)]
                w.chunk.spec_region_valid(rx, ry, rz) ==> w.chunk.spec_dirty_at(rx, ry, rz),
            forall|i: int, j: int, k: int|
                #![trigger w.chunk.spec_block_at(i, j, k)]
                w.chunk.spec_in_bounds(i, j, k) && !crate::chunk::spec_structure_zone(
                    w.chunk.spec_width(),
                    w.chunk.spec_depth(),
                    i,
                    j,
                    k,
                ) ==> w.chunk.spec_block_at(i, j, k) == crate::chunk::spec_generated_block(
                    -256,
                    -256,
                    w.chunk.spec_surface_cap(),
                    i,
                    j,
                    k,
                ),
            w.mobs@ == spec_spawn_push(
                w.chunk,
                spec_spawn_push(
                    w.chunk,
                    spec_spawn_push(w.chunk, Seq::<Mob>::empty(), 1605000, 1405000),
                    2105000,
                    2005000,
                ),
                2805000,
                2605000,
            ),
    {
        let mut chunk = Chunk::new();
        chunk.generate();
        let mut world = World::from_chunk(chunk);
        world.spawn_mob_at(1605000, 1405000);
        world.spawn_mob_at(2105000, 2005000);
        world.spawn_mob_at(2805000, 2605000);
        world
    }

    /// Place a mob two blocks above the ground of the given column. Nothing
    /// happens when the population is at its cap, when the column lies
    /// outside the addressable extent, or when the column holds no solid
    /// cell at all: a mob is never created without solid ground beneath it.
    pub fn spawn_mob_at(&mut self, x: i64, z: i64)
        requires
            old(self).wf(),
            -POS_LIMIT <= x <= POS_LIMIT,
            -POS_LIMIT <= z <= POS_LIMIT,
        ensures
            final(self).wf(),
            final(self).chunk == old(self).chunk,
            final(self).spec_same_non_mob_entities(*old(self)),
            final(self).spec_spawn_timer() == old(self).spec_spawn_timer(),
            final(self).mobs@ == spec_spawn_push(old(self).chunk, old(self).mobs@, x as int, z as int),
    {
        if self.mobs.len() >= MAX_MOBS {
            return ;
        }
        let h: usize = self.chunk.height();
        let max_y: i64 = (h as i64 - 1) * FIX_ONE;
        match highest_solid_below_chunk(&self.chunk, x, z, max_y) {
            Option::Some(ground_y) => {
                if ground_y > 0 {
                    self.mobs.push(
                        Mob {
                            position: Vec3 { x, y: ground_y + 2 * FIX_ONE, z },
                            health: MOB_HEALTH,
                            radius: MOB_RADIUS,
                            height: MOB_HEIGHT,
                            velocity_y: 0,
                            grounded: false,
                            jump_cooldown: 0,
                            attack_cooldown: 0,
                        },
                    );
                }
            },
            Option::None => {},
        }
    }

    /// Periodic spawn: try the five fixed candidate offsets of the player,
    /// clamped into the spawn window, in order, and place a mob on the
    /// first one with solid ground. Reports whether a mob appeared.
    fn try_spawn_mob_near(&mut self, player: Vec3) -> (r: bool)
        requires
            old(self).wf(),
            player.spec_in_pos_range(),
        ensures
            final(self).wf(),
            final(self).chunk == old(self).chunk,
            final(self).spec_same_non_mob_entities(*old(self)),
            final(self).spec_spawn_timer() == old(self).spec_spawn_timer(),
            final(self).mobs@ == spec_spawn_attempt(old(self).chunk, old(self).mobs@, player),
            old(self).mobs@.len() <= final(self).mobs@.len() <= old(self).mobs@.len() + 1,
            r == (final(self).mobs@.len() == old(self).mobs@.len() + 1),
    {
        if self.mobs.len() >= MAX_MOBS {
            return false;
        }
        let (ox, oz) = self.chunk.origin();
        let w: usize = self.chunk.width();
        let d: usize = self.chunk.depth();
        let lo_x_raw: i64 = ox as i64 * FIX_ONE + 25000;
        let hi_x_raw: i64 = (ox as i64 + w as i64) * FIX_ONE - 25000;
        let lo_z_raw: i64 = oz as i64 * FIX_ONE + 25000;
        let hi_z_raw: i64 = (oz as i64 + d as i64) * FIX_ONE - 25000;
        let lo_x: i64 = if lo_x_raw < -POS_LIMIT {
            -POS_LIMIT
        } else {
            lo_x_raw
        };
        let hi_x: i64 = if hi_x_raw > POS_LIMIT {
            POS_LIMIT
        } else {
            hi_x_raw
        };
        let lo_z: i64 = if lo_z_raw < -POS_LIMIT {
            -POS_LIMIT
        } else {
            lo_z_raw
        };
        let hi_z: i64 = if hi_z_raw > POS_LIMIT {
            POS_LIMIT
        } else {
            hi_z_raw
        };
        if hi_x < lo_x || hi_z < lo_z {
            return false;
        }
        let h: usize = self.chunk.height();
        let max_y: i64 = (h as i64 - 1) * FIX_ONE;
        let mut k: usize = 0;
        while k < 5
            invariant
                self.wf(),
                self.chunk == old(self).chunk,
                self.spec_same_non_mob_entities(*old(self)),
                self.spec_spawn_timer() == old(self).spec_spawn_timer(),
                self.mobs@ == old(self).mobs@,
                old(self).mobs@.len() < MAX_MOBS,
                lo_x <= hi_x,
                lo_z <= hi_z,
                -POS_LIMIT <= lo_x && hi_x <= POS_LIMIT,
                -POS_LIMIT <= lo_z && hi_z <= POS_LIMIT,
                (lo_x as int, hi_x as int, lo_z as int, hi_z as int) == spec_spawn_window(
                    self.chunk,
                ),
                k <= 5,
                max_y == (self.chunk.spec_height() - 1) * FIX_ONE,
                player.spec_in_pos_range(),
                spec_try_spawn_from(old(self).chunk, old(self).mobs@, player, 0)
                    == spec_try_spawn_from(old(self).chunk, old(self).mobs@, player, k as int),
            decreases 5 - k,
        {
            let (dx, dz): (i64, i64) = if k == 0 {
                (220000, 0)
            } else if k == 1 {
                (-220000, 0)
            } else if k == 2 {
                (0, 220000)
            } else if k == 3 {
                (0, -220000)
            } else {
                (160000, 160000)
            };
            let cx: i64 = clamp_i64(player.x + dx, lo_x, hi_x);
            let cz: i64 = clamp_i64(player.z + dz, lo_z, hi_z);
            proof {
                assert(spec_spawn_offset(k as int) == (dx as int, dz as int));
                assert(spec_spawn_candidate(self.chunk, player, k as int) == (
                cx as int,
                cz as int,
                ));
            }
            let mut done: bool = false;
            match highest_solid_below_chunk(&self.chunk, cx, cz, max_y) {
                Option::Some(ground_y) => {
                    if ground_y > 0 {
                        self.spawn_mob_at(cx, cz);
                        done = true;
                    }
                },
                Option::None => {},
            }
            if done {
                return true;
            }
            k = k + 1;
        }
        false
    }

    /// Fire a bullet: half a block ahead of the origin, along the normalized
    /// direction at the bullet speed. A zero-length direction fires nothing.
    pub fn spawn_bullet(&mut self, origin: Vec3, direction: Vec3)
        requires
            old(self).wf(),
            origin.spec_in_pos_range(),
            direction.spec_in_pos_range(),
        ensures
            final(self).wf(),
            final(self).chunk == old(self).chunk,
            final(self).mobs@ == old(self).mobs@,
            final(self).particles@ == old(self).particles@,
            final(self).explosives@ == old(self).explosives@,
            final(self).spec_spawn_timer() == old(self).spec_spawn_timer(),
            direction.spec_is_zero() ==> final(self).bullets@ == old(self).bullets@,
            !direction.spec_is_zero() ==> ({
                let nd = spec_normalize(direction);
                let b = Bullet {
                    position: Vec3 {
                        x: spec_clamp(
                            origin.x + spec_div_trunc(nd.x * BULLET_OFFSET, FIX_ONE as int),
                            -POS_LIMIT as int,
                            POS_LIMIT as int,
                        ) as i64,
                        y: spec_clamp(
                            origin.y + spec_div_trunc(nd.y * BULLET_OFFSET, FIX_ONE as int),
                            -POS_LIMIT as int,
                            POS_LIMIT as int,
                        ) as i64,
                        z: spec_clamp(
                            origin.z + spec_div_trunc(nd.z * BULLET_OFFSET, FIX_ONE as int),
                            -POS_LIMIT as int,
                            POS_LIMIT as int,
                        ) as i64,
                    },
                    velocity: Vec3 {
                        x: spec_div_trunc(nd.x * BULLET_SPEED, FIX_ONE as int) as i64,
                        y: spec_div_trunc(nd.y * BULLET_SPEED, FIX_ONE as int) as i64,
                        z: spec_div_trunc(nd.z * BULLET_SPEED, FIX_ONE as int) as i64,
                    },
                    damage: BULLET_DAMAGE,
                    max_distance: BULLET_RANGE,
                    traveled: 0,
                };
                final(self).bullets@ == old(self).bullets@.push(b)
            }),
    {
        let nd: Vec3 = match normalize(direction) {
            Option::None => { return ; },
            Option::Some(u) => u,
        };
        let px: i64 = clamp_i64(
            origin.x + scaled_component(nd.x, BULLET_OFFSET),
            -POS_LIMIT,
            POS_LIMIT,
        );
        let py: i64 = clamp_i64(
            origin.y + scaled_component(nd.y, BULLET_OFFSET),
            -POS_LIMIT,
            POS_LIMIT,
        );
        let pz: i64 = clamp_i64(
            origin.z + scaled_component(nd.z, BULLET_OFFSET),
            -POS_LIMIT,
            POS_LIMIT,
        );
        let vx: i64 = scaled_component(nd.x, BULLET_SPEED);
        let vy: i64 = scaled_component(nd.y, BULLET_SPEED);
        let vz: i64 = scaled_component(nd.z, BULLET_SPEED);
        self.bullets.push(
            Bullet {
                position: Vec3 { x: px, y: py, z: pz },
                velocity: Vec3 { x: vx, y: vy, z: vz },
                damage: BULLET_DAMAGE,
                max_distance: BULLET_RANGE,
                traveled: 0,
            },
        );
    }

    /// Throw an explosive: slightly ahead of the origin, along the
    /// normalized direction with an upward boost. A zero-length direction
    /// throws nothing.
    pub fn spawn_explosive(&mut self, origin: Vec3, direction: Vec3)
        requires
            old(self).wf(),
            origin.spec_in_pos_range(),
            direction.spec_in_pos_range(),
        ensures
            final(self).wf(),
            final(self).chunk == old(self).chunk,
            final(self).mobs@ == old(self).mobs@,
            final(self).particles@ == old(self).particles@,
            final(self).bullets@ == old(self).bullets@,
            final(self).spec_spawn_timer() == old(self).spec_spawn_timer(),
            direction.spec_is_zero() ==> final(self).explosives@ == old(self).explosives@,
            !direction.spec_is_zero() ==> ({
                let nd = spec_normalize(direction);
                let e = Explosive {
                    position: Vec3 {
                        x: spec_clamp(
                            origin.x + spec_div_trunc(nd.x * EXPLOSIVE_OFFSET, FIX_ONE as int),
                            -POS_LIMIT as int,
                            POS_LIMIT as int,
                        ) as i64,
                        y: spec_clamp(
                            origin.y + spec_div_trunc(nd.y * EXPLOSIVE_OFFSET, FIX_ONE as int),
                            -POS_LIMIT as int,
                            POS_LIMIT as int,
                        ) as i64,
                        z: spec_clamp(
                            origin.z + spec_div_trunc(nd.z * EXPLOSIVE_OFFSET, FIX_ONE as int),
                            -POS_LIMIT as int,
                            POS_LIMIT as int,
                        ) as i64,
                    },
                    velocity: Vec3 {
                        x: spec_div_trunc(nd.x * EXPLOSIVE_SPEED, FIX_ONE as int) as i64,
                        y: (spec_div_trunc(nd.y * EXPLOSIVE_SPEED, FIX_ONE as int)
                            + EXPLOSIVE_LIFT) as i64,
                        z: spec_div_trunc(nd.z * EXPLOSIVE_SPEED, FIX_ONE as int) as i64,
                    },
                    timer: EXPLOSIVE_TIMER,
                    radius: EXPLOSIVE_RADIUS,
                };
                final(self).explosives@ == old(self).explosives@.push(e)
            }),
    {
        let nd: Vec3 = match normalize(direction) {
            Option::None => { return ; },
            Option::Some(u) => u,
        };
        let px: i64 = clamp_i64(
            origin.x + scaled_component(nd.x, EXPLOSIVE_OFFSET),
            -POS_LIMIT,
            POS_LIMIT,
        );
        let py: i64 = clamp_i64(
            origin.y + scaled_component(nd.y, EXPLOSIVE_OFFSET),
            -POS_LIMIT,
            POS_LIMIT,
        );
        let pz: i64 = clamp_i64(
            origin.z + scaled_component(nd.z, EXPLOSIVE_OFFSET),
            -POS_LIMIT,
            POS_LIMIT,
        );
        let vx: i64 = scaled_component(nd.x, EXPLOSIVE_SPEED);
        let vy: i64 = scaled_component(nd.y, EXPLOSIVE_SPEED) + EXPLOSIVE_LIFT;
        let vz: i64 = scaled_component(nd.z, EXPLOSIVE_SPEED);
        self.explosives.push(
            Explosive {
                position: Vec3 { x: px, y: py, z: pz },
                velocity: Vec3 { x: vx, y: vy, z: vz },
                timer: EXPLOSIVE_TIMER,
                radius: EXPLOSIVE_RADIUS,
            },
        );
    }

    /// Clear a cell of the volume, by local coordinates.
    pub fn break_block(&mut self, x: usize, y: usize, z: usize)
        requires
            old(self).wf(),
        ensures
            final(self).wf(),
            final(self).chunk.spec_same_shape(old(self).chunk),
            final(self).mobs@ == old(self).mobs@,
            final(self).bullets@ == old(self).bullets@,
            final(self).particles@ == old(self).particles@,
            final(self).explosives@ == old(self).explosives@,
            final(self).spec_spawn_timer() == old(self).spec_spawn_timer(),
            forall|i: int, j: int, k: int|
                #![trigger final(self).chunk.spec_block_at(i, j, k)]
                final(self).chunk.spec_in_bounds(i, j, k) ==> final(self).chunk.spec_block_at(
                    i,
                    j,
                    k,
                ) == (if old(self).chunk.spec_in_bounds(x as int, y as int, z as int) && i
                    == x as int && j == y as int && k == z as int {
                    Block::Air
                } else {
                    old(self).chunk.spec_block_at(i, j, k)
                }),
            forall|rx: int, ry: int, rz: int|
                #![trigger final(self).chunk.spec_dirty_at(rx, ry, rz)]
                final(self).chunk.spec_region_valid(rx, ry, rz) ==> final(self).chunk.spec_dirty_at(
                    rx,
                    ry,
                    rz,
                ) == (old(self).chunk.spec_dirty_at(rx, ry, rz) || (old(self).chunk.spec_in_bounds(
                    x as int,
                    y as int,
                    z as int,
                ) && old(self).chunk.spec_block_at(x as int, y as int, z as int) != Block::Air
                    && old(self).chunk.spec_marks_region(x as int, y as int, z as int, rx, ry, rz))),
    {
        if x < self.chunk.width() && y < self.chunk.height() && z < self.chunk.depth() {
            self.chunk.set(x, y, z, Block::Air);
        }
    }

    /// Write a cell of the volume, by local coordinates.
    pub fn set_block(&mut self, x: usize, y: usize, z: usize, block: Block)
        requires
            old(self).wf(),
        ensures
            final(self).wf(),
            final(self).chunk.spec_same_shape(old(self).chunk),
            final(self).mobs@ == old(self).mobs@,
            final(self).bullets@ == old(self).bullets@,
            final(self).particles@ == old(self).particles@,
            final(self).explosives@ == old(self).explosives@,
            final(self).spec_spawn_timer() == old(self).spec_spawn_timer(),
            forall|i: int, j: int, k: int|
                #![trigger final(self).chunk.spec_block_at(i, j, k)]
                final(self).chunk.spec_in_bounds(i, j, k) ==> final(self).chunk.spec_block_at(
                    i,
                    j,
                    k,
                ) == (if old(self).chunk.spec_in_bounds(x as int, y as int, z as int) && i
                    == x as int && j == y as int && k == z as int {
                    block
                } else {
                    old(self).chunk.spec_block_at(i, j, k)
                }),
            forall|rx: int, ry: int, rz: int|
                #![trigger final(self).chunk.spec_dirty_at(rx, ry, rz)]
                final(self).chunk.spec_region_valid(rx, ry, rz) ==> final(self).chunk.spec_dirty_at(
                    rx,
                    ry,
                    rz,
                ) == (old(self).chunk.spec_dirty_at(rx, ry, rz) || (old(self).chunk.spec_in_bounds(
                    x as int,
                    y as int,
                    z as int,
                ) && old(self).chunk.spec_block_at(x as int, y as int, z as int) != block && old(
                    self,
                ).chunk.spec_marks_region(x as int, y as int, z as int, rx, ry, rz))),
    {
        if x < self.chunk.width() && y < self.chunk.height() && z < self.chunk.depth() {
            self.chunk.set(x, y, z, block);
        }
    }

    /// Read any world cell; never fails.
    pub fn block_at(&self, x: i32, y: i32, z: i32) -> (r: Block)
        requires
            self.wf(),
        ensures
            r == self.chunk.spec_get_world(x as int, y as int, z as int),
    {
        self.chunk.get_i32(x, y, z)
    }

    /// Ground resolution at a fixed-point column position.
    pub fn highest_solid_below(&self, x: i64, z: i64, max_y: i64) -> (r: Option<i64>)
        requires
            self.wf(),
            -POS_LIMIT <= x <= POS_LIMIT,
            -POS_LIMIT <= z <= POS_LIMIT,
            -POS_LIMIT <= max_y <= POS_LIMIT,
        ensures
            match r {
                Option::Some(g) => spec_highest_solid_below(
                    self.chunk,
                    x as int,
                    z as int,
                    max_y as int,
                ) == Option::Some(g as int),
                Option::None => spec_highest_solid_below(
                    self.chunk,
                    x as int,
                    z as int,
                    max_y as int,
                ) is None,
            },
    {
        highest_solid_below_chunk(&self.chunk, x, z, max_y)
    }

    /// Emit a burst of cosmetic particles at a point, with deterministic
    /// pseudo-random directions.
    fn spawn_particles(
        &mut self,
        origin: Vec3,
        count: usize,
        color: (i64, i64, i64),
        speed: i64,
        life: i64,
        size: i64,
    )
        requires
            old(self).wf(),
            origin.spec_in_pos_range(),
            0 <= speed <= 10000,
            0 <= life <= 1000000,
            0 <= size <= 1000000,
            count <= 1000,
        ensures
            final(self).wf(),
            final(self).chunk == old(self).chunk,
            final(self).bullets@ == old(self).bullets@,
            final(self).mobs@ == old(self).mobs@,
            final(self).explosives@ == old(self).explosives@,
            final(self).spec_spawn_timer() == old(self).spec_spawn_timer(),
            final(self).particles@.len() == old(self).particles@.len() + count,
            forall|i: int|
                0 <= i < old(self).particles@.len() ==> final(self).particles@[i] == old(
                    self,
                ).particles@[i],
            forall|i: int|
                old(self).particles@.len() <= i < final(self).particles@.len() ==> ((
                #[trigger] final(self).particles@[i]).position == origin && final(self).particles@[i].life == life && final(self).particles@[i].color == color && final(self).particles@[i].size == size && -speed <= final(self).particles@[i].velocity.x
                    <= speed && -speed <= final(self).particles@[i].velocity.y <= speed && -speed
                    <= final(self).particles@[i].velocity.z <= speed),
    {
        let mut i: usize = 0;
        while i < count
            invariant
                i <= count,
                count <= 1000,
                self.wf(),
                self.chunk == old(self).chunk,
                self.bullets@ == old(self).bullets@,
                self.mobs@ == old(self).mobs@,
                self.explosives@ == old(self).explosives@,
                self.spec_spawn_timer() == old(self).spec_spawn_timer(),
                self.particles@.len() == old(self).particles@.len() + i,
                forall|j: int|
                    0 <= j < old(self).particles@.len() ==> self.particles@[j] == old(
                        self,
                    ).particles@[j],
                forall|j: int|
                    old(self).particles@.len() <= j < self.particles@.len() ==> ((
                    #[trigger] self.particles@[j]).position == origin && self.particles@[j].life
                        == life && self.particles@[j].color == color && self.particles@[j].size
                        == size && -speed <= self.particles@[j].velocity.x <= speed && -speed
                        <= self.particles@[j].velocity.y <= speed && -speed
                        <= self.particles@[j].velocity.z <= speed),
                origin.spec_in_pos_range(),
                0 <= speed <= 10000,
                0 <= life <= 1000000,
                0 <= size <= 1000000,
            decreases count - i,
        {
            let u: i64 = i as i64;
            let a: i64 = crate::terrain::tri01(u * 37, 17) - 1000;
            let b: i64 = crate::terrain::tri01(u * 23, 13) - 1000;
            let c: i64 = crate::terrain::tri01(u * 41, 19) - 1000;
            let bu: i64 = if b >= 0 {
                b
            } else {
                -b
            };
            let vx: i64 = particle_component(a, speed);
            let vy: i64 = particle_component(bu, speed);
            let vz: i64 = particle_component(c, speed);
            self.particles.push(
                Particle {
                    position: origin,
                    velocity: Vec3 { x: vx, y: vy, z: vz },
                    life,
                    color,
                    size,
                },
            );
            i = i + 1;
        }
    }

    /// Advance every particle one tick and drop the ones whose life ran out.
    pub fn update_particles(&mut self)
        requires
            old(self).wf(),
        ensures
            final(self).wf(),
            final(self).chunk == old(self).chunk,
            final(self).bullets@ == old(self).bullets@,
            final(self).mobs@ == old(self).mobs@,
            final(self).explosives@ == old(self).explosives@,
            final(self).spec_spawn_timer() == old(self).spec_spawn_timer(),
            final(self).particles@ == old(self).particles@.map_values(
                |p: Particle| spec_advance_particle(p),
            ).filter(|p: Particle| p.life > 0),
    {
        let n: usize = self.particles.len();
        let mut out: Vec<Particle> = Vec::new();
        let mut i: usize = 0;
        proof {
            assert(old(self).particles@.take(0).map_values(
                |p: Particle| spec_advance_particle(p),
            ).filter(|p: Particle| p.life > 0) =~= Seq::<Particle>::empty());
            assert(Seq::<Particle>::empty().filter(|p: Particle| p.life > 0) =~= Seq::<
                Particle,
            >::empty()) by {
                reveal(Seq::filter);
            }
        }
        while i < n
            invariant
                i <= n,
                n == self.particles@.len(),
                self == old(self),
                self.wf(),
                out@ == old(self).particles@.take(i as int).map_values(
                    |p: Particle| spec_advance_particle(p),
                ).filter(|p: Particle| p.life > 0),
                forall|j: int| 0 <= j < out@.len() ==> (#[trigger] out@[j]).wf() && out@[j].life
                    > 0,
            decreases n - i,
        {
            let p: Particle = self.particles[i];
            let q: Particle = advance_particle_exec(p);
            let ghost pre_out = out@;
            if q.life > 0 {
                out.push(q);
            }
            proof {
                let f = |p: Particle| spec_advance_particle(p);
                let pred = |p: Particle| p.life > 0;
                let prefix = old(self).particles@.take(i as int);
                let ext = old(self).particles@.take(i + 1);
                assert(ext =~= prefix.push(old(self).particles@[i as int]));
                assert(ext.map_values(f) =~= prefix.map_values(f).push(f(
                    old(self).particles@[i as int],
                )));
                assert(ext.map_values(f).drop_last() =~= prefix.map_values(f));
                assert(ext.map_values(f).filter(pred) == if pred(q) {
                    prefix.map_values(f).filter(pred).push(q)
                } else {
                    prefix.map_values(f).filter(pred)
                }) by {
                    reveal(Seq::filter);
                }
            }
            i = i + 1;
        }
        proof {
            assert(old(self).particles@.take(n as int) =~= old(self).particles@);
        }
        self.particles = out;
    }

    /// Area destruction: clear every non-empty cell whose centre lies within
    /// `radius` of `center` (boundary included), report whether any cell
    /// changed, and emit a cosmetic burst at the centre.
    #[verifier::rlimit(100)]
    pub fn explode_at(&mut self, center: Vec3, radius: i64) -> (changed: bool)
        requires
            old(self).wf(),
            center.spec_in_pos_range(),
            0 <= radius <= RADIUS_LIMIT,
        ensures
            final(self).wf(),
            final(self).chunk.spec_same_shape(old(self).chunk),
            final(self).bullets@ == old(self).bullets@,
            final(self).mobs@ == old(self).mobs@,
            final(self).explosives@ == old(self).explosives@,
            final(self).spec_spawn_timer() == old(self).spec_spawn_timer(),
            final(self).particles@.len() == old(self).particles@.len() + 45,
            forall|i: int|
                0 <= i < old(self).particles@.len() ==> final(self).particles@[i] == old(
                    self,
                ).particles@[i],
            forall|i: int, j: int, k: int|
                #![trigger final(self).chunk.spec_block_at(i, j, k)]
                final(self).chunk.spec_in_bounds(i, j, k) ==> final(self).chunk.spec_block_at(
                    i,
                    j,
                    k,
                ) == (if old(self).chunk.spec_block_at(i, j, k) != Block::Air && spec_in_blast(
                    center,
                    radius as int,
                    i + old(self).chunk.spec_origin_x(),
                    j,
                    k + old(self).chunk.spec_origin_z(),
                ) {
                    Block::Air
                } else {
                    old(self).chunk.spec_block_at(i, j, k)
                }),
            changed == exists|i: int, j: int, k: int|
                #![trigger old(self).chunk.spec_block_at(i, j, k)]
                old(self).chunk.spec_in_bounds(i, j, k) && old(self).chunk.spec_block_at(i, j, k)
                    != Block::Air && spec_in_blast(
                    center,
                    radius as int,
                    i + old(self).chunk.spec_origin_x(),
                    j,
                    k + old(self).chunk.spec_origin_z(),
                ),
            forall|rx: int, ry: int, rz: int|
                #![trigger final(self).chunk.spec_dirty_at(rx, ry, rz)]
                final(self).chunk.spec_region_valid(rx, ry, rz) ==> (old(self).chunk.spec_dirty_at(
                    rx,
                    ry,
                    rz,
                ) ==> final(self).chunk.spec_dirty_at(rx, ry, rz)),
    {
        let mut changed: bool = false;
        let ghost mut witness: (int, int, int) = (0int, 0int, 0int);
        let (ox, oz) = self.chunk.origin();
        let min_x: i64 = crate::geom::cell_of(center.x - radius);
        let max_x: i64 = crate::geom::cell_of(center.x + radius) + 1;
        let min_y: i64 = crate::geom::cell_of(center.y - radius);
        let max_y: i64 = crate::geom::cell_of(center.y + radius) + 1;
        let min_z: i64 = crate::geom::cell_of(center.z - radius);
        let max_z: i64 = crate::geom::cell_of(center.z + radius) + 1;
        proof {
            crate::geom::lemma_cell_of_in_i32(center.x - radius);
            crate::geom::lemma_cell_of_in_i32(center.x + radius);
            crate::geom::lemma_cell_of_in_i32(center.y - radius);
            crate::geom::lemma_cell_of_in_i32(center.y + radius);
            crate::geom::lemma_cell_of_in_i32(center.z - radius);
            crate::geom::lemma_cell_of_in_i32(center.z + radius);
        }
        let ghost bounds: (int, int, int, int, int) = (
            min_x as int,
            min_y as int,
            min_z as int,
            max_y as int,
            max_z as int,
        );
        let mut wx: i64 = min_x;
        while wx <= max_x
            invariant
                self.wf(),
                self.chunk.spec_same_shape(old(self).chunk),
                self.bullets@ == old(self).bullets@,
                self.mobs@ == old(self).mobs@,
                self.explosives@ == old(self).explosives@,
                self.particles@ == old(self).particles@,
                self.spec_spawn_timer() == old(self).spec_spawn_timer(),
                min_x <= wx <= max_x + 1,
                ox as int == old(self).chunk.spec_origin_x(),
                oz as int == old(self).chunk.spec_origin_z(),
                min_x == spec_cell_of(center.x - radius),
                max_x == spec_cell_of(center.x + radius) + 1,
                min_y == spec_cell_of(center.y - radius),
                max_y == spec_cell_of(center.y + radius) + 1,
                min_z == spec_cell_of(center.z - radius),
                max_z == spec_cell_of(center.z + radius) + 1,
                bounds == (min_x as int, min_y as int, min_z as int, max_y as int, max_z as int),
                -210000002 <= min_x && max_x <= 210000001,
                -210000002 <= min_y && max_y <= 210000001,
                -210000002 <= min_z && max_z <= 210000001,
                center.spec_in_pos_range(),
                0 <= radius <= RADIUS_LIMIT,
                forall|i: int, j: int, k: int|
                    #![trigger self.chunk.spec_block_at(i, j, k)]
                    self.chunk.spec_in_bounds(i, j, k) ==> self.chunk.spec_block_at(i, j, k) == (
                    if old(self).chunk.spec_block_at(i, j, k) != Block::Air && spec_in_blast(
                        center,
                        radius as int,
                        i + ox,
                        j,
                        k + oz,
                    ) && spec_blast_scanned(
                        bounds,
                        wx as int,
                        min_y as int,
                        min_z as int,
                        i + ox,
                        j,
                        k + oz,
                    ) {
                        Block::Air
                    } else {
                        old(self).chunk.spec_block_at(i, j, k)
                    }),
                changed ==> ({
                    let (a, b, c) = witness;
                    old(self).chunk.spec_in_bounds(a, b, c) && old(self).chunk.spec_block_at(
                        a,
                        b,
                        c,
                    ) != Block::Air && spec_in_blast(center, radius as int, a + ox, b, c + oz)
                }),
                !changed ==> (forall|i: int, j: int, k: int|
                    #![trigger old(self).chunk.spec_block_at(i, j, k)]
                    old(self).chunk.spec_in_bounds(i, j, k) && old(self).chunk.spec_block_at(
                        i,
                        j,
                        k,
                    ) != Block::Air && spec_in_blast(center, radius as int, i + ox, j, k + oz)
                        ==> !spec_blast_scanned(
                        bounds,
                        wx as int,
                        min_y as int,
                        min_z as int,
                        i + ox,
                        j,
                        k + oz,
                    )),
                forall|rx: int, ry: int, rz: int|
                    #![trigger self.chunk.spec_dirty_at(rx, ry, rz)]
                    self.chunk.spec_region_valid(rx, ry, rz) ==> (old(self).chunk.spec_dirty_at(
                        rx,
                        ry,
                        rz,
                    ) ==> self.chunk.spec_dirty_at(rx, ry, rz)),
            decreases max_x + 1 - wx,
        {
            let mut wy: i64 = min_y;
            while wy <= max_y
                invariant
                    self.wf(),
                    self.chunk.spec_same_shape(old(self).chunk),
                    self.bullets@ == old(self).bullets@,
                    self.mobs@ == old(self).mobs@,
                    self.explosives@ == old(self).explosives@,
                    self.particles@ == old(self).particles@,
                    self.spec_spawn_timer() == old(self).spec_spawn_timer(),
                    min_x <= wx <= max_x,
                    min_y <= wy <= max_y + 1,
                    ox as int == old(self).chunk.spec_origin_x(),
                    oz as int == old(self).chunk.spec_origin_z(),
                    min_x == spec_cell_of(center.x - radius),
                    max_x == spec_cell_of(center.x + radius) + 1,
                    min_y == spec_cell_of(center.y - radius),
                    max_y == spec_cell_of(center.y + radius) + 1,
                    min_z == spec_cell_of(center.z - radius),
                    max_z == spec_cell_of(center.z + radius) + 1,
                    bounds == (
                        min_x as int,
                        min_y as int,
                        min_z as int,
                        max_y as int,
                        max_z as int,
                    ),
                    -210000002 <= min_x && max_x <= 210000001,
                    -210000002 <= min_y && max_y <= 210000001,
                    -210000002 <= min_z && max_z <= 210000001,
                    center.spec_in_pos_range(),
                    0 <= radius <= RADIUS_LIMIT,
                    forall|i: int, j: int, k: int|
                        #![trigger self.chunk.spec_block_at(i, j, k)]
                        self.chunk.spec_in_bounds(i, j, k) ==> self.chunk.spec_block_at(i, j, k)
                            == (if old(self).chunk.spec_block_at(i, j, k) != Block::Air
                            && spec_in_blast(center, radius as int, i + ox, j, k + oz)
                            && spec_blast_scanned(
                            bounds,
                            wx as int,
                            wy as int,
                            min_z as int,
                            i + ox,
                            j,
                            k + oz,
                        ) {
                            Block::Air
                        } else {
                            old(self).chunk.spec_block_at(i, j, k)
                        }),
                    changed ==> ({
                        let (a, b, c) = witness;
                        old(self).chunk.spec_in_bounds(a, b, c) && old(self).chunk.spec_block_at(
                            a,
                            b,
                            c,
                        ) != Block::Air && spec_in_blast(center, radius as int, a + ox, b, c + oz)
                    }),
                    !changed ==> (forall|i: int, j: int, k: int|
                        #![trigger old(self).chunk.spec_block_at(i, j, k)]
                        old(self).chunk.spec_in_bounds(i, j, k) && old(self).chunk.spec_block_at(
                            i,
                            j,
                            k,
                        ) != Block::Air && spec_in_blast(center, radius as int, i + ox, j, k + oz)
                            ==> !spec_blast_scanned(
                            bounds,
                            wx as int,
                            wy as int,
                            min_z as int,
                            i + ox,
                            j,
                            k + oz,
                        )),
                    forall|rx: int, ry: int, rz: int|
                        #![trigger self.chunk.spec_dirty_at(rx, ry, rz)]
                        self.chunk.spec_region_valid(rx, ry, rz) ==> (old(
                            self,
                        ).chunk.spec_dirty_at(rx, ry, rz) ==> self.chunk.spec_dirty_at(
                            rx,
                            ry,
                            rz,
                        )),
                decreases max_y + 1 - wy,
            {
                let mut wz: i64 = min_z;
                while wz <= max_z
                    invariant
                        self.wf(),
                        self.chunk.spec_same_shape(old(self).chunk),
                        self.bullets@ == old(self).bullets@,
                        self.mobs@ == old(self).mobs@,
                        self.explosives@ == old(self).explosives@,
                        self.particles@ == old(self).particles@,
                        self.spec_spawn_timer() == old(self).spec_spawn_timer(),
                        min_x <= wx <= max_x,
                        min_y <= wy <= max_y,
                        min_z <= wz <= max_z + 1,
                        ox as int == old(self).chunk.spec_origin_x(),
                        oz as int == old(self).chunk.spec_origin_z(),
                        min_x == spec_cell_of(center.x - radius),
                        max_x == spec_cell_of(center.x + radius) + 1,
                        min_y == spec_cell_of(center.y - radius),
                        max_y == spec_cell_of(center.y + radius) + 1,
                        min_z == spec_cell_of(center.z - radius),
                        max_z == spec_cell_of(center.z + radius) + 1,
                        bounds == (
                            min_x as int,
                            min_y as int,
                            min_z as int,
                            max_y as int,
                            max_z as int,
                        ),
                        -210000002 <= min_x && max_x <= 210000001,
                        -210000002 <= min_y && max_y <= 210000001,
                        -210000002 <= min_z && max_z <= 210000001,
                        center.spec_in_pos_range(),
                        0 <= radius <= RADIUS_LIMIT,
                        forall|i: int, j: int, k: int|
                            #![trigger self.chunk.spec_block_at(i, j, k)]
                            self.chunk.spec_in_bounds(i, j, k) ==> self.chunk.spec_block_at(
                                i,
                                j,
                                k,
                            ) == (if old(self).chunk.spec_block_at(i, j, k) != Block::Air
                                && spec_in_blast(center, radius as int, i + ox, j, k + oz)
                                && spec_blast_scanned(
                                bounds,
                                wx as int,
                                wy as int,
                                wz as int,
                                i + ox,
                                j,
                                k + oz,
                            ) {
                                Block::Air
                            } else {
                                old(self).chunk.spec_block_at(i, j, k)
                            }),
                        changed ==> ({
                            let (a, b, c) = witness;
                            old(self).chunk.spec_in_bounds(a, b, c) && old(
                                self,
                            ).chunk.spec_block_at(a, b, c) != Block::Air && spec_in_blast(
                                center,
                                radius as int,
                                a + ox,
                                b,
                                c + oz,
                            )
                        }),
                        !changed ==> (forall|i: int, j: int, k: int|
                            #![trigger old(self).chunk.spec_block_at(i, j, k)]
                            old(self).chunk.spec_in_bounds(i, j, k) && old(
                                self,
                            ).chunk.spec_block_at(i, j, k) != Block::Air && spec_in_blast(
                                center,
                                radius as int,
                                i + ox,
                                j,
                                k + oz,
                            ) ==> !spec_blast_scanned(
                                bounds,
                                wx as int,
                                wy as int,
                                wz as int,
                                i + ox,
                                j,
                                k + oz,
                            )),
                        forall|rx: int, ry: int, rz: int|
                            #![trigger self.chunk.spec_dirty_at(rx, ry, rz)]
                            self.chunk.spec_region_valid(rx, ry, rz) ==> (old(
                                self,
                            ).chunk.spec_dirty_at(rx, ry, rz) ==> self.chunk.spec_dirty_at(
                                rx,
                                ry,
                                rz,
                            )),
                    decreases max_z + 1 - wz,
                {
                    let dx: i128 = (wx as i128) * 10000 + 5000 - (center.x as i128);
                    let dy: i128 = (wy as i128) * 10000 + 5000 - (center.y as i128);
                    let dz: i128 = (wz as i128) * 10000 + 5000 - (center.z as i128);
                    proof {
                        assert(dx * dx >= 0 && dy * dy >= 0 && dz * dz >= 0 && dx * dx
                            <= 0x100000000000000000000000000 && dy * dy
                            <= 0x100000000000000000000000000 && dz * dz
                            <= 0x100000000000000000000000000 && (radius as i128) * (
                        radius as i128) <= 4000000000000) by (nonlinear_arith)
                            requires
                                -4200000000000 <= dx <= 4200000000000,
                                -4200000000000 <= dy <= 4200000000000,
                                -4200000000000 <= dz <= 4200000000000,
                                0 <= radius <= 2000000,
                        ;
                    }
                    let in_blast: bool = dx * dx + dy * dy + dz * dz <= (radius as i128) * (
                    radius as i128);
                    let ghost pre = *self;
                    if in_blast {
                        let lx: i64 = wx - ox as i64;
                        let lz: i64 = wz - oz as i64;
                        if lx >= 0 && lz >= 0 && wy >= 0 && lx < self.chunk.width() as i64 && wy
                            < self.chunk.height() as i64 && lz < self.chunk.depth() as i64 {
                            let b = self.chunk.get_i32(wx as i32, wy as i32, wz as i32);
                            if b != Block::Air {
                                self.chunk.set(lx as usize, wy as usize, lz as usize, Block::Air);
                                changed = true;
                                proof {
                                    witness = (lx as int, wy as int, lz as int);
                                }
                            }
                        }
                    }
                    proof {
                        assert forall|i: int, j: int, k: int|
                            #![trigger self.chunk.spec_block_at(i, j, k)]
                            self.chunk.spec_in_bounds(i, j, k) implies self.chunk.spec_block_at(
                            i,
                            j,
                            k,
                        ) == (if old(self).chunk.spec_block_at(i, j, k) != Block::Air
                            && spec_in_blast(center, radius as int, i + ox, j, k + oz)
                            && spec_blast_scanned(
                            bounds,
                            wx as int,
                            wy as int,
                            wz as int + 1,
                            i + ox,
                            j,
                            k + oz,
                        ) {
                            Block::Air
                        } else {
                            old(self).chunk.spec_block_at(i, j, k)
                        }) by {
                            assert(pre.chunk.spec_block_at(i, j, k) == (if old(
                                self,
                            ).chunk.spec_block_at(i, j, k) != Block::Air && spec_in_blast(
                                center,
                                radius as int,
                                i + ox,
                                j,
                                k + oz,
                            ) && spec_blast_scanned(
                                bounds,
                                wx as int,
                                wy as int,
                                wz as int,
                                i + ox,
                                j,
                                k + oz,
                            ) {
                                Block::Air
                            } else {
                                old(self).chunk.spec_block_at(i, j, k)
                            }));
                        }
                        if !changed {
                            assert forall|i: int, j: int, k: int|
                                #![trigger old(self).chunk.spec_block_at(i, j, k)]
                                old(self).chunk.spec_in_bounds(i, j, k) && old(
                                    self,
                                ).chunk.spec_block_at(i, j, k) != Block::Air && spec_in_blast(
                                    center,
                                    radius as int,
                                    i + ox,
                                    j,
                                    k + oz,
                                ) implies !spec_blast_scanned(
                                bounds,
                                wx as int,
                                wy as int,
                                wz as int + 1,
                                i + ox,
                                j,
                                k + oz,
                            ) by {
                                if i + ox == wx && j == wy && k + oz == wz {
                                    assert(pre.chunk.spec_block_at(i, j, k) == old(
                                        self,
                                    ).chunk.spec_block_at(i, j, k));
                                }
                            }
                        }
                    }
                    wz = wz + 1;
                }
                wy = wy + 1;
            }
            wx = wx + 1;
        }
        proof {
            assert forall|i: int, j: int, k: int|
                #![trigger self.chunk.spec_block_at(i, j, k)]
                self.chunk.spec_in_bounds(i, j, k) implies self.chunk.spec_block_at(i, j, k) == (
            if old(self).chunk.spec_block_at(i, j, k) != Block::Air && spec_in_blast(
                center,
                radius as int,
                i + ox,
                j,
                k + oz,
            ) {
                Block::Air
            } else {
                old(self).chunk.spec_block_at(i, j, k)
            }) by {
                if spec_in_blast(center, radius as int, i + ox, j, k + oz) {
                    lemma_blast_inside_box(
                        center,
                        radius as int,
                        i + ox,
                        j,
                        k + oz,
                        min_x as int,
                        max_x as int,
                        min_y as int,
                        max_y as int,
                        min_z as int,
                        max_z as int,
                    );
                }
            }
            if !changed {
                assert forall|i: int, j: int, k: int|
                    #![trigger old(self).chunk.spec_block_at(i, j, k)]
                    old(self).chunk.spec_in_bounds(i, j, k) && old(self).chunk.spec_block_at(
                        i,
                        j,
                        k,
                    ) != Block::Air implies !spec_in_blast(
                    center,
                    radius as int,
                    i + ox,
                    j,
                    k + oz,
                ) by {
                    if spec_in_blast(center, radius as int, i + ox, j, k + oz) {
                        lemma_blast_inside_box(
                            center,
                            radius as int,
                            i + ox,
                            j,
                            k + oz,
                            min_x as int,
                            max_x as int,
                            min_y as int,
                            max_y as int,
                            min_z as int,
                            max_z as int,
                        );
                    }
                }
            }
        }
        self.spawn_particles(center, 45, (1000, 600, 200), 3600, 70, 3400);
        changed
    }

    /// Advance every explosive one tick: block contact is judged against
    /// the volume as the tick began, then every explosive that touched a
    /// block or ran out its countdown detonates at its advanced position,
    /// in index order. Blocks are only ever cleared; the flag reports
    /// whether any detonation cleared at least one block.
    #[verifier::rlimit(100)]
    pub fn update_explosives(&mut self) -> (changed: bool)
        requires
            old(self).wf(),
        ensures
            final(self).wf(),
            final(self).chunk.spec_same_shape(old(self).chunk),
            final(self).bullets@ == old(self).bullets@,
            final(self).mobs@ == old(self).mobs@,
            final(self).spec_spawn_timer() == old(self).spec_spawn_timer(),
            forall|i: int|
                0 <= i < old(self).particles@.len() ==> final(self).particles@[i] == old(
                    self,
                ).particles@[i],
            ({
                let n = old(self).explosives@.len() as int;
                let dets = spec_detonations(old(self).chunk, old(self).explosives@, n);
                &&& final(self).explosives@ == spec_explosives_kept(
                    old(self).chunk,
                    old(self).explosives@,
                    n,
                )
                &&& final(self).particles@.len() == old(self).particles@.len() + 45 * dets.len()
                &&& (forall|i: int, j: int, k: int|
                    #![trigger final(self).chunk.spec_block_at(i, j, k)]
                    final(self).chunk.spec_in_bounds(i, j, k) ==> final(self).chunk.spec_block_at(
                        i,
                        j,
                        k,
                    ) == (if old(self).chunk.spec_block_at(i, j, k) != Block::Air && (exists|
                        d: int,
                    |
                        0 <= d < dets.len() && spec_in_blast(
                            (#[trigger] dets[d]).0,
                            dets[d].1 as int,
                            i + old(self).chunk.spec_origin_x(),
                            j,
                            k + old(self).chunk.spec_origin_z(),
                        )) {
                        Block::Air
                    } else {
                        old(self).chunk.spec_block_at(i, j, k)
                    }))
                &&& changed == (exists|i: int, j: int, k: int|
                    #![trigger old(self).chunk.spec_block_at(i, j, k)]
                    old(self).chunk.spec_in_bounds(i, j, k) && old(self).chunk.spec_block_at(
                        i,
                        j,
                        k,
                    ) != Block::Air && (exists|d: int|
                        0 <= d < dets.len() && spec_in_blast(
                            (#[trigger] dets[d]).0,
                            dets[d].1 as int,
                            i + old(self).chunk.spec_origin_x(),
                            j,
                            k + old(self).chunk.spec_origin_z(),
                        )))
            }),
            forall|i: int|
                0 <= i < final(self).explosives@.len() ==> (#[trigger] final(self).explosives@[i]).timer
                    > 0,
            final(self).explosives@.len() <= old(self).explosives@.len(),
            forall|rx: int, ry: int, rz: int|
                #![trigger final(self).chunk.spec_dirty_at(rx, ry, rz)]
                final(self).chunk.spec_region_valid(rx, ry, rz) ==> (old(self).chunk.spec_dirty_at(
                    rx,
                    ry,
                    rz,
                ) ==> final(self).chunk.spec_dirty_at(rx, ry, rz)),
    {
        let n: usize = self.explosives.len();
        let mut kept: Vec<Explosive> = Vec::new();
        let mut dets: Vec<(Vec3, i64)> = Vec::new();
        let mut i: usize = 0;
        while i < n
            invariant
                i <= n,
                n == old(self).explosives@.len(),
                self == old(self),
                self.wf(),
                kept@.len() <= i,
                forall|t: int| 0 <= t < kept@.len() ==> (#[trigger] kept@[t]).wf()
                    && kept@[t].timer > 0,
                kept@ == spec_explosives_kept(old(self).chunk, old(self).explosives@, i as int),
                dets@ == spec_detonations(old(self).chunk, old(self).explosives@, i as int),
                forall|t: int|
                    0 <= t < dets@.len() ==> ((#[trigger] dets@[t]).0.spec_in_pos_range() && 0
                        <= dets@[t].1 <= RADIUS_LIMIT),
            decreases n - i,
        {
            let e: Explosive = self.explosives[i];
            let adv: Explosive = advance_explosive_exec(e);
            if hit_block_exec(&self.chunk, adv.position) || adv.timer <= 0 {
                dets.push((adv.position, adv.radius));
            } else {
                kept.push(adv);
            }
            i = i + 1;
        }
        self.explosives = kept;
        let ghost dets_seq = dets@;
        let ghost ox = old(self).chunk.spec_origin_x();
        let ghost oz = old(self).chunk.spec_origin_z();
        let nd: usize = dets.len();
        let mut changed: bool = false;
        let mut d: usize = 0;
        while d < nd
            invariant
                d <= nd,
                nd == dets@.len(),
                dets@ == dets_seq,
                self.wf(),
                self.chunk.spec_same_shape(old(self).chunk),
                ox == old(self).chunk.spec_origin_x(),
                oz == old(self).chunk.spec_origin_z(),
                self.bullets@ == old(self).bullets@,
                self.mobs@ == old(self).mobs@,
                self.explosives@ == spec_explosives_kept(
                    old(self).chunk,
                    old(self).explosives@,
                    n as int,
                ),
                self.spec_spawn_timer() == old(self).spec_spawn_timer(),
                forall|t: int|
                    0 <= t < old(self).particles@.len() ==> self.particles@[t] == old(
                        self,
                    ).particles@[t],
                self.particles@.len() == old(self).particles@.len() + 45 * d,
                forall|t: int|
                    0 <= t < dets@.len() ==> ((#[trigger] dets@[t]).0.spec_in_pos_range() && 0
                        <= dets@[t].1 <= RADIUS_LIMIT),
                forall|i: int, j: int, k: int|
                    #![trigger self.chunk.spec_block_at(i, j, k)]
                    self.chunk.spec_in_bounds(i, j, k) ==> self.chunk.spec_block_at(i, j, k) == (
                    if old(self).chunk.spec_block_at(i, j, k) != Block::Air && (exists|t: int|
                        0 <= t < d && spec_in_blast(
                            (#[trigger] dets_seq[t]).0,
                            dets_seq[t].1 as int,
                            i + ox,
                            j,
                            k + oz,
                        )) {
                        Block::Air
                    } else {
                        old(self).chunk.spec_block_at(i, j, k)
                    }),
                changed == (exists|i: int, j: int, k: int|
                    #![trigger old(self).chunk.spec_block_at(i, j, k)]
                    old(self).chunk.spec_in_bounds(i, j, k) && old(self).chunk.spec_block_at(
                        i,
                        j,
                        k,
                    ) != Block::Air && (exists|t: int|
                        0 <= t < d && spec_in_blast(
                            (#[trigger] dets_seq[t]).0,
                            dets_seq[t].1 as int,
                            i + ox,
                            j,
                            k + oz,
                        ))),
                forall|rx: int, ry: int, rz: int|
                    #![trigger self.chunk.spec_dirty_at(rx, ry, rz)]
                    self.chunk.spec_region_valid(rx, ry, rz) ==> (old(self).chunk.spec_dirty_at(
                        rx,
                        ry,
                        rz,
                    ) ==> self.chunk.spec_dirty_at(rx, ry, rz)),
            decreases nd - d,
        {
            let ghost pre = *self;
            let det = dets[d];
            let r = self.explode_at(det.0, det.1);
            if r {
                changed = true;
            }
            proof {
                assert forall|i: int, j: int, k: int|
                    #![trigger self.chunk.spec_block_at(i, j, k)]
                    self.chunk.spec_in_bounds(i, j, k) implies self.chunk.spec_block_at(i, j, k)
                    == (if old(self).chunk.spec_block_at(i, j, k) != Block::Air && (exists|t: int|
                    0 <= t < d + 1 && spec_in_blast(
                        (#[trigger] dets_seq[t]).0,
                        dets_seq[t].1 as int,
                        i + ox,
                        j,
                        k + oz,
                    )) {
                    Block::Air
                } else {
                    old(self).chunk.spec_block_at(i, j, k)
                }) by {
                    assert(pre.chunk.spec_block_at(i, j, k) == (if old(self).chunk.spec_block_at(
                        i,
                        j,
                        k,
                    ) != Block::Air && (exists|t: int|
                        0 <= t < d && spec_in_blast(
                            (#[trigger] dets_seq[t]).0,
                            dets_seq[t].1 as int,
                            i + ox,
                            j,
                            k + oz,
                        )) {
                        Block::Air
                    } else {
                        old(self).chunk.spec_block_at(i, j, k)
                    }));
                    if self.chunk.spec_block_at(i, j, k) == Block::Air && old(
                        self,
                    ).chunk.spec_block_at(i, j, k) != Block::Air {
                        if pre.chunk.spec_block_at(i, j, k) != Block::Air {
                            assert(spec_in_blast(
                                dets_seq[d as int].0,
                                dets_seq[d as int].1 as int,
                                i + ox,
                                j,
                                k + oz,
                            ));
                        }
                    }
                }
                assert forall|i: int, j: int, k: int|
                    #![trigger old(self).chunk.spec_block_at(i, j, k)]
                    old(self).chunk.spec_in_bounds(i, j, k) && old(self).chunk.spec_block_at(
                        i,
                        j,
                        k,
                    ) != Block::Air && (exists|t: int|
                        0 <= t < d + 1 && spec_in_blast(
                            (#[trigger] dets_seq[t]).0,
                            dets_seq[t].1 as int,
                            i + ox,
                            j,
                            k + oz,
                        )) implies (changed == true) by {
                    if !(exists|t: int|
                        0 <= t < d && spec_in_blast(
                            (#[trigger] dets_seq[t]).0,
                            dets_seq[t].1 as int,
                            i + ox,
                            j,
                            k + oz,
                        )) {
                        assert(spec_in_blast(
                            dets_seq[d as int].0,
                            dets_seq[d as int].1 as int,
                            i + ox,
                            j,
                            k + oz,
                        ));
                        assert(pre.chunk.spec_block_at(i, j, k) == old(self).chunk.spec_block_at(
                            i,
                            j,
                            k,
                        ));
                        assert(r);
                    }
                }
            }
            d = d + 1;
        }
        changed
    }

    /// Advance every bullet one tick, in index order, exactly as
    /// `spec_bullets_tick` says: gravity, integration, block contact, then
    /// first-mob-hit resolution with the bullet's damage; bullets die on any
    /// block hit, mob hit or exhausted travel budget; each hit emits an
    /// impact burst and each hit that leaves the mob at or below zero health
    /// emits a death burst; such mobs are removed in the same call.
    #[verifier::rlimit(60)]
    pub fn update_bullets(&mut self) -> (changed: bool)
        requires
            old(self).wf(),
        ensures
            final(self).wf(),
            final(self).chunk == old(self).chunk,
            final(self).explosives@ == old(self).explosives@,
            final(self).spec_spawn_timer() == old(self).spec_spawn_timer(),
            forall|i: int|
                0 <= i < old(self).particles@.len() ==> final(self).particles@[i] == old(
                    self,
                ).particles@[i],
            ({
                let tick = spec_bullets_tick(
                    old(self).chunk,
                    old(self).bullets@,
                    old(self).mobs@,
                    old(self).bullets@.len() as int,
                );
                &&& final(self).bullets@ == tick.0
                &&& final(self).mobs@ == tick.1.filter(|m: Mob| m.health > 0)
                &&& final(self).particles@.len() == old(self).particles@.len() + 10 * tick.2 + 26
                    * tick.3
                &&& changed == (tick.2 > 0 || tick.1.filter(|m: Mob| m.health > 0).len()
                    < tick.1.len())
            }),
            forall|j: int|
                0 <= j < final(self).mobs@.len() ==> (#[trigger] final(self).mobs@[j]).health > 0,
            final(self).bullets@.len() <= old(self).bullets@.len(),
            final(self).mobs@.len() <= old(self).mobs@.len(),
    {
        let n: usize = self.bullets.len();
        let mut kept: Vec<Bullet> = Vec::new();
        let mut hit_any: bool = false;
        let ghost mobs0 = self.mobs@;
        let mut i: usize = 0;
        while i < n
            invariant
                i <= n,
                n == old(self).bullets@.len(),
                self.wf(),
                self.chunk == old(self).chunk,
                self.bullets@ == old(self).bullets@,
                self.explosives@ == old(self).explosives@,
                self.spec_spawn_timer() == old(self).spec_spawn_timer(),
                mobs0 == old(self).mobs@,
                self.mobs@.len() == mobs0.len(),
                kept@.len() <= i,
                forall|t: int| 0 <= t < kept@.len() ==> (#[trigger] kept@[t]).wf(),
                spec_bullets_tick(old(self).chunk, old(self).bullets@, mobs0, i as int).2 >= 0,
                spec_bullets_tick(old(self).chunk, old(self).bullets@, mobs0, i as int).3 >= 0,
                kept@ == spec_bullets_tick(old(self).chunk, old(self).bullets@, mobs0, i as int).0,
                self.mobs@ == spec_bullets_tick(
                    old(self).chunk,
                    old(self).bullets@,
                    mobs0,
                    i as int,
                ).1,
                self.particles@.len() == old(self).particles@.len() + 10 * spec_bullets_tick(
                    old(self).chunk,
                    old(self).bullets@,
                    mobs0,
                    i as int,
                ).2 + 26 * spec_bullets_tick(
                    old(self).chunk,
                    old(self).bullets@,
                    mobs0,
                    i as int,
                ).3,
                hit_any == (spec_bullets_tick(
                    old(self).chunk,
                    old(self).bullets@,
                    mobs0,
                    i as int,
                ).2 > 0),
                forall|j: int|
                    0 <= j < old(self).particles@.len() ==> self.particles@[j] == old(
                        self,
                    ).particles@[j],
            decreases n - i,
        {
            let ghost prev_mobs = self.mobs@;
            let b: Bullet = self.bullets[i];
            let adv: Bullet = advance_bullet_exec(b);
            if !hit_block_exec(&self.chunk, adv.position) {
                match first_hit_mob(&self.mobs, b.position, adv.position) {
                    Option::Some(j) => {
                        let m: Mob = self.mobs[j];
                        let mut m2: Mob = m;
                        m2.health = clamp_i64(m.health - b.damage, -1000000000, 1000000000);
                        self.mobs.set(j, m2);
                        hit_any = true;
                        proof {
                            assert(m2 == spec_damaged(m, b.damage as int));
                        }
                        self.spawn_particles(adv.position, 10, (1000, 200, 200), 1200, 30, 1800);
                        if m2.health <= 0 {
                            let dead_pos: Vec3 = m2.position;
                            self.spawn_particles(dead_pos, 26, (1000, 550, 150), 2200, 55, 2800);
                        }
                    },
                    Option::None => {
                        if adv.traveled < b.max_distance {
                            kept.push(adv);
                        }
                    },
                }
            }
            proof {
                let tn = spec_bullets_tick(old(self).chunk, old(self).bullets@, mobs0, i + 1);
                assert(kept@ == tn.0);
                assert(self.mobs@ == tn.1);
                assert(self.particles@.len() == old(self).particles@.len() + 10 * tn.2 + 26
                    * tn.3);
                assert(hit_any == (tn.2 > 0));
            }
            i = i + 1;
        }
        self.bullets = kept;
        let ghost damaged = self.mobs@;
        let m: usize = self.mobs.len();
        let mut alive: Vec<Mob> = Vec::new();
        let mut j: usize = 0;
        proof {
            assert(damaged.take(0).filter(|m: Mob| m.health > 0) =~= Seq::<Mob>::empty()) by {
                reveal(Seq::filter);
                assert(damaged.take(0) =~= Seq::<Mob>::empty());
            }
        }
        while j < m
            invariant
                j <= m,
                m == self.mobs@.len(),
                self.wf(),
                damaged == self.mobs@,
                alive@ == damaged.take(j as int).filter(|m: Mob| m.health > 0),
                forall|t: int| 0 <= t < alive@.len() ==> (#[trigger] alive@[t]).wf()
                    && alive@[t].health > 0,
            decreases m - j,
        {
            let mob: Mob = self.mobs[j];
            let ghost pre_alive = alive@;
            if mob.health > 0 {
                alive.push(mob);
            }
            proof {
                let pred = |m: Mob| m.health > 0;
                let prefix = damaged.take(j as int);
                let ext = damaged.take(j + 1);
                assert(ext =~= prefix.push(damaged[j as int]));
                assert(ext.drop_last() =~= prefix);
                assert(ext.filter(pred) == if pred(mob) {
                    prefix.filter(pred).push(mob)
                } else {
                    prefix.filter(pred)
                }) by {
                    reveal(Seq::filter);
                }
            }
            j = j + 1;
        }
        proof {
            assert(damaged.take(m as int) =~= damaged);
        }
        let before: usize = self.mobs.len();
        self.mobs = alive;
        let changed: bool = hit_any || self.mobs.len() != before;
        proof {
            assert(damaged.filter(|m: Mob| m.health > 0).len() <= damaged.len()) by {
                damaged.lemma_filter_len(|m: Mob| m.health > 0);
            }
        }
        changed
    }

    /// One tick of mob simulation: the periodic spawn attempt, then each
    /// mob's step in index order, exactly as `spec_mob_step` describes.
    /// Returns whether anything moved or spawned, and the total damage
    /// dealt to the player.
    pub fn update_mobs(&mut self, player: Vec3) -> (r: (bool, i64))
        requires
            old(self).wf(),
            player.spec_in_pos_range(),
        ensures
            final(self).wf(),
            final(self).chunk == old(self).chunk,
            final(self).bullets@ == old(self).bullets@,
            final(self).explosives@ == old(self).explosives@,
            final(self).particles@ == old(self).particles@,
            final(self).spec_spawn_timer() == (if old(self).spec_spawn_timer() + 1
                >= SPAWN_INTERVAL {
                0
            } else {
                old(self).spec_spawn_timer() + 1
            }),
            ({
                let seeded = if old(self).spec_spawn_timer() + 1 >= SPAWN_INTERVAL {
                    spec_spawn_attempt(old(self).chunk, old(self).mobs@, player)
                } else {
                    old(self).mobs@
                };
                let tick = spec_mobs_tick(old(self).chunk, seeded, player, seeded.len() as int);
                &&& final(self).mobs@ == tick.0
                &&& r.1 == tick.1
                &&& r.0 == (seeded.len() > old(self).mobs@.len() || tick.2)
            }),
            old(self).mobs@.len() <= final(self).mobs@.len() <= old(self).mobs@.len() + 1,
            0 <= r.1 <= final(self).mobs@.len() * MOB_ATTACK_DAMAGE,
    {
        let mut player_damage: i64 = 0;
        self.spawn_timer = self.spawn_timer + 1;
        let mut spawn_grew: bool = false;
        if self.spawn_timer >= SPAWN_INTERVAL {
            self.spawn_timer = 0;
            if self.try_spawn_mob_near(player) {
                spawn_grew = true;
            }
        }
        let ghost base = *self;
        let n: usize = self.mobs.len();
        let mut any_moved: bool = false;
        let mut i: usize = 0;
        while i < n
            invariant
                i <= n,
                n == self.mobs@.len(),
                self.wf(),
                self.chunk == base.chunk,
                self.bullets@ == base.bullets@,
                self.explosives@ == base.explosives@,
                self.particles@ == base.particles@,
                self.spec_spawn_timer() == base.spec_spawn_timer(),
                self.mobs@.len() == base.mobs@.len(),
                self.mobs@ == spec_mobs_tick(base.chunk, base.mobs@, player, i as int).0,
                player_damage as int == spec_mobs_tick(base.chunk, base.mobs@, player, i as int).1,
                any_moved == spec_mobs_tick(base.chunk, base.mobs@, player, i as int).2,
                0 <= player_damage <= i * MOB_ATTACK_DAMAGE,
                player.spec_in_pos_range(),
            decreases n - i,
        {
            let (stepped, delta, moved) = mob_step_exec(&self.chunk, &self.mobs, i, player);
            player_damage = player_damage + delta;
            if moved {
                any_moved = true;
            }
            self.mobs.set(i, stepped);
            i = i + 1;
        }
        ((spawn_grew || any_moved), player_damage)
    }

    /// Break the first in-extent non-empty block along a ray: march in fixed
    /// steps from the origin along the normalized direction, clear the first
    /// solid cell met and emit debris particles. Reports whether a block was
    /// broken; a zero-length direction breaks nothing.
    #[verifier::rlimit(80)]
    pub fn break_block_from_ray(&mut self, origin: Vec3, direction: Vec3, max_distance: i64) -> (r:
        bool)
        requires
            old(self).wf(),
            origin.spec_in_pos_range(),
            direction.spec_in_pos_range(),
            0 <= max_distance <= crate::geom::DIST_LIMIT,
        ensures
            final(self).wf(),
            final(self).chunk.spec_same_shape(old(self).chunk),
            final(self).bullets@ == old(self).bullets@,
            final(self).mobs@ == old(self).mobs@,
            final(self).explosives@ == old(self).explosives@,
            final(self).spec_spawn_timer() == old(self).spec_spawn_timer(),
            forall|i: int|
                0 <= i < old(self).particles@.len() ==> final(self).particles@[i] == old(
                    self,
                ).particles@[i],
            final(self).particles@.len() >= old(self).particles@.len(),
            direction.spec_is_zero() ==> (!r && final(self).chunk == old(self).chunk && final(self).particles@ == old(self).particles@),
            !direction.spec_is_zero() ==> ({
                let m = spec_break_march(
                    old(self).chunk,
                    origin,
                    spec_normalize(direction),
                    RAY_STEP as int,
                    max_distance as int,
                    0,
                );
                match m {
                    Option::None => !r && final(self).chunk == old(self).chunk && final(self).particles@ == old(self).particles@,
                    Option::Some(cell) => r && final(self).particles@.len() == old(
                        self,
                    ).particles@.len() + 12 && (forall|i: int, j: int, k: int|
                        #![trigger final(self).chunk.spec_block_at(i, j, k)]
                        final(self).chunk.spec_in_bounds(i, j, k) ==> final(self).chunk.spec_block_at(i, j, k) == (if i == cell.0 - old(
                            self,
                        ).chunk.spec_origin_x() && j == cell.1 && k == cell.2 - old(
                            self,
                        ).chunk.spec_origin_z() {
                            Block::Air
                        } else {
                            old(self).chunk.spec_block_at(i, j, k)
                        })),
                }
            }),
            forall|rx: int, ry: int, rz: int|
                #![trigger final(self).chunk.spec_dirty_at(rx, ry, rz)]
                final(self).chunk.spec_region_valid(rx, ry, rz) ==> (old(self).chunk.spec_dirty_at(
                    rx,
                    ry,
                    rz,
                ) ==> final(self).chunk.spec_dirty_at(rx, ry, rz)),
    {
        let nd: Vec3 = match normalize(direction) {
            Option::None => { return false },
            Option::Some(u) => u,
        };
        let (ox, oz) = self.chunk.origin();
        let w: usize = self.chunk.width();
        let h: usize = self.chunk.height();
        let d: usize = self.chunk.depth();
        let mut t: i64 = 0;
        while t <= max_distance
            invariant
                self == old(self),
                self.wf(),
                origin.spec_in_pos_range(),
                0 <= t <= max_distance + RAY_STEP,
                0 <= max_distance <= crate::geom::DIST_LIMIT,
                -FIX_ONE <= nd.x <= FIX_ONE,
                -FIX_ONE <= nd.y <= FIX_ONE,
                -FIX_ONE <= nd.z <= FIX_ONE,
                !direction.spec_is_zero(),
                nd == spec_normalize(direction),
                ox as int == self.chunk.spec_origin_x(),
                oz as int == self.chunk.spec_origin_z(),
                w == self.chunk.spec_width(),
                h == self.chunk.spec_height(),
                d == self.chunk.spec_depth(),
                spec_break_march(
                    old(self).chunk,
                    origin,
                    nd,
                    RAY_STEP as int,
                    max_distance as int,
                    0,
                ) == spec_break_march(
                    old(self).chunk,
                    origin,
                    nd,
                    RAY_STEP as int,
                    max_distance as int,
                    t as int,
                ),
            decreases max_distance + RAY_STEP - t,
        {
            proof {
                crate::geom::lemma_div_trunc_prod_bound(nd.x as int, t as int, FIX_ONE as int);
                crate::geom::lemma_div_trunc_prod_bound(nd.y as int, t as int, FIX_ONE as int);
                crate::geom::lemma_div_trunc_prod_bound(nd.z as int, t as int, FIX_ONE as int);
            }
            let off_x: i64 = div_trunc_i128((nd.x as i128) * (t as i128), FIX_ONE as i128) as i64;
            let off_y: i64 = div_trunc_i128((nd.y as i128) * (t as i128), FIX_ONE as i128) as i64;
            let off_z: i64 = div_trunc_i128((nd.z as i128) * (t as i128), FIX_ONE as i128) as i64;
            let px: i64 = origin.x + off_x;
            let py: i64 = origin.y + off_y;
            let pz: i64 = origin.z + off_z;
            let cx: i64 = crate::geom::cell_of(px);
            let cy: i64 = crate::geom::cell_of(py);
            let cz: i64 = crate::geom::cell_of(pz);
            proof {
                crate::geom::lemma_cell_of_in_i32(px as int);
                crate::geom::lemma_cell_of_in_i32(py as int);
                crate::geom::lemma_cell_of_in_i32(pz as int);
            }
            if cx >= ox as i64 && cx < ox as i64 + w as i64 && cy >= 0 && cy < h as i64 && cz
                >= oz as i64 && cz < oz as i64 + d as i64 {
                if self.chunk.get_i32(cx as i32, cy as i32, cz as i32) != Block::Air {
                    proof {
                        assert(crate::spatial::spec_ray_cell(origin, nd, t as int) == (
                        cx as int,
                        cy as int,
                        cz as int,
                        ));
                        assert(spec_break_march(
                            old(self).chunk,
                            origin,
                            nd,
                            RAY_STEP as int,
                            max_distance as int,
                            t as int,
                        ) == Option::Some((cx as int, cy as int, cz as int)));
                    }
                    let lx: i64 = cx - ox as i64;
                    let lz: i64 = cz - oz as i64;
                    self.chunk.set(lx as usize, cy as usize, lz as usize, Block::Air);
                    let burst = Vec3 {
                        x: clamp_i64(px, -POS_LIMIT, POS_LIMIT),
                        y: clamp_i64(py, -POS_LIMIT, POS_LIMIT),
                        z: clamp_i64(pz, -POS_LIMIT, POS_LIMIT),
                    };
                    self.spawn_particles(burst, 12, (800, 750, 650), 1000, 25, 1200);
                    return true;
                }
            }
            t = t + RAY_STEP;
        }
        false
    }

    /// Place a block in the last empty in-extent cell before the first
    /// solid cell along a ray. Fails (placing nothing) for the empty block,
    /// a zero-length direction, no solid target in range, or a target with
    /// no empty cell in front of it.
    #[verifier::rlimit(80)]
    pub fn place_block_from_ray(
        &mut self,
        origin: Vec3,
        direction: Vec3,
        max_distance: i64,
        block: Block,
    ) -> (r: bool)
        requires
            old(self).wf(),
            origin.spec_in_pos_range(),
            direction.spec_in_pos_range(),
            0 <= max_distance <= crate::geom::DIST_LIMIT,
        ensures
            final(self).wf(),
            final(self).chunk.spec_same_shape(old(self).chunk),
            final(self).bullets@ == old(self).bullets@,
            final(self).mobs@ == old(self).mobs@,
            final(self).explosives@ == old(self).explosives@,
            final(self).particles@ == old(self).particles@,
            final(self).spec_spawn_timer() == old(self).spec_spawn_timer(),
            (block == Block::Air || direction.spec_is_zero()) ==> (!r && final(self).chunk == old(
                self,
            ).chunk),
            (block != Block::Air && !direction.spec_is_zero()) ==> ({
                let m = spec_place_march(
                    old(self).chunk,
                    origin,
                    spec_normalize(direction),
                    RAY_STEP as int,
                    max_distance as int,
                    0,
                    Option::None,
                );
                match m {
                    Option::None => !r && final(self).chunk == old(self).chunk,
                    Option::Some(cell) => r && (forall|i: int, j: int, k: int|
                        #![trigger final(self).chunk.spec_block_at(i, j, k)]
                        final(self).chunk.spec_in_bounds(i, j, k) ==> final(self).chunk.spec_block_at(i, j, k) == (if i == cell.0 - old(
                            self,
                        ).chunk.spec_origin_x() && j == cell.1 && k == cell.2 - old(
                            self,
                        ).chunk.spec_origin_z() {
                            block
                        } else {
                            old(self).chunk.spec_block_at(i, j, k)
                        })),
                }
            }),
            forall|rx: int, ry: int, rz: int|
                #![trigger final(self).chunk.spec_dirty_at(rx, ry, rz)]
                final(self).chunk.spec_region_valid(rx, ry, rz) ==> (old(self).chunk.spec_dirty_at(
                    rx,
                    ry,
                    rz,
                ) ==> final(self).chunk.spec_dirty_at(rx, ry, rz)),
    {
        if block == Block::Air {
            return false;
        }
        let nd: Vec3 = match normalize(direction) {
            Option::None => { return false },
            Option::Some(u) => u,
        };
        let (ox, oz) = self.chunk.origin();
        let w: usize = self.chunk.width();
        let h: usize = self.chunk.height();
        let d: usize = self.chunk.depth();
        let mut last_air: Option<(i64, i64, i64)> = Option::None;
        let mut t: i64 = 0;
        while t <= max_distance
            invariant
                self == old(self),
                self.wf(),
                origin.spec_in_pos_range(),
                0 <= t <= max_distance + RAY_STEP,
                0 <= max_distance <= crate::geom::DIST_LIMIT,
                -FIX_ONE <= nd.x <= FIX_ONE,
                -FIX_ONE <= nd.y <= FIX_ONE,
                -FIX_ONE <= nd.z <= FIX_ONE,
                !direction.spec_is_zero(),
                block != Block::Air,
                nd == spec_normalize(direction),
                ox as int == self.chunk.spec_origin_x(),
                oz as int == self.chunk.spec_origin_z(),
                w == self.chunk.spec_width(),
                h == self.chunk.spec_height(),
                d == self.chunk.spec_depth(),
                match last_air {
                    Option::Some(la) => spec_cell_in_extent(
                        self.chunk,
                        la.0 as int,
                        la.1 as int,
                        la.2 as int,
                    ),
                    Option::None => true,
                },
                spec_place_march(
                    old(self).chunk,
                    origin,
                    nd,
                    RAY_STEP as int,
                    max_distance as int,
                    0,
                    Option::None,
                ) == spec_place_march(
                    old(self).chunk,
                    origin,
                    nd,
                    RAY_STEP as int,
                    max_distance as int,
                    t as int,
                    match last_air {
                        Option::Some(la) => Option::Some((la.0 as int, la.1 as int, la.2 as int)),
                        Option::None => Option::None,
                    },
                ),
            decreases max_distance + RAY_STEP - t,
        {
            proof {
                crate::geom::lemma_div_trunc_prod_bound(nd.x as int, t as int, FIX_ONE as int);
                crate::geom::lemma_div_trunc_prod_bound(nd.y as int, t as int, FIX_ONE as int);
                crate::geom::lemma_div_trunc_prod_bound(nd.z as int, t as int, FIX_ONE as int);
            }
            let off_x: i64 = div_trunc_i128((nd.x as i128) * (t as i128), FIX_ONE as i128) as i64;
            let off_y: i64 = div_trunc_i128((nd.y as i128) * (t as i128), FIX_ONE as i128) as i64;
            let off_z: i64 = div_trunc_i128((nd.z as i128) * (t as i128), FIX_ONE as i128) as i64;
            let px: i64 = origin.x + off_x;
            let py: i64 = origin.y + off_y;
            let pz: i64 = origin.z + off_z;
            let cx: i64 = crate::geom::cell_of(px);
            let cy: i64 = crate::geom::cell_of(py);
            let cz: i64 = crate::geom::cell_of(pz);
            proof {
                crate::geom::lemma_cell_of_in_i32(px as int);
                crate::geom::lemma_cell_of_in_i32(py as int);
                crate::geom::lemma_cell_of_in_i32(pz as int);
                assert(crate::spatial::spec_ray_cell(origin, nd, t as int) == (
                cx as int,
                cy as int,
                cz as int,
                ));
            }
            if cx >= ox as i64 && cx < ox as i64 + w as i64 && cy >= 0 && cy < h as i64 && cz
                >= oz as i64 && cz < oz as i64 + d as i64 {
                let current = self.chunk.get_i32(cx as i32, cy as i32, cz as i32);
                if current == Block::Air {
                    last_air = Option::Some((cx, cy, cz));
                } else {
                    match last_air {
                        Option::Some(la) => {
                            proof {
                                assert(spec_place_march(
                                    old(self).chunk,
                                    origin,
                                    nd,
                                    RAY_STEP as int,
                                    max_distance as int,
                                    t as int,
                                    Option::Some((la.0 as int, la.1 as int, la.2 as int)),
                                ) == Option::Some((la.0 as int, la.1 as int, la.2 as int)));
                            }
                            let lx: i64 = la.0 - ox as i64;
                            let lz: i64 = la.2 - oz as i64;
                            self.chunk.set(lx as usize, la.1 as usize, lz as usize, block);
                            return true;
                        },
                        Option::None => {
                            proof {
                                assert(spec_place_march(
                                    old(self).chunk,
                                    origin,
                                    nd,
                                    RAY_STEP as int,
                                    max_distance as int,
                                    t as int,
                                    Option::None,
                                ) is None);
                            }
                            return false;
                        },
                    }
                }
            }
            t = t + RAY_STEP;
        }
        false
    }
}

/// One component of a normalized direction scaled to a speed or offset:
/// `c * scale / FIX_ONE`, truncating toward zero.
fn scaled_component(c: i64, scale: i64) -> (r: i64)
    requires
        -FIX_ONE <= c <= FIX_ONE,
        0 <= scale <= 1000000,
    ensures
        r == spec_div_trunc(c as int * scale, FIX_ONE as int),
        -scale <= r <= scale,
{
    proof {
        crate::geom::lemma_div_trunc_prod_bound(c as int, scale as int, FIX_ONE as int);
    }
    let r: i128 = div_trunc_i128((c as i128) * (scale as i128), FIX_ONE as i128);
    r as i64
}

/// One particle velocity component: `c * speed / 1000` with `c` in
/// `[-1000, 1000]`, truncating toward zero.
fn particle_component(c: i64, speed: i64) -> (r: i64)
    requires
        -1000 <= c <= 1000,
        0 <= speed <= 10000,
    ensures
        -speed <= r <= speed,
{
    proof {
        crate::geom::lemma_div_trunc_prod_bound(c as int, speed as int, 1000);
    }
    let r: i128 = div_trunc_i128((c as i128) * (speed as i128), 1000);
    r as i64
}

/// Advance one particle a tick, exactly as `spec_advance_particle` says.
fn advance_particle_exec(p: Particle) -> (r: Particle)
    requires
        p.wf(),
    ensures
        r == spec_advance_particle(p),
        r.wf() || r.life < 0 || r.life == 0,
        r.position.spec_in_pos_range(),
        r.velocity.spec_in_vel_range(),
        r.life >= 0 ==> r.wf(),
{
    let vy: i64 = clamp_i64(p.velocity.y - PARTICLE_GRAVITY, -VEL_LIMIT, VEL_LIMIT);
    Particle {
        position: Vec3 {
            x: clamp_i64(p.position.x + p.velocity.x, -POS_LIMIT, POS_LIMIT),
            y: clamp_i64(p.position.y + vy, -POS_LIMIT, POS_LIMIT),
            z: clamp_i64(p.position.z + p.velocity.z, -POS_LIMIT, POS_LIMIT),
        },
        velocity: Vec3 { x: p.velocity.x, y: vy, z: p.velocity.z },
        life: p.life - 1,
        color: p.color,
        size: p.size,
    }
}

/// A cell centre within the blast radius lies inside the scanned cell box.
proof fn lemma_blast_inside_box(
    center: Vec3,
    radius: int,
    bx: int,
    by: int,
    bz: int,
    min_x: int,
    max_x: int,
    min_y: int,
    max_y: int,
    min_z: int,
    max_z: int,
)
    requires
        spec_in_blast(center, radius, bx, by, bz),
        0 <= radius,
        min_x == spec_cell_of(center.x - radius),
        max_x == spec_cell_of(center.x + radius) + 1,
        min_y == spec_cell_of(center.y - radius),
        max_y == spec_cell_of(center.y + radius) + 1,
        min_z == spec_cell_of(center.z - radius),
        max_z == spec_cell_of(center.z + radius) + 1,
    ensures
        min_x <= bx <= max_x,
        min_y <= by <= max_y,
        min_z <= bz <= max_z,
{
    let dx = bx * FIX_ONE + FIX_HALF - center.x;
    let dy = by * FIX_ONE + FIX_HALF - center.y;
    let dz = bz * FIX_ONE + FIX_HALF - center.z;
    assert(dx * dx >= 0 && dy * dy >= 0 && dz * dz >= 0) by (nonlinear_arith);
    assert(dx * dx <= radius * radius && dy * dy <= radius * radius && dz * dz <= radius
        * radius) by (nonlinear_arith)
        requires
            dx * dx + dy * dy + dz * dz <= radius * radius,
            dx * dx >= 0,
            dy * dy >= 0,
            dz * dz >= 0,
    ;
    assert(-radius <= dx <= radius) by (nonlinear_arith)
        requires
            dx * dx <= radius * radius,
            radius >= 0,
    ;
    assert(-radius <= dy <= radius) by (nonlinear_arith)
        requires
            dy * dy <= radius * radius,
            radius >= 0,
    ;
    assert(-radius <= dz <= radius) by (nonlinear_arith)
        requires
            dz * dz <= radius * radius,
            radius >= 0,
    ;
    lemma_cell_box_bound(center.x as int, radius, bx);
    lemma_cell_box_bound(center.y as int, radius, by);
    lemma_cell_box_bound(center.z as int, radius, bz);
}

/// If a cell's centre is within `radius` of a coordinate, the cell index is
/// between the indices of the interval's ends.
proof fn lemma_cell_box_bound(c: int, radius: int, b: int)
    requires
        0 <= radius,
        -radius <= b * FIX_ONE + FIX_HALF - c <= radius,
    ensures
        spec_cell_of(c - radius) <= b <= spec_cell_of(c + radius) + 1,
{
    assert(spec_cell_of(c - radius) <= b && b <= spec_cell_of(c + radius) + 1)
        by (nonlinear_arith)
        requires
            0 <= radius,
            -radius <= b * 10000 + 5000 - c <= radius,
            spec_cell_of(c - radius) == (c - radius) / 10000,
            spec_cell_of(c + radius) == (c + radius) / 10000,
    ;
}

/// Advance one explosive a tick, exactly as `spec_advance_explosive` says.
fn advance_explosive_exec(e: Explosive) -> (r: Explosive)
    requires
        e.wf(),
    ensures
        r == spec_advance_explosive(e),
        r.position.spec_in_pos_range(),
        r.velocity.spec_in_vel_range(),
        r.radius == e.radius,
        r.timer == e.timer - 1,
        r.timer > 0 ==> r.wf(),
{
    let vy: i64 = clamp_i64(e.velocity.y - EXPLOSIVE_GRAVITY, -VEL_LIMIT, VEL_LIMIT);
    Explosive {
        position: Vec3 {
            x: clamp_i64(e.position.x + e.velocity.x, -POS_LIMIT, POS_LIMIT),
            y: clamp_i64(e.position.y + vy, -POS_LIMIT, POS_LIMIT),
            z: clamp_i64(e.position.z + e.velocity.z, -POS_LIMIT, POS_LIMIT),
        },
        velocity: Vec3 { x: e.velocity.x, y: vy, z: e.velocity.z },
        timer: e.timer - 1,
        radius: e.radius,
    }
}

/// Advance one bullet a tick, exactly as `spec_advance_bullet` says.
fn advance_bullet_exec(b: Bullet) -> (r: Bullet)
    requires
        b.wf(),
    ensures
        r == spec_advance_bullet(b),
        r.position.spec_in_pos_range(),
        r.velocity.spec_in_vel_range(),
        r.damage == b.damage,
        r.max_distance == b.max_distance,
        b.traveled <= r.traveled <= b.max_distance + 2000000,
        r.traveled < r.max_distance ==> r.wf(),
{
    let vy: i64 = clamp_i64(b.velocity.y - BULLET_GRAVITY, -VEL_LIMIT, VEL_LIMIT);
    let v = Vec3 { x: b.velocity.x, y: vy, z: b.velocity.z };
    let step: i64 = crate::geom::vec_len(v);
    proof {
        crate::geom::lemma_len_bounds_components(v);
        assert(crate::geom::spec_len(v) <= 2000000) by {
            let nn = (v.x * v.x + v.y * v.y + v.z * v.z) as nat;
            assert(v.x * v.x >= 0 && v.y * v.y >= 0 && v.z * v.z >= 0 && v.x * v.x + v.y * v.y
                + v.z * v.z <= 3000000000000) by (nonlinear_arith)
                requires
                    -1000000 <= v.x <= 1000000,
                    -1000000 <= v.y <= 1000000,
                    -1000000 <= v.z <= 1000000,
            ;
            crate::geom::lemma_sqrt_floor(nn);
            let rr = crate::geom::spec_sqrt_floor(nn) as int;
            assert(rr <= 2000000) by (nonlinear_arith)
                requires
                    rr * rr <= nn as int,
                    nn as int <= 3000000000000,
                    rr >= 0,
            ;
        }
    }
    Bullet {
        position: Vec3 {
            x: clamp_i64(b.position.x + v.x, -POS_LIMIT, POS_LIMIT),
            y: clamp_i64(b.position.y + v.y, -POS_LIMIT, POS_LIMIT),
            z: clamp_i64(b.position.z + v.z, -POS_LIMIT, POS_LIMIT),
        },
        velocity: v,
        damage: b.damage,
        max_distance: b.max_distance,
        traveled: b.traveled + step,
    }
}

/// Whether a point lies in a non-empty cell of the addressable extent.
fn hit_block_exec(chunk: &Chunk, p: Vec3) -> (r: bool)
    requires
        chunk.wf(),
        p.spec_in_pos_range(),
    ensures
        r == spec_bullet_hit_block(*chunk, p),
{
    let bx: i64 = crate::geom::cell_of(p.x);
    let by: i64 = crate::geom::cell_of(p.y);
    let bz: i64 = crate::geom::cell_of(p.z);
    proof {
        crate::geom::lemma_cell_of_in_i32(p.x as int);
        crate::geom::lemma_cell_of_in_i32(p.y as int);
        crate::geom::lemma_cell_of_in_i32(p.z as int);
    }
    let (ox, oz) = chunk.origin();
    let w: usize = chunk.width();
    let h: usize = chunk.height();
    let d: usize = chunk.depth();
    if bx >= ox as i64 && bx < ox as i64 + w as i64 && by >= 0 && by < h as i64 && bz >= oz as i64
        && bz < oz as i64 + d as i64 {
        chunk.get_i32(bx as i32, by as i32, bz as i32) != Block::Air
    } else {
        false
    }
}

/// The first mob the segment hits, scanning by index.
fn first_hit_mob(mobs: &Vec<Mob>, s: Vec3, e: Vec3) -> (r: Option<usize>)
    requires
        s.spec_in_pos_range(),
        e.spec_in_pos_range(),
        crate::geom::spec_abs(e.x - s.x) <= 2000000,
        crate::geom::spec_abs(e.z - s.z) <= 2000000,
        forall|j: int| 0 <= j < mobs@.len() ==> (#[trigger] mobs@[j]).wf(),
    ensures
        match r {
            Option::Some(j) => j < mobs@.len() && spec_first_hit_mob(mobs@, s, e)
                == Option::Some(j as int),
            Option::None => spec_first_hit_mob(mobs@, s, e) is None,
        },
{
    let n: usize = mobs.len();
    let mut j: usize = 0;
    while j < n
        invariant
            j <= n,
            n == mobs@.len(),
            s.spec_in_pos_range(),
            e.spec_in_pos_range(),
            crate::geom::spec_abs(e.x - s.x) <= 2000000,
            crate::geom::spec_abs(e.z - s.z) <= 2000000,
            forall|t: int| 0 <= t < mobs@.len() ==> (#[trigger] mobs@[t]).wf(),
            forall|t: int|
                0 <= t < j ==> !crate::spatial::spec_bullet_hits_mob(s, e, #[trigger] mobs@[t]),
        decreases n - j,
    {
        let mob: Mob = mobs[j];
        if crate::spatial::bullet_hits_mob(s, e, &mob) {
            proof {
                lemma_first_hit_mob(mobs@, s, e);
                match spec_first_hit_mob(mobs@, s, e) {
                    Option::Some(j0) => {
                        if j0 < j as int {
                            assert(!crate::spatial::spec_bullet_hits_mob(s, e, mobs@[j0]));
                        }
                        if j0 > j as int {
                            assert(!crate::spatial::spec_bullet_hits_mob(s, e, mobs@[j as int]));
                        }
                    },
                    Option::None => {
                        assert(!crate::spatial::spec_bullet_hits_mob(s, e, mobs@[j as int]));
                    },
                }
            }
            return Option::Some(j);
        }
        j = j + 1;
    }
    proof {
        lemma_first_hit_mob(mobs@, s, e);
        match spec_first_hit_mob(mobs@, s, e) {
            Option::Some(j0) => {
                assert(!crate::spatial::spec_bullet_hits_mob(s, e, mobs@[j0]));
            },
            Option::None => {},
        }
    }
    Option::None
}

/// One mob's executable step, exactly as `spec_mob_step` says: returns the
/// updated mob, the damage dealt to the player this step, and whether the
/// mob moved or jumped.
#[verifier::rlimit(100)]
fn mob_step_exec(chunk: &Chunk, mobs: &Vec<Mob>, i: usize, player: Vec3) -> (r: (Mob, i64, bool))
    requires
        chunk.wf(),
        player.spec_in_pos_range(),
        i < mobs@.len(),
        forall|j: int| 0 <= j < mobs@.len() ==> (#[trigger] mobs@[j]).wf(),
    ensures
        (r.0, r.1 as int, r.2) == spec_mob_step(*chunk, mobs@, i as int, player),
        r.0.wf(),
        0 <= r.1 <= MOB_ATTACK_DAMAGE,
{
    let mut mob: Mob = mobs[i];
    let mut moved: bool = false;
    let dx: i64 = player.x - mob.position.x;
    let dz: i64 = player.z - mob.position.z;
    proof {
        assert((dx as i128) * (dx as i128) >= 0 && (dz as i128) * (dz as i128) >= 0 && (
        dx as i128) * (dx as i128) <= 0x10000000000000000000000000 && (dz as i128) * (
        dz as i128) <= 0x10000000000000000000000000) by (nonlinear_arith)
            requires
                -2000000000000 <= dx <= 2000000000000,
                -2000000000000 <= dz <= 2000000000000,
        ;
    }
    let d2: i128 = (dx as i128) * (dx as i128) + (dz as i128) * (dz as i128);
    let mut can_move_x: bool = false;
    let mut can_move_z: bool = false;
    if d2 > 10000 {
        let speed: i64 = if d2 > 196000000 {
            MOB_SPEED_FAR
        } else {
            MOB_SPEED_NEAR
        };
        let dist: i64 = horizontal_dist(dx, dz);
        proof {
            assert(dist >= 1) by (nonlinear_arith)
                requires
                    (dist as int + 1) * (dist as int + 1) > 10000,
                    dist >= 0,
            ;
            crate::geom::lemma_div_trunc_prod_bound(dx as int, speed as int, dist as int);
            crate::geom::lemma_div_trunc_prod_bound(dz as int, speed as int, dist as int);
            assert(-840000000000000 <= (dx as int) * (speed as int) <= 840000000000000
                && -840000000000000 <= (dz as int) * (speed as int) <= 840000000000000)
                by (nonlinear_arith)
                requires
                    -2100000000000 <= dx <= 2100000000000,
                    -2100000000000 <= dz <= 2100000000000,
                    0 <= speed <= 400,
            ;
        }
        let move_x: i64 = div_trunc_i128((dx as i128) * (speed as i128), dist as i128) as i64;
        let move_z: i64 = div_trunc_i128((dz as i128) * (speed as i128), dist as i128) as i64;
        let proposed_x: i64 = clamp_i64(mob.position.x + move_x, -POS_LIMIT, POS_LIMIT);
        can_move_x = !crate::spatial::mob_collides(
            chunk,
            proposed_x,
            mob.position.y,
            mob.position.z,
            mob.radius,
            mob.height,
        ) && !crate::spatial::mob_collides_with_others(
            proposed_x,
            mob.position.z,
            mob.radius,
            mobs,
            i,
        );
        if can_move_x {
            mob.position.x = proposed_x;
            moved = true;
        }
        let proposed_z: i64 = clamp_i64(mob.position.z + move_z, -POS_LIMIT, POS_LIMIT);
        can_move_z = !crate::spatial::mob_collides(
            chunk,
            mob.position.x,
            mob.position.y,
            proposed_z,
            mob.radius,
            mob.height,
        ) && !crate::spatial::mob_collides_with_others(
            mob.position.x,
            proposed_z,
            mob.radius,
            mobs,
            i,
        );
        if can_move_z {
            mob.position.z = proposed_z;
            moved = true;
        }
        if mob.grounded && !can_move_x && !can_move_z && mob.jump_cooldown <= 0 {
            mob.velocity_y = MOB_JUMP_VELOCITY;
            mob.grounded = false;
            mob.jump_cooldown = MOB_JUMP_COOLDOWN;
            moved = true;
        }
    }
    mob.velocity_y = clamp_i64(mob.velocity_y - MOB_GRAVITY, -VEL_LIMIT, VEL_LIMIT);
    let proposed_y: i64 = clamp_i64(mob.position.y + mob.velocity_y, -POS_LIMIT, POS_LIMIT);
    if !crate::spatial::mob_collides(
        chunk,
        mob.position.x,
        proposed_y,
        mob.position.z,
        mob.radius,
        mob.height,
    ) {
        mob.position.y = proposed_y;
        mob.grounded = false;
    } else {
        if mob.velocity_y < 0 {
            let probe_y: i64 = if mob.position.y <= POS_LIMIT - FIX_HALF {
                mob.position.y + FIX_HALF
            } else {
                POS_LIMIT
            };
            match highest_solid_below_chunk(chunk, mob.position.x, mob.position.z, probe_y) {
                Option::Some(ground_y) => {
                    mob.position.y = ground_y;
                },
                Option::None => {},
            }
            mob.grounded = true;
        }
        mob.velocity_y = 0;
    }
    if mob.jump_cooldown > 0 {
        mob.jump_cooldown = mob.jump_cooldown - 1;
    }
    if mob.attack_cooldown > 0 {
        mob.attack_cooldown = mob.attack_cooldown - 1;
    }
    let adx: i64 = player.x - mob.position.x;
    let adz: i64 = player.z - mob.position.z;
    proof {
        assert((adx as i128) * (adx as i128) >= 0 && (adz as i128) * (adz as i128) >= 0 && (
        adx as i128) * (adx as i128) <= 0x10000000000000000000000000 && (adz as i128) * (
        adz as i128) <= 0x10000000000000000000000000) by (nonlinear_arith)
            requires
                -2000000000000 <= adx <= 2000000000000,
                -2000000000000 <= adz <= 2000000000000,
        ;
    }
    let d2h: i128 = (adx as i128) * (adx as i128) + (adz as i128) * (adz as i128);
    let dy: i64 = player.y - mob.position.y;
    let vertical_close: bool = (if dy >= 0 {
        dy
    } else {
        -dy
    }) <= mob.height;
    let touch: i64 = mob.radius + 3500;
    proof {
        assert((touch as i128) * (touch as i128) <= 16000000000000) by (nonlinear_arith)
            requires
                0 <= touch <= 2003500,
        ;
    }
    let attacked: bool = d2h <= (touch as i128) * (touch as i128) && vertical_close
        && mob.attack_cooldown <= 0;
    let delta: i64 = if attacked {
        MOB_ATTACK_DAMAGE
    } else {
        0
    };
    if attacked {
        mob.attack_cooldown = MOB_ATTACK_COOLDOWN;
    }
    (mob, delta, moved)
}

/// The rounded-down horizontal distance of a planar offset.
fn horizontal_dist(dx: i64, dz: i64) -> (r: i64)
    requires
        -2100000000000 <= dx <= 2100000000000,
        -2100000000000 <= dz <= 2100000000000,
    ensures
        r as int == crate::geom::spec_sqrt_floor(((dx as int) * (dx as int) + (dz as int) * (
        dz as int)) as nat) as int,
        (r as int) * (r as int) <= (dx as int) * (dx as int) + (dz as int) * (dz as int),
        (r as int + 1) * (r as int + 1) > (dx as int) * (dx as int) + (dz as int) * (dz as int),
        0 <= r <= 3000000000000,
        crate::geom::spec_abs(dx as int) <= r,
        crate::geom::spec_abs(dz as int) <= r,
{
    let x: i128 = dx as i128;
    let z: i128 = dz as i128;
    proof {
        assert(x * x >= 0 && z * z >= 0 && x * x <= 4410000000000000000000000 && z * z
            <= 4410000000000000000000000) by (nonlinear_arith)
            requires
                -2100000000000 <= x <= 2100000000000,
                -2100000000000 <= z <= 2100000000000,
        ;
    }
    let sum: i128 = x * x + z * z;
    let n: u128 = sum as u128;
    let r: u128 = crate::geom::isqrt_u128(n);
    proof {
        let rr = crate::geom::spec_sqrt_floor(n as nat) as int;
        assert(rr * rr <= n as int && (rr + 1) * (rr + 1) > n as int) by {
            crate::geom::lemma_sqrt_floor(n as nat);
        }
        assert(rr <= 3000000000000) by (nonlinear_arith)
            requires
                rr * rr <= n as int,
                n as int <= 8820000000000000000000000,
                rr >= 0,
        ;
        assert(crate::geom::spec_abs(x as int) <= rr && crate::geom::spec_abs(z as int) <= rr)
            by (nonlinear_arith)
            requires
                (rr + 1) * (rr + 1) > n as int,
                n as int == x * x + z * z,
                x * x >= 0,
                z * z >= 0,
                rr >= 0,
        ;
    }
    r as i64
}

} // verus!
