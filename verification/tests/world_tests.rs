//! Tests of the world aggregate: spawning, the per-tick entity updates,
//! area destruction and the block-interaction rays.

use voxelcore::block::Block;
use voxelcore::chunk::Chunk;
use voxelcore::entity::Bullet;
use voxelcore::entity::Explosive;
use voxelcore::entity::Mob;
use voxelcore::entity::Particle;
use voxelcore::geom::Vec3;
use voxelcore::world::World;

const FIX: i64 = 10000;

fn mob_at(x: i64, y: i64, z: i64, health: i64) -> Mob {
    Mob {
        position: Vec3 { x, y, z },
        health,
        radius: 4000,
        height: 18000,
        velocity_y: 0,
        grounded: false,
        jump_cooldown: 0,
        attack_cooldown: 0,
    }
}

fn bullet_toward_x(x: i64, y: i64, z: i64) -> Bullet {
    Bullet {
        position: Vec3 { x, y, z },
        velocity: Vec3 { x: 2000, y: 0, z: 0 },
        damage: 34,
        max_distance: 1000000,
        traveled: 0,
    }
}

#[test]
fn bullet_hits_mob_once_and_reduces_health() {
    let mut w = World::from_chunk(Chunk::with_extents(16, 16, 16));
    w.mobs.push(mob_at(5 * FIX, 0, 5000, 100));
    w.bullets.push(bullet_toward_x(48000, 5000, 5000));
    let changed = w.update_bullets();
    assert!(changed);
    assert_eq!(w.mobs.len(), 1);
    assert_eq!(w.mobs[0].health, 66);
    assert!(w.bullets.is_empty());
    assert_eq!(w.particles.len(), 10);
}

#[test]
fn mob_at_zero_health_is_removed_in_same_update() {
    let mut w = World::from_chunk(Chunk::with_extents(16, 16, 16));
    w.mobs.push(mob_at(5 * FIX, 0, 5000, 34));
    w.bullets.push(bullet_toward_x(48000, 5000, 5000));
    let changed = w.update_bullets();
    assert!(changed);
    assert!(w.mobs.is_empty());
    assert!(w.bullets.is_empty());
    // A hit burst plus a death burst.
    assert_eq!(w.particles.len(), 10 + 26);
}

#[test]
fn bullet_missing_everything_keeps_flying_until_range() {
    let mut w = World::from_chunk(Chunk::with_extents(16, 16, 16));
    w.bullets.push(bullet_toward_x(5000, 5000, 5000));
    let changed = w.update_bullets();
    assert!(!changed);
    assert_eq!(w.bullets.len(), 1);
    assert_eq!(w.bullets[0].traveled, 2000);
    // Exhausting the budget removes the bullet.
    let mut far = bullet_toward_x(5000, 5000, 5000);
    far.traveled = 999999;
    w.bullets.push(far);
    let _ = w.update_bullets();
    assert_eq!(w.bullets.len(), 1);
}

#[test]
fn explosion_clears_exactly_the_cells_within_radius() {
    let mut c = Chunk::with_extents(8, 8, 8);
    for x in 0..8 {
        for y in 0..8 {
            for z in 0..8 {
                c.set(x, y, z, Block::Stone);
            }
        }
    }
    let mut w = World::from_chunk(c);
    let center = Vec3 { x: 40000, y: 40000, z: 40000 };
    let radius: i64 = 20000;
    let changed = w.explode_at(center, radius);
    assert!(changed);
    for x in 0..8i64 {
        for y in 0..8i64 {
            for z in 0..8i64 {
                let dx = x * FIX + 5000 - center.x;
                let dy = y * FIX + 5000 - center.y;
                let dz = z * FIX + 5000 - center.z;
                let inside = dx * dx + dy * dy + dz * dz <= radius * radius;
                let got = w.block_at(x as i32, y as i32, z as i32);
                if inside {
                    assert_eq!(got, Block::Air);
                } else {
                    assert_eq!(got, Block::Stone);
                }
            }
        }
    }
    // A second identical blast changes nothing.
    assert!(!w.explode_at(center, radius));
}

#[test]
fn explosive_detonates_when_countdown_expires() {
    let mut w = World::from_chunk(Chunk::with_extents(4, 4, 4));
    w.explosives.push(Explosive {
        position: Vec3 { x: 20000, y: 30000, z: 20000 },
        velocity: Vec3 { x: 0, y: 0, z: 0 },
        timer: 1,
        radius: 5000,
    });
    let changed = w.update_explosives();
    // Nothing solid nearby, so no block changes, but the explosive is gone
    // and the blast burst appeared.
    assert!(!changed);
    assert!(w.explosives.is_empty());
    assert_eq!(w.particles.len(), 45);
}

#[test]
fn particles_age_and_expire() {
    let mut w = World::from_chunk(Chunk::with_extents(4, 4, 4));
    w.particles.push(Particle {
        position: Vec3 { x: 0, y: 50000, z: 0 },
        velocity: Vec3 { x: 0, y: 0, z: 0 },
        life: 2,
        color: (1000, 1000, 1000),
        size: 100,
    });
    w.update_particles();
    assert_eq!(w.particles.len(), 1);
    assert_eq!(w.particles[0].life, 1);
    assert_eq!(w.particles[0].velocity.y, -15);
    assert_eq!(w.particles[0].position.y, 50000 - 15);
    w.update_particles();
    assert!(w.particles.is_empty());
}

#[test]
fn spawn_bullet_requires_a_direction() {
    let mut w = World::from_chunk(Chunk::with_extents(4, 4, 4));
    w.spawn_bullet(Vec3::new(0, 20000, 0), Vec3::new(0, 0, 0));
    assert!(w.bullets.is_empty());
    w.spawn_bullet(Vec3::new(0, 20000, 0), Vec3::new(1, 0, 0));
    assert_eq!(w.bullets.len(), 1);
    assert_eq!(w.bullets[0].damage, 34);
    assert_eq!(w.bullets[0].max_distance, 1000000);
    assert_eq!(w.bullets[0].traveled, 0);
}

#[test]
fn spawn_explosive_requires_a_direction() {
    let mut w = World::from_chunk(Chunk::with_extents(4, 4, 4));
    w.spawn_explosive(Vec3::new(0, 20000, 0), Vec3::new(0, 0, 0));
    assert!(w.explosives.is_empty());
    w.spawn_explosive(Vec3::new(0, 20000, 0), Vec3::new(0, 0, 1));
    assert_eq!(w.explosives.len(), 1);
    assert_eq!(w.explosives[0].timer, 120);
    assert_eq!(w.explosives[0].radius, 300000);
}

#[test]
fn spawn_mob_at_refuses_columns_without_ground() {
    let mut c = Chunk::with_extents(4, 8, 4);
    c.set(1, 0, 1, Block::Stone);
    let mut w = World::from_chunk(c);
    // Outside the addressable extent there is no resolvable ground: the
    // spawn silently does nothing.
    w.spawn_mob_at(100 * FIX, 15000);
    assert!(w.mobs.is_empty());
    // An in-extent column with no solid cell at all has no ground either:
    // a mob is never created without solid ground beneath it.
    w.spawn_mob_at(25000, 25000);
    assert!(w.mobs.is_empty());
    // On a column with ground the mob appears two blocks above it.
    w.spawn_mob_at(15000, 15000);
    assert_eq!(w.mobs.len(), 1);
    assert_eq!(w.mobs[0].position.y, FIX + 2 * FIX);
    assert_eq!(w.mobs[0].health, 100);
}

#[test]
fn break_block_from_ray_clears_first_solid_cell() {
    let mut c = Chunk::with_extents(8, 8, 8);
    c.set(4, 1, 1, Block::Stone);
    c.set(5, 1, 1, Block::Stone);
    let mut w = World::from_chunk(c);
    let hit = w.break_block_from_ray(Vec3::new(5000, 15000, 15000), Vec3::new(1, 0, 0), 8 * FIX);
    assert!(hit);
    assert_eq!(w.block_at(4, 1, 1), Block::Air);
    assert_eq!(w.block_at(5, 1, 1), Block::Stone);
    // A zero-length direction breaks nothing.
    assert!(!w.break_block_from_ray(Vec3::new(5000, 15000, 15000), Vec3::new(0, 0, 0), 8 * FIX));
}

#[test]
fn place_block_targets_last_empty_cell_before_solid() {
    let mut c = Chunk::with_extents(8, 8, 8);
    c.set(2, 1, 1, Block::Stone);
    let mut w = World::from_chunk(c);
    let placed = w.place_block_from_ray(
        Vec3::new(5000, 15000, 15000),
        Vec3::new(1, 0, 0),
        8 * FIX,
        Block::Planks,
    );
    assert!(placed);
    assert_eq!(w.block_at(1, 1, 1), Block::Planks);
    assert_eq!(w.block_at(2, 1, 1), Block::Stone);
}

#[test]
fn place_block_fails_without_preceding_empty_cell() {
    // The ray starts inside the solid cell, so no empty cell precedes the
    // first solid cell: the placement is refused.
    let mut c = Chunk::with_extents(4, 4, 4);
    c.set(0, 1, 1, Block::Stone);
    let mut w = World::from_chunk(c);
    let placed = w.place_block_from_ray(
        Vec3::new(5000, 15000, 15000),
        Vec3::new(1, 0, 0),
        4 * FIX,
        Block::Planks,
    );
    assert!(!placed);
    for x in 0..4 {
        for y in 0..4 {
            for z in 0..4 {
                let expected = if (x, y, z) == (0, 1, 1) { Block::Stone } else { Block::Air };
                assert_eq!(w.block_at(x, y, z), expected);
            }
        }
    }
    // Placing the empty block is always refused.
    assert!(!w.place_block_from_ray(
        Vec3::new(5000, 15000, 15000),
        Vec3::new(1, 0, 0),
        4 * FIX,
        Block::Air,
    ));
}

#[test]
fn mob_attacks_player_within_reach_and_respects_cooldown() {
    let mut c = Chunk::with_extents(8, 8, 8);
    for x in 0..8 {
        for z in 0..8 {
            c.set(x, 0, z, Block::Stone);
        }
    }
    let mut w = World::from_chunk(c);
    w.mobs.push(mob_at(25000, 2 * FIX, 25000, 100));
    let player = Vec3::new(26000, 2 * FIX, 25000);
    let (_, damage) = w.update_mobs(player);
    assert_eq!(damage, 8);
    assert_eq!(w.mobs.len(), 1);
    assert_eq!(w.mobs[0].health, 100);
    // The attack cooldown blocks an immediate second hit.
    let (_, damage2) = w.update_mobs(player);
    assert_eq!(damage2, 0);
}

#[test]
fn mob_falls_under_gravity_in_empty_space() {
    let mut w = World::from_chunk(Chunk::with_extents(8, 8, 8));
    w.mobs.push(mob_at(25000, 50000, 25000, 100));
    let player = Vec3::new(25000, 50000, 25000);
    let (_, _) = w.update_mobs(player);
    assert_eq!(w.mobs[0].position.y, 50000 - 30);
    assert_eq!(w.mobs[0].velocity_y, -30);
    assert!(!w.mobs[0].grounded);
}
