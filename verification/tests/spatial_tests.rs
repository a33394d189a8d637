//! Tests of the spatial query layer: collision, ground resolution, ray
//! marching and the projectile segment test.

use voxelcore::block::Block;
use voxelcore::chunk::Chunk;
use voxelcore::entity::Mob;
use voxelcore::geom::Vec3;
use voxelcore::spatial::bullet_hits_mob;
use voxelcore::spatial::highest_solid_below_chunk;
use voxelcore::spatial::mob_collides;
use voxelcore::spatial::mob_collides_with_others;
use voxelcore::spatial::raycast;

const FIX: i64 = 10000;

fn mob_at(x: i64, y: i64, z: i64) -> Mob {
    Mob {
        position: Vec3 { x, y, z },
        health: 100,
        radius: 4000,
        height: 18000,
        velocity_y: 0,
        grounded: false,
        jump_cooldown: 0,
        attack_cooldown: 0,
    }
}

#[test]
fn raycast_zero_direction_reports_no_hit() {
    let mut c = Chunk::with_extents(1, 1, 1);
    c.set(0, 0, 0, Block::Stone);
    let r = raycast(&c, Vec3::new(0, 0, 5 * FIX), Vec3::new(0, 0, 0), 10 * FIX, 1000);
    assert_eq!(r, None);
}

#[test]
fn raycast_hits_single_solid_cell() {
    // A one-cell volume with only (0, 0, 0) solid; a ray from (0, 0, 5)
    // toward -z with step 0.1 and budget 10 hits (0, 0, 0) within ~50 steps.
    let mut c = Chunk::with_extents(1, 1, 1);
    c.set(0, 0, 0, Block::Stone);
    let r = raycast(&c, Vec3::new(0, 0, 5 * FIX), Vec3::new(0, 0, -1), 10 * FIX, 1000);
    assert_eq!(r, Some((0, 0, 0)));
}

#[test]
fn raycast_reports_no_hit_in_empty_volume() {
    let c = Chunk::with_extents(4, 4, 4);
    let r = raycast(&c, Vec3::new(0, 0, 5 * FIX), Vec3::new(0, 0, -1), 10 * FIX, 1000);
    assert_eq!(r, None);
}

#[test]
fn collision_test_detects_overlapping_solid() {
    let mut c = Chunk::with_extents(8, 8, 8);
    c.set(1, 0, 1, Block::Stone);
    assert!(mob_collides(&c, 15000, 0, 15000, 4000, 18000));
    // Far away from the solid cell there is nothing to collide with.
    assert!(!mob_collides(&c, 55000, 30000, 55000, 4000, 18000));
}

#[test]
fn ground_resolution_scans_downward() {
    let mut c = Chunk::with_extents(4, 8, 4);
    c.set(1, 2, 1, Block::Stone);
    // The ground height is just above the first solid cell.
    assert_eq!(highest_solid_below_chunk(&c, 15000, 15000, 7 * FIX), Some(3 * FIX));
    // An entirely empty column resolves to ground level zero.
    assert_eq!(highest_solid_below_chunk(&c, 25000, 25000, 7 * FIX), Some(0));
    // Outside the addressable extent there is no resolvable ground.
    assert_eq!(highest_solid_below_chunk(&c, 100 * FIX, 15000, 7 * FIX), None);
}

#[test]
fn segment_hits_mob_through_its_centre() {
    let m = mob_at(5 * FIX, 0, 5000);
    // A segment ending at the mob's centre, inside its vertical span.
    assert!(bullet_hits_mob(Vec3::new(48000, 5000, 5000), Vec3::new(50000, 5000, 5000), &m));
    // A parallel segment far to the side misses.
    assert!(!bullet_hits_mob(
        Vec3::new(48000, 5000, 30000),
        Vec3::new(50000, 5000, 30000),
        &m
    ));
    // A segment above the mob's vertical span misses.
    assert!(!bullet_hits_mob(
        Vec3::new(48000, 40000, 5000),
        Vec3::new(50000, 40000, 5000),
        &m
    ));
}

#[test]
fn footprint_exclusion_skips_own_index() {
    let mobs = vec![mob_at(0, 0, 0), mob_at(FIX, 0, 0)];
    // Moving mob 0 onto mob 1 overlaps.
    assert!(mob_collides_with_others(FIX, 0, 4000, &mobs, 0));
    // Its own footprint does not count.
    assert!(!mob_collides_with_others(0, 0, 4000, &mobs, 0));
    // Far away nothing overlaps.
    assert!(!mob_collides_with_others(10 * FIX, 0, 4000, &mobs, 0));
}
