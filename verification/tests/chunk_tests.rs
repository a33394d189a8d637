//! Tests of the voxel volume: set/get round trips, dirty-region tracking
//! and the region index helpers.

use voxelcore::block::Block;
use voxelcore::chunk::mesh_region_count;
use voxelcore::chunk::mesh_region_dims;
use voxelcore::chunk::region_index;
use voxelcore::chunk::Chunk;

#[test]
fn set_then_get_returns_written_block() {
    let mut c = Chunk::with_extents(32, 32, 32);
    c.set(3, 4, 5, Block::Stone);
    assert_eq!(c.get_i32(3, 4, 5), Block::Stone);
    c.set(3, 4, 5, Block::Dirt);
    assert_eq!(c.get_i32(3, 4, 5), Block::Dirt);
    assert_eq!(c.get_i32(3, 4, 6), Block::Air);
}

#[test]
fn idempotent_write_leaves_dirty_bitmap_unchanged() {
    let mut c = Chunk::with_extents(32, 32, 32);
    c.set(3, 4, 5, Block::Stone);
    let drained = c.take_dirty_regions();
    assert!(!drained.is_empty());
    // Writing the value already present must not mark anything dirty.
    c.set(3, 4, 5, Block::Stone);
    assert!(c.take_dirty_regions().is_empty());
    // A changing write marks regions again.
    c.set(3, 4, 5, Block::Gravel);
    assert!(!c.take_dirty_regions().is_empty());
}

#[test]
fn boundary_write_marks_both_regions() {
    let mut c = Chunk::with_extents(32, 32, 32);
    let _ = c.take_dirty_regions();
    // Cell (16, 0, 0) lies in region (1, 0, 0); the write must also mark
    // the neighbouring region (0, 0, 0) across the shared boundary.
    c.set(16, 0, 0, Block::Stone);
    let drained = c.take_dirty_regions();
    assert!(drained.contains(&(1, 0, 0)));
    assert!(drained.contains(&(0, 0, 0)));
}

#[test]
fn take_dirty_regions_drains_exactly_once() {
    let mut c = Chunk::with_extents(32, 32, 32);
    let first = c.take_dirty_regions();
    // A fresh volume starts with every region dirty: 2 * 2 * 2 regions.
    assert_eq!(first.len(), 8);
    assert!(c.take_dirty_regions().is_empty());
}

#[test]
fn out_of_range_write_is_ignored() {
    let mut c = Chunk::with_extents(4, 4, 4);
    let _ = c.take_dirty_regions();
    c.set(4, 0, 0, Block::Stone);
    c.set(0, 4, 0, Block::Stone);
    c.set(0, 0, 4, Block::Stone);
    assert!(c.take_dirty_regions().is_empty());
    assert_eq!(c.get_i32(0, 0, 0), Block::Air);
}

#[test]
fn out_of_range_reads_return_defined_values() {
    let mut c = Chunk::with_extents(4, 12, 4);
    // Without the fallback, everything out of range is empty, repeatably.
    assert_eq!(c.get_i32(100, 2, 100), Block::Air);
    assert_eq!(c.get_i32(100, 2, 100), Block::Air);
    assert_eq!(c.get_i32(-1, 0, 0), Block::Air);
    assert_eq!(c.get_i32(0, -1, 0), Block::Air);
    assert_eq!(c.get_i32(0, 200, 0), Block::Air);
    // With the fallback, out-of-range x/z reads reproduce the procedural
    // terrain for those world coordinates, repeatably.
    c.set_fallback(true);
    let a = c.get_i32(1000, 5, 1000);
    let b = c.get_i32(1000, 5, 1000);
    assert_eq!(a, b);
    assert_eq!(a, voxelcore::terrain::procedural_block_at(1000, 5, 1000));
    // y stays clamped to empty even with the fallback on.
    assert_eq!(c.get_i32(1000, -1, 1000), Block::Air);
}

#[test]
fn generated_volume_matches_base_terrain_off_structures() {
    let mut c = Chunk::with_extents(8, 96, 8);
    c.generate_at(0, 0);
    // Small volumes hold no structures, so every cell equals the pure
    // column function (the surface cap equals the default one at height 96).
    for x in 0..8i32 {
        for z in 0..8i32 {
            for y in 0..96i32 {
                assert_eq!(
                    c.get_i32(x, y, z),
                    voxelcore::terrain::procedural_block_at(x, y as usize, z)
                );
            }
        }
    }
    // Generation leaves every region dirty: 1 x 6 x 1 regions.
    assert_eq!(c.take_dirty_regions().len(), 6);
}

#[test]
fn generate_at_is_deterministic() {
    let mut a = Chunk::with_extents(6, 32, 6);
    let mut b = Chunk::with_extents(6, 32, 6);
    a.generate_at(-37, 91);
    b.generate_at(-37, 91);
    for x in -37..-31i32 {
        for z in 91..97i32 {
            for y in 0..32i32 {
                assert_eq!(a.get_i32(x, y, z), b.get_i32(x, y, z));
            }
        }
    }
}

#[test]
fn region_helpers_report_default_layout() {
    assert_eq!(mesh_region_dims(), (32, 6, 32));
    assert_eq!(mesh_region_count(), 6144);
    assert_eq!(region_index(0, 0, 0), 0);
    assert_eq!(region_index(1, 2, 3), 1 + 3 * 32 + 2 * 32 * 32);
}
