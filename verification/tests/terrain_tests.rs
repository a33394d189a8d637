//! Tests of the procedural terrain: determinism, value ranges, and exact
//! expected outputs of the column formulas.

use voxelcore::block::Biome;
use voxelcore::block::Block;
use voxelcore::terrain::biome_at;
use voxelcore::terrain::procedural_block_at;
use voxelcore::terrain::stone_with_ores;
use voxelcore::terrain::terrain_block_at;
use voxelcore::terrain::terrain_height;

#[test]
fn generation_is_deterministic_per_column() {
    for &(x, z) in &[(0, 0), (100, -50), (1000, 1000), (-256, -256), (37, 81)] {
        let b1 = biome_at(x, z);
        let b2 = biome_at(x, z);
        assert_eq!(b1, b2);
        let h1 = terrain_height(x, z, b1);
        let h2 = terrain_height(x, z, b2);
        assert_eq!(h1, h2);
        for y in 0..96 {
            assert_eq!(
                terrain_block_at(x, y, z, b1, h1, 30),
                terrain_block_at(x, y, z, b2, h2, 30)
            );
            assert_eq!(procedural_block_at(x, y, z), procedural_block_at(x, y, z));
        }
    }
}

#[test]
fn biome_classification_exact_values() {
    assert_eq!(biome_at(0, 0), Biome::Plains);
    assert_eq!(biome_at(-300, -300), Biome::Desert);
    assert_eq!(biome_at(-300, -289), Biome::Forest);
    assert_eq!(biome_at(-300, -267), Biome::Snow);
    assert_eq!(biome_at(-300, -201), Biome::Swamp);
    assert_eq!(biome_at(-300, -135), Biome::Mountains);
}

#[test]
fn terrain_height_exact_values_and_range() {
    assert_eq!(terrain_height(0, 0, Biome::Plains), 30);
    assert_eq!(terrain_height(-300, -300, Biome::Desert), 23);
    assert_eq!(terrain_height(-300, -135, Biome::Mountains), 43);
    for &(x, z) in &[(5, 5), (-1000, 400), (123456, -654321)] {
        let h = terrain_height(x, z, biome_at(x, z));
        assert!((8..=94).contains(&h));
    }
}

#[test]
fn column_structure_exact_values() {
    // The column at the world origin is plains with surface height 30:
    // grass on top, a shallow dirt band, air above (sea level is also 30).
    assert_eq!(procedural_block_at(0, 30, 0), Block::Grass);
    assert_eq!(procedural_block_at(0, 29, 0), Block::Dirt);
    assert_eq!(procedural_block_at(0, 28, 0), Block::Dirt);
    assert_eq!(procedural_block_at(0, 31, 0), Block::Air);
    // Deep rock near the bottom.
    assert_eq!(procedural_block_at(0, 0, 0), Block::Basalt);
    // An ore vein from the positional hash.
    assert_eq!(procedural_block_at(1000, 5, 1000), Block::DiamondOre);
}

#[test]
fn stone_with_ores_is_deterministic() {
    for y in 0..50 {
        assert_eq!(stone_with_ores(77, y, -33), stone_with_ores(77, y, -33));
    }
}

#[test]
fn water_and_ice_fill_to_sea_level() {
    // A swamp column with surface height 20 is below the sea level of 30,
    // so the cells between are water.
    assert_eq!(biome_at(-300, -201), Biome::Swamp);
    let h = terrain_height(-300, -201, Biome::Swamp);
    assert_eq!(h, 20);
    assert_eq!(procedural_block_at(-300, 25, -201), Block::Water);
    assert_eq!(procedural_block_at(-300, 31, -201), Block::Air);
    // A snow biome freezes the sea instead.
    assert_eq!(biome_at(-300, -267), Biome::Snow);
    let hs = terrain_height(-300, -267, Biome::Snow);
    if hs < 30 {
        assert_eq!(procedural_block_at(-300, 30, -267), Block::Ice);
    }
}
