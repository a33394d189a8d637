//! Core of a single-region voxel world: a dense block grid with dirty-region
//! tracking, a deterministic procedural terrain generator, spatial queries
//! (collision, raycasting, area destruction) and a fixed-step entity
//! simulation. Rendering and input belong to the embedding application, which
//! calls into this crate once per frame tick.

pub mod block;
pub mod chunk;
pub mod entity;
pub mod geom;
pub mod spatial;
pub mod terrain;
pub mod world;

pub use block::Biome;
pub use block::Block;
