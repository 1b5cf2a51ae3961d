//! A procedurally generated voxel world: noise-shaped terrain with biomes,
//! deterministically placed trees and houses, dense per-chunk block arrays
//! as the single source of truth, visible-surface meshing with cross-chunk
//! face culling, and a world manager serving block queries and edits.
//!
//! Coherent-noise sampling, rendering and file I/O stay outside: callers
//! evaluate the noise fields onto [`sampling::NoiseSamples`] grids and turn
//! [`mesh::ChunkData`] buffers into GPU resources.

pub mod biome;
pub mod block;
pub mod chunk;
pub mod mesh;
pub mod rng;
pub mod sampling;
pub mod structures;
pub mod terrain;
pub mod texture;
pub mod voxel;
pub mod world;

use vstd::prelude::*;

verus! {

/// Width and depth of a chunk, in blocks.
pub const CHUNK_SIZE: usize = 16;

/// Height of the world, in blocks; vertical coordinates live in [0, WORLD_HEIGHT).
pub const WORLD_HEIGHT: usize = 255;

/// Highest height natural terrain may reach.
pub const TERRAIN_MAX_HEIGHT: usize = 64;

/// Identifies a chunk on the horizontal grid.
#[derive(Clone, Copy, PartialEq, Eq, Hash, Debug, Structural)]
pub struct ChunkPos {
    pub x: i32,
    pub z: i32,
}

} // verus!
