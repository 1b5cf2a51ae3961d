use voxel_world::block::{init_block_registry, BlockType, TextureId};
use voxel_world::chunk::{apply_structures, ChunkBlocks};
use voxel_world::mesh::ChunkData;
use voxel_world::sampling::NoiseSamples;
use voxel_world::structures::{BlockPlacement, HouseStructure, HouseType, PlacedStructure, StructureType};
use voxel_world::world::{TerrainProgress, World, RENDER_DISTANCE};
use voxel_world::ChunkPos;

/// A flat, featureless noise stub: temperate plains everywhere, every height
/// sample zero, no structures. Terrain height is the plains base everywhere.
fn flat_samples(x0: i64, z0: i64, nx: usize, nz: usize) -> NoiseSamples {
    let cells = nx * nz;
    NoiseSamples::from_parts(
        x0,
        z0,
        nx,
        nz,
        vec![0; cells],
        vec![0; cells],
        vec![-500; cells],
        vec![vec![0; cells]; 18],
    )
    .unwrap()
}

fn samples_for_chunk(p: ChunkPos) -> NoiseSamples {
    flat_samples(p.x as i64 * 16 - 36, p.z as i64 * 16 - 36, 87, 87)
}

fn load_chunk(world: &mut World, p: ChunkPos) -> ChunkData {
    let samples = samples_for_chunk(p);
    let (mesh, blocks) = world.generate_chunk(p, &samples);
    world.insert_chunk(p, blocks);
    mesh
}

/// Count the quads of `mesh` that lie in the vertical boundary plane
/// x == `plane_x` and span the unit square at height y and depth z.
fn boundary_quads(mesh: &ChunkData, plane_x: i64, y: i64, z: i64) -> usize {
    let mut count = 0;
    let mut i = 0;
    while i + 3 < mesh.vertices.len() {
        let quad = &mesh.vertices[i..i + 4];
        if quad.iter().all(|v| v.x == plane_x && v.ny == 0 && v.nz == 0)
            && quad.iter().any(|v| v.y == y)
            && quad.iter().any(|v| v.y == y + 1)
            && quad.iter().any(|v| v.z == z)
            && quad.iter().any(|v| v.z == z + 1)
        {
            count += 1;
        }
        i += 4;
    }
    count
}

#[test]
fn queries_outside_loaded_chunks_are_safe() {
    let world = World::new();
    assert_eq!(world.get_block_type(0, 4, 0), None);
    assert!(!world.is_block_solid(0, 4, 0));
    assert_eq!(world.get_block_type(0, -1, 0), None);
    assert_eq!(world.get_block_type(0, 300, 0), None);
    assert!(world.get_loaded_chunk_positions().is_empty());
}

#[test]
fn flat_terrain_fills_to_the_plains_base() {
    let mut world = World::new();
    load_chunk(&mut world, ChunkPos { x: 0, z: 0 });
    // The plains base height is 5: rows 0..5 are filled, everything above is
    // air; the surface row carries grass over dirt over stone.
    assert_eq!(world.get_block_type(3, 4, 7), Some(BlockType::Grass));
    assert_eq!(world.get_block_type(3, 3, 7), Some(BlockType::Dirt));
    assert_eq!(world.get_block_type(3, 0, 7), Some(BlockType::Stone));
    assert_eq!(world.get_block_type(3, 5, 7), Some(BlockType::Air));
    assert!(world.is_block_solid(3, 4, 7));
    assert!(!world.is_block_solid(3, 5, 7));
}

#[test]
fn meshing_is_idempotent() {
    let mut world = World::new();
    let p = ChunkPos { x: 0, z: 0 };
    load_chunk(&mut world, p);
    let m1 = world.chunk_mesh(p).unwrap();
    let m2 = world.chunk_mesh(p).unwrap();
    assert_eq!(m1.vertices, m2.vertices);
    assert_eq!(m1.indices, m2.indices);
    assert!(!m1.vertices.is_empty());
    assert_eq!(m1.indices.len() % 6, 0);
    assert_eq!(m1.vertices.len() % 4, 0);
}

#[test]
fn boundary_faces_are_emitted_exactly_once() {
    let mut world = World::new();
    let a = ChunkPos { x: 0, z: 0 };
    let b = ChunkPos { x: 1, z: 0 };
    load_chunk(&mut world, a);
    load_chunk(&mut world, b);
    // A lone block on the shared edge of chunk a, with air across the
    // boundary in chunk b.
    assert!(world.add_block(15, 40, 3, BlockType::Stone));
    let mesh_a = world.chunk_mesh(a).unwrap();
    let mesh_b = world.chunk_mesh(b).unwrap();
    let quads = boundary_quads(&mesh_a, 16, 40, 3) + boundary_quads(&mesh_b, 16, 40, 3);
    assert_eq!(quads, 1);
}

#[test]
fn edit_round_trip_restores_blocks_and_meshes() {
    let mut world = World::new();
    let a = ChunkPos { x: 0, z: 0 };
    let b = ChunkPos { x: -1, z: 0 };
    load_chunk(&mut world, a);
    load_chunk(&mut world, b);
    let before_a = world.chunk_mesh(a).unwrap();
    let before_b = world.chunk_mesh(b).unwrap();

    // The edited cell is air, on the shared edge so both meshes are affected.
    assert!(!world.is_block_solid(0, 30, 8));
    assert!(world.add_block(0, 30, 8, BlockType::Planks));
    assert!(world.is_block_solid(0, 30, 8));
    assert_eq!(world.remove_block(0, 30, 8), Some(BlockType::Planks));
    assert!(!world.is_block_solid(0, 30, 8));

    let after_a = world.chunk_mesh(a).unwrap();
    let after_b = world.chunk_mesh(b).unwrap();
    assert_eq!(before_a.vertices, after_a.vertices);
    assert_eq!(before_a.indices, after_a.indices);
    assert_eq!(before_b.vertices, after_b.vertices);
    assert_eq!(before_b.indices, after_b.indices);
}

#[test]
fn edits_fail_exactly_when_they_must() {
    let mut world = World::new();
    let p = ChunkPos { x: 0, z: 0 };
    load_chunk(&mut world, p);
    // Out of vertical range.
    assert!(!world.add_block(1, -1, 1, BlockType::Stone));
    assert!(!world.add_block(1, 255, 1, BlockType::Stone));
    assert_eq!(world.remove_block(1, -1, 1), None);
    // Chunk not resident.
    assert!(!world.add_block(100, 10, 100, BlockType::Stone));
    assert_eq!(world.remove_block(100, 10, 100), None);
    // Adding over a solid block fails; removing air fails.
    assert!(!world.add_block(1, 4, 1, BlockType::Stone));
    assert_eq!(world.remove_block(1, 200, 1), None);
    // Removing a solid block reports what was removed.
    assert_eq!(world.remove_block(1, 4, 1), Some(BlockType::Grass));
    assert_eq!(world.get_block_type(1, 4, 1), Some(BlockType::Air));
}

#[test]
fn corner_edits_invalidate_up_to_four_chunks() {
    // A chunk-corner cell touches the owner plus three neighbors.
    let corner = World::affected_chunks(0, 0);
    assert_eq!(corner.len(), 4);
    assert_eq!(corner[0], ChunkPos { x: 0, z: 0 });
    assert!(corner.contains(&ChunkPos { x: -1, z: 0 }));
    assert!(corner.contains(&ChunkPos { x: 0, z: -1 }));
    assert!(corner.contains(&ChunkPos { x: -1, z: -1 }));
    // A chunk-interior cell touches only its own chunk.
    let interior = World::affected_chunks(8, 8);
    assert_eq!(interior.len(), 1);
    assert_eq!(interior[0], ChunkPos { x: 0, z: 0 });
    // An edge cell touches two.
    assert_eq!(World::affected_chunks(15, 8).len(), 2);

    // Removing the corner block really invalidates those four chunks; an
    // interior removal invalidates exactly one.
    let mut world = World::new();
    load_chunk(&mut world, ChunkPos { x: 0, z: 0 });
    assert_eq!(world.remove_block(0, 4, 0), Some(BlockType::Grass));
    let to_remesh = World::affected_chunks(0, 0);
    assert_eq!(to_remesh.len(), 4);
    let rebuilt: Vec<_> = to_remesh.iter().filter_map(|p| world.chunk_mesh(*p)).collect();
    // Only the owner is resident here, so one mesh actually rebuilds.
    assert_eq!(rebuilt.len(), 1);
    assert_eq!(world.remove_block(8, 4, 8), Some(BlockType::Grass));
    assert_eq!(World::affected_chunks(8, 8).len(), 1);
}

#[test]
fn chunk_generation_is_deterministic() {
    let world = World::new();
    let p = ChunkPos { x: 2, z: -1 };
    let samples = samples_for_chunk(p);
    let (m1, b1) = world.generate_chunk(p, &samples);
    let (m2, b2) = world.generate_chunk(p, &samples);
    assert_eq!(m1.vertices, m2.vertices);
    assert_eq!(m1.indices, m2.indices);
    for x in 0..16 {
        for y in 0..16 {
            assert_eq!(b1.get(x, 3, y), b2.get(x, 3, y));
        }
    }
}

#[test]
fn eviction_keeps_only_chunks_in_range() {
    let mut world = World::new();
    let near = ChunkPos { x: 1, z: 1 };
    let far = ChunkPos { x: 30, z: 0 };
    load_chunk(&mut world, near);
    load_chunk(&mut world, far);
    assert_eq!(world.get_loaded_chunk_positions().len(), 2);
    world.evict_outside(0, 0);
    let left = world.get_loaded_chunk_positions();
    assert_eq!(left.len(), 1);
    assert_eq!(left[0], near);
    assert!(!world.is_chunk_loaded(far));
    assert!(world.chunk_mesh(far).is_none());
}

#[test]
fn generation_plan_covers_the_render_distance() {
    let mut world = World::new();
    let want = world.chunks_to_generate(0, 0);
    let width = (2 * RENDER_DISTANCE + 1) as usize;
    assert_eq!(want.len(), width * width);
    load_chunk(&mut world, ChunkPos { x: 0, z: 0 });
    let fewer = world.chunks_to_generate(0, 0);
    assert_eq!(fewer.len(), width * width - 1);
    assert!(!fewer.contains(&ChunkPos { x: 0, z: 0 }));
}

#[test]
fn registry_materials_match_the_defaults() {
    let registry = init_block_registry();
    assert!(!registry.is_solid(BlockType::Air));
    assert!(!registry.is_solid(BlockType::Water));
    assert!(registry.is_solid(BlockType::Stone));
    assert!(registry.is_solid(BlockType::Glass));
    let grass = registry.get_textures(BlockType::Grass);
    assert_eq!(grass.top, TextureId::GrassTop.index());
    assert_eq!(grass.bottom, TextureId::Dirt.index());
    assert_eq!(grass.front, TextureId::GrassSide.index());
    let wood = registry.get_textures(BlockType::Wood);
    assert_eq!(wood.top, TextureId::WoodTop.index());
    assert_eq!(wood.left, TextureId::WoodSide.index());
}

#[test]
fn sample_grids_reject_bad_shapes() {
    // A plane of the wrong size, or a sample out of the fixed-point range,
    // is refused outright.
    let bad_len = NoiseSamples::from_parts(0, 0, 2, 2, vec![0; 3], vec![0; 4], vec![0; 4],
        vec![vec![0; 4]; 18]);
    assert!(bad_len.is_none());
    let bad_value = NoiseSamples::from_parts(0, 0, 2, 2, vec![1001; 4], vec![0; 4], vec![0; 4],
        vec![vec![0; 4]; 18]);
    assert!(bad_value.is_none());
    let bad_planes = NoiseSamples::from_parts(0, 0, 2, 2, vec![0; 4], vec![0; 4], vec![0; 4],
        vec![vec![0; 4]; 17]);
    assert!(bad_planes.is_none());
    let good = NoiseSamples::from_parts(0, 0, 2, 2, vec![0; 4], vec![0; 4], vec![0; 4],
        vec![vec![0; 4]; 18]);
    assert!(good.is_some());
}

#[test]
fn progress_starts_idle() {
    let p = TerrainProgress::new();
    assert_eq!(p.total_chunks, 0);
    assert_eq!(p.completed_chunks, 0);
    assert!(!p.is_generating);
}

#[test]
fn house_straddling_two_chunks_is_clipped_into_both() {
    // A medium house whose 7x7 footprint starts at x = 12 spans the boundary
    // between chunk (0,0) and chunk (1,0).
    let mut rng = voxel_world::rng::SeededRng::new(3);
    let house = HouseStructure::new(HouseType::Medium);
    let placed = PlacedStructure {
        world_x: 12,
        world_y: 10,
        world_z: 3,
        structure_type: StructureType::House,
        blocks: house.generate(&mut rng),
    };
    let mut left = ChunkBlocks::new_air();
    let mut right = ChunkBlocks::new_air();
    apply_structures(&mut left, 0, 0, &vec![placed.clone()]);
    apply_structures(&mut right, 1, 0, &vec![placed.clone()]);
    let mut seen = 0;
    for p in &placed.blocks {
        let wx = placed.world_x + p.relative_pos.0;
        let wy = placed.world_y + p.relative_pos.1;
        let wz = placed.world_z + p.relative_pos.2;
        let (in_left, in_right) = (wx < 16, wx >= 16);
        let left_cell = if wx < 16 {
            left.get(wx as usize, wz as usize, wy as usize)
        } else {
            BlockType::Air
        };
        let right_cell = if wx >= 16 {
            right.get((wx - 16) as usize, wz as usize, wy as usize)
        } else {
            BlockType::Air
        };
        // The block appears exactly in the chunk that owns its column: no
        // seam gap, no duplicate.
        if in_left {
            assert_eq!(left_cell, p.block_type);
            seen += 1;
        }
        if in_right {
            assert_eq!(right_cell, p.block_type);
            seen += 1;
        }
    }
    assert_eq!(seen, placed.blocks.len());
    // Cells of the right chunk that the house does not reach stay air.
    assert_eq!(right.get(5, 3, 10), BlockType::Air);
}

fn placement_for(blocks: &[BlockPlacement], pos: (i32, i32, i32)) -> Option<BlockType> {
    blocks.iter().find(|p| p.relative_pos == pos).map(|p| p.block_type)
}

#[test]
fn medium_house_mixes_wall_materials() {
    let mut rng = voxel_world::rng::SeededRng::new(3);
    let blocks = HouseStructure::new(HouseType::Medium).generate(&mut rng);
    // The ground wall row is cobblestone, upper rows mix in planks.
    assert_eq!(placement_for(&blocks, (1, 1, 0)), Some(BlockType::Cobblestone));
    assert_eq!(placement_for(&blocks, (0, 4, 1)), Some(BlockType::Planks));
    // The two-tile door gap stays open.
    assert_eq!(placement_for(&blocks, (2, 1, 0)), None);
    assert_eq!(placement_for(&blocks, (3, 2, 0)), None);
    // The roof peak is filled.
    assert_eq!(placement_for(&blocks, (3, 9, 3)), Some(BlockType::Cobblestone));
}
