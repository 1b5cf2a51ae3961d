use noise::NoiseFn;
use noise::Perlin;
use voxel_world::biome::{classify, select_biome, Biome, BiomeConfig, BiomeConfigError, BiomeManager};
use voxel_world::block::BlockType;
use voxel_world::rng::{position_seed, SeededRng};
use voxel_world::sampling::{NoiseSamples, OCTAVES};
use voxel_world::structures::{
    structure_type_for_roll, BlockPlacement, HouseStructure, HouseType, PlacedStructure,
    StructureGenerator, StructureType, TreeStructure, TreeType,
};
use voxel_world::terrain::{get_block_for_position, height_at};
use voxel_world::TERRAIN_MAX_HEIGHT;

const BIOME_ORDER: [Biome; 6] = [
    Biome::Plains,
    Biome::Desert,
    Biome::Mountain,
    Biome::Tundra,
    Biome::Forest,
    Biome::Swamp,
];

fn scaled(p: &Perlin, x: f64, z: f64) -> i64 {
    (p.get([x, z]) * 1000.0) as i64
}

/// Evaluate the world's noise fields over a rectangle of columns, exactly as
/// the renderer would before handing them to the library.
fn perlin_samples(
    world_seed: u32,
    structure_seed: u32,
    x0: i64,
    z0: i64,
    nx: usize,
    nz: usize,
) -> NoiseSamples {
    let height_noise = Perlin::new(world_seed);
    let temp_noise = Perlin::new(world_seed.wrapping_add(2000));
    let hum_noise = Perlin::new(world_seed.wrapping_add(3000));
    let structure_noise = Perlin::new(structure_seed);

    let mut temperature = Vec::new();
    let mut humidity = Vec::new();
    let mut structure = Vec::new();
    for ix in 0..nx {
        for iz in 0..nz {
            let wx = (x0 + ix as i64) as f64;
            let wz = (z0 + iz as i64) as f64;
            temperature.push(scaled(&temp_noise, wx * 0.003, wz * 0.003));
            humidity.push(scaled(&hum_noise, wx * 0.004, wz * 0.004));
            structure.push(scaled(&structure_noise, wx * 0.05, wz * 0.05));
        }
    }
    let mut height = Vec::new();
    for biome in BIOME_ORDER {
        let config = biome.get_config();
        for octave in 0..OCTAVES {
            let freq = config.frequency_micro as f64 * (1u32 << octave) as f64 / 1_000_000.0;
            let mut plane = Vec::new();
            for ix in 0..nx {
                for iz in 0..nz {
                    let wx = (x0 + ix as i64) as f64;
                    let wz = (z0 + iz as i64) as f64;
                    plane.push(scaled(&height_noise, wx * freq, wz * freq));
                }
            }
            height.push(plane);
        }
    }
    NoiseSamples::from_parts(x0, z0, nx, nz, temperature, humidity, structure, height).unwrap()
}

#[test]
fn classify_follows_the_rule_cascade() {
    assert_eq!(classify(-401, -1), Biome::Tundra);
    assert_eq!(classify(-401, 0), Biome::Mountain);
    assert_eq!(classify(-201, 900), Biome::Mountain);
    assert_eq!(classify(301, -201), Biome::Desert);
    assert_eq!(classify(301, -200), Biome::Forest);
    assert_eq!(classify(0, 401), Biome::Swamp);
    assert_eq!(classify(101, 0), Biome::Forest);
    assert_eq!(classify(500, 500), Biome::Swamp);
    assert_eq!(classify(100, 0), Biome::Plains);
}

#[test]
fn contrived_noise_stub_yields_forest() {
    // A warm, moderately humid stub classifies as Forest: the warm rule wins
    // before the plains fallback. (A humidity of 0.5 would hit the earlier
    // swamp rule, whose threshold is 0.4, so the stub stays just below it.)
    assert_eq!(classify(500, 399), Biome::Forest);
    assert_eq!(classify(500, 500), Biome::Swamp);

    // The same stub wired through a sample grid at seed 42, chunk (0, 0).
    let cells = 4 * 4;
    let temperature = vec![500i64; cells];
    let humidity = vec![399i64; cells];
    let structure = vec![0i64; cells];
    let height = vec![vec![0i64; cells]; 18];
    let samples =
        NoiseSamples::from_parts(0, 0, 4, 4, temperature, humidity, structure, height).unwrap();
    assert_eq!(select_biome(&samples, 0, 0), Biome::Forest);
}

#[test]
fn heights_are_deterministic_and_clamped() {
    let mgr = BiomeManager::new();
    let s1 = perlin_samples(42, 7777, -40, -40, 100, 100);
    let s2 = perlin_samples(42, 7777, -40, -40, 100, 100);
    for x in -5..5i64 {
        for z in -5..5i64 {
            let h1 = height_at(&s1, &mgr, x, z);
            let h2 = height_at(&s2, &mgr, x, z);
            assert_eq!(h1, h2);
            assert!(1 <= h1 && h1 <= TERRAIN_MAX_HEIGHT);
        }
    }
}

#[test]
fn biome_selection_is_deterministic() {
    let s1 = perlin_samples(42, 7777, -8, -8, 16, 16);
    let s2 = perlin_samples(42, 7777, -8, -8, 16, 16);
    for x in -8..8i64 {
        for z in -8..8i64 {
            assert_eq!(select_biome(&s1, x, z), select_biome(&s2, x, z));
        }
    }
}

#[test]
fn structures_are_deterministic_for_a_fixed_seed() {
    let mgr = BiomeManager::new();
    let samples = perlin_samples(42, 7777, -36, -36, 87, 87);
    let generator = StructureGenerator::new(7777);
    let mut heights = Vec::new();
    let mut biomes = Vec::new();
    for x in 0..16i64 {
        let mut hrow = Vec::new();
        let mut brow = Vec::new();
        for z in 0..16i64 {
            hrow.push(height_at(&samples, &mgr, x, z));
            brow.push(select_biome(&samples, x, z));
        }
        heights.push(hrow);
        biomes.push(brow);
    }
    let a = generator.generate_structures_for_chunk(0, 0, &heights, &biomes, &samples, &mgr);
    let b = generator.generate_structures_for_chunk(0, 0, &heights, &biomes, &samples, &mgr);
    assert_eq!(a.len(), b.len());
    for (sa, sb) in a.iter().zip(b.iter()) {
        assert_eq!((sa.world_x, sa.world_y, sa.world_z), (sb.world_x, sb.world_y, sb.world_z));
        assert_eq!(sa.blocks, sb.blocks);
    }
}

#[test]
fn structure_rolls_fall_into_bands() {
    let desert = Biome::Desert.get_config();
    // Desert: tree band 10_000, house band up to 210_000, then the tree
    // fallback.
    assert_eq!(structure_type_for_roll(0, &desert), StructureType::Tree);
    assert_eq!(structure_type_for_roll(9_999, &desert), StructureType::Tree);
    assert_eq!(structure_type_for_roll(10_000, &desert), StructureType::House);
    assert_eq!(structure_type_for_roll(209_999, &desert), StructureType::House);
    assert_eq!(structure_type_for_roll(210_000, &desert), StructureType::Tree);
    // Plains: the tree band alone covers every roll.
    let plains = Biome::Plains.get_config();
    assert_eq!(structure_type_for_roll(999_999, &plains), StructureType::Tree);
}

#[test]
fn position_seeds_are_pure_and_spread() {
    assert_eq!(position_seed(10, -3, 42), position_seed(10, -3, 42));
    assert_ne!(position_seed(10, -3, 42), position_seed(10, -3, 43));
    assert_ne!(position_seed(10, -3, 42), position_seed(-3, 10, 42));
}

#[test]
fn biome_manager_demands_all_six_biomes() {
    let mut entries: Vec<(Biome, BiomeConfig)> = BIOME_ORDER
        .iter()
        .map(|b| (*b, b.get_config()))
        .collect();
    assert!(BiomeManager::from_entries(&entries).is_ok());

    let missing: Vec<(Biome, BiomeConfig)> =
        entries.iter().cloned().filter(|(b, _)| *b != Biome::Tundra).collect();
    assert_eq!(
        BiomeManager::from_entries(&missing).err(),
        Some(BiomeConfigError::MissingBiome(Biome::Tundra))
    );

    entries[4].1.amplitude_milli = 2_000_000;
    assert_eq!(
        BiomeManager::from_entries(&entries).err(),
        Some(BiomeConfigError::InvalidConfig(Biome::Forest))
    );
}

#[test]
fn block_layers_follow_the_biome_palette() {
    let config = Biome::Plains.get_config();
    assert_eq!(get_block_for_position(9, 10, Biome::Plains, &config), BlockType::Grass);
    assert_eq!(get_block_for_position(8, 10, Biome::Plains, &config), BlockType::Dirt);
    assert_eq!(get_block_for_position(6, 10, Biome::Plains, &config), BlockType::Dirt);
    assert_eq!(get_block_for_position(5, 10, Biome::Plains, &config), BlockType::Stone);
    let mountain = Biome::Mountain.get_config();
    // High mountain surfaces are forced to snow.
    assert_eq!(get_block_for_position(39, 40, Biome::Mountain, &mountain), BlockType::Snow);
    assert_eq!(get_block_for_position(29, 40, Biome::Mountain, &mountain), BlockType::Stone);
}

#[test]
fn trees_grow_a_trunk_inside_their_box() {
    let mut rng = SeededRng::new(99);
    for tree_type in [TreeType::Oak, TreeType::Birch, TreeType::Pine] {
        let tree = TreeStructure::new(tree_type);
        let (w, h, d) = tree.get_bounds();
        let blocks = tree.generate(&mut rng);
        let trunk: Vec<&BlockPlacement> = blocks
            .iter()
            .filter(|p| p.block_type == BlockType::Wood)
            .collect();
        // Each species draws its trunk height from its own band.
        let (min_trunk, max_trunk) = match tree_type {
            TreeType::Oak => (4, 6),
            TreeType::Birch => (5, 7),
            TreeType::Pine => (6, 8),
        };
        assert!(min_trunk <= trunk.len() && trunk.len() <= max_trunk);
        for (y, p) in trunk.iter().enumerate() {
            assert_eq!(p.relative_pos, (0, y as i32, 0));
        }
        for p in &blocks {
            assert!(p.relative_pos.0.abs() <= (w - 1) / 2);
            assert!(p.relative_pos.2.abs() <= (d - 1) / 2);
            assert!(0 <= p.relative_pos.1 && p.relative_pos.1 <= h);
            assert!(p.block_type == BlockType::Wood || p.block_type == BlockType::Leaves);
        }
        // Each species carries its always-placed inner canopy; a pine ends
        // in its apex tuft above the trunk.
        let trunk_h = trunk.len() as i32;
        match tree_type {
            TreeType::Oak => {
                assert!(blocks.iter().any(|p| p.relative_pos == (1, trunk_h - 1, 0)
                    && p.block_type == BlockType::Leaves));
            }
            TreeType::Birch => {
                assert!(blocks.iter().any(|p| p.relative_pos == (1, trunk_h - 2, 0)
                    && p.block_type == BlockType::Leaves));
            }
            TreeType::Pine => {
                let last = blocks.last().unwrap();
                assert_eq!(last.relative_pos, (0, trunk_h, 0));
                assert_eq!(last.block_type, BlockType::Leaves);
            }
        }
    }
}

#[test]
fn identical_seeds_grow_identical_trees() {
    // The whole output - randomized canopy edges included - is a function of
    // the species and the draw stream's seed.
    for seed in [1u64, 42, 7777, 987_654_321] {
        for tree_type in [TreeType::Oak, TreeType::Birch, TreeType::Pine] {
            let a = TreeStructure::new(tree_type).generate(&mut SeededRng::new(seed));
            let b = TreeStructure::new(tree_type).generate(&mut SeededRng::new(seed));
            assert_eq!(a, b);
            let c = TreeStructure::new(tree_type).generate(&mut SeededRng::new(seed + 1));
            // A different seed is at least allowed to differ; the trunk and
            // canopy core still obey the species' shape.
            assert!(c.iter().all(|p| p.relative_pos.1 >= 0));
        }
    }
}

#[test]
fn desert_only_rolls_its_hardy_oak() {
    for seed in 0..32u64 {
        let mut rng = SeededRng::new(seed);
        let tree = TreeStructure::random_for_biome(Biome::Desert, &mut rng);
        assert!(matches!(tree.tree_type, TreeType::Oak));
        let mut rng2 = SeededRng::new(seed);
        let cold = TreeStructure::random_for_biome(Biome::Tundra, &mut rng2);
        assert!(!matches!(cold.tree_type, TreeType::Birch));
        // The same seed always rolls the same species.
        let mut rng3 = SeededRng::new(seed);
        let again = TreeStructure::random_for_biome(Biome::Tundra, &mut rng3);
        assert!(matches!((cold.tree_type, again.tree_type),
            (TreeType::Pine, TreeType::Pine) | (TreeType::Oak, TreeType::Oak)));
    }
}

#[test]
fn houses_have_a_floor_and_a_door_gap() {
    let mut rng = SeededRng::new(5);
    let house = HouseStructure::new(HouseType::Small);
    let blocks = house.generate(&mut rng);
    // The whole 5x5 floor is cobblestone.
    for x in 0..5 {
        for z in 0..5 {
            assert!(blocks.iter().any(|p| p.relative_pos == (x, 0, z)
                && p.block_type == BlockType::Cobblestone));
        }
    }
    // The door opening stays empty.
    assert!(!blocks.iter().any(|p| p.relative_pos == (2, 1, 0)));
    assert!(!blocks.iter().any(|p| p.relative_pos == (2, 2, 0)));
    // Windows are glass.
    assert!(blocks
        .iter()
        .any(|p| p.relative_pos == (0, 2, 2) && p.block_type == BlockType::Glass));
    // The same size always builds the same house.
    let mut rng2 = SeededRng::new(77);
    let again = HouseStructure::new(HouseType::Small).generate(&mut rng2);
    assert_eq!(blocks, again);
}

#[test]
fn placed_structures_report_their_first_block() {
    let s = PlacedStructure {
        world_x: 10,
        world_y: 20,
        world_z: 30,
        structure_type: StructureType::Tree,
        blocks: vec![
            BlockPlacement { relative_pos: (0, 0, 0), block_type: BlockType::Wood },
            BlockPlacement { relative_pos: (0, 0, 0), block_type: BlockType::Leaves },
            BlockPlacement { relative_pos: (1, 2, 3), block_type: BlockType::Leaves },
        ],
    };
    assert_eq!(s.has_block_at(10, 20, 30), Some(BlockType::Wood));
    assert_eq!(s.has_block_at(11, 22, 33), Some(BlockType::Leaves));
    assert_eq!(s.has_block_at(9, 20, 30), None);
}

#[test]
fn qualifying_anchors_on_flat_ground_all_emit() {
    // The placement field clears its threshold everywhere and the terrain is
    // flat plains at the tree band's floor: every candidate anchor of the
    // 3x3 grid must carry a structure, and on plains the tree band covers
    // every roll, so they are all trees rooted at the surface.
    let cells = 87 * 87;
    let samples = NoiseSamples::from_parts(
        -36,
        -36,
        87,
        87,
        vec![0; cells],
        vec![0; cells],
        vec![500; cells],
        vec![vec![0; cells]; 18],
    )
    .unwrap();
    let mgr = BiomeManager::new();
    let mut heights = Vec::new();
    let mut biomes = Vec::new();
    for x in 0..16i64 {
        let mut hrow = Vec::new();
        let mut brow = Vec::new();
        for z in 0..16i64 {
            hrow.push(height_at(&samples, &mgr, x, z));
            brow.push(select_biome(&samples, x, z));
        }
        heights.push(hrow);
        biomes.push(brow);
    }
    let generator = StructureGenerator::new(7777);
    let placed = generator.generate_structures_for_chunk(0, 0, &heights, &biomes, &samples, &mgr);
    assert_eq!(placed.len(), 9);
    for ax in 0..3 {
        for az in 0..3 {
            let (wx, wz) = (-4 + 8 * ax, -4 + 8 * az);
            let s = placed
                .iter()
                .find(|s| s.world_x == wx && s.world_z == wz)
                .expect("every gated anchor carries a structure");
            assert_eq!(s.structure_type, StructureType::Tree);
            assert_eq!(s.world_y, 5);
        }
    }
}

#[test]
fn biome_names_match() {
    assert_eq!(Biome::Plains.name(), "Plains");
    assert_eq!(Biome::Desert.name(), "Desert");
    assert_eq!(Biome::Mountain.name(), "Mountain");
    assert_eq!(Biome::Tundra.name(), "Tundra");
    assert_eq!(Biome::Forest.name(), "Forest");
    assert_eq!(Biome::Swamp.name(), "Swamp");
}
