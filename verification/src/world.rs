use vstd::prelude::*;
use std::collections::HashMap;
use crate::biome::BiomeManager;
use crate::block::{BlockRegistry, BlockType};
use crate::chunk::{ChunkBlocks, ChunkGenerator};
use crate::mesh::ChunkData;
use crate::sampling::NoiseSamples;
use crate::ChunkPos;

verus! {

broadcast use vstd::std_specs::hash::group_hash_axioms;

/// Chunks are kept loaded within this radius (in chunks) of the viewer.
pub const RENDER_DISTANCE: i32 = 4;

/// Progress of a batch of chunk generation work.
pub struct TerrainProgress {
    pub total_chunks: usize,
    pub completed_chunks: usize,
    pub is_generating: bool,
}

impl TerrainProgress {
    pub fn new() -> (r: TerrainProgress)
        ensures
            r.total_chunks == 0,
            r.completed_chunks == 0,
            !r.is_generating,
    {
        TerrainProgress { total_chunks: 0, completed_chunks: 0, is_generating: false }
    }
}

/// The unsigned 32-bit reading of a signed chunk coordinate.
pub open spec fn spec_coord_bits(v: int) -> int {
    if v >= 0 {
        v
    } else {
        v + 0x1_0000_0000
    }
}

/// The map key of the chunk at grid position (x, z): both coordinates packed
/// into one 64-bit word.
pub open spec fn spec_pos_key(x: int, z: int) -> u64 {
    (spec_coord_bits(x) * 0x1_0000_0000 + spec_coord_bits(z)) as u64
}

/// Distinct chunk positions get distinct keys.
pub proof fn lemma_pos_key_injective(x1: int, z1: int, x2: int, z2: int)
    requires
        -0x8000_0000 <= x1 < 0x8000_0000,
        -0x8000_0000 <= z1 < 0x8000_0000,
        -0x8000_0000 <= x2 < 0x8000_0000,
        -0x8000_0000 <= z2 < 0x8000_0000,
        spec_pos_key(x1, z1) == spec_pos_key(x2, z2),
    ensures
        x1 == x2 && z1 == z2,
{
    let a1 = spec_coord_bits(x1);
    let b1 = spec_coord_bits(z1);
    let a2 = spec_coord_bits(x2);
    let b2 = spec_coord_bits(z2);
    assert(a1 == a2 && b1 == b2) by (nonlinear_arith)
        requires
            0 <= a1 < 0x1_0000_0000,
            0 <= b1 < 0x1_0000_0000,
            0 <= a2 < 0x1_0000_0000,
            0 <= b2 < 0x1_0000_0000,
            a1 * 0x1_0000_0000 + b1 == a2 * 0x1_0000_0000 + b2,
    {}
}

fn pos_key(p: ChunkPos) -> (r: u64)
    ensures
        r == spec_pos_key(p.x as int, p.z as int),
{
    let xb: u64 = if p.x >= 0 {
        p.x as u64
    } else {
        (p.x as i64 + 0x1_0000_0000i64) as u64
    };
    let zb: u64 = if p.z >= 0 {
        p.z as u64
    } else {
        (p.z as i64 + 0x1_0000_0000i64) as u64
    };
    xb * 0x1_0000_0000 + zb
}

/// The chunk grid coordinate owning block coordinate `w`, and the local
/// coordinate inside that chunk: floor division and Euclidean remainder.
pub open spec fn spec_chunk_coord(w: int) -> int {
    w / 16
}

pub open spec fn spec_local_coord(w: int) -> int {
    w % 16
}

fn split_coord(w: i32) -> (r: (i32, usize))
    ensures
        r.0 == spec_chunk_coord(w as int),
        r.1 == spec_local_coord(w as int),
        w == 16 * r.0 + r.1,
        0 <= r.1 < 16,
{
    let q = w / 16;
    let m = w % 16;
    if m < 0 {
        (q - 1, (m + 16) as usize)
    } else {
        (q, m as usize)
    }
}

/// A block position belongs to exactly one chunk: its owning chunk grid
/// coordinate and local coordinate are the only solution of
/// w == 16 * c + l with l inside the chunk, so a structure clipped into
/// several chunks writes every world cell in exactly one of them.
pub proof fn lemma_cell_owner_unique(w: int, c: int, l: int)
    requires
        w == 16 * c + l,
        0 <= l < 16,
    ensures
        c == spec_chunk_coord(w),
        l == spec_local_coord(w),
{
    assert(c == w / 16 && l == w % 16) by (nonlinear_arith)
        requires
            w == 16 * c + l,
            0 <= l < 16,
    {}
}

/// Everything the world knows, mapped over its view: the block the world
/// holds at an absolute position, if its chunk is resident and the height is
/// inside the world.
pub open spec fn spec_world_block(
    m: Map<u64, ChunkBlocks>,
    x: int,
    y: int,
    z: int,
) -> Option<BlockType> {
    if y < 0 || y >= 255 {
        Option::None
    } else {
        let k = spec_pos_key(spec_chunk_coord(x), spec_chunk_coord(z));
        if m.contains_key(k) {
            Option::Some(m[k].spec_block_at(spec_local_coord(x), spec_local_coord(z), y))
        } else {
            Option::None
        }
    }
}

/// The cells of the chunk at grid position (x, z), if resident: what the
/// mesh builder consults across a chunk boundary.
pub open spec fn spec_nb_cells(m: Map<u64, ChunkBlocks>, x: int, z: int) -> Option<
    Seq<BlockType>,
> {
    let k = spec_pos_key(x, z);
    if m.contains_key(k) {
        Option::Some(m[k].view())
    } else {
        Option::None
    }
}

/// Owns the chunk block-array cache: the single source of truth for world
/// content. Meshes are derived projections, rebuilt on demand from the
/// block arrays; edits report which chunks' meshes they invalidated.
pub struct World {
    chunk_blocks: HashMap<u64, ChunkBlocks>,
    loaded: Vec<ChunkPos>,
    registry: BlockRegistry,
    biome_manager: BiomeManager,
    chunk_generator: ChunkGenerator,
    /// Seed all noise fields derive from.
    pub world_seed: u32,
    pub progress: TerrainProgress,
}

impl World {
    /// The chunk store, as a map from packed position keys to block arrays.
    pub closed spec fn blocks_map(&self) -> Map<u64, ChunkBlocks> {
        self.chunk_blocks@
    }

    /// The resident chunk positions, in load order.
    pub closed spec fn loaded_seq(&self) -> Seq<ChunkPos> {
        self.loaded@
    }

    pub closed spec fn spec_registry(&self) -> BlockRegistry {
        self.registry
    }

    pub closed spec fn spec_biome_manager(&self) -> BiomeManager {
        self.biome_manager
    }

    pub open spec fn spec_is_loaded(&self, x: int, z: int) -> bool {
        self.blocks_map().contains_key(spec_pos_key(x, z))
    }

    pub open spec fn wf(&self) -> bool {
        &&& self.spec_registry().wf()
        &&& self.spec_biome_manager().wf()
        &&& forall|i: int| 0 <= i < self.loaded_seq().len() ==> {
            &&& -100_000_000 <= (#[trigger] self.loaded_seq()[i]).x <= 100_000_000
            &&& -100_000_000 <= self.loaded_seq()[i].z <= 100_000_000
            &&& self.blocks_map().contains_key(
                spec_pos_key(self.loaded_seq()[i].x as int, self.loaded_seq()[i].z as int),
            )
        }
        &&& forall|i: int, j: int|
            0 <= i < j < self.loaded_seq().len() ==> #[trigger] self.loaded_seq()[i]
                != #[trigger] self.loaded_seq()[j]
        &&& forall|k: u64| #[trigger] self.blocks_map().contains_key(k) ==> exists|i: int|
            0 <= i < self.loaded_seq().len() && spec_pos_key(
                (#[trigger] self.loaded_seq()[i]).x as int,
                self.loaded_seq()[i].z as int,
            ) == k
        &&& forall|k: u64| #[trigger] self.blocks_map().contains_key(k)
            ==> self.blocks_map()[k].wf()
    }

    /// A fresh world with nothing resident, the built-in block materials and
    /// biome configurations, and the fixed world seeds.
    pub fn new() -> (r: World)
        ensures
            r.wf(),
            r.loaded_seq() == Seq::<ChunkPos>::empty(),
            r.blocks_map() == Map::<u64, ChunkBlocks>::empty(),
            r.spec_world_seed() == 42,
            r.spec_biome_manager().is_default(),
            r.chunk_generator_seed() == 7777,
    {
        World {
            chunk_blocks: HashMap::new(),
            loaded: Vec::new(),
            registry: crate::block::init_block_registry(),
            biome_manager: BiomeManager::new(),
            chunk_generator: ChunkGenerator::new(7777),
            world_seed: 42,
            progress: TerrainProgress::new(),
        }
    }

    pub closed spec fn chunk_generator_seed(&self) -> u32 {
        self.chunk_generator.spec_seed()
    }

    pub closed spec fn spec_world_seed(&self) -> u32 {
        self.world_seed
    }

    /// The biome configurations chunks are generated under.
    pub fn biome_manager(&self) -> (r: &BiomeManager)
        ensures
            *r == self.spec_biome_manager(),
    {
        &self.biome_manager
    }

    /// Install a new biome configuration table; chunks generated from now
    /// on use it, already-resident chunks keep their blocks.
    pub fn set_biome_manager(&mut self, mgr: BiomeManager)
        requires
            old(self).wf(),
            mgr.wf(),
        ensures
            final(self).wf(),
            final(self).spec_biome_manager() == mgr,
            final(self).blocks_map() == old(self).blocks_map(),
            final(self).loaded_seq() == old(self).loaded_seq(),
            final(self).spec_registry() == old(self).spec_registry(),
            final(self).spec_world_seed() == old(self).spec_world_seed(),
    {
        self.biome_manager = mgr;
        proof {
            assert(self.loaded_seq() == old(self).loaded_seq());
            assert(self.blocks_map() == old(self).blocks_map());
            assert forall|k2: u64| #[trigger] self.blocks_map().contains_key(k2) implies exists|
                i: int,
            |
                0 <= i < self.loaded_seq().len() && spec_pos_key(
                    (#[trigger] self.loaded_seq()[i]).x as int,
                    self.loaded_seq()[i].z as int,
                ) == k2 by {
                assert(old(self).blocks_map().contains_key(k2));
                let i = choose|i: int|
                    0 <= i < old(self).loaded_seq().len() && spec_pos_key(
                        (#[trigger] old(self).loaded_seq()[i]).x as int,
                        old(self).loaded_seq()[i].z as int,
                    ) == k2;
                assert(self.loaded_seq()[i] == old(self).loaded_seq()[i]);
            }
        }
    }

    /// The block material registry meshes are textured from.
    pub fn registry(&self) -> (r: &BlockRegistry)
        ensures
            *r == self.spec_registry(),
    {
        &self.registry
    }

    /// Whether the chunk at grid position `p` is resident.
    pub fn is_chunk_loaded(&self, p: ChunkPos) -> (r: bool)
        ensures
            r == self.spec_is_loaded(p.x as int, p.z as int),
    {
        let k = pos_key(p);
        self.chunk_blocks.contains_key(&k)
    }

    /// The chunk positions within the render distance of the viewer's chunk
    /// that are not yet resident, in scan order: the set a caller should
    /// generate next.
    pub fn chunks_to_generate(&self, camera_chunk_x: i32, camera_chunk_z: i32) -> (r: Vec<
        ChunkPos,
    >)
        requires
            self.wf(),
            -99_000_000 <= camera_chunk_x <= 99_000_000,
            -99_000_000 <= camera_chunk_z <= 99_000_000,
        ensures
            forall|i: int| 0 <= i < r@.len() ==> {
                &&& camera_chunk_x - RENDER_DISTANCE <= (#[trigger] r@[i]).x <= camera_chunk_x
                    + RENDER_DISTANCE
                &&& camera_chunk_z - RENDER_DISTANCE <= r@[i].z <= camera_chunk_z
                    + RENDER_DISTANCE
                &&& !self.spec_is_loaded(r@[i].x as int, r@[i].z as int)
            },
            forall|x: int, z: int|
                camera_chunk_x - RENDER_DISTANCE <= x <= camera_chunk_x + RENDER_DISTANCE
                    && camera_chunk_z - RENDER_DISTANCE <= z <= camera_chunk_z + RENDER_DISTANCE
                    && !(#[trigger] self.spec_is_loaded(x, z)) ==> r@.contains(
                    ChunkPos { x: x as i32, z: z as i32 },
                ),
            forall|i: int, j: int| 0 <= i < j < r@.len() ==> #[trigger] r@[i] != #[trigger] r@[j],
    {
        let mut out: Vec<ChunkPos> = Vec::new();
        let mut dx: i32 = -RENDER_DISTANCE;
        while dx <= RENDER_DISTANCE
            invariant
                self.wf(),
                -99_000_000 <= camera_chunk_x <= 99_000_000,
                -99_000_000 <= camera_chunk_z <= 99_000_000,
                -RENDER_DISTANCE <= dx <= RENDER_DISTANCE + 1,
                forall|i: int| 0 <= i < out@.len() ==> {
                    &&& camera_chunk_x - RENDER_DISTANCE <= (#[trigger] out@[i]).x
                        <= camera_chunk_x + RENDER_DISTANCE
                    &&& camera_chunk_z - RENDER_DISTANCE <= out@[i].z <= camera_chunk_z
                        + RENDER_DISTANCE
                    &&& !self.spec_is_loaded(out@[i].x as int, out@[i].z as int)
                },
                forall|x: int, z: int|
                    camera_chunk_x - RENDER_DISTANCE <= x < camera_chunk_x + dx
                        && camera_chunk_z - RENDER_DISTANCE <= z <= camera_chunk_z
                        + RENDER_DISTANCE && !(#[trigger] self.spec_is_loaded(x, z))
                        ==> out@.contains(ChunkPos { x: x as i32, z: z as i32 }),
                forall|i: int| 0 <= i < out@.len() ==> (#[trigger] out@[i]).x < camera_chunk_x
                    + dx,
                forall|i: int, j: int|
                    0 <= i < j < out@.len() ==> #[trigger] out@[i] != #[trigger] out@[j],
            decreases RENDER_DISTANCE + 1 - dx,
        {
            let mut dz: i32 = -RENDER_DISTANCE;
            while dz <= RENDER_DISTANCE
                invariant
                    self.wf(),
                    -99_000_000 <= camera_chunk_x <= 99_000_000,
                    -99_000_000 <= camera_chunk_z <= 99_000_000,
                    -RENDER_DISTANCE <= dx <= RENDER_DISTANCE,
                    -RENDER_DISTANCE <= dz <= RENDER_DISTANCE + 1,
                    forall|i: int| 0 <= i < out@.len() ==> {
                        &&& camera_chunk_x - RENDER_DISTANCE <= (#[trigger] out@[i]).x
                            <= camera_chunk_x + RENDER_DISTANCE
                        &&& camera_chunk_z - RENDER_DISTANCE <= out@[i].z <= camera_chunk_z
                            + RENDER_DISTANCE
                        &&& !self.spec_is_loaded(out@[i].x as int, out@[i].z as int)
                    },
                    forall|x: int, z: int|
                        camera_chunk_x - RENDER_DISTANCE <= x < camera_chunk_x + dx
                            && camera_chunk_z - RENDER_DISTANCE <= z <= camera_chunk_z
                            + RENDER_DISTANCE && !(#[trigger] self.spec_is_loaded(x, z))
                            ==> out@.contains(ChunkPos { x: x as i32, z: z as i32 }),
                    forall|z: int|
                        camera_chunk_z - RENDER_DISTANCE <= z < camera_chunk_z + dz && !(
                        #[trigger] self.spec_is_loaded(camera_chunk_x + dx, z)) ==> out@.contains(
                            ChunkPos { x: (camera_chunk_x + dx) as i32, z: z as i32 },
                        ),
                    forall|i: int|
                        0 <= i < out@.len() ==> ((#[trigger] out@[i]).x < camera_chunk_x + dx || (
                        out@[i].x == camera_chunk_x + dx && out@[i].z < camera_chunk_z + dz)),
                    forall|i: int, j: int|
                        0 <= i < j < out@.len() ==> #[trigger] out@[i] != #[trigger] out@[j],
                decreases RENDER_DISTANCE + 1 - dz,
            {
                let p = ChunkPos { x: camera_chunk_x + dx, z: camera_chunk_z + dz };
                let ghost old_out = out@;
                if !self.is_chunk_loaded(p) {
                    out.push(p);
                }
                proof {
                    assert(self.spec_is_loaded(camera_chunk_x + dx, camera_chunk_z + dz)
                        == self.spec_is_loaded(p.x as int, p.z as int));
                    assert forall|q: ChunkPos| old_out.contains(q) implies out@.contains(q) by {
                        let w = choose|w: int| 0 <= w < old_out.len() && old_out[w] == q;
                        assert(out@[w] == q);
                    }
                    assert forall|z: int|
                        camera_chunk_z - RENDER_DISTANCE <= z < camera_chunk_z + dz + 1 && !(
                        #[trigger] self.spec_is_loaded(camera_chunk_x + dx, z))
                            implies out@.contains(
                        ChunkPos { x: (camera_chunk_x + dx) as i32, z: z as i32 },
                    ) by {
                        if z == camera_chunk_z + dz {
                            assert(out@[out@.len() - 1] == p);
                        }
                    }
                }
                dz = dz + 1;
            }
            proof {
                assert forall|x: int, z: int|
                    camera_chunk_x - RENDER_DISTANCE <= x < camera_chunk_x + dx + 1
                        && camera_chunk_z - RENDER_DISTANCE <= z <= camera_chunk_z
                        + RENDER_DISTANCE && !(#[trigger] self.spec_is_loaded(x, z))
                        implies out@.contains(ChunkPos { x: x as i32, z: z as i32 }) by {
                    if x == camera_chunk_x + dx {
                        assert(self.spec_is_loaded(camera_chunk_x + dx, z) == self.spec_is_loaded(
                            x,
                            z,
                        ));
                    }
                }
            }
            dx = dx + 1;
        }
        out
    }

    /// Generate the chunk at `pos`: its block array and its initial mesh.
    /// Pure with respect to the world, so independent positions can be
    /// generated in parallel before their results are inserted one by one.
    pub fn generate_chunk(&self, pos: ChunkPos, samples: &NoiseSamples) -> (r: (
        ChunkData,
        ChunkBlocks,
    ))
        requires
            self.wf(),
            samples.wf(),
            -100_000_000 <= pos.x <= 100_000_000,
            -100_000_000 <= pos.z <= 100_000_000,
            samples.covers_box(pos.x * 16 - 36, pos.z * 16 - 36, 87, 87),
        ensures
            r.1.wf(),
            crate::chunk::spec_chunk_generated(
                self.chunk_generator_seed(),
                pos.x as int,
                pos.z as int,
                samples,
                &self.spec_biome_manager(),
                &r.1,
            ),
            r.0.vertices@ == crate::mesh::spec_mesh_vertices(
                &self.spec_registry(),
                pos.x as int,
                pos.z as int,
                r.1.view(),
                Option::None,
                Option::None,
                Option::None,
                Option::None,
            ),
            r.0.indices@ == crate::mesh::spec_mesh_indices(
                &self.spec_registry(),
                pos.x as int,
                pos.z as int,
                r.1.view(),
                Option::None,
                Option::None,
                Option::None,
                Option::None,
            ),
    {
        self.chunk_generator.generate_chunk(pos.x, pos.z, samples, &self.biome_manager, &self.registry)
    }

    /// Make a generated chunk resident. The block array becomes the
    /// authoritative content of that position.
    pub fn insert_chunk(&mut self, pos: ChunkPos, blocks: ChunkBlocks)
        requires
            old(self).wf(),
            blocks.wf(),
            !old(self).spec_is_loaded(pos.x as int, pos.z as int),
            -100_000_000 <= pos.x <= 100_000_000,
            -100_000_000 <= pos.z <= 100_000_000,
        ensures
            final(self).wf(),
            final(self).blocks_map() == old(self).blocks_map().insert(
                spec_pos_key(pos.x as int, pos.z as int),
                blocks,
            ),
            final(self).loaded_seq() == old(self).loaded_seq().push(pos),
            final(self).spec_registry() == old(self).spec_registry(),
            final(self).spec_biome_manager() == old(self).spec_biome_manager(),
            final(self).spec_world_seed() == old(self).spec_world_seed(),
    {
        let k = pos_key(pos);
        self.chunk_blocks.insert(k, blocks);
        self.loaded.push(pos);
        proof {
            assert(self.loaded_seq() == self.loaded@);
            assert(old(self).loaded_seq() == old(self).loaded@);
            assert(self.blocks_map() == self.chunk_blocks@);
            assert(old(self).blocks_map() == old(self).chunk_blocks@);
            assert forall|i: int, j: int|
                0 <= i < j < self.loaded@.len() implies #[trigger] self.loaded@[i]
                != #[trigger] self.loaded@[j] by {
                if j == self.loaded@.len() - 1 {
                    assert(self.loaded@[j] == pos);
                    assert(self.loaded@[i] == old(self).loaded_seq()[i]);
                    if self.loaded@[i] == pos {
                        assert(old(self).loaded_seq()[i] == pos);
                        assert(old(self).blocks_map().contains_key(
                            spec_pos_key(
                                old(self).loaded_seq()[i].x as int,
                                old(self).loaded_seq()[i].z as int,
                            ),
                        ));
                        assert(false);
                    }
                } else {
                    assert(self.loaded@[i] == old(self).loaded_seq()[i]);
                    assert(self.loaded@[j] == old(self).loaded_seq()[j]);
                }
            }
            assert forall|k2: u64| #[trigger] self.chunk_blocks@.contains_key(k2) implies exists|
                i: int,
            |
                0 <= i < self.loaded@.len() && spec_pos_key(
                    (#[trigger] self.loaded@[i]).x as int,
                    self.loaded@[i].z as int,
                ) == k2 by {
                if k2 == k {
                    assert(self.loaded@[self.loaded@.len() - 1] == pos);
                    assert(spec_pos_key(
                        self.loaded@[self.loaded@.len() - 1].x as int,
                        self.loaded@[self.loaded@.len() - 1].z as int,
                    ) == k2);
                } else {
                    assert(old(self).blocks_map().contains_key(k2));
                    let i = choose|i: int|
                        0 <= i < old(self).loaded_seq().len() && spec_pos_key(
                            (#[trigger] old(self).loaded_seq()[i]).x as int,
                            old(self).loaded_seq()[i].z as int,
                        ) == k2;
                    assert(self.loaded@[i] == old(self).loaded_seq()[i]);
                }
            }
            assert forall|i: int| 0 <= i < self.loaded@.len() implies {
                &&& -100_000_000 <= (#[trigger] self.loaded_seq()[i]).x <= 100_000_000
                &&& -100_000_000 <= self.loaded_seq()[i].z <= 100_000_000
                &&& self.blocks_map().contains_key(
                    spec_pos_key(self.loaded_seq()[i].x as int, self.loaded_seq()[i].z as int),
                )
            } by {
                if i < self.loaded@.len() - 1 {
                    assert(self.loaded_seq()[i] == old(self).loaded_seq()[i]);
                    assert(old(self).blocks_map().contains_key(
                        spec_pos_key(
                            old(self).loaded_seq()[i].x as int,
                            old(self).loaded_seq()[i].z as int,
                        ),
                    ));
                } else {
                    assert(self.loaded_seq()[i] == pos);
                }
            }
            assert forall|k2: u64| #[trigger] self.blocks_map().contains_key(k2)
                implies self.blocks_map()[k2].wf() by {
                if k2 != k {
                    assert(old(self).blocks_map().contains_key(k2));
                }
            }
        }
    }

    /// Drop the chunk at `pos` from the world, if resident: both its block
    /// array and any mesh derived from it cease to be meaningful.
    pub fn evict_chunk(&mut self, pos: ChunkPos)
        requires
            old(self).wf(),
        ensures
            final(self).wf(),
            final(self).blocks_map() == old(self).blocks_map().remove(
                spec_pos_key(pos.x as int, pos.z as int),
            ),
            final(self).loaded_seq().to_set() == old(self).loaded_seq().to_set().remove(pos),
            final(self).loaded_seq().len() <= old(self).loaded_seq().len(),
            old(self).loaded_seq().contains(pos) ==> final(self).loaded_seq().len() < old(
                self,
            ).loaded_seq().len(),
            final(self).spec_registry() == old(self).spec_registry(),
            final(self).spec_biome_manager() == old(self).spec_biome_manager(),
            final(self).spec_world_seed() == old(self).spec_world_seed(),
    {
        let k = pos_key(pos);
        self.chunk_blocks.remove(&k);
        let mut found: Option<usize> = None;
        let mut i: usize = 0;
        while i < self.loaded.len()
            invariant
                i <= self.loaded@.len(),
                self.loaded@ == old(self).loaded@,
                match found {
                    Option::Some(j) => j < i && self.loaded@[j as int] == pos,
                    Option::None => forall|j: int| 0 <= j < i ==> #[trigger] self.loaded@[j]
                        != pos,
                },
            decreases self.loaded@.len() - i,
        {
            if found.is_none() {
                let p = self.loaded[i];
                if p.x == pos.x && p.z == pos.z {
                    found = Some(i);
                }
            }
            i = i + 1;
        }
        match found {
            Some(j) => {
                self.loaded.remove(j);
                proof {
                    let prev = old(self).loaded@;
                    assert(self.loaded@ == prev.remove(j as int));
                    assert forall|j1: int, j2: int|
                        0 <= j1 < j2 < self.loaded@.len() implies #[trigger] self.loaded@[j1]
                        != #[trigger] self.loaded@[j2] by {
                        assert(self.loaded@[j1] == (if j1 < j { prev[j1] } else { prev[j1 + 1] }));
                        assert(self.loaded@[j2] == (if j2 < j { prev[j2] } else { prev[j2 + 1] }));
                    }
                    assert forall|jj: int|
                        0 <= jj < self.loaded@.len() implies #[trigger] self.loaded@[jj]
                        != pos by {
                        assert(self.loaded@[jj] == (if jj < j { prev[jj] } else { prev[jj + 1] }));
                        if jj >= j {
                            assert(prev[jj + 1] != prev[j as int]);
                        } else {
                            assert(prev[jj] != prev[j as int]);
                        }
                    }
                    assert forall|jj: int|
                        0 <= jj < prev.len() && prev[jj] != pos implies self.loaded@.contains(
                        #[trigger] prev[jj],
                    ) by {
                        if jj < j {
                            assert(self.loaded@[jj] == prev[jj]);
                        } else {
                            assert(jj != j);
                            assert(self.loaded@[jj - 1] == prev[jj]);
                        }
                    }
                    assert forall|jj: int|
                        0 <= jj < self.loaded@.len() implies prev.contains(
                        #[trigger] self.loaded@[jj],
                    ) by {
                        if jj < j {
                            assert(prev[jj] == self.loaded@[jj]);
                        } else {
                            assert(prev[jj + 1] == self.loaded@[jj]);
                        }
                    }
                    assert(prev.contains(pos)) by {
                        assert(prev[j as int] == pos);
                    }
                    self.lemma_evict_wf(old(self), pos, k);
                }
            },
            None => {
                proof {
                    assert forall|jj: int|
                        0 <= jj < self.loaded@.len() implies old(self).loaded@.contains(
                        #[trigger] self.loaded@[jj],
                    ) by {
                        assert(old(self).loaded@[jj] == self.loaded@[jj]);
                    }
                    assert(!old(self).loaded@.contains(pos)) by {
                        if old(self).loaded@.contains(pos) {
                            let jj = choose|jj: int|
                                0 <= jj < old(self).loaded@.len() && old(self).loaded@[jj] == pos;
                        }
                    }
                    self.lemma_evict_wf(old(self), pos, k);
                }
            },
        }
    }

    proof fn lemma_evict_wf(&self, prev: &World, pos: ChunkPos, k: u64)
        requires
            prev.wf(),
            k == spec_pos_key(pos.x as int, pos.z as int),
            self.chunk_blocks@ == prev.chunk_blocks@.remove(k),
            self.registry == prev.registry,
            self.biome_manager == prev.biome_manager,
            forall|j: int| 0 <= j < self.loaded@.len() ==> #[trigger] self.loaded@[j] != pos,
            forall|j: int|
                0 <= j < prev.loaded@.len() && prev.loaded@[j] != pos ==> self.loaded@.contains(
                    #[trigger] prev.loaded@[j],
                ),
            forall|j: int| 0 <= j < self.loaded@.len() ==> prev.loaded@.contains(
                #[trigger] self.loaded@[j],
            ),
            forall|j1: int, j2: int|
                0 <= j1 < j2 < self.loaded@.len() ==> #[trigger] self.loaded@[j1]
                    != #[trigger] self.loaded@[j2],
            self.loaded@.len() <= prev.loaded@.len(),
            prev.loaded@.contains(pos) ==> self.loaded@.len() < prev.loaded@.len(),
        ensures
            self.wf(),
            self.loaded_seq().to_set() == prev.loaded_seq().to_set().remove(pos),
    {
        assert(self.loaded_seq() == self.loaded@);
        assert(prev.loaded_seq() == prev.loaded@);
        assert(self.blocks_map() == self.chunk_blocks@);
        assert(prev.blocks_map() == prev.chunk_blocks@);
        assert forall|i: int| 0 <= i < self.loaded@.len() implies {
            &&& -100_000_000 <= (#[trigger] self.loaded@[i]).x <= 100_000_000
            &&& -100_000_000 <= self.loaded@[i].z <= 100_000_000
            &&& self.chunk_blocks@.contains_key(
                spec_pos_key(self.loaded@[i].x as int, self.loaded@[i].z as int),
            )
        } by {
            let p = self.loaded@[i];
            let j = choose|j: int| 0 <= j < prev.loaded@.len() && prev.loaded@[j] == p;
            assert(prev.blocks_map().contains_key(spec_pos_key(p.x as int, p.z as int)));
            if spec_pos_key(p.x as int, p.z as int) == k {
                lemma_pos_key_injective(p.x as int, p.z as int, pos.x as int, pos.z as int);
            }
        }
        assert forall|k2: u64| #[trigger] self.chunk_blocks@.contains_key(k2) implies exists|
            i: int,
        |
            0 <= i < self.loaded@.len() && spec_pos_key(
                (#[trigger] self.loaded@[i]).x as int,
                self.loaded@[i].z as int,
            ) == k2 by {
            assert(prev.chunk_blocks@.contains_key(k2));
            let i = choose|i: int|
                0 <= i < prev.loaded@.len() && spec_pos_key(
                    (#[trigger] prev.loaded@[i]).x as int,
                    prev.loaded@[i].z as int,
                ) == k2;
            let p = prev.loaded@[i];
            assert(p != pos) by {
                if p == pos {
                    assert(k2 == k);
                }
            }
            assert(self.loaded@.contains(p));
            let j = choose|j: int| 0 <= j < self.loaded@.len() && self.loaded@[j] == p;
        }
        assert(self.loaded_seq().to_set() =~= prev.loaded_seq().to_set().remove(pos)) by {
            assert forall|p: ChunkPos| self.loaded_seq().to_set().contains(p) implies
                prev.loaded_seq().to_set().remove(pos).contains(p) by {
                let j = choose|j: int| 0 <= j < self.loaded@.len() && self.loaded@[j] == p;
            }
            assert forall|p: ChunkPos| prev.loaded_seq().to_set().remove(pos).contains(p) implies
                self.loaded_seq().to_set().contains(p) by {
                let j = choose|j: int| 0 <= j < prev.loaded@.len() && prev.loaded@[j] == p;
                assert(self.loaded@.contains(p));
            }
        }
    }

    /// Evict every resident chunk outside the render distance of the
    /// viewer's chunk.
    pub fn evict_outside(&mut self, camera_chunk_x: i32, camera_chunk_z: i32)
        requires
            old(self).wf(),
            -99_000_000 <= camera_chunk_x <= 99_000_000,
            -99_000_000 <= camera_chunk_z <= 99_000_000,
        ensures
            final(self).wf(),
            forall|i: int|
                0 <= i < final(self).loaded_seq().len() ==> {
                    let q = #[trigger] final(self).loaded_seq()[i];
                    &&& camera_chunk_x - RENDER_DISTANCE <= q.x <= camera_chunk_x
                        + RENDER_DISTANCE
                    &&& camera_chunk_z - RENDER_DISTANCE <= q.z <= camera_chunk_z
                        + RENDER_DISTANCE
                },
            forall|p: ChunkPos|
                old(self).loaded_seq().to_set().contains(p) && camera_chunk_x - RENDER_DISTANCE
                    <= p.x <= camera_chunk_x + RENDER_DISTANCE && camera_chunk_z - RENDER_DISTANCE
                    <= p.z <= camera_chunk_z + RENDER_DISTANCE ==> final(self).loaded_seq().to_set().contains(p),
            final(self).spec_registry() == old(self).spec_registry(),
            final(self).spec_biome_manager() == old(self).spec_biome_manager(),
            final(self).spec_world_seed() == old(self).spec_world_seed(),
    {
        let mut i: usize = 0;
        while i < self.loaded.len()
            invariant
                self.wf(),
                i <= self.loaded@.len(),
                -99_000_000 <= camera_chunk_x <= 99_000_000,
                -99_000_000 <= camera_chunk_z <= 99_000_000,
                forall|j: int| 0 <= j < i ==> {
                    &&& camera_chunk_x - RENDER_DISTANCE <= (#[trigger] self.loaded@[j]).x
                        <= camera_chunk_x + RENDER_DISTANCE
                    &&& camera_chunk_z - RENDER_DISTANCE <= self.loaded@[j].z <= camera_chunk_z
                        + RENDER_DISTANCE
                },
                forall|p: ChunkPos|
                    old(self).loaded_seq().to_set().contains(p) && camera_chunk_x
                        - RENDER_DISTANCE <= p.x <= camera_chunk_x + RENDER_DISTANCE
                        && camera_chunk_z - RENDER_DISTANCE <= p.z <= camera_chunk_z
                        + RENDER_DISTANCE ==> self.loaded_seq().to_set().contains(p),
                self.spec_registry() == old(self).spec_registry(),
                self.spec_biome_manager() == old(self).spec_biome_manager(),
                self.spec_world_seed() == old(self).spec_world_seed(),
            decreases self.loaded@.len(), self.loaded@.len() - i,
        {
            let p = self.loaded[i];
            proof {
                assert(p == self.loaded_seq()[i as int]);
            }
            let dx = p.x - camera_chunk_x;
            let dz = p.z - camera_chunk_z;
            if dx > RENDER_DISTANCE || dx < -RENDER_DISTANCE || dz > RENDER_DISTANCE || dz
                < -RENDER_DISTANCE {
                self.evict_chunk(p);
                proof {
                    assert forall|q: ChunkPos|
                        old(self).loaded_seq().to_set().contains(q) && camera_chunk_x
                            - RENDER_DISTANCE <= q.x <= camera_chunk_x + RENDER_DISTANCE
                            && camera_chunk_z - RENDER_DISTANCE <= q.z <= camera_chunk_z
                            + RENDER_DISTANCE implies self.loaded_seq().to_set().contains(q) by {
                        assert(q != p);
                    }
                }
                i = 0;
            } else {
                i = i + 1;
            }
        }
    }

    /// Whether a solid (non-air) block is resident at a world position.
    /// Unloaded chunks and out-of-range heights read as not solid.
    pub fn is_block_solid(&self, world_x: i32, world_y: i32, world_z: i32) -> (r: bool)
        requires
            self.wf(),
        ensures
            r == match spec_world_block(
                self.blocks_map(),
                world_x as int,
                world_y as int,
                world_z as int,
            ) {
                Option::Some(b) => b != BlockType::Air,
                Option::None => false,
            },
    {
        match self.get_block_type(world_x, world_y, world_z) {
            Some(b) => b != BlockType::Air,
            None => false,
        }
    }

    /// The block kind at a world position, or None if the height is out of
    /// range or the owning chunk is not resident.
    pub fn get_block_type(&self, world_x: i32, world_y: i32, world_z: i32) -> (r: Option<
        BlockType,
    >)
        requires
            self.wf(),
        ensures
            r == spec_world_block(
                self.blocks_map(),
                world_x as int,
                world_y as int,
                world_z as int,
            ),
    {
        if world_y < 0 || world_y >= 255 {
            return None;
        }
        let (cx, lx) = split_coord(world_x);
        let (cz, lz) = split_coord(world_z);
        let k = pos_key(ChunkPos { x: cx, z: cz });
        match self.chunk_blocks.get(&k) {
            Some(chunk) => Some(chunk.get(lx, lz, world_y as usize)),
            None => None,
        }
    }

    /// The positions of all resident chunks, in load order.
    pub fn get_loaded_chunk_positions(&self) -> (r: Vec<ChunkPos>)
        ensures
            r@ == self.loaded_seq(),
    {
        let mut out: Vec<ChunkPos> = Vec::new();
        let mut i: usize = 0;
        while i < self.loaded.len()
            invariant
                i <= self.loaded@.len(),
                out@ == self.loaded@.take(i as int),
            decreases self.loaded@.len() - i,
        {
            out.push(self.loaded[i]);
            proof {
                assert(out@ =~= self.loaded@.take(i + 1));
            }
            i = i + 1;
        }
        proof {
            assert(self.loaded@.take(self.loaded@.len() as int) =~= self.loaded@);
        }
        out
    }

    /// Rebuild the mesh of the chunk at `pos` from the current block arrays,
    /// or None if the chunk is not resident. Boundary faces consult the
    /// neighboring chunks that are resident right now; absent neighbors are
    /// treated as open air.
    pub fn chunk_mesh(&self, pos: ChunkPos) -> (r: Option<ChunkData>)
        requires
            self.wf(),
            -100_000_000 <= pos.x <= 100_000_000,
            -100_000_000 <= pos.z <= 100_000_000,
        ensures
            match r {
                Option::Some(d) => {
                    &&& self.spec_is_loaded(pos.x as int, pos.z as int)
                    &&& d.vertices@ == crate::mesh::spec_mesh_vertices(
                        &self.spec_registry(),
                        pos.x as int,
                        pos.z as int,
                        self.blocks_map()[spec_pos_key(pos.x as int, pos.z as int)].view(),
                        spec_nb_cells(self.blocks_map(), pos.x - 1, pos.z as int),
                        spec_nb_cells(self.blocks_map(), pos.x + 1, pos.z as int),
                        spec_nb_cells(self.blocks_map(), pos.x as int, pos.z - 1),
                        spec_nb_cells(self.blocks_map(), pos.x as int, pos.z + 1),
                    )
                    &&& d.indices@ == crate::mesh::spec_mesh_indices(
                        &self.spec_registry(),
                        pos.x as int,
                        pos.z as int,
                        self.blocks_map()[spec_pos_key(pos.x as int, pos.z as int)].view(),
                        spec_nb_cells(self.blocks_map(), pos.x - 1, pos.z as int),
                        spec_nb_cells(self.blocks_map(), pos.x + 1, pos.z as int),
                        spec_nb_cells(self.blocks_map(), pos.x as int, pos.z - 1),
                        spec_nb_cells(self.blocks_map(), pos.x as int, pos.z + 1),
                    )
                },
                Option::None => !self.spec_is_loaded(pos.x as int, pos.z as int),
            },
    {
        let k = pos_key(pos);
        let blocks = match self.chunk_blocks.get(&k) {
            Some(b) => b,
            None => {
                return None;
            },
        };
        let knx = pos_key(ChunkPos { x: pos.x - 1, z: pos.z });
        let kpx = pos_key(ChunkPos { x: pos.x + 1, z: pos.z });
        let knz = pos_key(ChunkPos { x: pos.x, z: pos.z - 1 });
        let kpz = pos_key(ChunkPos { x: pos.x, z: pos.z + 1 });
        let neg_x = self.chunk_blocks.get(&knx);
        let pos_x = self.chunk_blocks.get(&kpx);
        let neg_z = self.chunk_blocks.get(&knz);
        let pos_z = self.chunk_blocks.get(&kpz);
        Some(
            crate::mesh::build_chunk_mesh(
                &self.registry,
                pos.x,
                pos.z,
                blocks,
                neg_x,
                pos_x,
                neg_z,
                pos_z,
            ),
        )
    }

    /// The chunks whose meshes an edit of the block at (world_x, *, world_z)
    /// invalidates: the owning chunk, plus every neighbor sharing the face
    /// or corner the edited cell touches - one chunk for an interior cell,
    /// up to four for a corner cell.
    pub fn affected_chunks(world_x: i32, world_z: i32) -> (r: Vec<ChunkPos>)
        ensures
            r@ == spec_affected_chunks(world_x as int, world_z as int),
            r@[0] == (ChunkPos {
                x: spec_chunk_coord(world_x as int) as i32,
                z: spec_chunk_coord(world_z as int) as i32,
            }),
            1 <= r@.len() <= 4,
            spec_local_coord(world_x as int) != 0 && spec_local_coord(world_x as int) != 15
                && spec_local_coord(world_z as int) != 0 && spec_local_coord(world_z as int) != 15
                ==> r@.len() == 1,
            (spec_local_coord(world_x as int) == 0 || spec_local_coord(world_x as int) == 15)
                && (spec_local_coord(world_z as int) == 0 || spec_local_coord(world_z as int)
                == 15) ==> r@.len() == 4,
    {
        let (cx, lx) = split_coord(world_x);
        let (cz, lz) = split_coord(world_z);
        let mut out: Vec<ChunkPos> = Vec::new();
        out.push(ChunkPos { x: cx, z: cz });
        let ex: i32 = if lx == 0 {
            -1
        } else if lx == 15 {
            1
        } else {
            0
        };
        let ez: i32 = if lz == 0 {
            -1
        } else if lz == 15 {
            1
        } else {
            0
        };
        if ex != 0 {
            out.push(ChunkPos { x: cx + ex, z: cz });
        }
        if ez != 0 {
            out.push(ChunkPos { x: cx, z: cz + ez });
        }
        if ex != 0 && ez != 0 {
            out.push(ChunkPos { x: cx + ex, z: cz + ez });
        }
        proof {
            assert(out@ =~= spec_affected_chunks(world_x as int, world_z as int));
        }
        out
    }

    /// Add a block at a world position: succeeds exactly when the height is
    /// in range, the owning chunk is resident and the cell is currently air.
    /// On success the cell holds `block_type` and nothing else changed; the
    /// meshes of the affected chunks must be rebuilt.
    pub fn add_block(&mut self, world_x: i32, world_y: i32, world_z: i32, block_type: BlockType)
        -> (r: bool)
        requires
            old(self).wf(),
        ensures
            final(self).wf(),
            r == (0 <= world_y < 255 && old(self).spec_is_loaded(
                spec_chunk_coord(world_x as int),
                spec_chunk_coord(world_z as int),
            ) && spec_world_block(
                old(self).blocks_map(),
                world_x as int,
                world_y as int,
                world_z as int,
            ) == Option::Some(BlockType::Air)),
            !r ==> final(self).blocks_map() == old(self).blocks_map(),
            r ==> forall|x2: int, y2: int, z2: int|
                -0x8000_0000 <= x2 < 0x8000_0000 && -0x8000_0000 <= z2 < 0x8000_0000
                    ==> #[trigger] spec_world_block(final(self).blocks_map(), x2, y2, z2) == (
                if x2 == world_x && y2 == world_y && z2 == world_z {
                    Option::Some(block_type)
                } else {
                    spec_world_block(old(self).blocks_map(), x2, y2, z2)
                }),
            final(self).loaded_seq() == old(self).loaded_seq(),
            final(self).spec_registry() == old(self).spec_registry(),
            final(self).spec_biome_manager() == old(self).spec_biome_manager(),
            final(self).spec_world_seed() == old(self).spec_world_seed(),
    {
        self.mutate_block(world_x, world_y, world_z, block_type, true)
    }

    /// Remove the block at a world position: succeeds exactly when the
    /// height is in range, the owning chunk is resident and the cell holds
    /// something other than air, returning what was removed. On success the
    /// cell holds air and nothing else changed; the meshes of the affected
    /// chunks must be rebuilt.
    pub fn remove_block(&mut self, world_x: i32, world_y: i32, world_z: i32) -> (r: Option<
        BlockType,
    >)
        requires
            old(self).wf(),
        ensures
            final(self).wf(),
            match r {
                Option::Some(b) => {
                    &&& spec_world_block(
                        old(self).blocks_map(),
                        world_x as int,
                        world_y as int,
                        world_z as int,
                    ) == Option::Some(b)
                    &&& b != BlockType::Air
                    &&& forall|x2: int, y2: int, z2: int|
                        -0x8000_0000 <= x2 < 0x8000_0000 && -0x8000_0000 <= z2 < 0x8000_0000
                            ==> #[trigger] spec_world_block(final(self).blocks_map(), x2, y2, z2)
                            == (if x2 == world_x && y2 == world_y && z2 == world_z {
                            Option::Some(BlockType::Air)
                        } else {
                            spec_world_block(old(self).blocks_map(), x2, y2, z2)
                        })
                },
                Option::None => {
                    &&& final(self).blocks_map() == old(self).blocks_map()
                    &&& !(spec_world_block(
                        old(self).blocks_map(),
                        world_x as int,
                        world_y as int,
                        world_z as int,
                    ) matches Option::Some(b) && b != BlockType::Air)
                },
            },
            final(self).loaded_seq() == old(self).loaded_seq(),
            final(self).spec_registry() == old(self).spec_registry(),
            final(self).spec_biome_manager() == old(self).spec_biome_manager(),
            final(self).spec_world_seed() == old(self).spec_world_seed(),
    {
        let removed = self.get_block_type(world_x, world_y, world_z);
        if let Some(b) = removed {
            if b != BlockType::Air {
                let ok = self.mutate_block(world_x, world_y, world_z, BlockType::Air, false);
                proof {
                    assert(ok);
                }
                return Some(b);
            }
        }
        None
    }

    /// Overwrite one cell. With `require_air` the cell must currently be
    /// air; without it, it must hold something other than air.
    fn mutate_block(
        &mut self,
        world_x: i32,
        world_y: i32,
        world_z: i32,
        block_type: BlockType,
        require_air: bool,
    ) -> (r: bool)
        requires
            old(self).wf(),
        ensures
            final(self).wf(),
            r == (0 <= world_y < 255 && old(self).spec_is_loaded(
                spec_chunk_coord(world_x as int),
                spec_chunk_coord(world_z as int),
            ) && (if require_air {
                spec_world_block(
                    old(self).blocks_map(),
                    world_x as int,
                    world_y as int,
                    world_z as int,
                ) == Option::Some(BlockType::Air)
            } else {
                spec_world_block(
                    old(self).blocks_map(),
                    world_x as int,
                    world_y as int,
                    world_z as int,
                ) != Option::Some(BlockType::Air) && spec_world_block(
                    old(self).blocks_map(),
                    world_x as int,
                    world_y as int,
                    world_z as int,
                ) is Some
            })),
            !r ==> final(self).blocks_map() == old(self).blocks_map(),
            r ==> forall|x2: int, y2: int, z2: int|
                -0x8000_0000 <= x2 < 0x8000_0000 && -0x8000_0000 <= z2 < 0x8000_0000
                    ==> #[trigger] spec_world_block(final(self).blocks_map(), x2, y2, z2) == (
                if x2 == world_x && y2 == world_y && z2 == world_z {
                    Option::Some(block_type)
                } else {
                    spec_world_block(old(self).blocks_map(), x2, y2, z2)
                }),
            final(self).loaded_seq() == old(self).loaded_seq(),
            final(self).spec_registry() == old(self).spec_registry(),
            final(self).spec_biome_manager() == old(self).spec_biome_manager(),
            final(self).spec_world_seed() == old(self).spec_world_seed(),
    {
        if world_y < 0 || world_y >= 255 {
            return false;
        }
        let (cx, lx) = split_coord(world_x);
        let (cz, lz) = split_coord(world_z);
        let k = pos_key(ChunkPos { x: cx, z: cz });
        let current = match self.chunk_blocks.get(&k) {
            Some(chunk) => chunk.get(lx, lz, world_y as usize),
            None => {
                return false;
            },
        };
        if require_air {
            if current != BlockType::Air {
                return false;
            }
        } else {
            if current == BlockType::Air {
                return false;
            }
        }
        let mut chunk = match self.chunk_blocks.remove(&k) {
            Some(c) => c,
            None => {
                return false;
            },
        };
        chunk.set(lx, lz, world_y as usize, block_type);
        let ghost gchunk = chunk;
        self.chunk_blocks.insert(k, chunk);
        proof {
            assert(self.chunk_blocks@ =~= old(self).chunk_blocks@.insert(k, gchunk));
            self.lemma_mutate_wf(old(self), k, gchunk);
            lemma_world_block_update(
                old(self).chunk_blocks@,
                self.chunk_blocks@,
                k,
                world_x as int,
                world_y as int,
                world_z as int,
                block_type,
            );
        }
        true
    }

    proof fn lemma_mutate_wf(&self, prev: &World, k: u64, chunk: ChunkBlocks)
        requires
            prev.wf(),
            prev.chunk_blocks@.contains_key(k),
            chunk.wf(),
            self.chunk_blocks@ == prev.chunk_blocks@.insert(k, chunk),
            self.loaded@ == prev.loaded@,
            self.registry == prev.registry,
            self.biome_manager == prev.biome_manager,
        ensures
            self.wf(),
    {
        assert(self.loaded_seq() == self.loaded@);
        assert(prev.loaded_seq() == prev.loaded@);
        assert(self.blocks_map() == self.chunk_blocks@);
        assert(prev.blocks_map() == prev.chunk_blocks@);
        assert forall|k2: u64| #[trigger] self.chunk_blocks@.contains_key(k2) implies exists|
            i: int,
        |
            0 <= i < self.loaded@.len() && spec_pos_key(
                (#[trigger] self.loaded@[i]).x as int,
                self.loaded@[i].z as int,
            ) == k2 by {
            assert(prev.chunk_blocks@.contains_key(k2));
            let i = choose|i: int|
                0 <= i < prev.loaded_seq().len() && spec_pos_key(
                    (#[trigger] prev.loaded_seq()[i]).x as int,
                    prev.loaded_seq()[i].z as int,
                ) == k2;
            assert(self.loaded@[i] == prev.loaded_seq()[i]);
        }
        assert forall|i: int| 0 <= i < self.loaded@.len() implies {
            &&& -100_000_000 <= (#[trigger] self.loaded_seq()[i]).x <= 100_000_000
            &&& -100_000_000 <= self.loaded_seq()[i].z <= 100_000_000
            &&& self.blocks_map().contains_key(
                spec_pos_key(self.loaded_seq()[i].x as int, self.loaded_seq()[i].z as int),
            )
        } by {
            assert(self.loaded_seq()[i] == prev.loaded_seq()[i]);
            assert(prev.blocks_map().contains_key(
                spec_pos_key(prev.loaded_seq()[i].x as int, prev.loaded_seq()[i].z as int),
            ));
        }
        assert forall|k2: u64| #[trigger] self.blocks_map().contains_key(k2)
            implies self.blocks_map()[k2].wf() by {
            if k2 != k {
                assert(prev.blocks_map().contains_key(k2));
            }
        }
    }
}

/// The chunks an edit at column (world_x, world_z) touches, in a fixed
/// order: the owner, then the x-side neighbor, the z-side neighbor, and the
/// corner neighbor, when the cell lies on the matching chunk edges.
pub open spec fn spec_affected_chunks(world_x: int, world_z: int) -> Seq<ChunkPos> {
    let cx = spec_chunk_coord(world_x);
    let cz = spec_chunk_coord(world_z);
    let lx = spec_local_coord(world_x);
    let lz = spec_local_coord(world_z);
    let ex: int = if lx == 0 {
        -1
    } else if lx == 15 {
        1
    } else {
        0
    };
    let ez: int = if lz == 0 {
        -1
    } else if lz == 15 {
        1
    } else {
        0
    };
    seq![ChunkPos { x: cx as i32, z: cz as i32 }] + (if ex != 0 {
        seq![ChunkPos { x: (cx + ex) as i32, z: cz as i32 }]
    } else {
        Seq::empty()
    }) + (if ez != 0 {
        seq![ChunkPos { x: cx as i32, z: (cz + ez) as i32 }]
    } else {
        Seq::empty()
    }) + (if ex != 0 && ez != 0 {
        seq![ChunkPos { x: (cx + ex) as i32, z: (cz + ez) as i32 }]
    } else {
        Seq::empty()
    })
}

/// Updating one cell of the chunk stored under `k` changes the world's
/// content at exactly that cell.
proof fn lemma_world_block_update(
    m0: Map<u64, ChunkBlocks>,
    m1: Map<u64, ChunkBlocks>,
    k: u64,
    wx: int,
    wy: int,
    wz: int,
    b: BlockType,
)
    requires
        m0.contains_key(k),
        k == spec_pos_key(spec_chunk_coord(wx), spec_chunk_coord(wz)),
        0 <= wy < 255,
        -0x8000_0000 <= wx < 0x8000_0000,
        -0x8000_0000 <= wz < 0x8000_0000,
        m0[k].wf(),
        m1 == m0.insert(k, m1[k]),
        m1.contains_key(k),
        m1[k].wf(),
        m1[k].spec_block_at(spec_local_coord(wx), spec_local_coord(wz), wy) == b,
        forall|x2: int, z2: int, y2: int|
            0 <= x2 < 16 && 0 <= z2 < 16 && 0 <= y2 < 255 && !(x2 == spec_local_coord(wx) && z2
                == spec_local_coord(wz) && y2 == wy) ==> m1[k].spec_block_at(x2, z2, y2)
                == m0[k].spec_block_at(x2, z2, y2),
    ensures
        forall|x2: int, y2: int, z2: int|
            -0x8000_0000 <= x2 < 0x8000_0000 && -0x8000_0000 <= z2 < 0x8000_0000
                ==> #[trigger] spec_world_block(m1, x2, y2, z2) == (if x2 == wx && y2 == wy && z2
                == wz {
                Option::Some(b)
            } else {
                spec_world_block(m0, x2, y2, z2)
            }),
{
    assert forall|x2: int, y2: int, z2: int|
        -0x8000_0000 <= x2 < 0x8000_0000 && -0x8000_0000 <= z2 < 0x8000_0000
            implies #[trigger] spec_world_block(m1, x2, y2, z2) == (if x2 == wx && y2 == wy && z2
            == wz {
            Option::Some(b)
        } else {
            spec_world_block(m0, x2, y2, z2)
        }) by {
        if 0 <= y2 < 255 {
            let k2 = spec_pos_key(spec_chunk_coord(x2), spec_chunk_coord(z2));
            if k2 == k {
                if x2 == wx && y2 == wy && z2 == wz {
                } else {
                    if spec_chunk_coord(x2) == spec_chunk_coord(wx) && spec_chunk_coord(z2)
                        == spec_chunk_coord(wz) {
                        assert(!(spec_local_coord(x2) == spec_local_coord(wx) && spec_local_coord(
                            z2,
                        ) == spec_local_coord(wz) && y2 == wy) ==> m1[k].spec_block_at(
                            spec_local_coord(x2),
                            spec_local_coord(z2),
                            y2,
                        ) == m0[k].spec_block_at(
                            spec_local_coord(x2),
                            spec_local_coord(z2),
                            y2,
                        ));
                        if spec_local_coord(x2) == spec_local_coord(wx) && spec_local_coord(z2)
                            == spec_local_coord(wz) && y2 == wy {
                            assert(x2 == 16 * spec_chunk_coord(x2) + spec_local_coord(x2));
                            assert(wx == 16 * spec_chunk_coord(wx) + spec_local_coord(wx));
                            assert(x2 == wx && z2 == wz);
                        }
                    } else {
                        lemma_pos_key_injective(
                            spec_chunk_coord(x2),
                            spec_chunk_coord(z2),
                            spec_chunk_coord(wx),
                            spec_chunk_coord(wz),
                        );
                    }
                }
            }
        }
    }
}

/// Two worlds whose contents agree cell for cell hold equal block arrays for
/// a chunk resident in both.
proof fn lemma_chunk_views_equal(
    m0: Map<u64, ChunkBlocks>,
    m2: Map<u64, ChunkBlocks>,
    cx: int,
    cz: int,
)
    requires
        -100_000_001 <= cx <= 100_000_001,
        -100_000_001 <= cz <= 100_000_001,
        m0.contains_key(spec_pos_key(cx, cz)),
        m2.contains_key(spec_pos_key(cx, cz)),
        m0[spec_pos_key(cx, cz)].wf(),
        m2[spec_pos_key(cx, cz)].wf(),
        forall|x2: int, y2: int, z2: int|
            -0x8000_0000 <= x2 < 0x8000_0000 && -0x8000_0000 <= z2 < 0x8000_0000
                ==> #[trigger] spec_world_block(m2, x2, y2, z2) == spec_world_block(
                m0,
                x2,
                y2,
                z2,
            ),
    ensures
        m2[spec_pos_key(cx, cz)].view() == m0[spec_pos_key(cx, cz)].view(),
{
    let k = spec_pos_key(cx, cz);
    let v0 = m0[k].view();
    let v2 = m2[k].view();
    assert forall|n: int| 0 <= n < crate::chunk::CHUNK_VOLUME implies v2[n] == v0[n] by {
        crate::mesh::lemma_scan_in_range(n);
        let lx = crate::mesh::spec_scan_x(n);
        let lz = crate::mesh::spec_scan_z(n);
        let ly = crate::mesh::spec_scan_y(n);
        let wx = 16 * cx + lx;
        let wz = 16 * cz + lz;
        assert(spec_chunk_coord(wx) == cx && spec_local_coord(wx) == lx && spec_chunk_coord(wz)
            == cz && spec_local_coord(wz) == lz) by (nonlinear_arith)
            requires
                wx == 16 * cx + lx,
                wz == 16 * cz + lz,
                0 <= lx < 16,
                0 <= lz < 16,
        {}
        assert(spec_world_block(m2, wx, ly, wz) == spec_world_block(m0, wx, ly, wz));
        assert(spec_world_block(m0, wx, ly, wz) == Option::Some(m0[k].spec_block_at(lx, lz, ly)));
        assert(spec_world_block(m2, wx, ly, wz) == Option::Some(m2[k].spec_block_at(lx, lz, ly)));
    }
    assert(v2 =~= v0);
}

/// Edit round trip: adding a block in an air cell and then removing the
/// block at the same cell leaves the world's content exactly as it began,
/// and with it every resident chunk's mesh - meshes are a pure function of
/// the restored block arrays, so a rebuild after the two edits reproduces
/// the geometry a rebuild before them would have produced.
pub proof fn lemma_edit_round_trip(
    w0: &World,
    w1: &World,
    w2: &World,
    x: i32,
    y: i32,
    z: i32,
    b: BlockType,
)
    requires
        w0.wf(),
        w1.wf(),
        w2.wf(),
        spec_world_block(w0.blocks_map(), x as int, y as int, z as int) == Option::Some(
            BlockType::Air,
        ),
        forall|x2: int, y2: int, z2: int|
            -0x8000_0000 <= x2 < 0x8000_0000 && -0x8000_0000 <= z2 < 0x8000_0000
                ==> #[trigger] spec_world_block(w1.blocks_map(), x2, y2, z2) == (if x2 == x && y2
                == y && z2 == z {
                Option::Some(b)
            } else {
                spec_world_block(w0.blocks_map(), x2, y2, z2)
            }),
        w1.loaded_seq() == w0.loaded_seq(),
        forall|x2: int, y2: int, z2: int|
            -0x8000_0000 <= x2 < 0x8000_0000 && -0x8000_0000 <= z2 < 0x8000_0000
                ==> #[trigger] spec_world_block(w2.blocks_map(), x2, y2, z2) == (if x2 == x && y2
                == y && z2 == z {
                Option::Some(BlockType::Air)
            } else {
                spec_world_block(w1.blocks_map(), x2, y2, z2)
            }),
        w2.loaded_seq() == w1.loaded_seq(),
        w2.spec_registry() == w0.spec_registry(),
    ensures
        forall|x2: int, y2: int, z2: int|
            -0x8000_0000 <= x2 < 0x8000_0000 && -0x8000_0000 <= z2 < 0x8000_0000
                ==> #[trigger] spec_world_block(w2.blocks_map(), x2, y2, z2) == spec_world_block(
                w0.blocks_map(),
                x2,
                y2,
                z2,
            ),
        forall|i: int|
            0 <= i < w0.loaded_seq().len() ==> {
                let p = #[trigger] w0.loaded_seq()[i];
                crate::mesh::spec_mesh_vertices(
                    &w2.spec_registry(),
                    p.x as int,
                    p.z as int,
                    w2.blocks_map()[spec_pos_key(p.x as int, p.z as int)].view(),
                    spec_nb_cells(w2.blocks_map(), p.x - 1, p.z as int),
                    spec_nb_cells(w2.blocks_map(), p.x + 1, p.z as int),
                    spec_nb_cells(w2.blocks_map(), p.x as int, p.z - 1),
                    spec_nb_cells(w2.blocks_map(), p.x as int, p.z + 1),
                ) == crate::mesh::spec_mesh_vertices(
                    &w0.spec_registry(),
                    p.x as int,
                    p.z as int,
                    w0.blocks_map()[spec_pos_key(p.x as int, p.z as int)].view(),
                    spec_nb_cells(w0.blocks_map(), p.x - 1, p.z as int),
                    spec_nb_cells(w0.blocks_map(), p.x + 1, p.z as int),
                    spec_nb_cells(w0.blocks_map(), p.x as int, p.z - 1),
                    spec_nb_cells(w0.blocks_map(), p.x as int, p.z + 1),
                )
            },
{
    lemma_same_doms(w0, w1);
    lemma_same_doms(w1, w2);
    assert forall|i: int| 0 <= i < w0.loaded_seq().len() implies {
        let p = #[trigger] w0.loaded_seq()[i];
        crate::mesh::spec_mesh_vertices(
            &w2.spec_registry(),
            p.x as int,
            p.z as int,
            w2.blocks_map()[spec_pos_key(p.x as int, p.z as int)].view(),
            spec_nb_cells(w2.blocks_map(), p.x - 1, p.z as int),
            spec_nb_cells(w2.blocks_map(), p.x + 1, p.z as int),
            spec_nb_cells(w2.blocks_map(), p.x as int, p.z - 1),
            spec_nb_cells(w2.blocks_map(), p.x as int, p.z + 1),
        ) == crate::mesh::spec_mesh_vertices(
            &w0.spec_registry(),
            p.x as int,
            p.z as int,
            w0.blocks_map()[spec_pos_key(p.x as int, p.z as int)].view(),
            spec_nb_cells(w0.blocks_map(), p.x - 1, p.z as int),
            spec_nb_cells(w0.blocks_map(), p.x + 1, p.z as int),
            spec_nb_cells(w0.blocks_map(), p.x as int, p.z - 1),
            spec_nb_cells(w0.blocks_map(), p.x as int, p.z + 1),
        )
    } by {
        let p = w0.loaded_seq()[i];
        lemma_chunk_views_equal(w0.blocks_map(), w2.blocks_map(), p.x as int, p.z as int);
        lemma_nb_equal(w0, w2, p.x - 1, p.z as int);
        lemma_nb_equal(w0, w2, p.x + 1, p.z as int);
        lemma_nb_equal(w0, w2, p.x as int, p.z - 1);
        lemma_nb_equal(w0, w2, p.x as int, p.z + 1);
    }
}

/// Worlds with the same resident positions hold the same chunk keys.
proof fn lemma_same_doms(wa: &World, wb: &World)
    requires
        wa.wf(),
        wb.wf(),
        wb.loaded_seq() == wa.loaded_seq(),
    ensures
        forall|k: u64| wa.blocks_map().contains_key(k) <==> #[trigger] wb.blocks_map().contains_key(
            k,
        ),
{
    assert forall|k: u64|
        wa.blocks_map().contains_key(k) <==> #[trigger] wb.blocks_map().contains_key(k) by {
        if wa.blocks_map().contains_key(k) {
            let i = choose|i: int|
                0 <= i < wa.loaded_seq().len() && spec_pos_key(
                    (#[trigger] wa.loaded_seq()[i]).x as int,
                    wa.loaded_seq()[i].z as int,
                ) == k;
            assert(wb.blocks_map().contains_key(
                spec_pos_key(wb.loaded_seq()[i].x as int, wb.loaded_seq()[i].z as int),
            ));
        }
        if wb.blocks_map().contains_key(k) {
            let i = choose|i: int|
                0 <= i < wb.loaded_seq().len() && spec_pos_key(
                    (#[trigger] wb.loaded_seq()[i]).x as int,
                    wb.loaded_seq()[i].z as int,
                ) == k;
            assert(wa.blocks_map().contains_key(
                spec_pos_key(wa.loaded_seq()[i].x as int, wa.loaded_seq()[i].z as int),
            ));
        }
    }
}

/// Worlds with the same residents and cell-for-cell equal contents present
/// the same cells of the chunk at (cx, cz) to a neighboring mesh build.
proof fn lemma_nb_equal(w0: &World, w2: &World, cx: int, cz: int)
    requires
        w0.wf(),
        w2.wf(),
        w2.loaded_seq() == w0.loaded_seq(),
        -100_000_001 <= cx <= 100_000_001,
        -100_000_001 <= cz <= 100_000_001,
        forall|x2: int, y2: int, z2: int|
            -0x8000_0000 <= x2 < 0x8000_0000 && -0x8000_0000 <= z2 < 0x8000_0000
                ==> #[trigger] spec_world_block(w2.blocks_map(), x2, y2, z2) == spec_world_block(
                w0.blocks_map(),
                x2,
                y2,
                z2,
            ),
    ensures
        spec_nb_cells(w2.blocks_map(), cx, cz) == spec_nb_cells(w0.blocks_map(), cx, cz),
{
    lemma_same_doms(w0, w2);
    let k = spec_pos_key(cx, cz);
    if w0.blocks_map().contains_key(k) {
        lemma_chunk_views_equal(w0.blocks_map(), w2.blocks_map(), cx, cz);
    }
}

} // verus!
