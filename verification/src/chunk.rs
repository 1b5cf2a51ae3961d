use vstd::prelude::*;
use crate::biome::{Biome, BiomeManager};
use crate::block::BlockType;
use crate::sampling::NoiseSamples;
use crate::structures::{PlacedStructure, StructureGenerator};
use crate::terrain::{biome_at, height_at, spec_block_for_position};
use crate::{CHUNK_SIZE, TERRAIN_MAX_HEIGHT, WORLD_HEIGHT};

verus! {

/// Cells in one chunk: CHUNK_SIZE * CHUNK_SIZE * WORLD_HEIGHT.
pub const CHUNK_VOLUME: usize = 65280;

/// The dense block array of one chunk, indexed by (local x, local z, y).
/// This is the single authoritative record of the chunk's content; meshes
/// are derived from it and hold no truth of their own.
pub struct ChunkBlocks {
    cells: Vec<BlockType>,
}

/// Flat storage index of cell (x, z, y).
pub open spec fn spec_cell_index(x: int, z: int, y: int) -> int {
    (x * 16 + z) * 255 + y
}

/// Distinct in-range cells have distinct storage indices.
pub proof fn lemma_cell_index_injective(
    x1: int,
    z1: int,
    y1: int,
    x2: int,
    z2: int,
    y2: int,
)
    requires
        0 <= x1 < 16,
        0 <= z1 < 16,
        0 <= y1 < 255,
        0 <= x2 < 16,
        0 <= z2 < 16,
        0 <= y2 < 255,
        spec_cell_index(x1, z1, y1) == spec_cell_index(x2, z2, y2),
    ensures
        x1 == x2 && z1 == z2 && y1 == y2,
{
    assert(x1 == x2 && z1 == z2 && y1 == y2) by (nonlinear_arith)
        requires
            0 <= x1 < 16,
            0 <= z1 < 16,
            0 <= y1 < 255,
            0 <= x2 < 16,
            0 <= z2 < 16,
            0 <= y2 < 255,
            (x1 * 16 + z1) * 255 + y1 == (x2 * 16 + z2) * 255 + y2,
    {}
}

pub proof fn lemma_cell_index_in_range(x: int, z: int, y: int)
    requires
        0 <= x < 16,
        0 <= z < 16,
        0 <= y < 255,
    ensures
        0 <= spec_cell_index(x, z, y) < CHUNK_VOLUME,
{
    assert(0 <= (x * 16 + z) * 255 + y < 65280) by (nonlinear_arith)
        requires
            0 <= x < 16,
            0 <= z < 16,
            0 <= y < 255,
    {}
}

impl ChunkBlocks {
    pub closed spec fn view(&self) -> Seq<BlockType> {
        self.cells@
    }

    pub open spec fn wf(&self) -> bool {
        self.view().len() == CHUNK_VOLUME
    }

    /// The block kind stored at cell (x, z, y).
    pub open spec fn spec_block_at(&self, x: int, z: int, y: int) -> BlockType {
        self.view()[spec_cell_index(x, z, y)]
    }

    /// A chunk holding nothing but air.
    pub fn new_air() -> (r: ChunkBlocks)
        ensures
            r.wf(),
            forall|i: int| 0 <= i < CHUNK_VOLUME ==> r.view()[i] == BlockType::Air,
    {
        let mut cells: Vec<BlockType> = Vec::new();
        let mut i: usize = 0;
        while i < CHUNK_VOLUME
            invariant
                i <= CHUNK_VOLUME,
                cells@.len() == i,
                forall|j: int| 0 <= j < i ==> cells@[j] == BlockType::Air,
            decreases CHUNK_VOLUME - i,
        {
            cells.push(BlockType::Air);
            i = i + 1;
        }
        ChunkBlocks { cells }
    }

    /// Wrap a flat cell list, checked for the right size, in storage order:
    /// x outermost, then z, then y.
    pub fn from_cells(cells: Vec<BlockType>) -> (r: Option<ChunkBlocks>)
        ensures
            match r {
                Some(c) => c.wf() && c.view() == cells@,
                None => cells@.len() != CHUNK_VOLUME,
            },
    {
        if cells.len() == CHUNK_VOLUME {
            Some(ChunkBlocks { cells })
        } else {
            None
        }
    }

    /// Read the block at cell (x, z, y).
    pub fn get(&self, x: usize, z: usize, y: usize) -> (r: BlockType)
        requires
            self.wf(),
            x < CHUNK_SIZE,
            z < CHUNK_SIZE,
            y < WORLD_HEIGHT,
        ensures
            r == self.spec_block_at(x as int, z as int, y as int),
    {
        proof {
            lemma_cell_index_in_range(x as int, z as int, y as int);
        }
        self.cells[(x * 16 + z) * 255 + y]
    }

    /// Overwrite the block at cell (x, z, y), leaving every other cell alone.
    pub fn set(&mut self, x: usize, z: usize, y: usize, b: BlockType)
        requires
            old(self).wf(),
            x < CHUNK_SIZE,
            z < CHUNK_SIZE,
            y < WORLD_HEIGHT,
        ensures
            final(self).wf(),
            final(self).spec_block_at(x as int, z as int, y as int) == b,
            forall|x2: int, z2: int, y2: int|
                0 <= x2 < 16 && 0 <= z2 < 16 && 0 <= y2 < 255 && !(x2 == x && z2 == z && y2 == y)
                    ==> final(self).spec_block_at(x2, z2, y2) == old(self).spec_block_at(
                    x2,
                    z2,
                    y2,
                ),
    {
        proof {
            lemma_cell_index_in_range(x as int, z as int, y as int);
        }
        self.cells.set((x * 16 + z) * 255 + y, b);
        proof {
            assert forall|x2: int, z2: int, y2: int|
                0 <= x2 < 16 && 0 <= z2 < 16 && 0 <= y2 < 255 && !(x2 == x && z2 == z && y2
                    == y) implies final(self).spec_block_at(x2, z2, y2) == old(
                self,
            ).spec_block_at(x2, z2, y2) by {
                lemma_cell_index_in_range(x2, z2, y2);
                if spec_cell_index(x2, z2, y2) == spec_cell_index(x as int, z as int, y as int) {
                    lemma_cell_index_injective(x2, z2, y2, x as int, z as int, y as int);
                }
            }
        }
    }
}

/// The block terrain generation alone puts at cell (x, z, y) of a column
/// with height map value `height` and biome `biome`: the biome's layered
/// blocks below the terrain surface (capped at the natural maximum), air
/// above it.
pub open spec fn spec_terrain_cell(
    height: int,
    biome: Biome,
    mgr: &BiomeManager,
    y: int,
) -> BlockType {
    let cap = if height < TERRAIN_MAX_HEIGHT {
        height
    } else {
        TERRAIN_MAX_HEIGHT as int
    };
    if y < cap {
        spec_block_for_position(y, height, biome, mgr.spec_config(biome))
    } else {
        BlockType::Air
    }
}

/// Fill a chunk's block array from its per-column heights and biomes.
pub fn generate_terrain_blocks(
    height_values: &Vec<Vec<usize>>,
    biome_map: &Vec<Vec<Biome>>,
    mgr: &BiomeManager,
) -> (r: ChunkBlocks)
    requires
        mgr.wf(),
        height_values@.len() == 16,
        forall|i: int| 0 <= i < 16 ==> (#[trigger] height_values@[i])@.len() == 16,
        forall|i: int, j: int|
            0 <= i < 16 && 0 <= j < 16 ==> (#[trigger] height_values@[i]@[j]) <= 100_000,
        biome_map@.len() == 16,
        forall|i: int| 0 <= i < 16 ==> (#[trigger] biome_map@[i])@.len() == 16,
    ensures
        r.wf(),
        forall|x: int, z: int, y: int|
            0 <= x < 16 && 0 <= z < 16 && 0 <= y < 255 ==> r.spec_block_at(x, z, y)
                == spec_terrain_cell(
                height_values@[x]@[z] as int,
                biome_map@[x]@[z],
                mgr,
                y,
            ),
{
    let mut cells: Vec<BlockType> = Vec::new();
    let mut x: usize = 0;
    while x < 16
        invariant
            x <= 16,
            mgr.wf(),
            height_values@.len() == 16,
            forall|i: int| 0 <= i < 16 ==> (#[trigger] height_values@[i])@.len() == 16,
            forall|i: int, j: int|
                0 <= i < 16 && 0 <= j < 16 ==> (#[trigger] height_values@[i]@[j]) <= 100_000,
            biome_map@.len() == 16,
            forall|i: int| 0 <= i < 16 ==> (#[trigger] biome_map@[i])@.len() == 16,
            cells@.len() == x * 4080,
            forall|x2: int, z2: int, y2: int|
                0 <= x2 < x && 0 <= z2 < 16 && 0 <= y2 < 255 ==> cells@[spec_cell_index(
                    x2,
                    z2,
                    y2,
                )] == spec_terrain_cell(
                    height_values@[x2]@[z2] as int,
                    biome_map@[x2]@[z2],
                    mgr,
                    y2,
                ),
        decreases 16 - x,
    {
        let mut z: usize = 0;
        while z < 16
            invariant
                x < 16,
                z <= 16,
                mgr.wf(),
                height_values@.len() == 16,
                forall|i: int| 0 <= i < 16 ==> (#[trigger] height_values@[i])@.len() == 16,
                forall|i: int, j: int|
                    0 <= i < 16 && 0 <= j < 16 ==> (#[trigger] height_values@[i]@[j]) <= 100_000,
                biome_map@.len() == 16,
                forall|i: int| 0 <= i < 16 ==> (#[trigger] biome_map@[i])@.len() == 16,
                cells@.len() == x * 4080 + z * 255,
                forall|x2: int, z2: int, y2: int|
                    0 <= x2 < 16 && 0 <= z2 < 16 && 0 <= y2 < 255 && spec_cell_index(x2, z2, y2)
                        < cells@.len() ==> cells@[spec_cell_index(x2, z2, y2)]
                        == spec_terrain_cell(
                        height_values@[x2]@[z2] as int,
                        biome_map@[x2]@[z2],
                        mgr,
                        y2,
                    ),
            decreases 16 - z,
        {
            let height = height_values[x][z];
            let biome = biome_map[x][z];
            let config = mgr.get_config(biome);
            let cap: usize = if height < TERRAIN_MAX_HEIGHT {
                height
            } else {
                TERRAIN_MAX_HEIGHT
            };
            let mut y: usize = 0;
            while y < 255
                invariant
                    x < 16,
                    z < 16,
                    y <= 255,
                    mgr.wf(),
                    height_values@.len() == 16,
                    forall|i: int| 0 <= i < 16 ==> (#[trigger] height_values@[i])@.len() == 16,
                    forall|i: int, j: int|
                        0 <= i < 16 && 0 <= j < 16 ==> (#[trigger] height_values@[i]@[j])
                            <= 100_000,
                    biome_map@.len() == 16,
                    forall|i: int| 0 <= i < 16 ==> (#[trigger] biome_map@[i])@.len() == 16,
                    height == height_values@[x as int]@[z as int],
                    biome == biome_map@[x as int]@[z as int],
                    *config == mgr.spec_config(biome),
                    height <= 100_000,
                    cap == (if height < TERRAIN_MAX_HEIGHT {
                        height as int
                    } else {
                        TERRAIN_MAX_HEIGHT as int
                    }),
                    cells@.len() == x * 4080 + z * 255 + y,
                    forall|x2: int, z2: int, y2: int|
                        0 <= x2 < 16 && 0 <= z2 < 16 && 0 <= y2 < 255 && spec_cell_index(
                            x2,
                            z2,
                            y2,
                        ) < cells@.len() ==> cells@[spec_cell_index(x2, z2, y2)]
                            == spec_terrain_cell(
                            height_values@[x2]@[z2] as int,
                            biome_map@[x2]@[z2],
                            mgr,
                            y2,
                        ),
                decreases 255 - y,
            {
                let b: BlockType = if y < cap {
                    crate::terrain::get_block_for_position(y, height, biome, config)
                } else {
                    BlockType::Air
                };
                cells.push(b);
                proof {
                    assert(spec_cell_index(x as int, z as int, y as int) == cells@.len() - 1)
                        by (nonlinear_arith)
                        requires
                            cells@.len() == x * 4080 + z * 255 + y + 1,
                            x < 16,
                            z < 16,
                            y < 255,
                    {}
                    assert forall|x2: int, z2: int, y2: int|
                        0 <= x2 < 16 && 0 <= z2 < 16 && 0 <= y2 < 255 && spec_cell_index(
                            x2,
                            z2,
                            y2,
                        ) < cells@.len() implies cells@[spec_cell_index(x2, z2, y2)]
                        == spec_terrain_cell(
                        height_values@[x2]@[z2] as int,
                        biome_map@[x2]@[z2],
                        mgr,
                        y2,
                    ) by {
                        lemma_cell_index_in_range(x2, z2, y2);
                        if spec_cell_index(x2, z2, y2) == cells@.len() - 1 {
                            lemma_cell_index_injective(x2, z2, y2, x as int, z as int, y as int);
                        }
                    }
                }
                y = y + 1;
            }
            z = z + 1;
        }
        x = x + 1;
    }
    proof {
        assert(cells@.len() == CHUNK_VOLUME);
    }
    let r = match ChunkBlocks::from_cells(cells) {
        Some(c) => c,
        None => ChunkBlocks::new_air(),
    };
    proof {
        assert forall|x2: int, z2: int, y2: int|
            0 <= x2 < 16 && 0 <= z2 < 16 && 0 <= y2 < 255 implies r.spec_block_at(x2, z2, y2)
            == spec_terrain_cell(
            height_values@[x2]@[z2] as int,
            biome_map@[x2]@[z2],
            mgr,
            y2,
        ) by {
            lemma_cell_index_in_range(x2, z2, y2);
        }
    }
    r
}

/// The last placement of this structure that lands on world cell
/// (wx, wy, wz), scanning the first `n` placements.
pub open spec fn spec_struct_hit_upto(
    s: PlacedStructure,
    n: int,
    wx: int,
    wy: int,
    wz: int,
) -> Option<BlockType>
    decreases n,
{
    if n <= 0 {
        None
    } else {
        let p = s.blocks@[n - 1];
        if s.world_x + p.relative_pos.0 == wx && s.world_y + p.relative_pos.1 == wy && s.world_z
            + p.relative_pos.2 == wz {
            Some(p.block_type)
        } else {
            spec_struct_hit_upto(s, n - 1, wx, wy, wz)
        }
    }
}

/// The block the structure list wants at world cell (wx, wy, wz): the last
/// matching placement of the last structure that touches the cell wins.
pub open spec fn spec_overlay(
    ss: Seq<PlacedStructure>,
    wx: int,
    wy: int,
    wz: int,
) -> Option<BlockType>
    decreases ss.len(),
{
    if ss.len() == 0 {
        None
    } else {
        match spec_struct_hit_upto(ss.last(), ss.last().blocks@.len() as int, wx, wy, wz) {
            Some(b) => Some(b),
            None => spec_overlay(ss.drop_last(), wx, wy, wz),
        }
    }
}

/// The final content of chunk cell (x, z, y) after assembly: structures
/// overwrite terrain unconditionally, terrain fills everything else.
pub open spec fn spec_assembled_cell(
    chunk_x: int,
    chunk_z: int,
    ss: Seq<PlacedStructure>,
    height: int,
    biome: Biome,
    mgr: &BiomeManager,
    x: int,
    z: int,
    y: int,
) -> BlockType {
    match spec_overlay(ss, chunk_x * 16 + x, y, chunk_z * 16 + z) {
        Some(b) => b,
        None => spec_terrain_cell(height, biome, mgr, y),
    }
}

/// Write every placement of `ss` that falls inside this chunk into the
/// block array; later placements overwrite earlier ones.
pub fn apply_structures(
    blocks: &mut ChunkBlocks,
    chunk_x: i32,
    chunk_z: i32,
    ss: &Vec<PlacedStructure>,
)
    requires
        old(blocks).wf(),
        -100_000_000 <= chunk_x <= 100_000_000,
        -100_000_000 <= chunk_z <= 100_000_000,
    ensures
        final(blocks).wf(),
        forall|x: int, z: int, y: int|
            0 <= x < 16 && 0 <= z < 16 && 0 <= y < 255 ==> final(blocks).spec_block_at(x, z, y)
                == match spec_overlay(ss@, chunk_x * 16 + x, y, chunk_z * 16 + z) {
                Some(b) => b,
                None => old(blocks).spec_block_at(x, z, y),
            },
{
    let csx: i64 = chunk_x as i64 * 16;
    let csz: i64 = chunk_z as i64 * 16;
    let mut si: usize = 0;
    while si < ss.len()
        invariant
            si <= ss@.len(),
            csx == chunk_x as i64 * 16,
            csz == chunk_z as i64 * 16,
            -100_000_000 <= chunk_x <= 100_000_000,
            -100_000_000 <= chunk_z <= 100_000_000,
            blocks.wf(),
            forall|x: int, z: int, y: int|
                0 <= x < 16 && 0 <= z < 16 && 0 <= y < 255 ==> blocks.spec_block_at(x, z, y)
                    == match spec_overlay(
                    ss@.take(si as int),
                    chunk_x * 16 + x,
                    y,
                    chunk_z * 16 + z,
                ) {
                    Some(b) => b,
                    None => old(blocks).spec_block_at(x, z, y),
                },
        decreases ss@.len() - si,
    {
        let s = &ss[si];
        let mut bi: usize = 0;
        while bi < s.blocks.len()
            invariant
                bi <= s.blocks@.len(),
                si < ss@.len(),
                *s == ss@[si as int],
                csx == chunk_x as i64 * 16,
                csz == chunk_z as i64 * 16,
                -100_000_000 <= chunk_x <= 100_000_000,
                -100_000_000 <= chunk_z <= 100_000_000,
                blocks.wf(),
                forall|x: int, z: int, y: int|
                    0 <= x < 16 && 0 <= z < 16 && 0 <= y < 255 ==> blocks.spec_block_at(x, z, y)
                        == match spec_struct_hit_upto(
                        ss@[si as int],
                        bi as int,
                        chunk_x * 16 + x,
                        y,
                        chunk_z * 16 + z,
                    ) {
                        Some(b) => b,
                        None => match spec_overlay(
                            ss@.take(si as int),
                            chunk_x * 16 + x,
                            y,
                            chunk_z * 16 + z,
                        ) {
                            Some(b) => b,
                            None => old(blocks).spec_block_at(x, z, y),
                        },
                    },
            decreases s.blocks@.len() - bi,
        {
            let p = &s.blocks[bi];
            let wx: i64 = s.world_x as i64 + p.relative_pos.0 as i64;
            let wy: i64 = s.world_y as i64 + p.relative_pos.1 as i64;
            let wz: i64 = s.world_z as i64 + p.relative_pos.2 as i64;
            let lx: i64 = wx - csx;
            let lz: i64 = wz - csz;
            if 0 <= lx && lx < 16 && 0 <= lz && lz < 16 && 0 <= wy && wy < 255 {
                blocks.set(lx as usize, lz as usize, wy as usize, p.block_type);
            }
            bi = bi + 1;
        }
        proof {
            assert(ss@.take(si + 1).drop_last() =~= ss@.take(si as int));
            assert(ss@.take(si + 1).last() == ss@[si as int]);
        }
        si = si + 1;
    }
    proof {
        assert(ss@.take(ss@.len() as int) =~= ss@);
    }
}

/// One pass's full account of a chunk's blocks: a structure list whose
/// every member is pinned to its anchor's draw stream and anchored on this
/// chunk's candidate grid, laid over terrain synthesized by the height and
/// biome rules - cell for cell.
pub open spec fn chunk_blocks_generated(
    gen_seed: u32,
    chunk_x: int,
    chunk_z: int,
    samples: &NoiseSamples,
    mgr: &BiomeManager,
    ss: Seq<PlacedStructure>,
    blocks: &ChunkBlocks,
) -> bool {
    &&& blocks.wf()
    &&& forall|i: int|
        0 <= i < ss.len() ==> crate::structures::placed_structure_generated(
            #[trigger] ss[i],
            gen_seed,
            samples,
            mgr,
        )
    &&& forall|i: int|
        0 <= i < ss.len() ==> crate::structures::on_anchor_grid(
            #[trigger] ss[i],
            chunk_x,
            chunk_z,
        )
    &&& forall|x: int, z: int, y: int|
        0 <= x < 16 && 0 <= z < 16 && 0 <= y < 255 ==> #[trigger] blocks.spec_block_at(x, z, y)
            == spec_assembled_cell(
            chunk_x,
            chunk_z,
            ss,
            crate::terrain::spec_height_at(samples, mgr, chunk_x * 16 + x, chunk_z * 16 + z),
            crate::biome::spec_biome_at(samples, chunk_x * 16 + x, chunk_z * 16 + z),
            mgr,
            x,
            z,
            y,
        )
}

/// The block array really is a generation pass's output for this chunk:
/// some structure list, pinned as above, accounts for every cell.
pub open spec fn spec_chunk_generated(
    gen_seed: u32,
    chunk_x: int,
    chunk_z: int,
    samples: &NoiseSamples,
    mgr: &BiomeManager,
    blocks: &ChunkBlocks,
) -> bool {
    exists|ss: Seq<PlacedStructure>| #[trigger] chunk_blocks_generated(
        gen_seed,
        chunk_x,
        chunk_z,
        samples,
        mgr,
        ss,
        blocks,
    )
}


/// If some placement of the structure lands on the world cell, the
/// structure's overlay writes that cell.
proof fn lemma_hit_is_some(s: PlacedStructure, n: int, k: int, wx: int, wy: int, wz: int)
    requires
        0 <= k < n <= s.blocks@.len(),
        s.world_x + s.blocks@[k].relative_pos.0 == wx,
        s.world_y + s.blocks@[k].relative_pos.1 == wy,
        s.world_z + s.blocks@[k].relative_pos.2 == wz,
    ensures
        spec_struct_hit_upto(s, n, wx, wy, wz) is Some,
    decreases n,
{
    if k < n - 1 {
        lemma_hit_is_some(s, n - 1, k, wx, wy, wz);
    }
}

/// A structure that straddles a chunk boundary is clipped, never torn or
/// doubled: each of its blocks lands on a world cell that belongs to exactly
/// one chunk (so two distinct chunks can never both write it - no
/// duplicate), and the structure's overlay carries a block for that cell
/// (so the owning chunk's assembled array, which `apply_structures` pins to
/// exactly this overlay over its terrain, shows the structure there - no
/// seam gap). Together with the cross-pass agreement law, the same anchor
/// hands both chunks the identical block list to clip from.
pub proof fn lemma_straddling_structure_clipped(
    s: PlacedStructure,
    cx1: int,
    cz1: int,
    cx2: int,
    cz2: int,
    k: int,
)
    requires
        !(cx1 == cx2 && cz1 == cz2),
        0 <= k < s.blocks@.len(),
    ensures
        ({
            let wx = s.world_x + s.blocks@[k].relative_pos.0 as int;
            let wy = s.world_y + s.blocks@[k].relative_pos.1 as int;
            let wz = s.world_z + s.blocks@[k].relative_pos.2 as int;
            let owned1 = crate::world::spec_chunk_coord(wx) == cx1
                && crate::world::spec_chunk_coord(wz) == cz1;
            let owned2 = crate::world::spec_chunk_coord(wx) == cx2
                && crate::world::spec_chunk_coord(wz) == cz2;
            &&& !(owned1 && owned2)
            &&& spec_overlay(seq![s], wx, wy, wz) is Some
        }),
{
    let wx = s.world_x + s.blocks@[k].relative_pos.0 as int;
    let wy = s.world_y + s.blocks@[k].relative_pos.1 as int;
    let wz = s.world_z + s.blocks@[k].relative_pos.2 as int;
    lemma_hit_is_some(s, s.blocks@.len() as int, k, wx, wy, wz);
    assert(seq![s].last() == s);
}

/// Assembles whole chunks: terrain first, then structures on top.
pub struct ChunkGenerator {
    /// Drives deterministic structure placement.
    pub structure_generator: StructureGenerator,
}

impl ChunkGenerator {
    /// The seed that drives structure randomness.
    pub open spec fn spec_seed(&self) -> u32 {
        self.structure_generator.seed
    }

    pub fn new(seed: u32) -> (r: ChunkGenerator)
        ensures
            r.spec_seed() == seed,
    {
        ChunkGenerator { structure_generator: StructureGenerator::new(seed) }
    }

    /// Build the authoritative block array of one chunk: synthesize each
    /// column's height and biome, fill the terrain, then overlay every
    /// structure whose blocks reach into this chunk. Also returns the
    /// structures, the height map and the biome map of the pass.
    pub fn generate_chunk_blocks(
        &self,
        chunk_x: i32,
        chunk_z: i32,
        samples: &NoiseSamples,
        mgr: &BiomeManager,
    ) -> (r: (ChunkBlocks, Vec<PlacedStructure>, Vec<Vec<usize>>, Vec<Vec<Biome>>))
        requires
            samples.wf(),
            mgr.wf(),
            -100_000_000 <= chunk_x <= 100_000_000,
            -100_000_000 <= chunk_z <= 100_000_000,
            samples.covers_box(chunk_x * 16 - 36, chunk_z * 16 - 36, 87, 87),
        ensures
            r.0.wf(),
            r.2@.len() == 16 && r.3@.len() == 16,
            forall|i: int| 0 <= i < 16 ==> (#[trigger] r.2@[i])@.len() == 16 && (
            #[trigger] r.3@[i])@.len() == 16,
            forall|x: int, z: int|
                0 <= x < 16 && 0 <= z < 16 ==> {
                    &&& r.2@[x]@[z] == crate::terrain::spec_height_at(
                        samples,
                        mgr,
                        chunk_x * 16 + x,
                        chunk_z * 16 + z,
                    )
                    &&& r.3@[x]@[z] == crate::biome::spec_biome_at(
                        samples,
                        chunk_x * 16 + x,
                        chunk_z * 16 + z,
                    )
                },
            crate::structures::maps_consistent(
                samples,
                mgr,
                &r.2,
                &r.3,
                chunk_x as int,
                chunk_z as int,
            ),
            forall|i: int|
                0 <= i < r.1@.len() ==> crate::structures::placed_structure_ok(
                    #[trigger] r.1@[i],
                    self.spec_seed(),
                    chunk_x as int,
                    chunk_z as int,
                    samples,
                    mgr,
                    &r.2,
                    &r.3,
                ),
            forall|x: int, z: int, y: int|
                0 <= x < 16 && 0 <= z < 16 && 0 <= y < 255 ==> r.0.spec_block_at(x, z, y)
                    == spec_assembled_cell(
                    chunk_x as int,
                    chunk_z as int,
                    r.1@,
                    r.2@[x]@[z] as int,
                    r.3@[x]@[z],
                    mgr,
                    x,
                    z,
                    y,
                ),
    {
        let mut height_values: Vec<Vec<usize>> = Vec::new();
        let mut biome_map: Vec<Vec<Biome>> = Vec::new();
        let csx: i64 = chunk_x as i64 * 16;
        let csz: i64 = chunk_z as i64 * 16;
        let mut x: usize = 0;
        while x < 16
            invariant
                x <= 16,
                samples.wf(),
                mgr.wf(),
                -100_000_000 <= chunk_x <= 100_000_000,
                -100_000_000 <= chunk_z <= 100_000_000,
                samples.covers_box(chunk_x * 16 - 36, chunk_z * 16 - 36, 87, 87),
                csx == chunk_x as i64 * 16,
                csz == chunk_z as i64 * 16,
                height_values@.len() == x,
                biome_map@.len() == x,
                forall|i: int| 0 <= i < x ==> (#[trigger] height_values@[i])@.len() == 16,
                forall|i: int| 0 <= i < x ==> (#[trigger] biome_map@[i])@.len() == 16,
                forall|i: int, j: int|
                    0 <= i < x && 0 <= j < 16 ==> (#[trigger] height_values@[i]@[j])
                        == crate::terrain::spec_height_at(
                        samples,
                        mgr,
                        chunk_x * 16 + i,
                        chunk_z * 16 + j,
                    ),
                forall|i: int, j: int|
                    0 <= i < x && 0 <= j < 16 ==> (#[trigger] height_values@[i]@[j]) <= 100_000,
                forall|i: int, j: int|
                    0 <= i < x && 0 <= j < 16 ==> (#[trigger] biome_map@[i]@[j])
                        == crate::biome::spec_biome_at(
                        samples,
                        chunk_x * 16 + i,
                        chunk_z * 16 + j,
                    ),
            decreases 16 - x,
        {
            let mut hrow: Vec<usize> = Vec::new();
            let mut brow: Vec<Biome> = Vec::new();
            let mut z: usize = 0;
            while z < 16
                invariant
                    x < 16,
                    z <= 16,
                    samples.wf(),
                    mgr.wf(),
                    -100_000_000 <= chunk_x <= 100_000_000,
                    -100_000_000 <= chunk_z <= 100_000_000,
                    samples.covers_box(chunk_x * 16 - 36, chunk_z * 16 - 36, 87, 87),
                    csx == chunk_x as i64 * 16,
                    csz == chunk_z as i64 * 16,
                    hrow@.len() == z,
                    brow@.len() == z,
                    forall|j: int|
                        0 <= j < z ==> (#[trigger] hrow@[j]) == crate::terrain::spec_height_at(
                            samples,
                            mgr,
                            chunk_x * 16 + x,
                            chunk_z * 16 + j,
                        ),
                    forall|j: int| 0 <= j < z ==> (#[trigger] hrow@[j]) <= 100_000,
                    forall|j: int|
                        0 <= j < z ==> (#[trigger] brow@[j]) == crate::biome::spec_biome_at(
                            samples,
                            chunk_x * 16 + x,
                            chunk_z * 16 + j,
                        ),
                decreases 16 - z,
            {
                let wx: i64 = csx + x as i64;
                let wz: i64 = csz + z as i64;
                let h = height_at(samples, mgr, wx, wz);
                let b = biome_at(samples, wx, wz);
                hrow.push(h);
                brow.push(b);
                proof {
                    assert(wx as int == chunk_x * 16 + x);
                    assert(wz as int == chunk_z * 16 + z);
                }
                z = z + 1;
            }
            proof {
                assert(hrow@.len() == 16);
                assert(brow@.len() == 16);
            }
            let ghost ghrow = hrow@;
            let ghost gbrow = brow@;
            height_values.push(hrow);
            biome_map.push(brow);
            proof {
                assert(height_values@[x as int]@ == ghrow);
                assert(biome_map@[x as int]@ == gbrow);
                assert forall|i: int| 0 <= i < x + 1 implies (
                #[trigger] height_values@[i])@.len() == 16 by {
                    if i == x {
                        assert(height_values@[i]@ == ghrow);
                    }
                }
                assert forall|i: int| 0 <= i < x + 1 implies (#[trigger] biome_map@[i])@.len()
                    == 16 by {
                    if i == x {
                        assert(biome_map@[i]@ == gbrow);
                    }
                }
                assert forall|j: int| 0 <= j < 16 implies {
                    &&& (#[trigger] height_values@[x as int]@[j])
                        == crate::terrain::spec_height_at(
                        samples,
                        mgr,
                        chunk_x * 16 + x,
                        chunk_z * 16 + j,
                    )
                    &&& height_values@[x as int]@[j] <= 100_000
                    &&& (#[trigger] biome_map@[x as int]@[j]) == crate::biome::spec_biome_at(
                        samples,
                        chunk_x * 16 + x,
                        chunk_z * 16 + j,
                    )
                } by {
                    assert(ghrow[j] == crate::terrain::spec_height_at(
                        samples,
                        mgr,
                        chunk_x * 16 + x,
                        chunk_z * 16 + j,
                    ));
                    assert(gbrow[j] == crate::biome::spec_biome_at(
                        samples,
                        chunk_x * 16 + x,
                        chunk_z * 16 + j,
                    ));
                }
            }
            x = x + 1;
        }
        let structures = self.structure_generator.generate_structures_for_chunk(
            chunk_x,
            chunk_z,
            &height_values,
            &biome_map,
            samples,
            mgr,
        );
        let mut blocks = generate_terrain_blocks(&height_values, &biome_map, mgr);
        apply_structures(&mut blocks, chunk_x, chunk_z, &structures);
        (blocks, structures, height_values, biome_map)
    }

    /// Generate a complete chunk: the authoritative block array plus its
    /// initial mesh. The initial mesh is built before any neighbor is known,
    /// so chunk-boundary faces are all rendered (render when in doubt).
    pub fn generate_chunk(
        &self,
        chunk_x: i32,
        chunk_z: i32,
        samples: &NoiseSamples,
        mgr: &BiomeManager,
        registry: &crate::block::BlockRegistry,
    ) -> (r: (crate::mesh::ChunkData, ChunkBlocks))
        requires
            samples.wf(),
            mgr.wf(),
            registry.wf(),
            -100_000_000 <= chunk_x <= 100_000_000,
            -100_000_000 <= chunk_z <= 100_000_000,
            samples.covers_box(chunk_x * 16 - 36, chunk_z * 16 - 36, 87, 87),
        ensures
            r.1.wf(),
            spec_chunk_generated(
                self.spec_seed(),
                chunk_x as int,
                chunk_z as int,
                samples,
                mgr,
                &r.1,
            ),
            r.0.vertices@ == crate::mesh::spec_mesh_vertices(
                registry,
                chunk_x as int,
                chunk_z as int,
                r.1.view(),
                Option::None,
                Option::None,
                Option::None,
                Option::None,
            ),
            r.0.indices@ == crate::mesh::spec_mesh_indices(
                registry,
                chunk_x as int,
                chunk_z as int,
                r.1.view(),
                Option::None,
                Option::None,
                Option::None,
                Option::None,
            ),
    {
        let (blocks, structures, heights, biomes) = self.generate_chunk_blocks(
            chunk_x,
            chunk_z,
            samples,
            mgr,
        );
        proof {
            let cxi = chunk_x as int;
            let czi = chunk_z as int;
            assert forall|i: int|
                0 <= i < structures@.len()
                    implies crate::structures::placed_structure_generated(
                #[trigger] structures@[i],
                self.spec_seed(),
                samples,
                mgr,
            ) by {
                crate::structures::lemma_placed_structure_generated(
                    structures@[i],
                    self.spec_seed(),
                    samples,
                    mgr,
                    &heights,
                    &biomes,
                    cxi,
                    czi,
                );
            }
            assert forall|x: int, z: int, y: int|
                0 <= x < 16 && 0 <= z < 16 && 0 <= y < 255 implies #[trigger] blocks.spec_block_at(
                x,
                z,
                y,
            ) == spec_assembled_cell(
                cxi,
                czi,
                structures@,
                crate::terrain::spec_height_at(samples, mgr, cxi * 16 + x, czi * 16 + z),
                crate::biome::spec_biome_at(samples, cxi * 16 + x, czi * 16 + z),
                mgr,
                x,
                z,
                y,
            ) by {
                assert(blocks.spec_block_at(x, z, y) == spec_assembled_cell(
                    cxi,
                    czi,
                    structures@,
                    heights@[x]@[z] as int,
                    biomes@[x]@[z],
                    mgr,
                    x,
                    z,
                    y,
                ));
                assert(heights@[x]@[z] as int == crate::terrain::spec_height_at(
                    samples,
                    mgr,
                    cxi * 16 + x,
                    czi * 16 + z,
                ));
                assert(biomes@[x]@[z] == crate::biome::spec_biome_at(
                    samples,
                    cxi * 16 + x,
                    czi * 16 + z,
                ));
            }
            assert forall|i: int|
                0 <= i < structures@.len() implies crate::structures::on_anchor_grid(
                #[trigger] structures@[i],
                cxi,
                czi,
            ) by {
                assert(crate::structures::placed_structure_ok(
                    structures@[i],
                    self.spec_seed(),
                    cxi,
                    czi,
                    samples,
                    mgr,
                    &heights,
                    &biomes,
                ));
            }
            assert(chunk_blocks_generated(
                self.spec_seed(),
                cxi,
                czi,
                samples,
                mgr,
                structures@,
                &blocks,
            ));
        }
        let data = crate::mesh::build_chunk_mesh(
            registry,
            chunk_x,
            chunk_z,
            &blocks,
            None,
            None,
            None,
            None,
        );
        (data, blocks)
    }
}

} // verus!
