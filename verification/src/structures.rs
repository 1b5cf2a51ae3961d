use vstd::prelude::*;
use crate::biome::{Biome, BiomeConfig, BiomeManager};
use crate::block::BlockType;
use crate::rng::{position_seed, spec_position_seed, spec_stream_draw, SeededRng};
use crate::sampling::NoiseSamples;
use crate::terrain::{biome_at, height_at};

verus! {

/// One block of a structure, placed relative to the structure's anchor.
#[derive(Clone, Copy, PartialEq, Eq, Debug)]
pub struct BlockPlacement {
    /// Offset from the structure anchor, as (x, y, z).
    pub relative_pos: (i32, i32, i32),
    pub block_type: BlockType,
}

/// The tree species, each with its own silhouette.
#[derive(Clone, Copy, PartialEq, Eq, Debug, Structural)]
pub enum TreeType {
    Oak,
    Birch,
    Pine,
}

/// A tree to be generated.
pub struct TreeStructure {
    pub tree_type: TreeType,
}

/// Trunk height range of a species, inclusive.
pub open spec fn spec_trunk_min(tt: TreeType) -> int {
    match tt {
        TreeType::Oak => 4,
        TreeType::Birch => 5,
        TreeType::Pine => 6,
    }
}

pub open spec fn spec_trunk_max(tt: TreeType) -> int {
    spec_trunk_min(tt) + 2
}

/// The box that every block of a species stays in: half-width, height bound
/// (exclusive) and half-depth around the anchor.
pub open spec fn spec_tree_span(tt: TreeType) -> (int, int, int) {
    match tt {
        TreeType::Oak => (2int, 8int, 2int),
        TreeType::Birch => (2int, 10int, 2int),
        TreeType::Pine => (3int, 9int, 3int),
    }
}

/// The placement stays inside the species' box.
pub open spec fn tree_placement_ok(tt: TreeType, p: BlockPlacement) -> bool {
    let span = spec_tree_span(tt);
    &&& -span.0 <= p.relative_pos.0 <= span.0
    &&& 0 <= p.relative_pos.1 < span.1
    &&& -span.2 <= p.relative_pos.2 <= span.2
}

/// The generated blocks form a tree with trunk height `h`: the first `h`
/// placements are the trunk (wood at the anchor column), everything after is
/// leaves, and every block stays inside the species' box.
pub open spec fn tree_blocks_ok_with(tt: TreeType, s: Seq<BlockPlacement>, h: int) -> bool {
    &&& spec_trunk_min(tt) <= h <= spec_trunk_max(tt)
    &&& s.len() >= h
    &&& forall|y: int| 0 <= y < h ==> s[y] == (BlockPlacement {
        relative_pos: (0, y as i32, 0),
        block_type: BlockType::Wood,
    })
    &&& forall|i: int| h <= i < s.len() ==> (#[trigger] s[i]).block_type == BlockType::Leaves
    &&& forall|i: int| 0 <= i < s.len() ==> tree_placement_ok(tt, #[trigger] s[i])
}

/// The species the draw stream seeded by `seed` rolls for `biome` at draw
/// `k`: cold biomes favor pine, the desert only grows its hardy oak, forests
/// and plains mix all three, swamps grow oak and birch.
pub open spec fn spec_tree_species(biome: Biome, seed: u64, k: u64) -> TreeType {
    match biome {
        Biome::Tundra | Biome::Mountain => if spec_stream_draw(seed, k, 10) < 8 {
            TreeType::Pine
        } else {
            TreeType::Oak
        },
        Biome::Desert => TreeType::Oak,
        Biome::Forest => {
            let roll = spec_stream_draw(seed, k, 10);
            if roll <= 2 {
                TreeType::Pine
            } else if roll <= 6 {
                TreeType::Oak
            } else {
                TreeType::Birch
            }
        },
        Biome::Plains => {
            let roll = spec_stream_draw(seed, k, 10);
            if roll <= 1 {
                TreeType::Pine
            } else if roll <= 5 {
                TreeType::Oak
            } else {
                TreeType::Birch
            }
        },
        Biome::Swamp => if spec_stream_draw(seed, k, 10) < 6 {
            TreeType::Oak
        } else {
            TreeType::Birch
        },
    }
}

/// How many draws the species roll consumes: the desert rolls nothing.
pub open spec fn spec_species_draws(biome: Biome) -> u64 {
    if biome == Biome::Desert {
        0
    } else {
        1
    }
}

/// The tree's canopy is really there: each species places its innermost
/// ring unconditionally, witnessed by the leaf one block beside the trunk
/// on its lowest canopy layer, and a pine ends in its apex tuft.
pub open spec fn tree_canopy_ok(tt: TreeType, s: Seq<BlockPlacement>, h: int) -> bool {
    match tt {
        TreeType::Oak => s.contains(
            BlockPlacement {
                relative_pos: (1, (h - 1) as i32, 0),
                block_type: BlockType::Leaves,
            },
        ),
        TreeType::Birch => s.contains(
            BlockPlacement {
                relative_pos: (1, (h - 2) as i32, 0),
                block_type: BlockType::Leaves,
            },
        ),
        TreeType::Pine => {
            &&& s.contains(
                BlockPlacement { relative_pos: (1, 2, 0), block_type: BlockType::Leaves },
            )
            &&& s.len() > 0
            &&& s.last() == (BlockPlacement {
                relative_pos: (0, h as i32, 0),
                block_type: BlockType::Leaves,
            })
        },
    }
}

/// A list that grew at the end still holds what it held.
proof fn lemma_prefix_keeps(pre: Seq<BlockPlacement>, post: Seq<BlockPlacement>, w: BlockPlacement)
    requires
        pre.contains(w),
        post.len() >= pre.len(),
        forall|i: int| 0 <= i < pre.len() ==> post[i] == pre[i],
    ensures
        post.contains(w),
{
    let i = choose|i: int| 0 <= i < pre.len() && pre[i] == w;
    assert(post[i] == w);
}


/// A leaf placement at the given offsets.
pub open spec fn spec_leaf(dx: int, y: int, dz: int) -> BlockPlacement {
    BlockPlacement { relative_pos: (dx as i32, y as i32, dz as i32), block_type: BlockType::Leaves }
}

/// The trunk of a tree of height `h`: wood on the anchor column, bottom up.
pub open spec fn spec_trunk(h: int) -> Seq<BlockPlacement>
    decreases h,
{
    if h <= 0 {
        Seq::empty()
    } else {
        spec_trunk(h - 1).push(
            BlockPlacement { relative_pos: (0, (h - 1) as i32, 0), block_type: BlockType::Wood },
        )
    }
}

pub proof fn lemma_trunk_props(h: int)
    requires
        0 <= h,
    ensures
        spec_trunk(h).len() == h,
        forall|j: int| 0 <= j < h ==> spec_trunk(h)[j] == (BlockPlacement {
            relative_pos: (0, j as i32, 0),
            block_type: BlockType::Wood,
        }),
    decreases h,
{
    if h > 0 {
        lemma_trunk_props(h - 1);
    }
}

/// The oak canopy after scanning its first `i` cells (of 150, ordered by
/// vertical offset, then x, then z): the leaves placed so far, and how many
/// draws of the stream (starting at `k0`) the scan consumed. Every cell on
/// a canopy layer rolls one edge draw; the cell keeps a leaf when it lies
/// within the randomized sphere and off the trunk.
pub open spec fn spec_oak_scan(seed: u64, k0: int, h: int, i: int) -> (Seq<BlockPlacement>, int)
    decreases i,
{
    if i <= 0 {
        (Seq::empty(), 0)
    } else {
        let prev = spec_oak_scan(seed, k0, h, i - 1);
        let dy = (i - 1) / 25 - 2;
        let dx = ((i - 1) % 25) / 5 - 2;
        let dz = (i - 1) % 5 - 2;
        let y2 = h - 2 + dy;
        if dy < 1 {
            prev
        } else {
            let u = spec_stream_draw(seed, (k0 + prev.1) as u64, 2000);
            let dist_sq = dx * dx + dy * dy + dz * dz;
            if dist_sq * 1000 <= 4000 + u && !(dx == 0 && dz == 0 && y2 < h) {
                (prev.0.push(spec_leaf(dx, y2, dz)), prev.1 + 1)
            } else {
                (prev.0, prev.1 + 1)
            }
        }
    }
}

/// The birch layer radius: narrow at the bottom and top, wide in between.
pub open spec fn spec_birch_radius(ly: int) -> int {
    if ly == 0 || ly == 3 {
        1
    } else {
        2
    }
}

/// One birch canopy layer after scanning its first `j` cells (x-major):
/// ring cells roll one edge draw each and keep their leaf on a high roll,
/// inner cells keep theirs unconditionally unless the trunk runs through.
pub open spec fn spec_birch_layer(seed: u64, k0: int, h: int, ly: int, j: int) -> (
    Seq<BlockPlacement>,
    int,
)
    decreases j,
{
    if j <= 0 {
        (Seq::empty(), 0)
    } else {
        let prev = spec_birch_layer(seed, k0, h, ly, j - 1);
        let r = spec_birch_radius(ly);
        let side = 2 * r + 1;
        let dx = (j - 1) / side - r;
        let dz = (j - 1) % side - r;
        let y2 = h - 3 + ly;
        if crate::terrain::abs_int(dx) == r || crate::terrain::abs_int(dz) == r {
            let u = spec_stream_draw(seed, (k0 + prev.1) as u64, 10);
            if u < 7 {
                (prev.0.push(spec_leaf(dx, y2, dz)), prev.1 + 1)
            } else {
                (prev.0, prev.1 + 1)
            }
        } else if !(dx == 0 && dz == 0 && y2 < h) {
            (prev.0.push(spec_leaf(dx, y2, dz)), prev.1)
        } else {
            (prev.0, prev.1)
        }
    }
}

/// The first `ly` birch canopy layers, bottom up.
pub open spec fn spec_birch_layers(seed: u64, k0: int, h: int, ly: int) -> (
    Seq<BlockPlacement>,
    int,
)
    decreases ly,
{
    if ly <= 0 {
        (Seq::empty(), 0)
    } else {
        let prev = spec_birch_layers(seed, k0, h, ly - 1);
        let r = spec_birch_radius(ly - 1);
        let side = 2 * r + 1;
        let layer = spec_birch_layer(seed, k0 + prev.1, h, ly - 1, side * side);
        (prev.0 + layer.0, prev.1 + layer.1)
    }
}

/// The pine layer radius: tapers linearly from three at the bottom canopy
/// layer toward the top, rounded up.
pub open spec fn spec_pine_radius(h: int, y2: int) -> int {
    let denom = h - 3;
    let yy = y2 - 2;
    (3 * (denom - yy) + denom - 1) / denom
}

/// One pine canopy layer after scanning its first `j` cells (x-major):
/// diamond cells off the trunk keep their leaf, the diamond's rim rolling
/// one edge draw each.
pub open spec fn spec_pine_layer(seed: u64, k0: int, h: int, y2: int, j: int) -> (
    Seq<BlockPlacement>,
    int,
)
    decreases j,
{
    if j <= 0 {
        (Seq::empty(), 0)
    } else {
        let prev = spec_pine_layer(seed, k0, h, y2, j - 1);
        let r = spec_pine_radius(h, y2);
        let side = 2 * r + 1;
        let dx = (j - 1) / side - r;
        let dz = (j - 1) % side - r;
        let reach = crate::terrain::abs_int(dx) + crate::terrain::abs_int(dz);
        if reach <= r && !(dx == 0 && dz == 0) {
            if reach == r {
                let u = spec_stream_draw(seed, (k0 + prev.1) as u64, 10);
                if u < 8 {
                    (prev.0.push(spec_leaf(dx, y2, dz)), prev.1 + 1)
                } else {
                    (prev.0, prev.1 + 1)
                }
            } else {
                (prev.0.push(spec_leaf(dx, y2, dz)), prev.1)
            }
        } else {
            (prev.0, prev.1)
        }
    }
}

/// The pine canopy layers with vertical offsets in [2, y2), bottom up.
pub open spec fn spec_pine_layers(seed: u64, k0: int, h: int, y2: int) -> (
    Seq<BlockPlacement>,
    int,
)
    decreases y2,
{
    if y2 <= 2 {
        (Seq::empty(), 0)
    } else {
        let prev = spec_pine_layers(seed, k0, h, y2 - 1);
        let r = spec_pine_radius(h, y2 - 1);
        let side = 2 * r + 1;
        let layer = spec_pine_layer(seed, k0 + prev.1, h, y2 - 1, side * side);
        (prev.0 + layer.0, prev.1 + layer.1)
    }
}

/// The trunk height the stream rolls for the species at draw `k0`.
pub open spec fn spec_tree_height(tt: TreeType, seed: u64, k0: u64) -> int {
    spec_trunk_min(tt) + spec_stream_draw(seed, k0, 3) as int
}

/// Every block of one tree, as a pure function of the species, the stream
/// seed and the draw position the generator starts at: the trunk, then the
/// species' canopy scan, and for a pine the apex tuft. Same anchor, same
/// tree - forever.
#[verifier::opaque]
pub open spec fn spec_tree_blocks(tt: TreeType, seed: u64, k0: u64) -> Seq<BlockPlacement> {
    let h = spec_tree_height(tt, seed, k0);
    spec_trunk(h) + (match tt {
        TreeType::Oak => spec_oak_scan(seed, k0 + 1, h, 150).0,
        TreeType::Birch => spec_birch_layers(seed, k0 + 1, h, 4).0,
        TreeType::Pine => spec_pine_layers(seed, k0 + 1, h, h - 1).0.push(spec_leaf(0, h, 0)),
    })
}

/// How many draws generating the tree consumes, the height roll included.
#[verifier::opaque]
pub open spec fn spec_tree_draws(tt: TreeType, seed: u64, k0: u64) -> int {
    let h = spec_tree_height(tt, seed, k0);
    1 + (match tt {
        TreeType::Oak => spec_oak_scan(seed, k0 + 1, h, 150).1,
        TreeType::Birch => spec_birch_layers(seed, k0 + 1, h, 4).1,
        TreeType::Pine => spec_pine_layers(seed, k0 + 1, h, h - 1).1,
    })
}

/// The species a biome can roll.
pub open spec fn spec_tree_allowed(biome: Biome, tt: TreeType) -> bool {
    match biome {
        Biome::Desert => tt == TreeType::Oak,
        Biome::Tundra => tt != TreeType::Birch,
        Biome::Mountain => tt != TreeType::Birch,
        Biome::Swamp => tt != TreeType::Pine,
        _ => true,
    }
}

impl TreeStructure {
    pub fn new(tree_type: TreeType) -> (r: TreeStructure)
        ensures
            r.tree_type == tree_type,
    {
        TreeStructure { tree_type }
    }

    /// Roll a species for the biome from the stream's next draw; the
    /// species is a pure function of the biome, the stream seed and the
    /// draw position, so the same anchor always grows the same tree.
    pub fn random_for_biome(biome: Biome, rng: &mut SeededRng) -> (r: TreeStructure)
        requires
            old(rng).drawn < u64::MAX,
        ensures
            r.tree_type == spec_tree_species(biome, old(rng).seed, old(rng).drawn),
            spec_tree_allowed(biome, r.tree_type),
            final(rng).seed == old(rng).seed,
            final(rng).drawn == old(rng).drawn + spec_species_draws(biome),
    {
        let tree_type = match biome {
            Biome::Tundra | Biome::Mountain => {
                if rng.below(10) < 8 {
                    TreeType::Pine
                } else {
                    TreeType::Oak
                }
            },
            Biome::Desert => TreeType::Oak,
            Biome::Forest => {
                let roll = rng.below(10);
                if roll <= 2 {
                    TreeType::Pine
                } else if roll <= 6 {
                    TreeType::Oak
                } else {
                    TreeType::Birch
                }
            },
            Biome::Plains => {
                let roll = rng.below(10);
                if roll <= 1 {
                    TreeType::Pine
                } else if roll <= 5 {
                    TreeType::Oak
                } else {
                    TreeType::Birch
                }
            },
            Biome::Swamp => {
                if rng.below(10) < 6 {
                    TreeType::Oak
                } else {
                    TreeType::Birch
                }
            },
        };
        TreeStructure::new(tree_type)
    }

    /// The bounding box of this species, as (width, height, depth).
    pub fn get_bounds(&self) -> (r: (i32, i32, i32))
        ensures
            r == match self.tree_type {
                TreeType::Oak => (5i32, 8i32, 5i32),
                TreeType::Birch => (5i32, 10i32, 5i32),
                TreeType::Pine => (7i32, 9i32, 7i32),
            },
    {
        match self.tree_type {
            TreeType::Oak => (5, 8, 5),
            TreeType::Birch => (5, 10, 5),
            TreeType::Pine => (7, 9, 7),
        }
    }

    /// Trees grow on ground that is neither too low nor too high.
    pub fn can_place_at_height(&self, height: i32) -> (r: bool)
        ensures
            r == (5 <= height < 20),
    {
        5 <= height && height < 20
    }

    /// Generate the blocks of one tree: a wood trunk whose height is the
    /// stream's next draw within the species' band, then a species-shaped
    /// canopy of leaves with randomized edges. The whole output, edge
    /// leaves included, is pinned to the species and the draw stream, so
    /// the same seed always grows the same tree.
    #[verifier::rlimit(100)]
    pub fn generate(&self, rng: &mut SeededRng) -> (r: Vec<BlockPlacement>)
        requires
            old(rng).drawn <= 0xFFFF_FFFF,
        ensures
            r@ == spec_tree_blocks(self.tree_type, old(rng).seed, old(rng).drawn),
            final(rng).seed == old(rng).seed,
            final(rng).drawn == old(rng).drawn + spec_tree_draws(
                self.tree_type,
                old(rng).seed,
                old(rng).drawn,
            ),
            ({
                let h = spec_tree_height(self.tree_type, old(rng).seed, old(rng).drawn);
                &&& tree_blocks_ok_with(self.tree_type, r@, h)
                &&& tree_canopy_ok(self.tree_type, r@, h)
            }),
    {
        let ghost gseed = rng.seed;
        let ghost d0 = rng.drawn;
        let mut blocks: Vec<BlockPlacement> = Vec::new();
        let tt = self.tree_type;
        match tt {
            TreeType::Oak => {
                let height: i32 = 4 + rng.below(3) as i32;
                let ghost hh = height as int;
                let ghost w = BlockPlacement {
                    relative_pos: (1, (height - 1) as i32, 0),
                    block_type: BlockType::Leaves,
                };
                let mut y: i32 = 0;
                while y < height
                    invariant
                        0 <= y <= height,
                        4 <= height <= 6,
                        blocks@ == spec_trunk(y as int),
                        blocks@.len() == y,
                        forall|j: int| 0 <= j < y ==> blocks@[j] == (BlockPlacement {
                            relative_pos: (0, j as i32, 0),
                            block_type: BlockType::Wood,
                        }),
                    decreases height - y,
                {
                    proof {
                        lemma_trunk_props(y as int);
                    }
                    blocks.push(BlockPlacement {
                        relative_pos: (0, y, 0),
                        block_type: BlockType::Wood,
                    });
                    y = y + 1;
                }
                let leaf_start = height - 2;
                let mut dy: i32 = -2;
                while dy <= 3
                    invariant
                        -2 <= dy <= 4,
                        4 <= height <= 6,
                        hh == height as int,
                        hh == spec_tree_height(TreeType::Oak, gseed, d0),
                        leaf_start == height - 2,
                        rng.seed == gseed,
                        d0 <= 0xFFFF_FFFF,
                        blocks@ == spec_trunk(hh) + spec_oak_scan(
                            gseed,
                            d0 + 1,
                            hh,
                            25 * (dy + 2),
                        ).0,
                        rng.drawn == d0 + 1 + spec_oak_scan(gseed, d0 + 1, hh, 25 * (dy + 2)).1,
                        rng.drawn <= d0 + 1 + 25 * (dy + 2),
                        w == (BlockPlacement {
                            relative_pos: (1, (height - 1) as i32, 0),
                            block_type: BlockType::Leaves,
                        }),
                        dy >= 2 ==> blocks@.contains(w),
                        tree_blocks_ok_with(TreeType::Oak, blocks@, height as int),
                    decreases 4 - dy,
                {
                    let mut dx: i32 = -2;
                    while dx <= 2
                        invariant
                            -2 <= dx <= 3,
                            -2 <= dy <= 3,
                            4 <= height <= 6,
                            hh == height as int,
                            hh == spec_tree_height(TreeType::Oak, gseed, d0),
                            leaf_start == height - 2,
                            rng.seed == gseed,
                            d0 <= 0xFFFF_FFFF,
                            blocks@ == spec_trunk(hh) + spec_oak_scan(
                                gseed,
                                d0 + 1,
                                hh,
                                25 * (dy + 2) + 5 * (dx + 2),
                            ).0,
                            rng.drawn == d0 + 1 + spec_oak_scan(
                                gseed,
                                d0 + 1,
                                hh,
                                25 * (dy + 2) + 5 * (dx + 2),
                            ).1,
                            rng.drawn <= d0 + 1 + 25 * (dy + 2) + 5 * (dx + 2),
                            w == (BlockPlacement {
                                relative_pos: (1, (height - 1) as i32, 0),
                                block_type: BlockType::Leaves,
                            }),
                            (dy >= 2 || (dy == 1 && dx >= 2)) ==> blocks@.contains(w),
                            tree_blocks_ok_with(TreeType::Oak, blocks@, height as int),
                        decreases 3 - dx,
                    {
                        let mut dz: i32 = -2;
                        while dz <= 2
                            invariant
                                -2 <= dz <= 3,
                                -2 <= dx <= 2,
                                -2 <= dy <= 3,
                                4 <= height <= 6,
                                hh == height as int,
                                hh == spec_tree_height(TreeType::Oak, gseed, d0),
                                leaf_start == height - 2,
                                rng.seed == gseed,
                                d0 <= 0xFFFF_FFFF,
                                blocks@ == spec_trunk(hh) + spec_oak_scan(
                                    gseed,
                                    d0 + 1,
                                    hh,
                                    25 * (dy + 2) + 5 * (dx + 2) + (dz + 2),
                                ).0,
                                rng.drawn == d0 + 1 + spec_oak_scan(
                                    gseed,
                                    d0 + 1,
                                    hh,
                                    25 * (dy + 2) + 5 * (dx + 2) + (dz + 2),
                                ).1,
                                rng.drawn <= d0 + 1 + 25 * (dy + 2) + 5 * (dx + 2) + (dz + 2),
                                w == (BlockPlacement {
                                    relative_pos: (1, (height - 1) as i32, 0),
                                    block_type: BlockType::Leaves,
                                }),
                                (dy >= 2 || (dy == 1 && (dx >= 2 || (dx == 1 && dz >= 1))))
                                    ==> blocks@.contains(w),
                                tree_blocks_ok_with(TreeType::Oak, blocks@, height as int),
                            decreases 3 - dz,
                        {
                            let ghost pre = blocks@;
                            let ghost idx = 25 * (dy + 2) + 5 * (dx + 2) + (dz + 2) as int;
                            proof {
                                assert(idx / 25 - 2 == dy && (idx % 25) / 5 - 2 == dx && idx % 5
                                    - 2 == dz) by (nonlinear_arith)
                                    requires
                                        idx == 25 * (dy + 2) + 5 * (dx + 2) + (dz + 2),
                                        -2 <= dy <= 3,
                                        -2 <= dx <= 2,
                                        -2 <= dz <= 2,
                                {}
                            }
                            let y2 = leaf_start + dy;
                            if y2 >= height - 1 {
                                proof {
                                    assert(0 <= dx * dx <= 4 && 0 <= dy * dy <= 9 && 0 <= dz * dz
                                        <= 9) by (nonlinear_arith)
                                        requires
                                            -2 <= dx <= 2,
                                            -2 <= dy <= 3,
                                            -2 <= dz <= 3,
                                    {}
                                }
                                let dist_sq = dx * dx + dy * dy + dz * dz;
                                proof {
                                    if dy == 1 && dx == 1 && dz == 0 {
                                        assert(dist_sq == 2) by (nonlinear_arith)
                                            requires
                                                dx == 1,
                                                dy == 1,
                                                dz == 0,
                                                dist_sq == dx * dx + dy * dy + dz * dz,
                                        {}
                                    }
                                }
                                let extra_milli = rng.below(2000) as i32;
                                if dist_sq * 1000 <= 4000 + extra_milli {
                                    if !(dx == 0 && dz == 0 && y2 < height) {
                                        blocks.push(BlockPlacement {
                                            relative_pos: (dx, y2, dz),
                                            block_type: BlockType::Leaves,
                                        });
                                    }
                                }
                            }
                            proof {
                                assert(blocks@ == spec_trunk(hh) + spec_oak_scan(
                                    gseed,
                                    d0 + 1,
                                    hh,
                                    idx + 1,
                                ).0);
                                assert(rng.drawn == d0 + 1 + spec_oak_scan(
                                    gseed,
                                    d0 + 1,
                                    hh,
                                    idx + 1,
                                ).1);
                                assert(blocks@.len() >= pre.len() && forall|i: int|
                                    0 <= i < pre.len() ==> blocks@[i] == pre[i]);
                                if pre.contains(w) {
                                    lemma_prefix_keeps(pre, blocks@, w);
                                }
                                if dy == 1 && dx == 1 && dz == 0 {
                                    assert(blocks@[blocks@.len() - 1] == w);
                                    assert(blocks@.contains(w));
                                }
                            }
                            dz = dz + 1;
                        }
                        dx = dx + 1;
                    }
                    dy = dy + 1;
                }
                proof {
                    reveal(spec_tree_blocks);
                    reveal(spec_tree_draws);
                    assert(blocks@ == spec_tree_blocks(tt, gseed, d0));
                    assert(rng.drawn == d0 + spec_tree_draws(tt, gseed, d0));
                    assert(tree_blocks_ok_with(tt, blocks@, height as int));
                    assert(tree_canopy_ok(tt, blocks@, height as int));
                }
            },
            TreeType::Birch => {
                let height: i32 = 5 + rng.below(3) as i32;
                let ghost hh = height as int;
                let ghost w = BlockPlacement {
                    relative_pos: (1, (height - 2) as i32, 0),
                    block_type: BlockType::Leaves,
                };
                let mut y: i32 = 0;
                while y < height
                    invariant
                        0 <= y <= height,
                        5 <= height <= 7,
                        blocks@ == spec_trunk(y as int),
                        blocks@.len() == y,
                        forall|j: int| 0 <= j < y ==> blocks@[j] == (BlockPlacement {
                            relative_pos: (0, j as i32, 0),
                            block_type: BlockType::Wood,
                        }),
                    decreases height - y,
                {
                    proof {
                        lemma_trunk_props(y as int);
                    }
                    blocks.push(BlockPlacement {
                        relative_pos: (0, y, 0),
                        block_type: BlockType::Wood,
                    });
                    y = y + 1;
                }
                let leaf_start = height - 3;
                let mut ly: i32 = 0;
                while ly < 4
                    invariant
                        0 <= ly <= 4,
                        5 <= height <= 7,
                        hh == height as int,
                        hh == spec_tree_height(TreeType::Birch, gseed, d0),
                        leaf_start == height - 3,
                        rng.seed == gseed,
                        d0 <= 0xFFFF_FFFF,
                        blocks@ == spec_trunk(hh) + spec_birch_layers(
                            gseed,
                            d0 + 1,
                            hh,
                            ly as int,
                        ).0,
                        rng.drawn == d0 + 1 + spec_birch_layers(gseed, d0 + 1, hh, ly as int).1,
                        rng.drawn <= d0 + 1 + 25 * ly,
                        w == (BlockPlacement {
                            relative_pos: (1, (height - 2) as i32, 0),
                            block_type: BlockType::Leaves,
                        }),
                        ly >= 2 ==> blocks@.contains(w),
                        tree_blocks_ok_with(TreeType::Birch, blocks@, height as int),
                    decreases 4 - ly,
                {
                    let y2 = leaf_start + ly;
                    let radius: i32 = if ly == 0 || ly == 3 {
                        1
                    } else {
                        2
                    };
                    let ghost base = d0 + 1 + spec_birch_layers(gseed, d0 + 1, hh, ly as int).1;
                    let mut dx: i32 = -radius;
                    while dx <= radius
                        invariant
                            -radius <= dx <= radius + 1,
                            1 <= radius <= 2,
                            radius == spec_birch_radius(ly as int),
                            0 <= ly <= 3,
                            y2 == height - 3 + ly,
                            5 <= height <= 7,
                            hh == height as int,
                            hh == spec_tree_height(TreeType::Birch, gseed, d0),
                            rng.seed == gseed,
                            d0 <= 0xFFFF_FFFF,
                            base == d0 + 1 + spec_birch_layers(gseed, d0 + 1, hh, ly as int).1,
                            base <= d0 + 1 + 25 * ly,
                            blocks@ == spec_trunk(hh) + spec_birch_layers(
                                gseed,
                                d0 + 1,
                                hh,
                                ly as int,
                            ).0 + spec_birch_layer(
                                gseed,
                                base as int,
                                hh,
                                ly as int,
                                (dx + radius) * (2 * radius + 1),
                            ).0,
                            rng.drawn == base + spec_birch_layer(
                                gseed,
                                base as int,
                                hh,
                                ly as int,
                                (dx + radius) * (2 * radius + 1),
                            ).1,
                            rng.drawn <= base + 5 * (dx + radius),
                            w == (BlockPlacement {
                                relative_pos: (1, (height - 2) as i32, 0),
                                block_type: BlockType::Leaves,
                            }),
                            (ly >= 2 || (ly == 1 && dx >= 2)) ==> blocks@.contains(w),
                            tree_blocks_ok_with(TreeType::Birch, blocks@, height as int),
                        decreases radius + 1 - dx,
                    {
                        let mut dz: i32 = -radius;
                        while dz <= radius
                            invariant
                                -radius <= dz <= radius + 1,
                                -radius <= dx <= radius,
                                1 <= radius <= 2,
                                radius == spec_birch_radius(ly as int),
                                0 <= ly <= 3,
                                y2 == height - 3 + ly,
                                5 <= height <= 7,
                                hh == height as int,
                                hh == spec_tree_height(TreeType::Birch, gseed, d0),
                                rng.seed == gseed,
                                d0 <= 0xFFFF_FFFF,
                                base == d0 + 1 + spec_birch_layers(
                                    gseed,
                                    d0 + 1,
                                    hh,
                                    ly as int,
                                ).1,
                                base <= d0 + 1 + 25 * ly,
                                blocks@ == spec_trunk(hh) + spec_birch_layers(
                                    gseed,
                                    d0 + 1,
                                    hh,
                                    ly as int,
                                ).0 + spec_birch_layer(
                                    gseed,
                                    base as int,
                                    hh,
                                    ly as int,
                                    (dx + radius) * (2 * radius + 1) + (dz + radius),
                                ).0,
                                rng.drawn == base + spec_birch_layer(
                                    gseed,
                                    base as int,
                                    hh,
                                    ly as int,
                                    (dx + radius) * (2 * radius + 1) + (dz + radius),
                                ).1,
                                rng.drawn <= base + 5 * (dx + radius) + (dz + radius),
                                w == (BlockPlacement {
                                    relative_pos: (1, (height - 2) as i32, 0),
                                    block_type: BlockType::Leaves,
                                }),
                                (ly >= 2 || (ly == 1 && (dx >= 2 || (dx == 1 && dz >= 1))))
                                    ==> blocks@.contains(w),
                                tree_blocks_ok_with(TreeType::Birch, blocks@, height as int),
                            decreases radius + 1 - dz,
                        {
                            let ghost pre = blocks@;
                            let ghost j = (dx + radius) * (2 * radius + 1) + (dz + radius) as int;
                            proof {
                                assert(j / (2 * radius + 1) - radius == dx && j % (2 * radius + 1)
                                    - radius == dz) by (nonlinear_arith)
                                    requires
                                        j == (dx + radius) * (2 * radius + 1) + (dz + radius),
                                        1 <= radius <= 2,
                                        -radius <= dx <= radius,
                                        -radius <= dz <= radius,
                                {}
                            }
                            let adx = if dx < 0 {
                                -dx
                            } else {
                                dx
                            };
                            let adz = if dz < 0 {
                                -dz
                            } else {
                                dz
                            };
                            if adx == radius || adz == radius {
                                if rng.below(10) < 7 {
                                    blocks.push(BlockPlacement {
                                        relative_pos: (dx, y2, dz),
                                        block_type: BlockType::Leaves,
                                    });
                                }
                            } else if !(dx == 0 && dz == 0 && y2 < height) {
                                blocks.push(BlockPlacement {
                                    relative_pos: (dx, y2, dz),
                                    block_type: BlockType::Leaves,
                                });
                            }
                            proof {
                                assert(blocks@ == spec_trunk(hh) + spec_birch_layers(
                                    gseed,
                                    d0 + 1,
                                    hh,
                                    ly as int,
                                ).0 + spec_birch_layer(
                                    gseed,
                                    base as int,
                                    hh,
                                    ly as int,
                                    j + 1,
                                ).0);
                                assert(rng.drawn == base + spec_birch_layer(
                                    gseed,
                                    base as int,
                                    hh,
                                    ly as int,
                                    j + 1,
                                ).1);
                                assert(blocks@.len() >= pre.len() && forall|i: int|
                                    0 <= i < pre.len() ==> blocks@[i] == pre[i]);
                                if pre.contains(w) {
                                    lemma_prefix_keeps(pre, blocks@, w);
                                }
                                if ly == 1 && dx == 1 && dz == 0 {
                                    assert(blocks@[blocks@.len() - 1] == w);
                                    assert(blocks@.contains(w));
                                }
                            }
                            dz = dz + 1;
                        }
                        proof {
                            assert((dx + radius) * (2 * radius + 1) + (2 * radius + 1) == (dx + 1
                                + radius) * (2 * radius + 1)) by (nonlinear_arith)
                            {}
                            assert(rng.drawn <= base + 5 * (dx + radius) + (2 * radius + 1));
                            assert(rng.drawn <= base + 5 * ((dx + 1) + radius));
                        }
                        dx = dx + 1;
                    }
                    proof {
                        assert((dx + radius) * (2 * radius + 1) == (2 * radius + 1) * (2 * radius
                            + 1)) by (nonlinear_arith)
                            requires
                                dx == radius + 1,
                                1 <= radius <= 2,
                        {}
                    }
                    ly = ly + 1;
                }
                proof {
                    reveal(spec_tree_blocks);
                    reveal(spec_tree_draws);
                    assert(blocks@ == spec_tree_blocks(tt, gseed, d0));
                    assert(rng.drawn == d0 + spec_tree_draws(tt, gseed, d0));
                    assert(tree_blocks_ok_with(tt, blocks@, height as int));
                    assert(tree_canopy_ok(tt, blocks@, height as int));
                }
            },
            TreeType::Pine => {
                let height: i32 = 6 + rng.below(3) as i32;
                let ghost hh = height as int;
                let ghost w = BlockPlacement {
                    relative_pos: (1, 2, 0),
                    block_type: BlockType::Leaves,
                };
                let mut y: i32 = 0;
                while y < height
                    invariant
                        0 <= y <= height,
                        6 <= height <= 8,
                        blocks@ == spec_trunk(y as int),
                        blocks@.len() == y,
                        forall|j: int| 0 <= j < y ==> blocks@[j] == (BlockPlacement {
                            relative_pos: (0, j as i32, 0),
                            block_type: BlockType::Wood,
                        }),
                    decreases height - y,
                {
                    proof {
                        lemma_trunk_props(y as int);
                    }
                    blocks.push(BlockPlacement {
                        relative_pos: (0, y, 0),
                        block_type: BlockType::Wood,
                    });
                    y = y + 1;
                }
                let leaf_layers = height - 1;
                let denom = leaf_layers - 2;
                let mut y2: i32 = 2;
                while y2 < leaf_layers
                    invariant
                        2 <= y2 <= leaf_layers,
                        6 <= height <= 8,
                        hh == height as int,
                        hh == spec_tree_height(TreeType::Pine, gseed, d0),
                        leaf_layers == height - 1,
                        denom == leaf_layers - 2,
                        rng.seed == gseed,
                        d0 <= 0xFFFF_FFFF,
                        blocks@ == spec_trunk(hh) + spec_pine_layers(
                            gseed,
                            d0 + 1,
                            hh,
                            y2 as int,
                        ).0,
                        rng.drawn == d0 + 1 + spec_pine_layers(gseed, d0 + 1, hh, y2 as int).1,
                        rng.drawn <= d0 + 1 + 49 * (y2 - 2),
                        w == (BlockPlacement {
                            relative_pos: (1, 2, 0),
                            block_type: BlockType::Leaves,
                        }),
                        y2 >= 3 ==> blocks@.contains(w),
                        tree_blocks_ok_with(TreeType::Pine, blocks@, height as int),
                    decreases leaf_layers - y2,
                {
                    let yy = y2 - 2;
                    let radius: i32 = (3 * (denom - yy) + denom - 1) / denom;
                    proof {
                        assert(1 <= (3 * (denom - yy) + denom - 1) as int / denom as int
                            <= 3) by (nonlinear_arith)
                            requires
                                3 <= denom <= 5,
                                0 <= yy < denom,
                        {}
                        if yy == 0 {
                            assert((3 * (denom - 0) + denom - 1) as int / denom as int == 3)
                                by (nonlinear_arith)
                                requires
                                    3 <= denom <= 5,
                            {}
                        }
                        assert(radius as int == spec_pine_radius(hh, y2 as int));
                    }
                    let ghost base = d0 + 1 + spec_pine_layers(gseed, d0 + 1, hh, y2 as int).1;
                    let mut dx: i32 = -radius;
                    while dx <= radius
                        invariant
                            -radius <= dx <= radius + 1,
                            1 <= radius <= 3,
                            radius as int == spec_pine_radius(hh, y2 as int),
                            y2 == 2 ==> radius == 3,
                            2 <= y2 < leaf_layers,
                            leaf_layers == height - 1,
                            6 <= height <= 8,
                            hh == height as int,
                            hh == spec_tree_height(TreeType::Pine, gseed, d0),
                            rng.seed == gseed,
                            d0 <= 0xFFFF_FFFF,
                            base == d0 + 1 + spec_pine_layers(gseed, d0 + 1, hh, y2 as int).1,
                            base <= d0 + 1 + 49 * (y2 - 2),
                            blocks@ == spec_trunk(hh) + spec_pine_layers(
                                gseed,
                                d0 + 1,
                                hh,
                                y2 as int,
                            ).0 + spec_pine_layer(
                                gseed,
                                base as int,
                                hh,
                                y2 as int,
                                (dx + radius) * (2 * radius + 1),
                            ).0,
                            rng.drawn == base + spec_pine_layer(
                                gseed,
                                base as int,
                                hh,
                                y2 as int,
                                (dx + radius) * (2 * radius + 1),
                            ).1,
                            rng.drawn <= base + 7 * (dx + radius),
                            w == (BlockPlacement {
                                relative_pos: (1, 2, 0),
                                block_type: BlockType::Leaves,
                            }),
                            (y2 >= 3 || (y2 == 2 && dx >= 2)) ==> blocks@.contains(w),
                            tree_blocks_ok_with(TreeType::Pine, blocks@, height as int),
                        decreases radius + 1 - dx,
                    {
                        let mut dz: i32 = -radius;
                        while dz <= radius
                            invariant
                                -radius <= dz <= radius + 1,
                                -radius <= dx <= radius,
                                1 <= radius <= 3,
                                radius as int == spec_pine_radius(hh, y2 as int),
                                y2 == 2 ==> radius == 3,
                                2 <= y2 < leaf_layers,
                                leaf_layers == height - 1,
                                6 <= height <= 8,
                                hh == height as int,
                                hh == spec_tree_height(TreeType::Pine, gseed, d0),
                                rng.seed == gseed,
                                d0 <= 0xFFFF_FFFF,
                                base == d0 + 1 + spec_pine_layers(
                                    gseed,
                                    d0 + 1,
                                    hh,
                                    y2 as int,
                                ).1,
                                base <= d0 + 1 + 49 * (y2 - 2),
                                blocks@ == spec_trunk(hh) + spec_pine_layers(
                                    gseed,
                                    d0 + 1,
                                    hh,
                                    y2 as int,
                                ).0 + spec_pine_layer(
                                    gseed,
                                    base as int,
                                    hh,
                                    y2 as int,
                                    (dx + radius) * (2 * radius + 1) + (dz + radius),
                                ).0,
                                rng.drawn == base + spec_pine_layer(
                                    gseed,
                                    base as int,
                                    hh,
                                    y2 as int,
                                    (dx + radius) * (2 * radius + 1) + (dz + radius),
                                ).1,
                                rng.drawn <= base + 7 * (dx + radius) + (dz + radius),
                                w == (BlockPlacement {
                                    relative_pos: (1, 2, 0),
                                    block_type: BlockType::Leaves,
                                }),
                                (y2 >= 3 || (y2 == 2 && (dx >= 2 || (dx == 1 && dz >= 1))))
                                    ==> blocks@.contains(w),
                                tree_blocks_ok_with(TreeType::Pine, blocks@, height as int),
                            decreases radius + 1 - dz,
                        {
                            let ghost pre = blocks@;
                            let ghost j = (dx + radius) * (2 * radius + 1) + (dz + radius) as int;
                            proof {
                                assert(j / (2 * radius + 1) - radius == dx && j % (2 * radius + 1)
                                    - radius == dz) by (nonlinear_arith)
                                    requires
                                        j == (dx + radius) * (2 * radius + 1) + (dz + radius),
                                        1 <= radius <= 3,
                                        -radius <= dx <= radius,
                                        -radius <= dz <= radius,
                                {}
                            }
                            let adx = if dx < 0 {
                                -dx
                            } else {
                                dx
                            };
                            let adz = if dz < 0 {
                                -dz
                            } else {
                                dz
                            };
                            if adx + adz <= radius {
                                if !(dx == 0 && dz == 0) {
                                    if adx + adz == radius {
                                        if rng.below(10) < 8 {
                                            blocks.push(BlockPlacement {
                                                relative_pos: (dx, y2, dz),
                                                block_type: BlockType::Leaves,
                                            });
                                        }
                                    } else {
                                        blocks.push(BlockPlacement {
                                            relative_pos: (dx, y2, dz),
                                            block_type: BlockType::Leaves,
                                        });
                                    }
                                }
                            }
                            proof {
                                assert(blocks@ == spec_trunk(hh) + spec_pine_layers(
                                    gseed,
                                    d0 + 1,
                                    hh,
                                    y2 as int,
                                ).0 + spec_pine_layer(
                                    gseed,
                                    base as int,
                                    hh,
                                    y2 as int,
                                    j + 1,
                                ).0);
                                assert(rng.drawn == base + spec_pine_layer(
                                    gseed,
                                    base as int,
                                    hh,
                                    y2 as int,
                                    j + 1,
                                ).1);
                                assert(blocks@.len() >= pre.len() && forall|i: int|
                                    0 <= i < pre.len() ==> blocks@[i] == pre[i]);
                                if pre.contains(w) {
                                    lemma_prefix_keeps(pre, blocks@, w);
                                }
                                if y2 == 2 && dx == 1 && dz == 0 {
                                    assert(blocks@[blocks@.len() - 1] == w);
                                    assert(blocks@.contains(w));
                                }
                            }
                            dz = dz + 1;
                        }
                        proof {
                            assert((dx + radius) * (2 * radius + 1) + (2 * radius + 1) == (dx + 1
                                + radius) * (2 * radius + 1)) by (nonlinear_arith)
                            {}
                        }
                        dx = dx + 1;
                    }
                    proof {
                        assert((dx + radius) * (2 * radius + 1) == (2 * radius + 1) * (2 * radius
                            + 1)) by (nonlinear_arith)
                            requires
                                dx == radius + 1,
                                1 <= radius <= 3,
                        {}
                    }
                    y2 = y2 + 1;
                }
                let ghost pre = blocks@;
                blocks.push(BlockPlacement {
                    relative_pos: (0, height, 0),
                    block_type: BlockType::Leaves,
                });
                proof {
                    reveal(spec_tree_blocks);
                    reveal(spec_tree_draws);
                    lemma_prefix_keeps(pre, blocks@, w);
                    assert(blocks@ =~= spec_trunk(hh) + spec_pine_layers(
                        gseed,
                        d0 + 1,
                        hh,
                        hh - 1,
                    ).0.push(spec_leaf(0, hh, 0)));
                    assert(blocks@ == spec_tree_blocks(tt, gseed, d0));
                    assert(rng.drawn == d0 + spec_tree_draws(tt, gseed, d0));
                    assert(tree_blocks_ok_with(tt, blocks@, height as int));
                    assert(tree_canopy_ok(tt, blocks@, height as int));
                }
            },
        }
        blocks
    }
}

/// The house sizes.
#[derive(Clone, Copy, PartialEq, Eq, Debug, Structural)]
pub enum HouseType {
    Small,
    Medium,
}

/// A house to be generated.
pub struct HouseStructure {
    pub house_type: HouseType,
}

/// The size the draw stream rolls at draw `k`: small houses are the common
/// case.
pub open spec fn spec_house_size(seed: u64, k: u64) -> HouseType {
    if spec_stream_draw(seed, k, 10) < 7 {
        HouseType::Small
    } else {
        HouseType::Medium
    }
}

/// Footprint and scan height of a house, as (width, height levels, depth).
pub open spec fn spec_house_dims(t: HouseType) -> (int, int, int) {
    match t {
        HouseType::Small => (5int, 8int, 5int),
        HouseType::Medium => (7int, 10int, 7int),
    }
}

/// The block the house plan puts at cell (x, y, z) relative to its anchor:
/// a solid floor, walls with a door gap, glass windows, a stepped pyramidal
/// roof and a filled roof top; None where the plan leaves air.
pub open spec fn spec_house_cell(t: HouseType, x: int, y: int, z: int) -> Option<BlockType> {
    match t {
        HouseType::Small => {
            if x < 0 || x >= 5 || z < 0 || z >= 5 || y < 0 {
                None
            } else if y == 0 {
                Some(BlockType::Cobblestone)
            } else if 1 <= y <= 4 {
                if x == 0 || x == 4 || z == 0 || z == 4 {
                    if z == 0 && x == 2 && (y == 1 || y == 2) {
                        None
                    } else if y == 2 && ((x == 4 || x == 0) && z == 2 || (z == 4 && x == 2)) {
                        Some(BlockType::Glass)
                    } else {
                        Some(BlockType::Planks)
                    }
                } else {
                    None
                }
            } else if y == 5 || y == 6 {
                let inset = y - 5;
                if inset <= x < 5 - inset && inset <= z < 5 - inset && (x == inset || x == 4 - inset
                    || z == inset || z == 4 - inset) {
                    Some(BlockType::Cobblestone)
                } else {
                    None
                }
            } else if y == 7 && x == 2 && z == 2 {
                Some(BlockType::Cobblestone)
            } else {
                None
            }
        },
        HouseType::Medium => {
            if x < 0 || x >= 7 || z < 0 || z >= 7 || y < 0 {
                None
            } else if y == 0 {
                Some(BlockType::Cobblestone)
            } else if 1 <= y <= 5 {
                if x == 0 || x == 6 || z == 0 || z == 6 {
                    if z == 0 && (x == 3 || x == 2) && (y == 1 || y == 2) {
                        None
                    } else if (y == 2 && ((x == 6 || x == 0) && (z == 4 || z == 2) || (z == 6 && (x
                        == 2 || x == 4)))) || (y == 3 && z == 0 && (x == 1 || x == 5)) {
                        Some(BlockType::Glass)
                    } else if y == 1 || (x + z) % 3 == 0 {
                        Some(BlockType::Cobblestone)
                    } else {
                        Some(BlockType::Planks)
                    }
                } else {
                    None
                }
            } else if 6 <= y <= 8 {
                let inset = y - 6;
                if inset <= x < 7 - inset && inset <= z < 7 - inset && (x == inset || x == 6 - inset
                    || z == inset || z == 6 - inset) {
                    Some(BlockType::Cobblestone)
                } else {
                    None
                }
            } else if y == 9 && x == 3 && z == 3 {
                Some(BlockType::Cobblestone)
            } else {
                None
            }
        },
    }
}

/// Cell coordinates of flat index `i` in the house scan order: x, then y,
/// then z, innermost z.
pub open spec fn spec_house_coords(t: HouseType, i: int) -> (int, int, int) {
    let dims = spec_house_dims(t);
    (i / (dims.1 * dims.2), (i % (dims.1 * dims.2)) / dims.2, i % dims.2)
}

/// The house placements produced by scanning the first `n` cells.
pub open spec fn spec_house_prefix(t: HouseType, n: int) -> Seq<BlockPlacement>
    decreases n,
{
    if n <= 0 {
        Seq::empty()
    } else {
        let c = spec_house_coords(t, n - 1);
        spec_house_prefix(t, n - 1) + match spec_house_cell(t, c.0, c.1, c.2) {
            Some(b) => seq![
                BlockPlacement {
                    relative_pos: (c.0 as i32, c.1 as i32, c.2 as i32),
                    block_type: b,
                },
            ],
            None => Seq::empty(),
        }
    }
}

/// Every placement of one house, in scan order.
pub open spec fn spec_house_blocks(t: HouseType) -> Seq<BlockPlacement> {
    let dims = spec_house_dims(t);
    spec_house_prefix(t, dims.0 * dims.1 * dims.2)
}

/// The exec twin of `spec_house_cell`.
fn house_cell(t: HouseType, x: i32, y: i32, z: i32) -> (r: Option<BlockType>)
    requires
        -100 <= x <= 100,
        -100 <= y <= 100,
        -100 <= z <= 100,
    ensures
        r == spec_house_cell(t, x as int, y as int, z as int),
{
    match t {
        HouseType::Small => {
            if x < 0 || x >= 5 || z < 0 || z >= 5 || y < 0 {
                None
            } else if y == 0 {
                Some(BlockType::Cobblestone)
            } else if 1 <= y && y <= 4 {
                if x == 0 || x == 4 || z == 0 || z == 4 {
                    if z == 0 && x == 2 && (y == 1 || y == 2) {
                        None
                    } else if y == 2 && ((x == 4 || x == 0) && z == 2 || (z == 4 && x == 2)) {
                        Some(BlockType::Glass)
                    } else {
                        Some(BlockType::Planks)
                    }
                } else {
                    None
                }
            } else if y == 5 || y == 6 {
                let inset = y - 5;
                if inset <= x && x < 5 - inset && inset <= z && z < 5 - inset && (x == inset || x
                    == 4 - inset || z == inset || z == 4 - inset) {
                    Some(BlockType::Cobblestone)
                } else {
                    None
                }
            } else if y == 7 && x == 2 && z == 2 {
                Some(BlockType::Cobblestone)
            } else {
                None
            }
        },
        HouseType::Medium => {
            if x < 0 || x >= 7 || z < 0 || z >= 7 || y < 0 {
                None
            } else if y == 0 {
                Some(BlockType::Cobblestone)
            } else if 1 <= y && y <= 5 {
                if x == 0 || x == 6 || z == 0 || z == 6 {
                    if z == 0 && (x == 3 || x == 2) && (y == 1 || y == 2) {
                        None
                    } else if (y == 2 && ((x == 6 || x == 0) && (z == 4 || z == 2) || (z == 6 && (x
                        == 2 || x == 4)))) || (y == 3 && z == 0 && (x == 1 || x == 5)) {
                        Some(BlockType::Glass)
                    } else if y == 1 || (x + z) % 3 == 0 {
                        Some(BlockType::Cobblestone)
                    } else {
                        Some(BlockType::Planks)
                    }
                } else {
                    None
                }
            } else if 6 <= y && y <= 8 {
                let inset = y - 6;
                if inset <= x && x < 7 - inset && inset <= z && z < 7 - inset && (x == inset || x
                    == 6 - inset || z == inset || z == 6 - inset) {
                    Some(BlockType::Cobblestone)
                } else {
                    None
                }
            } else if y == 9 && x == 3 && z == 3 {
                Some(BlockType::Cobblestone)
            } else {
                None
            }
        },
    }
}

impl HouseStructure {
    pub fn new(house_type: HouseType) -> (r: HouseStructure)
        ensures
            r.house_type == house_type,
    {
        HouseStructure { house_type }
    }

    /// Roll a size from the stream's next draw; the size is a pure function
    /// of the stream seed and the draw position.
    pub fn random(rng: &mut SeededRng) -> (r: HouseStructure)
        requires
            old(rng).drawn < u64::MAX,
        ensures
            r.house_type == spec_house_size(old(rng).seed, old(rng).drawn),
            final(rng).seed == old(rng).seed,
            final(rng).drawn == old(rng).drawn + 1,
    {
        let house_type = if rng.below(10) < 7 {
            HouseType::Small
        } else {
            HouseType::Medium
        };
        HouseStructure::new(house_type)
    }

    /// The bounding box of this house size, as (width, height, depth).
    pub fn get_bounds(&self) -> (r: (i32, i32, i32))
        ensures
            r == match self.house_type {
                HouseType::Small => (5i32, 7i32, 5i32),
                HouseType::Medium => (7i32, 9i32, 7i32),
            },
    {
        match self.house_type {
            HouseType::Small => (5, 7, 5),
            HouseType::Medium => (7, 9, 7),
        }
    }

    /// Houses want moderately low, flat ground.
    pub fn can_place_at_height(&self, height: i32) -> (r: bool)
        ensures
            r == (8 <= height < 18),
    {
        8 <= height && height < 18
    }

    /// Generate the blocks of one house, exactly as the house plan lays them
    /// out, in scan order. The house shape is fixed per size, so the
    /// generator is not consulted.
    pub fn generate(&self, _rng: &mut SeededRng) -> (r: Vec<BlockPlacement>)
        ensures
            r@ == spec_house_blocks(self.house_type),
    {
        let t = self.house_type;
        let (w, hh, d): (i32, i32, i32) = match t {
            HouseType::Small => (5, 8, 5),
            HouseType::Medium => (7, 10, 7),
        };
        let total: i32 = w * hh * d;
        let mut out: Vec<BlockPlacement> = Vec::new();
        let mut i: i32 = 0;
        while i < total
            invariant
                0 <= i <= total,
                (w as int, hh as int, d as int) == spec_house_dims(t),
                total == w * hh * d,
                total <= 500,
                out@ == spec_house_prefix(t, i as int),
            decreases total - i,
        {
            let x = i / (hh * d);
            let y = (i % (hh * d)) / d;
            let z = i % d;
            proof {
                assert((w as int) * (hh as int) * (d as int) == total) by (nonlinear_arith)
                    requires
                        total == w * hh * d,
                {}
                assert(0 <= i as int / ((hh as int) * (d as int)) < w as int && 0 <= (i as int % ((
                hh as int) * (d as int))) / (d as int) < hh as int && 0 <= i as int % (d as int)
                    < d as int) by (nonlinear_arith)
                    requires
                        0 <= i < total,
                        total == (w as int) * (hh as int) * (d as int),
                        5 <= w <= 7,
                        8 <= hh <= 10,
                        5 <= d <= 7,
                {}
            }
            if let Some(b) = house_cell(t, x, y, z) {
                out.push(BlockPlacement { relative_pos: (x, y, z), block_type: b });
            }
            proof {
                assert(out@ =~= spec_house_prefix(t, i + 1));
            }
            i = i + 1;
        }
        out
    }
}

/// The kinds of structure the world can place.
#[derive(Clone, Copy, PartialEq, Eq, Debug, Structural)]
pub enum StructureType {
    Tree,
    House,
}

/// A structure anchored at an absolute world position, with the blocks it
/// wants to place.
#[derive(Clone, Debug)]
pub struct PlacedStructure {
    pub world_x: i32,
    pub world_y: i32,
    pub world_z: i32,
    pub structure_type: StructureType,
    pub blocks: Vec<BlockPlacement>,
}

/// The block the placement list puts at the given offset from the anchor,
/// taking the first matching placement.
pub open spec fn spec_find_block(
    blocks: Seq<BlockPlacement>,
    dx: int,
    dy: int,
    dz: int,
) -> Option<BlockType>
    decreases blocks.len(),
{
    if blocks.len() == 0 {
        None
    } else if blocks[0].relative_pos.0 == dx && blocks[0].relative_pos.1 == dy
        && blocks[0].relative_pos.2 == dz {
        Some(blocks[0].block_type)
    } else {
        spec_find_block(blocks.drop_first(), dx, dy, dz)
    }
}

impl PlacedStructure {
    /// The block this structure puts at an absolute world position, if any:
    /// the first placement whose anchor-relative offset lands there.
    pub fn has_block_at(&self, world_x: i32, world_y: i32, world_z: i32) -> (r: Option<BlockType>)
        ensures
            r == spec_find_block(
                self.blocks@,
                world_x - self.world_x,
                world_y - self.world_y,
                world_z - self.world_z,
            ),
    {
        let dx: i64 = world_x as i64 - self.world_x as i64;
        let dy: i64 = world_y as i64 - self.world_y as i64;
        let dz: i64 = world_z as i64 - self.world_z as i64;
        let mut i: usize = 0;
        proof {
            assert(self.blocks@.skip(0) =~= self.blocks@);
        }
        while i < self.blocks.len()
            invariant
                0 <= i <= self.blocks@.len(),
                dx == world_x - self.world_x,
                dy == world_y - self.world_y,
                dz == world_z - self.world_z,
                spec_find_block(self.blocks@, dx as int, dy as int, dz as int) == spec_find_block(
                    self.blocks@.skip(i as int),
                    dx as int,
                    dy as int,
                    dz as int,
                ),
            decreases self.blocks@.len() - i,
        {
            let b = &self.blocks[i];
            proof {
                assert(self.blocks@.skip(i as int)[0] == self.blocks@[i as int]);
                assert(self.blocks@.skip(i as int).drop_first() =~= self.blocks@.skip(i + 1));
            }
            if b.relative_pos.0 as i64 == dx && b.relative_pos.1 as i64 == dy && b.relative_pos.2
                as i64 == dz {
                return Some(b.block_type);
            }
            i = i + 1;
        }
        proof {
            assert(self.blocks@.skip(self.blocks@.len() as int) =~= Seq::<
                BlockPlacement,
            >::empty());
        }
        None
    }
}

/// The structure kind selected by a uniform roll in [0, 1_000_000): the tree
/// band comes first, sized by the biome's tree density (read as a
/// percentage), then the house band, sized by its house chance; a roll past
/// both bands falls back to a tree.
pub open spec fn spec_structure_type_for_roll(roll: u32, config: BiomeConfig) -> StructureType {
    if (roll as int) < config.tree_density_micro * 100 {
        StructureType::Tree
    } else if (roll as int) < (config.tree_density_micro + config.house_chance_micro) * 100 {
        StructureType::House
    } else {
        StructureType::Tree
    }
}

/// Decide the structure kind from a uniform roll and the biome's spawn rates.
pub fn structure_type_for_roll(roll: u32, config: &BiomeConfig) -> (r: StructureType)
    requires
        config.wf(),
    ensures
        r == spec_structure_type_for_roll(roll, *config),
{
    let tree_band: u64 = config.tree_density_micro as u64 * 100;
    let house_band: u64 = (config.tree_density_micro as u64 + config.house_chance_micro as u64)
        * 100;
    if (roll as u64) < tree_band {
        StructureType::Tree
    } else if (roll as u64) < house_band {
        StructureType::House
    } else {
        StructureType::Tree
    }
}

/// Decides where structures stand and generates their blocks.
pub struct StructureGenerator {
    /// The world seed that drives anchor randomness.
    pub seed: u32,
}

impl StructureGenerator {
    pub fn new(seed: u32) -> (r: StructureGenerator)
        ensures
            r.seed == seed,
    {
        StructureGenerator { seed }
    }

    /// Whether the structure-placement noise gates a candidate anchor in:
    /// only peaks of the field carry a structure.
    pub fn should_place_structure(&self, samples: &NoiseSamples, world_x: i64, world_z: i64) -> (r:
        bool)
        requires
            samples.wf(),
            samples.spec_covers(world_x as int, world_z as int),
        ensures
            r == (samples.spec_structure_at(world_x as int, world_z as int) > 400),
    {
        samples.structure_at(world_x, world_z) > 400
    }

    /// Roll the structure kind for an anchor: the roll is the first draw of
    /// the stream seeded purely by the anchor position and the world seed,
    /// so the kind is a pure function of anchor, seed and biome rates.
    pub fn get_structure_type(&self, world_x: i64, world_z: i64, config: &BiomeConfig) -> (r:
        StructureType)
        requires
            config.wf(),
        ensures
            r == spec_structure_type_for_roll(
                spec_stream_draw(spec_position_seed(world_x, world_z, self.seed), 0, 1_000_000),
                *config,
            ),
    {
        let seed = position_seed(world_x, world_z, self.seed);
        let mut rng = SeededRng::new(seed);
        let roll = rng.below(1_000_000);
        structure_type_for_roll(roll, config)
    }
}

/// The terrain height the generator sees at a world column: the chunk's
/// precomputed height map inside the chunk, a fresh height query outside it.
pub open spec fn spec_column_height(
    samples: &NoiseSamples,
    mgr: &BiomeManager,
    hm: &Vec<Vec<usize>>,
    chunk_x: int,
    chunk_z: int,
    wx: int,
    wz: int,
) -> int {
    let lx = wx - chunk_x * 16;
    let lz = wz - chunk_z * 16;
    if 0 <= lx < 16 && 0 <= lz < 16 {
        hm@[lx]@[lz] as int
    } else {
        crate::terrain::spec_height_at(samples, mgr, wx, wz)
    }
}

/// The structure is anchored at candidate (ax, az) of the chunk's anchor
/// grid: anchors sit every 8 blocks, starting 4 blocks outside the chunk.
pub open spec fn anchor_at(
    s: PlacedStructure,
    chunk_x: int,
    chunk_z: int,
    ax: int,
    az: int,
) -> bool {
    &&& 0 <= ax < 3
    &&& 0 <= az < 3
    &&& s.world_x == chunk_x * 16 - 4 + 8 * ax
    &&& s.world_z == chunk_z * 16 - 4 + 8 * az
}

/// The biome the generator sees at a world column: the chunk's precomputed
/// biome map inside the chunk, a fresh classification outside it.
pub open spec fn spec_column_biome(
    samples: &NoiseSamples,
    bm: &Vec<Vec<Biome>>,
    chunk_x: int,
    chunk_z: int,
    wx: int,
    wz: int,
) -> Biome {
    let lx = wx - chunk_x * 16;
    let lz = wz - chunk_z * 16;
    if 0 <= lx < 16 && 0 <= lz < 16 {
        bm@[lx]@[lz]
    } else {
        crate::biome::spec_biome_at(samples, wx, wz)
    }
}

/// The draw-stream seed of the anchor at world column (wx, wz): every roll
/// the anchor makes comes from this stream, so the anchor's structure is a
/// pure function of its position and the world seed.
pub open spec fn spec_anchor_seed(gen_seed: u32, wx: int, wz: int) -> u64 {
    spec_position_seed(wx as i64, wz as i64, gen_seed)
}

/// The structure kind the anchor at (wx, wz) rolls under `config`.
pub open spec fn spec_anchor_kind(
    gen_seed: u32,
    wx: int,
    wz: int,
    config: BiomeConfig,
) -> StructureType {
    spec_structure_type_for_roll(
        spec_stream_draw(spec_anchor_seed(gen_seed, wx, wz), 0, 1_000_000),
        config,
    )
}

/// The ground under a w-by-d footprint anchored at (wx, wz) is level: no
/// column differs from the anchor height `th` by more than one block.
pub open spec fn spec_flat_footprint(
    samples: &NoiseSamples,
    mgr: &BiomeManager,
    hm: &Vec<Vec<usize>>,
    chunk_x: int,
    chunk_z: int,
    wx: int,
    wz: int,
    th: int,
    w: int,
    d: int,
) -> bool {
    forall|a: int, b: int|
        0 <= a < w && 0 <= b < d ==> crate::terrain::abs_int(
            #[trigger] spec_column_height(samples, mgr, hm, chunk_x, chunk_z, wx + a, wz + b)
                - th,
        ) <= 1
}

/// Whether the candidate anchor at (wx, wz) emits a structure: its
/// placement sample passes the noise gate and the ground suits the kind the
/// anchor rolls - trees demand their height band, houses theirs plus level
/// ground under the rolled footprint. Every part is a pure function of the
/// world seed, the sample grid and the chunk's maps, which is what makes a
/// world reproducible from its seed.
pub open spec fn spec_candidate_emitted(
    gen_seed: u32,
    samples: &NoiseSamples,
    mgr: &BiomeManager,
    hm: &Vec<Vec<usize>>,
    bm: &Vec<Vec<Biome>>,
    chunk_x: int,
    chunk_z: int,
    wx: int,
    wz: int,
) -> bool {
    let th = spec_column_height(samples, mgr, hm, chunk_x, chunk_z, wx, wz);
    let biome = spec_column_biome(samples, bm, chunk_x, chunk_z, wx, wz);
    let seed = spec_anchor_seed(gen_seed, wx, wz);
    &&& samples.spec_structure_at(wx, wz) > 400
    &&& match spec_anchor_kind(gen_seed, wx, wz, mgr.spec_config(biome)) {
        StructureType::Tree => 5 <= th < 20,
        StructureType::House => {
            let t = spec_house_size(seed, 0);
            &&& 8 <= th < 18
            &&& spec_flat_footprint(
                samples,
                mgr,
                hm,
                chunk_x,
                chunk_z,
                wx,
                wz,
                th,
                spec_house_dims(t).0,
                spec_house_dims(t).2,
            )
        },
    }
}

/// Everything the placement pass guarantees of one emitted structure, all
/// of it pinned to the anchor's draw stream: it sits on a gated anchor of
/// the chunk's candidate grid, its base is the terrain height there, its
/// kind is the anchor's roll, and its blocks are the rolled species' tree
/// (exact trunk and canopy core, bounded randomized edges) or exactly the
/// rolled size's house plan on level ground.
pub open spec fn placed_structure_ok(
    s: PlacedStructure,
    gen_seed: u32,
    chunk_x: int,
    chunk_z: int,
    samples: &NoiseSamples,
    mgr: &BiomeManager,
    hm: &Vec<Vec<usize>>,
    bm: &Vec<Vec<Biome>>,
) -> bool {
    let wx = s.world_x as int;
    let wz = s.world_z as int;
    let th = spec_column_height(samples, mgr, hm, chunk_x, chunk_z, wx, wz);
    let biome = spec_column_biome(samples, bm, chunk_x, chunk_z, wx, wz);
    let seed = spec_anchor_seed(gen_seed, wx, wz);
    &&& on_anchor_grid(s, chunk_x, chunk_z)
    &&& samples.spec_structure_at(wx, wz) > 400
    &&& s.world_y == th
    &&& s.structure_type == spec_anchor_kind(gen_seed, wx, wz, mgr.spec_config(biome))
    &&& match s.structure_type {
        StructureType::Tree => {
            let species = spec_tree_species(biome, seed, 0);
            let h = spec_tree_height(species, seed, spec_species_draws(biome));
            &&& 5 <= s.world_y < 20
            &&& s.blocks@ == spec_tree_blocks(species, seed, spec_species_draws(biome))
            &&& tree_blocks_ok_with(species, s.blocks@, h)
            &&& tree_canopy_ok(species, s.blocks@, h)
        },
        StructureType::House => {
            let t = spec_house_size(seed, 0);
            &&& 8 <= s.world_y < 18
            &&& s.blocks@ == spec_house_blocks(t)
            &&& spec_flat_footprint(
                samples,
                mgr,
                hm,
                chunk_x,
                chunk_z,
                wx,
                wz,
                th,
                spec_house_dims(t).0,
                spec_house_dims(t).2,
            )
        },
    }
}

/// The structure sits on some candidate of the chunk's anchor grid.
pub open spec fn on_anchor_grid(s: PlacedStructure, chunk_x: int, chunk_z: int) -> bool {
    exists|ax: int, az: int| #[trigger] anchor_at(s, chunk_x, chunk_z, ax, az)
}

/// Some element of the list is anchored at grid candidate (ax, az).
pub open spec fn has_anchor(
    r: Seq<PlacedStructure>,
    chunk_x: int,
    chunk_z: int,
    ax: int,
    az: int,
) -> bool {
    exists|i: int| 0 <= i < r.len() && anchor_at(#[trigger] r[i], chunk_x, chunk_z, ax, az)
}

/// `a` is anchored strictly before `b` in the scan order.
pub open spec fn anchor_lt(a: PlacedStructure, b: PlacedStructure) -> bool {
    a.world_x < b.world_x || (a.world_x == b.world_x && a.world_z < b.world_z)
}

impl StructureGenerator {
    /// Scan the chunk's candidate anchor grid, which extends a margin of one
    /// structure radius beyond the chunk itself so structures straddling the
    /// boundary are found from every chunk they touch. An anchor carries a
    /// structure exactly when its candidate condition holds, everything the
    /// structure is made of is pinned to the anchor's draw stream, and the
    /// list comes out in scan order with at most one structure per anchor.
    pub fn generate_structures_for_chunk(
        &self,
        chunk_x: i32,
        chunk_z: i32,
        terrain_height_map: &Vec<Vec<usize>>,
        biome_map: &Vec<Vec<Biome>>,
        samples: &NoiseSamples,
        mgr: &BiomeManager,
    ) -> (r: Vec<PlacedStructure>)
        requires
            samples.wf(),
            mgr.wf(),
            -100_000_000 <= chunk_x <= 100_000_000,
            -100_000_000 <= chunk_z <= 100_000_000,
            samples.covers_box(chunk_x * 16 - 36, chunk_z * 16 - 36, 87, 87),
            terrain_height_map@.len() == 16,
            forall|i: int| 0 <= i < 16 ==> (#[trigger] terrain_height_map@[i])@.len() == 16,
            forall|i: int, j: int|
                0 <= i < 16 && 0 <= j < 16 ==> (#[trigger] terrain_height_map@[i]@[j]) <= 100_000,
            biome_map@.len() == 16,
            forall|i: int| 0 <= i < 16 ==> (#[trigger] biome_map@[i])@.len() == 16,
        ensures
            forall|i: int|
                0 <= i < r@.len() ==> placed_structure_ok(
                    #[trigger] r@[i],
                    self.seed,
                    chunk_x as int,
                    chunk_z as int,
                    samples,
                    mgr,
                    terrain_height_map,
                    biome_map,
                ),
            forall|i: int, j: int| 0 <= i < j < r@.len() ==> anchor_lt(r@[i], r@[j]),
            forall|ax: int, az: int|
                0 <= ax < 3 && 0 <= az < 3 ==> (#[trigger] has_anchor(
                    r@,
                    chunk_x as int,
                    chunk_z as int,
                    ax,
                    az,
                ) <==> spec_candidate_emitted(
                    self.seed,
                    samples,
                    mgr,
                    terrain_height_map,
                    biome_map,
                    chunk_x as int,
                    chunk_z as int,
                    chunk_x * 16 - 4 + 8 * ax,
                    chunk_z * 16 - 4 + 8 * az,
                )),
    {
        let mut structures: Vec<PlacedStructure> = Vec::new();
        let csx: i32 = chunk_x * 16;
        let csz: i32 = chunk_z * 16;
        let mut ax: i32 = 0;
        while ax < 3
            invariant
                0 <= ax <= 3,
                csx == chunk_x * 16,
                csz == chunk_z * 16,
                samples.wf(),
                mgr.wf(),
                -100_000_000 <= chunk_x <= 100_000_000,
                -100_000_000 <= chunk_z <= 100_000_000,
                samples.covers_box(chunk_x * 16 - 36, chunk_z * 16 - 36, 87, 87),
                terrain_height_map@.len() == 16,
                forall|i: int| 0 <= i < 16 ==> (#[trigger] terrain_height_map@[i])@.len() == 16,
                forall|i: int, j: int|
                    0 <= i < 16 && 0 <= j < 16 ==> (#[trigger] terrain_height_map@[i]@[j])
                        <= 100_000,
                biome_map@.len() == 16,
                forall|i: int| 0 <= i < 16 ==> (#[trigger] biome_map@[i])@.len() == 16,
                forall|i: int|
                    0 <= i < structures@.len() ==> placed_structure_ok(
                        #[trigger] structures@[i],
                        self.seed,
                        chunk_x as int,
                        chunk_z as int,
                        samples,
                        mgr,
                        terrain_height_map,
                        biome_map,
                    ),
                forall|i: int, j: int|
                    0 <= i < j < structures@.len() ==> anchor_lt(structures@[i], structures@[j]),
                forall|i: int|
                    0 <= i < structures@.len() ==> (#[trigger] structures@[i]).world_x < csx - 4
                        + 8 * ax,
                forall|ax2: int, az2: int|
                    0 <= ax2 < ax && 0 <= az2 < 3 ==> (#[trigger] has_anchor(
                        structures@,
                        chunk_x as int,
                        chunk_z as int,
                        ax2,
                        az2,
                    ) <==> spec_candidate_emitted(
                        self.seed,
                        samples,
                        mgr,
                        terrain_height_map,
                        biome_map,
                        chunk_x as int,
                        chunk_z as int,
                        chunk_x * 16 - 4 + 8 * ax2,
                        chunk_z * 16 - 4 + 8 * az2,
                    )),
            decreases 3 - ax,
        {
            let wx: i32 = csx - 4 + 8 * ax;
            let mut az: i32 = 0;
            while az < 3
                invariant
                    0 <= az <= 3,
                    0 <= ax < 3,
                    wx == csx - 4 + 8 * ax,
                    csx == chunk_x * 16,
                    csz == chunk_z * 16,
                    samples.wf(),
                    mgr.wf(),
                    -100_000_000 <= chunk_x <= 100_000_000,
                    -100_000_000 <= chunk_z <= 100_000_000,
                    samples.covers_box(chunk_x * 16 - 36, chunk_z * 16 - 36, 87, 87),
                    terrain_height_map@.len() == 16,
                    forall|i: int| 0 <= i < 16 ==> (#[trigger] terrain_height_map@[i])@.len()
                        == 16,
                    forall|i: int, j: int|
                        0 <= i < 16 && 0 <= j < 16 ==> (#[trigger] terrain_height_map@[i]@[j])
                            <= 100_000,
                    biome_map@.len() == 16,
                    forall|i: int| 0 <= i < 16 ==> (#[trigger] biome_map@[i])@.len() == 16,
                    forall|i: int|
                        0 <= i < structures@.len() ==> placed_structure_ok(
                            #[trigger] structures@[i],
                            self.seed,
                            chunk_x as int,
                            chunk_z as int,
                            samples,
                            mgr,
                            terrain_height_map,
                            biome_map,
                        ),
                    forall|i: int, j: int|
                        0 <= i < j < structures@.len() ==> anchor_lt(
                            structures@[i],
                            structures@[j],
                        ),
                    forall|i: int|
                        0 <= i < structures@.len() ==> ((#[trigger] structures@[i]).world_x < wx
                            || (structures@[i].world_x == wx && structures@[i].world_z < csz - 4
                            + 8 * az)),
                    forall|ax2: int, az2: int|
                        (0 <= ax2 < ax && 0 <= az2 < 3) || (ax2 == ax && 0 <= az2 < az) ==> (
                        #[trigger] has_anchor(
                            structures@,
                            chunk_x as int,
                            chunk_z as int,
                            ax2,
                            az2,
                        ) <==> spec_candidate_emitted(
                            self.seed,
                            samples,
                            mgr,
                            terrain_height_map,
                            biome_map,
                            chunk_x as int,
                            chunk_z as int,
                            chunk_x * 16 - 4 + 8 * ax2,
                            chunk_z * 16 - 4 + 8 * az2,
                        )),
                decreases 3 - az,
            {
                let wz: i32 = csz - 4 + 8 * az;
                let ghost before = structures@;
                self.place_candidate(
                    chunk_x,
                    chunk_z,
                    wx,
                    wz,
                    ax,
                    az,
                    terrain_height_map,
                    biome_map,
                    samples,
                    mgr,
                    &mut structures,
                );
                proof {
                    let cxi = chunk_x as int;
                    let czi = chunk_z as int;
                    let emitted = spec_candidate_emitted(
                        self.seed,
                        samples,
                        mgr,
                        terrain_height_map,
                        biome_map,
                        cxi,
                        czi,
                        wx as int,
                        wz as int,
                    );
                    assert forall|ax2: int, az2: int|
                        (0 <= ax2 < ax && 0 <= az2 < 3) || (ax2 == ax && 0 <= az2 < az + 1)
                            implies (#[trigger] has_anchor(structures@, cxi, czi, ax2, az2)
                        <==> spec_candidate_emitted(
                        self.seed,
                        samples,
                        mgr,
                        terrain_height_map,
                        biome_map,
                        cxi,
                        czi,
                        chunk_x * 16 - 4 + 8 * ax2,
                        chunk_z * 16 - 4 + 8 * az2,
                    )) by {
                        if ax2 == ax && az2 == az {
                            if emitted {
                                let s = structures@.last();
                                assert(anchor_at(s, cxi, czi, ax as int, az as int));
                                assert(has_anchor(structures@, cxi, czi, ax2, az2));
                            } else {
                                if has_anchor(structures@, cxi, czi, ax2, az2) {
                                    let i = choose|i: int|
                                        0 <= i < structures@.len() && anchor_at(
                                            #[trigger] structures@[i],
                                            cxi,
                                            czi,
                                            ax2,
                                            az2,
                                        );
                                    assert(structures@[i] == before[i]);
                                    assert(before[i].world_x < wx || (before[i].world_x == wx
                                        && before[i].world_z < wz));
                                    assert(false);
                                }
                            }
                        } else {
                            if has_anchor(before, cxi, czi, ax2, az2) {
                                let i = choose|i: int|
                                    0 <= i < before.len() && anchor_at(
                                        #[trigger] before[i],
                                        cxi,
                                        czi,
                                        ax2,
                                        az2,
                                    );
                                assert(structures@[i] == before[i]);
                                assert(has_anchor(structures@, cxi, czi, ax2, az2));
                            }
                            if has_anchor(structures@, cxi, czi, ax2, az2) {
                                let i = choose|i: int|
                                    0 <= i < structures@.len() && anchor_at(
                                        #[trigger] structures@[i],
                                        cxi,
                                        czi,
                                        ax2,
                                        az2,
                                    );
                                if i < before.len() {
                                    assert(anchor_at(before[i], cxi, czi, ax2, az2));
                                    assert(has_anchor(before, cxi, czi, ax2, az2));
                                } else {
                                    assert(structures@[i].world_x == wx && structures@[i].world_z
                                        == wz);
                                    assert(false);
                                }
                            }
                        }
                    }
                }
                az = az + 1;
            }
            ax = ax + 1;
        }
        structures
    }

    /// Handle one candidate anchor: gate it on the placement noise, roll the
    /// kind and shape from the anchor's draw stream, check the rolled kind's
    /// height band and (for houses) flat ground, and append the structure
    /// exactly when everything passes.
    fn place_candidate(
        &self,
        chunk_x: i32,
        chunk_z: i32,
        wx: i32,
        wz: i32,
        ax: i32,
        az: i32,
        terrain_height_map: &Vec<Vec<usize>>,
        biome_map: &Vec<Vec<Biome>>,
        samples: &NoiseSamples,
        mgr: &BiomeManager,
        structures: &mut Vec<PlacedStructure>,
    )
        requires
            samples.wf(),
            mgr.wf(),
            -100_000_000 <= chunk_x <= 100_000_000,
            -100_000_000 <= chunk_z <= 100_000_000,
            0 <= ax < 3,
            0 <= az < 3,
            wx == chunk_x * 16 - 4 + 8 * ax,
            wz == chunk_z * 16 - 4 + 8 * az,
            samples.covers_box(chunk_x * 16 - 36, chunk_z * 16 - 36, 87, 87),
            terrain_height_map@.len() == 16,
            forall|i: int| 0 <= i < 16 ==> (#[trigger] terrain_height_map@[i])@.len() == 16,
            forall|i: int, j: int|
                0 <= i < 16 && 0 <= j < 16 ==> (#[trigger] terrain_height_map@[i]@[j]) <= 100_000,
            biome_map@.len() == 16,
            forall|i: int| 0 <= i < 16 ==> (#[trigger] biome_map@[i])@.len() == 16,
        ensures
            final(structures)@.len() == old(structures)@.len() + (if spec_candidate_emitted(
                self.seed,
                samples,
                mgr,
                terrain_height_map,
                biome_map,
                chunk_x as int,
                chunk_z as int,
                wx as int,
                wz as int,
            ) {
                1int
            } else {
                0
            }),
            forall|i: int|
                0 <= i < old(structures)@.len() ==> final(structures)@[i] == old(structures)@[i],
            spec_candidate_emitted(
                self.seed,
                samples,
                mgr,
                terrain_height_map,
                biome_map,
                chunk_x as int,
                chunk_z as int,
                wx as int,
                wz as int,
            ) ==> {
                let s = final(structures)@.last();
                &&& s.world_x == wx
                &&& s.world_z == wz
                &&& placed_structure_ok(
                    s,
                    self.seed,
                    chunk_x as int,
                    chunk_z as int,
                    samples,
                    mgr,
                    terrain_height_map,
                    biome_map,
                )
            },
    {
        let ghost cxi = chunk_x as int;
        let ghost czi = chunk_z as int;
        if !self.should_place_structure(samples, wx as i64, wz as i64) {
            return ;
        }
        let local_x: i32 = wx - chunk_x * 16;
        let local_z: i32 = wz - chunk_z * 16;
        let inside = 0 <= local_x && local_x < 16 && 0 <= local_z && local_z < 16;
        let (terrain_height, biome): (usize, Biome) = if inside {
            (
                terrain_height_map[local_x as usize][local_z as usize],
                biome_map[local_x as usize][local_z as usize],
            )
        } else {
            (
                height_at(samples, mgr, wx as i64, wz as i64),
                biome_at(samples, wx as i64, wz as i64),
            )
        };
        proof {
            assert(terrain_height == spec_column_height(
                samples,
                mgr,
                terrain_height_map,
                cxi,
                czi,
                wx as int,
                wz as int,
            ));
            assert(biome == spec_column_biome(
                samples,
                biome_map,
                cxi,
                czi,
                wx as int,
                wz as int,
            ));
        }
        let config = mgr.get_config(biome);
        let seed = position_seed(wx as i64, wz as i64, self.seed);
        let ghost gseed = spec_anchor_seed(self.seed, wx as int, wz as int);
        proof {
            assert(seed == gseed);
        }
        let mut rng = SeededRng::new(seed);
        let structure_type = self.get_structure_type(wx as i64, wz as i64, config);
        proof {
            assert(structure_type == spec_anchor_kind(
                self.seed,
                wx as int,
                wz as int,
                mgr.spec_config(biome),
            ));
        }
        match structure_type {
            StructureType::Tree => {
                let tree = TreeStructure::random_for_biome(biome, &mut rng);
                if !tree.can_place_at_height(terrain_height as i32) {
                    return ;
                }
                let blocks = tree.generate(&mut rng);
                let s = PlacedStructure {
                    world_x: wx,
                    world_y: terrain_height as i32,
                    world_z: wz,
                    structure_type: StructureType::Tree,
                    blocks,
                };
                proof {
                    assert(anchor_at(s, cxi, czi, ax as int, az as int));
                }
                structures.push(s);
            },
            StructureType::House => {
                let house = HouseStructure::random(&mut rng);
                if !house.can_place_at_height(terrain_height as i32) {
                    return ;
                }
                let (width, _bh, depth) = house.get_bounds();
                let mut flat = true;
                let mut a: i32 = 0;
                while a < width
                    invariant
                        0 <= a <= width,
                        width == spec_house_dims(house.house_type).0,
                        depth == spec_house_dims(house.house_type).2,
                        samples.wf(),
                        mgr.wf(),
                        -100_000_000 <= chunk_x <= 100_000_000,
                        -100_000_000 <= chunk_z <= 100_000_000,
                        cxi == chunk_x as int,
                        czi == chunk_z as int,
                        0 <= ax < 3,
                        0 <= az < 3,
                        wx == chunk_x * 16 - 4 + 8 * ax,
                        wz == chunk_z * 16 - 4 + 8 * az,
                        samples.covers_box(chunk_x * 16 - 36, chunk_z * 16 - 36, 87, 87),
                        terrain_height_map@.len() == 16,
                        forall|i: int| 0 <= i < 16 ==> (#[trigger] terrain_height_map@[i])@.len()
                            == 16,
                        forall|i: int, j: int|
                            0 <= i < 16 && 0 <= j < 16 ==> (
                            #[trigger] terrain_height_map@[i]@[j]) <= 100_000,
                        terrain_height <= 100_000,
                        flat <==> (forall|p: int, q: int|
                            0 <= p < a && 0 <= q < depth ==> crate::terrain::abs_int(
                                #[trigger] spec_column_height(
                                    samples,
                                    mgr,
                                    terrain_height_map,
                                    cxi,
                                    czi,
                                    wx + p,
                                    wz + q,
                                ) - terrain_height,
                            ) <= 1),
                    decreases width - a,
                {
                    let mut b: i32 = 0;
                    while b < depth
                        invariant
                            0 <= b <= depth,
                            0 <= a < width,
                            width == spec_house_dims(house.house_type).0,
                            depth == spec_house_dims(house.house_type).2,
                            samples.wf(),
                            mgr.wf(),
                            -100_000_000 <= chunk_x <= 100_000_000,
                            -100_000_000 <= chunk_z <= 100_000_000,
                            cxi == chunk_x as int,
                            czi == chunk_z as int,
                            0 <= ax < 3,
                            0 <= az < 3,
                            wx == chunk_x * 16 - 4 + 8 * ax,
                            wz == chunk_z * 16 - 4 + 8 * az,
                            samples.covers_box(chunk_x * 16 - 36, chunk_z * 16 - 36, 87, 87),
                            terrain_height_map@.len() == 16,
                            forall|i: int|
                                0 <= i < 16 ==> (#[trigger] terrain_height_map@[i])@.len() == 16,
                            forall|i: int, j: int|
                                0 <= i < 16 && 0 <= j < 16 ==> (
                                #[trigger] terrain_height_map@[i]@[j]) <= 100_000,
                            terrain_height <= 100_000,
                            flat <==> ((forall|p: int, q: int|
                                0 <= p < a && 0 <= q < depth ==> crate::terrain::abs_int(
                                    #[trigger] spec_column_height(
                                        samples,
                                        mgr,
                                        terrain_height_map,
                                        cxi,
                                        czi,
                                        wx + p,
                                        wz + q,
                                    ) - terrain_height,
                                ) <= 1) && (forall|q: int|
                                0 <= q < b ==> crate::terrain::abs_int(
                                    #[trigger] spec_column_height(
                                        samples,
                                        mgr,
                                        terrain_height_map,
                                        cxi,
                                        czi,
                                        wx + a,
                                        wz + q,
                                    ) - terrain_height,
                                ) <= 1)),
                        decreases depth - b,
                    {
                        let cx: i32 = wx + a;
                        let cz: i32 = wz + b;
                        let clx: i32 = cx - chunk_x * 16;
                        let clz: i32 = cz - chunk_z * 16;
                        let c_inside = 0 <= clx && clx < 16 && 0 <= clz && clz < 16;
                        let check_height: usize = if c_inside {
                            terrain_height_map[clx as usize][clz as usize]
                        } else {
                            height_at(samples, mgr, cx as i64, cz as i64)
                        };
                        proof {
                            assert(check_height == spec_column_height(
                                samples,
                                mgr,
                                terrain_height_map,
                                cxi,
                                czi,
                                wx + a,
                                wz + b,
                            ));
                        }
                        let diff: i64 = check_height as i64 - terrain_height as i64;
                        if diff > 1 || diff < -1 {
                            flat = false;
                        }
                        b = b + 1;
                    }
                    a = a + 1;
                }
                if !flat {
                    return ;
                }
                let blocks = house.generate(&mut rng);
                let s = PlacedStructure {
                    world_x: wx,
                    world_y: terrain_height as i32,
                    world_z: wz,
                    structure_type: StructureType::House,
                    blocks,
                };
                proof {
                    assert(anchor_at(s, cxi, czi, ax as int, az as int));
                }
                structures.push(s);
            },
        }
    }
}

/// The ground under a w-by-d footprint at (wx, wz), read from the terrain
/// synthesizer itself, is level within one block of `th`.
pub open spec fn spec_flat_ground(
    samples: &NoiseSamples,
    mgr: &BiomeManager,
    wx: int,
    wz: int,
    th: int,
    w: int,
    d: int,
) -> bool {
    forall|a: int, b: int|
        0 <= a < w && 0 <= b < d ==> crate::terrain::abs_int(
            #[trigger] crate::terrain::spec_height_at(samples, mgr, wx + a, wz + b) - th,
        ) <= 1
}

/// Everything a placed structure is made of, stated over the terrain
/// synthesizer alone: no chunk's precomputed maps appear, so the statement
/// is the same from whichever chunk's pass the anchor was reached.
pub open spec fn placed_structure_generated(
    s: PlacedStructure,
    gen_seed: u32,
    samples: &NoiseSamples,
    mgr: &BiomeManager,
) -> bool {
    let wx = s.world_x as int;
    let wz = s.world_z as int;
    let th = crate::terrain::spec_height_at(samples, mgr, wx, wz);
    let biome = crate::biome::spec_biome_at(samples, wx, wz);
    let seed = spec_anchor_seed(gen_seed, wx, wz);
    &&& samples.spec_structure_at(wx, wz) > 400
    &&& s.world_y == th
    &&& s.structure_type == spec_anchor_kind(gen_seed, wx, wz, mgr.spec_config(biome))
    &&& match s.structure_type {
        StructureType::Tree => {
            let species = spec_tree_species(biome, seed, 0);
            let h = spec_tree_height(species, seed, spec_species_draws(biome));
            &&& 5 <= s.world_y < 20
            &&& s.blocks@ == spec_tree_blocks(species, seed, spec_species_draws(biome))
            &&& tree_blocks_ok_with(species, s.blocks@, h)
            &&& tree_canopy_ok(species, s.blocks@, h)
        },
        StructureType::House => {
            let t = spec_house_size(seed, 0);
            &&& 8 <= s.world_y < 18
            &&& s.blocks@ == spec_house_blocks(t)
            &&& spec_flat_ground(
                samples,
                mgr,
                wx,
                wz,
                th,
                spec_house_dims(t).0,
                spec_house_dims(t).2,
            )
        },
    }
}

/// The candidate condition of the anchor at (wx, wz), stated over the
/// terrain synthesizer alone: the same condition from whichever chunk's
/// pass the anchor is reached.
pub open spec fn spec_anchor_emitted(
    gen_seed: u32,
    samples: &NoiseSamples,
    mgr: &BiomeManager,
    wx: int,
    wz: int,
) -> bool {
    let th = crate::terrain::spec_height_at(samples, mgr, wx, wz);
    let biome = crate::biome::spec_biome_at(samples, wx, wz);
    let seed = spec_anchor_seed(gen_seed, wx, wz);
    &&& samples.spec_structure_at(wx, wz) > 400
    &&& match spec_anchor_kind(gen_seed, wx, wz, mgr.spec_config(biome)) {
        StructureType::Tree => 5 <= th < 20,
        StructureType::House => {
            let t = spec_house_size(seed, 0);
            &&& 8 <= th < 18
            &&& spec_flat_ground(samples, mgr, wx, wz, th, spec_house_dims(t).0, spec_house_dims(t).2)
        },
    }
}

/// A chunk's precomputed height and biome maps record the terrain
/// synthesizer's own values, which is exactly how a generation pass fills
/// them.
pub open spec fn maps_consistent(
    samples: &NoiseSamples,
    mgr: &BiomeManager,
    hm: &Vec<Vec<usize>>,
    bm: &Vec<Vec<Biome>>,
    chunk_x: int,
    chunk_z: int,
) -> bool {
    &&& hm@.len() == 16
    &&& bm@.len() == 16
    &&& forall|i: int| 0 <= i < 16 ==> (#[trigger] hm@[i])@.len() == 16
    &&& forall|i: int| 0 <= i < 16 ==> (#[trigger] bm@[i])@.len() == 16
    &&& forall|i: int, j: int|
        0 <= i < 16 && 0 <= j < 16 ==> (#[trigger] hm@[i]@[j]) as int
            == crate::terrain::spec_height_at(samples, mgr, chunk_x * 16 + i, chunk_z * 16 + j)
    &&& forall|i: int, j: int|
        0 <= i < 16 && 0 <= j < 16 ==> (#[trigger] bm@[i]@[j]) == crate::biome::spec_biome_at(
            samples,
            chunk_x * 16 + i,
            chunk_z * 16 + j,
        )
}

/// Under consistent maps, a generation pass's column reads are the terrain
/// synthesizer's own values, wherever the column lies.
pub proof fn lemma_column_of_consistent_maps(
    samples: &NoiseSamples,
    mgr: &BiomeManager,
    hm: &Vec<Vec<usize>>,
    bm: &Vec<Vec<Biome>>,
    chunk_x: int,
    chunk_z: int,
    wx: int,
    wz: int,
)
    requires
        maps_consistent(samples, mgr, hm, bm, chunk_x, chunk_z),
    ensures
        spec_column_height(samples, mgr, hm, chunk_x, chunk_z, wx, wz)
            == crate::terrain::spec_height_at(samples, mgr, wx, wz),
        spec_column_biome(samples, bm, chunk_x, chunk_z, wx, wz)
            == crate::biome::spec_biome_at(samples, wx, wz),
{
    let lx = wx - chunk_x * 16;
    let lz = wz - chunk_z * 16;
    if 0 <= lx < 16 && 0 <= lz < 16 {
        assert(hm@[lx]@[lz] as int == crate::terrain::spec_height_at(
            samples,
            mgr,
            chunk_x * 16 + lx,
            chunk_z * 16 + lz,
        ));
        assert(bm@[lx]@[lz] == crate::biome::spec_biome_at(
            samples,
            chunk_x * 16 + lx,
            chunk_z * 16 + lz,
        ));
        assert(chunk_x * 16 + lx == wx && chunk_z * 16 + lz == wz);
    }
}

/// Under consistent maps, the chunk-relative placement statements collapse
/// to the map-free ones: what an anchor emits does not depend on which
/// chunk's pass reached it.
#[verifier::rlimit(100)]
pub proof fn lemma_placed_structure_generated(
    s: PlacedStructure,
    gen_seed: u32,
    samples: &NoiseSamples,
    mgr: &BiomeManager,
    hm: &Vec<Vec<usize>>,
    bm: &Vec<Vec<Biome>>,
    chunk_x: int,
    chunk_z: int,
)
    requires
        maps_consistent(samples, mgr, hm, bm, chunk_x, chunk_z),
        placed_structure_ok(s, gen_seed, chunk_x, chunk_z, samples, mgr, hm, bm),
    ensures
        placed_structure_generated(s, gen_seed, samples, mgr),
{
    let wx = s.world_x as int;
    let wz = s.world_z as int;
    lemma_column_of_consistent_maps(samples, mgr, hm, bm, chunk_x, chunk_z, wx, wz);
    if s.structure_type == StructureType::Tree {
        let seed = spec_anchor_seed(gen_seed, wx, wz);
        let biome_m = spec_column_biome(samples, bm, chunk_x, chunk_z, wx, wz);
        let biome_g = crate::biome::spec_biome_at(samples, wx, wz);
        assert(biome_m == biome_g);
        assert(spec_tree_blocks(
            spec_tree_species(biome_g, seed, 0),
            seed,
            spec_species_draws(biome_g),
        ) == spec_tree_blocks(
            spec_tree_species(biome_m, seed, 0),
            seed,
            spec_species_draws(biome_m),
        ));
    }
    if s.structure_type == StructureType::House {
        let seed = spec_anchor_seed(gen_seed, wx, wz);
        let t = spec_house_size(seed, 0);
        let th = crate::terrain::spec_height_at(samples, mgr, wx, wz);
        assert forall|a: int, b: int|
            0 <= a < spec_house_dims(t).0 && 0 <= b < spec_house_dims(t).2
                implies crate::terrain::abs_int(
            #[trigger] crate::terrain::spec_height_at(samples, mgr, wx + a, wz + b) - th,
        ) <= 1 by {
            lemma_column_of_consistent_maps(
                samples,
                mgr,
                hm,
                bm,
                chunk_x,
                chunk_z,
                wx + a,
                wz + b,
            );
        }
    }
}

/// Under consistent maps, the chunk-relative candidate condition collapses
/// to the map-free one.
pub proof fn lemma_candidate_emitted_maps_free(
    gen_seed: u32,
    samples: &NoiseSamples,
    mgr: &BiomeManager,
    hm: &Vec<Vec<usize>>,
    bm: &Vec<Vec<Biome>>,
    chunk_x: int,
    chunk_z: int,
    wx: int,
    wz: int,
)
    requires
        maps_consistent(samples, mgr, hm, bm, chunk_x, chunk_z),
    ensures
        spec_candidate_emitted(gen_seed, samples, mgr, hm, bm, chunk_x, chunk_z, wx, wz)
            == spec_anchor_emitted(gen_seed, samples, mgr, wx, wz),
{
    lemma_column_of_consistent_maps(samples, mgr, hm, bm, chunk_x, chunk_z, wx, wz);
    let th = crate::terrain::spec_height_at(samples, mgr, wx, wz);
    let seed = spec_anchor_seed(gen_seed, wx, wz);
    let t = spec_house_size(seed, 0);
    let w = spec_house_dims(t).0;
    let d = spec_house_dims(t).2;
    if spec_flat_footprint(samples, mgr, hm, chunk_x, chunk_z, wx, wz, th, w, d) {
        assert forall|a: int, b: int|
            0 <= a < w && 0 <= b < d implies crate::terrain::abs_int(
            #[trigger] crate::terrain::spec_height_at(samples, mgr, wx + a, wz + b) - th,
        ) <= 1 by {
            lemma_column_of_consistent_maps(
                samples,
                mgr,
                hm,
                bm,
                chunk_x,
                chunk_z,
                wx + a,
                wz + b,
            );
        }
    }
    if spec_flat_ground(samples, mgr, wx, wz, th, w, d) {
        assert forall|a: int, b: int|
            0 <= a < w && 0 <= b < d implies crate::terrain::abs_int(
            #[trigger] spec_column_height(samples, mgr, hm, chunk_x, chunk_z, wx + a, wz + b)
                - th,
        ) <= 1 by {
            lemma_column_of_consistent_maps(
                samples,
                mgr,
                hm,
                bm,
                chunk_x,
                chunk_z,
                wx + a,
                wz + b,
            );
        }
    }
}

/// Structure placement never depends on which chunk's pass reaches an
/// anchor. Under consistent maps, the candidate condition of a shared
/// anchor agrees between any two passes, so either both emit a structure
/// there or neither does; and two emitted structures at the same anchor
/// carry the same kind, the same base height, block-for-block the same
/// house plan, and the same trunk of the same species - the basis of
/// seamless clipping across chunk boundaries.
pub proof fn lemma_anchor_agreement(
    gen_seed: u32,
    samples: &NoiseSamples,
    mgr: &BiomeManager,
    hm1: &Vec<Vec<usize>>,
    bm1: &Vec<Vec<Biome>>,
    cx1: int,
    cz1: int,
    hm2: &Vec<Vec<usize>>,
    bm2: &Vec<Vec<Biome>>,
    cx2: int,
    cz2: int,
    wx: int,
    wz: int,
    s1: PlacedStructure,
    s2: PlacedStructure,
)
    requires
        maps_consistent(samples, mgr, hm1, bm1, cx1, cz1),
        maps_consistent(samples, mgr, hm2, bm2, cx2, cz2),
    ensures
        spec_candidate_emitted(gen_seed, samples, mgr, hm1, bm1, cx1, cz1, wx, wz)
            == spec_candidate_emitted(gen_seed, samples, mgr, hm2, bm2, cx2, cz2, wx, wz),
        (placed_structure_ok(s1, gen_seed, cx1, cz1, samples, mgr, hm1, bm1)
            && placed_structure_ok(s2, gen_seed, cx2, cz2, samples, mgr, hm2, bm2) && s1.world_x
            == s2.world_x && s1.world_z == s2.world_z) ==> {
            &&& s1.structure_type == s2.structure_type
            &&& s1.world_y == s2.world_y
            &&& s1.blocks@ == s2.blocks@
        },
{
    lemma_candidate_emitted_maps_free(gen_seed, samples, mgr, hm1, bm1, cx1, cz1, wx, wz);
    lemma_candidate_emitted_maps_free(gen_seed, samples, mgr, hm2, bm2, cx2, cz2, wx, wz);
    if placed_structure_ok(s1, gen_seed, cx1, cz1, samples, mgr, hm1, bm1)
        && placed_structure_ok(s2, gen_seed, cx2, cz2, samples, mgr, hm2, bm2) && s1.world_x
        == s2.world_x && s1.world_z == s2.world_z {
        lemma_placed_structure_generated(s1, gen_seed, samples, mgr, hm1, bm1, cx1, cz1);
        lemma_placed_structure_generated(s2, gen_seed, samples, mgr, hm2, bm2, cx2, cz2);
    }
}

/// The spec's seamless-clipping basis, end to end: when two generation
/// passes (same or different chunks) both scan a world anchor, then under
/// consistent maps either both their outputs carry a structure at that
/// anchor or neither does, and any two structures they carry there are
/// identical - same kind, same base height, block-for-block the same list.
pub proof fn lemma_shared_anchor_across_passes(
    gen_seed: u32,
    samples: &NoiseSamples,
    mgr: &BiomeManager,
    hm1: &Vec<Vec<usize>>,
    bm1: &Vec<Vec<Biome>>,
    cx1: int,
    cz1: int,
    r1: Seq<PlacedStructure>,
    hm2: &Vec<Vec<usize>>,
    bm2: &Vec<Vec<Biome>>,
    cx2: int,
    cz2: int,
    r2: Seq<PlacedStructure>,
    ax1: int,
    az1: int,
    ax2: int,
    az2: int,
)
    requires
        maps_consistent(samples, mgr, hm1, bm1, cx1, cz1),
        maps_consistent(samples, mgr, hm2, bm2, cx2, cz2),
        forall|i: int|
            0 <= i < r1.len() ==> placed_structure_ok(
                #[trigger] r1[i],
                gen_seed,
                cx1,
                cz1,
                samples,
                mgr,
                hm1,
                bm1,
            ),
        forall|i: int|
            0 <= i < r2.len() ==> placed_structure_ok(
                #[trigger] r2[i],
                gen_seed,
                cx2,
                cz2,
                samples,
                mgr,
                hm2,
                bm2,
            ),
        has_anchor(r1, cx1, cz1, ax1, az1) <==> spec_candidate_emitted(
            gen_seed,
            samples,
            mgr,
            hm1,
            bm1,
            cx1,
            cz1,
            cx1 * 16 - 4 + 8 * ax1,
            cz1 * 16 - 4 + 8 * az1,
        ),
        has_anchor(r2, cx2, cz2, ax2, az2) <==> spec_candidate_emitted(
            gen_seed,
            samples,
            mgr,
            hm2,
            bm2,
            cx2,
            cz2,
            cx2 * 16 - 4 + 8 * ax2,
            cz2 * 16 - 4 + 8 * az2,
        ),
        cx1 * 16 - 4 + 8 * ax1 == cx2 * 16 - 4 + 8 * ax2,
        cz1 * 16 - 4 + 8 * az1 == cz2 * 16 - 4 + 8 * az2,
    ensures
        has_anchor(r1, cx1, cz1, ax1, az1) <==> has_anchor(r2, cx2, cz2, ax2, az2),
        forall|i: int, j: int|
            0 <= i < r1.len() && 0 <= j < r2.len() && anchor_at(#[trigger] r1[i], cx1, cz1, ax1, az1)
                && anchor_at(#[trigger] r2[j], cx2, cz2, ax2, az2) ==> {
                &&& r1[i].structure_type == r2[j].structure_type
                &&& r1[i].world_y == r2[j].world_y
                &&& r1[i].blocks@ == r2[j].blocks@
            },
{
    let wx = cx1 * 16 - 4 + 8 * ax1;
    let wz = cz1 * 16 - 4 + 8 * az1;
    lemma_candidate_emitted_maps_free(gen_seed, samples, mgr, hm1, bm1, cx1, cz1, wx, wz);
    lemma_candidate_emitted_maps_free(gen_seed, samples, mgr, hm2, bm2, cx2, cz2, wx, wz);
    assert forall|i: int, j: int|
        0 <= i < r1.len() && 0 <= j < r2.len() && anchor_at(#[trigger] r1[i], cx1, cz1, ax1, az1)
            && anchor_at(#[trigger] r2[j], cx2, cz2, ax2, az2) implies {
        &&& r1[i].structure_type == r2[j].structure_type
        &&& r1[i].world_y == r2[j].world_y
        &&& r1[i].blocks@ == r2[j].blocks@
    } by {
        assert(r1[i].world_x == wx && r1[i].world_z == wz);
        assert(r2[j].world_x == wx && r2[j].world_z == wz);
        lemma_anchor_agreement(
            gen_seed,
            samples,
            mgr,
            hm1,
            bm1,
            cx1,
            cz1,
            hm2,
            bm2,
            cx2,
            cz2,
            wx,
            wz,
            r1[i],
            r2[j],
        );
    }
}

} // verus!
