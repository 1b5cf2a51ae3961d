use vstd::prelude::*;
use crate::biome::{Biome, BiomeConfig, BiomeManager, spec_biome_at, select_biome};
use crate::block::BlockType;
use crate::sampling::NoiseSamples;
use crate::TERRAIN_MAX_HEIGHT;

verus! {

/// Quotient of `a / b` rounded toward negative infinity.
pub open spec fn spec_floor_div(a: int, b: int) -> int {
    a / b
}

fn floor_div(a: i64, b: i64) -> (r: i64)
    requires
        b > 0,
        -0x4000_0000_0000_0000 < a < 0x4000_0000_0000_0000,
        b < 0x4000_0000_0000_0000,
    ensures
        r == spec_floor_div(a as int, b as int),
{
    if a >= 0 {
        a / b
    } else {
        let pos = -a;
        let q = pos / b;
        let m = pos % b;
        if m == 0 {
            proof {
                assert(a as int / b as int == -(q as int)) by (nonlinear_arith)
                    requires
                        q == pos as int / b as int,
                        m == pos as int % b as int,
                        m == 0,
                        b > 0,
                        pos > 0,
                        a == -(pos as int),
                {}
            }
            -q
        } else {
            proof {
                assert(a as int / b as int == -(q as int) - 1) by (nonlinear_arith)
                    requires
                        q == pos as int / b as int,
                        m == pos as int % b as int,
                        0 < m,
                        b > 0,
                        pos > 0,
                        a == -(pos as int),
                {}
            }
            -q - 1
        }
    }
}

/// Quotient of `a / b` rounded to the nearest integer, ties away from zero.
pub open spec fn spec_round_div(a: int, b: int) -> int {
    if a >= 0 {
        (2 * a + b) / (2 * b)
    } else {
        -((2 * (-a) + b) / (2 * b))
    }
}

fn round_div(a: i64, b: i64) -> (r: i64)
    requires
        0 < b < 0x1000_0000_0000_0000,
        -0x1000_0000_0000_0000 < a < 0x1000_0000_0000_0000,
    ensures
        r == spec_round_div(a as int, b as int),
        a >= 0 ==> 0 <= r <= a,
        a < 0 ==> a <= r <= 0,
{
    if a >= 0 {
        let r = (2 * a + b) / (2 * b);
        proof {
            assert(0 <= (2 * (a as int) + b) / (2 * (b as int)) <= a) by (nonlinear_arith)
                requires
                    a >= 0,
                    b >= 1,
            {}
        }
        r
    } else {
        let pos = -a;
        let q = (2 * pos + b) / (2 * b);
        proof {
            assert(0 <= (2 * (pos as int) + b) / (2 * (b as int)) <= pos) by (nonlinear_arith)
                requires
                    pos >= 1,
                    b >= 1,
            {}
        }
        -q
    }
}

/// Octave amplitude in millionths of a block: the configured amplitude with
/// a persistence of one half per octave.
pub open spec fn spec_amp_micro(amplitude_milli: u32, octave: int) -> int {
    if octave == 0 {
        amplitude_milli * 1000
    } else if octave == 1 {
        amplitude_milli * 500
    } else {
        amplitude_milli * 250
    }
}

/// The three-octave height-noise sum for one column, in billionths of a block.
pub open spec fn spec_octave_sum_nano(
    samples: &NoiseSamples,
    x: int,
    z: int,
    biome: Biome,
    config: BiomeConfig,
) -> int {
    samples.spec_height_at(biome, 0, x, z) * spec_amp_micro(config.amplitude_milli, 0)
        + samples.spec_height_at(biome, 1, x, z) * spec_amp_micro(config.amplitude_milli, 1)
        + samples.spec_height_at(biome, 2, x, z) * spec_amp_micro(config.amplitude_milli, 2)
}

/// Terrain height of one column as one biome alone would shape it: the floored
/// octave-noise sum (never below zero) plus the biome's base height.
pub open spec fn spec_biome_height(
    samples: &NoiseSamples,
    x: int,
    z: int,
    biome: Biome,
    config: BiomeConfig,
) -> int {
    let floored = spec_floor_div(spec_octave_sum_nano(samples, x, z, biome, config),
        1_000_000_000);
    (if floored < 0 {
        0
    } else {
        floored
    }) + config.base_height
}

proof fn lemma_octave_sum_bounded(
    samples: &NoiseSamples,
    x: int,
    z: int,
    biome: Biome,
    config: BiomeConfig,
)
    requires
        samples.wf(),
        samples.spec_covers(x, z),
        config.wf(),
    ensures
        -1_750_000_000_000 <= spec_octave_sum_nano(samples, x, z, biome, config)
            <= 1_750_000_000_000,
        spec_octave_sum_nano(samples, x, z, biome, config) <= config.amplitude_milli * 1_750_000,
        0 <= spec_biome_height(samples, x, z, biome, config) <= 5846,
{
    samples.lemma_cell_in_range(x, z);
    let a = config.amplitude_milli;
    let s0 = samples.spec_height_at(biome, 0, x, z);
    let s1 = samples.spec_height_at(biome, 1, x, z);
    let s2 = samples.spec_height_at(biome, 2, x, z);
    assert(0 <= biome.spec_index() * 3 < 18 && 0 <= biome.spec_index() * 3 + 1 < 18 && 0
        <= biome.spec_index() * 3 + 2 < 18);
    assert(-1000 <= s0 <= 1000 && -1000 <= s1 <= 1000 && -1000 <= s2 <= 1000);
    assert(-1000 * (a * 1000) <= s0 * (a * 1000) <= 1000 * (a * 1000)) by (nonlinear_arith)
        requires
            -1000 <= s0 <= 1000,
            a >= 0,
    {}
    assert(-1000 * (a * 500) <= s1 * (a * 500) <= 1000 * (a * 500)) by (nonlinear_arith)
        requires
            -1000 <= s1 <= 1000,
            a >= 0,
    {}
    assert(-1000 * (a * 250) <= s2 * (a * 250) <= 1000 * (a * 250)) by (nonlinear_arith)
        requires
            -1000 <= s2 <= 1000,
            a >= 0,
    {}
    assert(1000 * (a * 1000) + 1000 * (a * 500) + 1000 * (a * 250) == a * 1_750_000)
        by (nonlinear_arith)
    {}
    assert(a * 1_750_000 <= 1_750_000_000_000) by (nonlinear_arith)
        requires
            a <= 1_000_000,
    {}
    let total = spec_octave_sum_nano(samples, x, z, biome, config);
    assert(-1_750_000_000_000 <= total <= 1_750_000_000_000);
    assert(total <= a * 1_750_000);
    assert(-1750 <= spec_floor_div(total, 1_000_000_000) <= 1750) by (nonlinear_arith)
        requires
            -1_750_000_000_000 <= total <= 1_750_000_000_000,
    {}
}

/// Terrain height of one column under one biome's configuration.
pub fn calculate_height_for_biome(
    samples: &NoiseSamples,
    x: i64,
    z: i64,
    biome: Biome,
    config: &BiomeConfig,
) -> (r: usize)
    requires
        samples.wf(),
        samples.spec_covers(x as int, z as int),
        config.wf(),
    ensures
        r == spec_biome_height(samples, x as int, z as int, biome, *config),
        r <= 5846,
{
    proof {
        lemma_octave_sum_bounded(samples, x as int, z as int, biome, *config);
    }
    let amp0: i64 = config.amplitude_milli as i64 * 1000;
    let amp1: i64 = config.amplitude_milli as i64 * 500;
    let amp2: i64 = config.amplitude_milli as i64 * 250;
    let s0 = samples.height_sample_at(biome, 0, x, z);
    let s1 = samples.height_sample_at(biome, 1, x, z);
    let s2 = samples.height_sample_at(biome, 2, x, z);
    proof {
        assert(s0 * amp0 == s0 * (config.amplitude_milli * 1000)) by (nonlinear_arith)
            requires
                amp0 == config.amplitude_milli * 1000,
        {}
        assert(s1 * amp1 == s1 * (config.amplitude_milli * 500)) by (nonlinear_arith)
            requires
                amp1 == config.amplitude_milli * 500,
        {}
        assert(s2 * amp2 == s2 * (config.amplitude_milli * 250)) by (nonlinear_arith)
            requires
                amp2 == config.amplitude_milli * 250,
        {}
        assert(-1000 * amp0 <= s0 * amp0 <= 1000 * amp0) by (nonlinear_arith)
            requires
                -1000 <= s0 <= 1000,
                amp0 >= 0,
        {}
        assert(-1000 * amp1 <= s1 * amp1 <= 1000 * amp1) by (nonlinear_arith)
            requires
                -1000 <= s1 <= 1000,
                amp1 >= 0,
        {}
        assert(-1000 * amp2 <= s2 * amp2 <= 1000 * amp2) by (nonlinear_arith)
            requires
                -1000 <= s2 <= 1000,
                amp2 >= 0,
        {}
    }
    let sum_nano: i64 = s0 * amp0 + s1 * amp1 + s2 * amp2;
    let floored = floor_div(sum_nano, 1_000_000_000);
    let lifted: i64 = if floored < 0 {
        0
    } else {
        floored
    };
    (lifted + config.base_height as i64) as usize
}

/// One found biome boundary: the position where the biome changes and the
/// biome found there.
pub type BiomeBoundary = (i64, i64, Biome);

/// Boundaries found walking from (x, z) in direction (dx, dz) out to
/// distance `k`: each position whose biome differs from `b0`, in order of
/// increasing distance.
pub open spec fn spec_dir_boundaries(
    samples: &NoiseSamples,
    x: int,
    z: int,
    dx: int,
    dz: int,
    b0: Biome,
    k: int,
) -> Seq<BiomeBoundary>
    decreases k,
{
    if k <= 0 {
        Seq::empty()
    } else {
        spec_dir_boundaries(samples, x, z, dx, dz, b0, k - 1) + (if spec_biome_at(
            samples,
            x + dx * k,
            z + dz * k,
        ) != b0 {
            seq![
                (
                    (x + dx * k) as i64,
                    (z + dz * k) as i64,
                    spec_biome_at(samples, x + dx * k, z + dz * k),
                ),
            ]
        } else {
            Seq::empty()
        })
    }
}

/// All biome boundaries near (x, z): the four cardinal directions scanned out
/// to the search distance, +x first, then -x, +z, -z.
pub open spec fn spec_boundaries(samples: &NoiseSamples, x: int, z: int) -> Seq<BiomeBoundary> {
    let b0 = spec_biome_at(samples, x, z);
    spec_dir_boundaries(samples, x, z, 1, 0, b0, 32) + spec_dir_boundaries(
        samples,
        x,
        z,
        -1,
        0,
        b0,
        32,
    ) + spec_dir_boundaries(samples, x, z, 0, 1, b0, 32) + spec_dir_boundaries(
        samples,
        x,
        z,
        0,
        -1,
        b0,
        32,
    )
}

/// Every boundary entry lies on the scanned ray, within the search distance,
/// and reports the biome actually sampled there.
pub open spec fn boundary_entry_ok(
    samples: &NoiseSamples,
    x: int,
    z: int,
    e: BiomeBoundary,
) -> bool {
    &&& samples.spec_covers(e.0 as int, e.1 as int)
    &&& 1 <= abs_int(e.0 - x) + abs_int(e.1 - z) <= 32
    &&& e.2 == spec_biome_at(samples, e.0 as int, e.1 as int)
}

pub open spec fn abs_int(a: int) -> int {
    if a < 0 {
        -a
    } else {
        a
    }
}

proof fn lemma_dir_boundaries_ok(
    samples: &NoiseSamples,
    x: int,
    z: int,
    dx: int,
    dz: int,
    b0: Biome,
    k: int,
)
    requires
        samples.wf(),
        dx * dx + dz * dz == 1,
        k <= 32,
        forall|j: int| 1 <= j <= k ==> samples.spec_covers(x + dx * j, #[trigger] (z + dz * j)),
    ensures
        spec_dir_boundaries(samples, x, z, dx, dz, b0, k).len() <= (if k <= 0 {
            0int
        } else {
            k
        }),
        forall|i: int|
            0 <= i < spec_dir_boundaries(samples, x, z, dx, dz, b0, k).len()
                ==> boundary_entry_ok(
                samples,
                x,
                z,
                #[trigger] spec_dir_boundaries(samples, x, z, dx, dz, b0, k)[i],
            ),
    decreases k,
{
    if k > 0 {
        lemma_dir_boundaries_ok(samples, x, z, dx, dz, b0, k - 1);
        assert((dx == 0 || dx == 1 || dx == -1) && (dz == 0 || dz == 1 || dz == -1))
            by (nonlinear_arith)
            requires
                dx * dx + dz * dz == 1,
        {}
        let bx = x + dx * k;
        let bz = z + dz * k;
        assert(abs_int(bx - x) + abs_int(bz - z) == k * (dx * dx + dz * dz)) by (nonlinear_arith)
            requires
                bx == x + dx * k,
                bz == z + dz * k,
                k > 0,
                dx * dx + dz * dz == 1,
                dx == 0 || dx == 1 || dx == -1,
                dz == 0 || dz == 1 || dz == -1,
        {}
    }
}

/// Find the nearby biome boundaries in one cardinal direction.
fn scan_direction(samples: &NoiseSamples, x: i64, z: i64, dx: i64, dz: i64, b0: Biome) -> (r: Vec<
    BiomeBoundary,
>)
    requires
        samples.wf(),
        dx * dx + dz * dz == 1,
        forall|j: int| 1 <= j <= 32 ==> samples.spec_covers(x + dx * j, #[trigger] (z + dz * j)),
        -0x2001_0000_0000_0000 <= x <= 0x2001_0000_0000_0000,
        -0x2001_0000_0000_0000 <= z <= 0x2001_0000_0000_0000,
    ensures
        r@ == spec_dir_boundaries(samples, x as int, z as int, dx as int, dz as int, b0, 32),
{
    let mut out: Vec<BiomeBoundary> = Vec::new();
    let mut k: i64 = 1;
    while k <= 32
        invariant
            1 <= k <= 33,
            samples.wf(),
            dx * dx + dz * dz == 1,
            forall|j: int| 1 <= j <= 32 ==> samples.spec_covers(x + dx * j, #[trigger] (z + dz * j)),
            -0x2001_0000_0000_0000 <= x <= 0x2001_0000_0000_0000,
            -0x2001_0000_0000_0000 <= z <= 0x2001_0000_0000_0000,
            out@ == spec_dir_boundaries(samples, x as int, z as int, dx as int, dz as int, b0, k - 1),
        decreases 33 - k,
    {
        proof {
            assert(dx == 0 || dx == 1 || dx == -1) by (nonlinear_arith)
                requires
                    dx * dx + dz * dz == 1,
            {}
            assert(dz == 0 || dz == 1 || dz == -1) by (nonlinear_arith)
                requires
                    dx * dx + dz * dz == 1,
            {}
        }
        let bx = x + dx * k;
        let bz = z + dz * k;
        proof {
            assert(samples.spec_covers(x + dx * (k as int), z + dz * (k as int)));
            assert(bx as int == x + dx * (k as int));
            assert(bz as int == z + dz * (k as int));
        }
        let b = select_biome(samples, bx, bz);
        if b != b0 {
            out.push((bx, bz, b));
        }
        proof {
            assert(out@ =~= spec_dir_boundaries(
                samples,
                x as int,
                z as int,
                dx as int,
                dz as int,
                b0,
                k as int,
            ));
        }
        k = k + 1;
    }
    out
}

/// Search the four cardinal directions for nearby positions whose biome
/// differs from the biome at (x, z); used to smooth heights across borders.
pub fn find_biome_boundaries(samples: &NoiseSamples, x: i64, z: i64) -> (r: Vec<BiomeBoundary>)
    requires
        samples.wf(),
        samples.covers_box(x - 32, z - 32, 65, 65),
    ensures
        r@ == spec_boundaries(samples, x as int, z as int),
        forall|i: int| 0 <= i < r@.len()
            ==> boundary_entry_ok(samples, x as int, z as int, #[trigger] r@[i]),
{
    proof {
        assert(samples.spec_covers(x as int, z as int));
        assert forall|j: int| 1 <= j <= 32 implies samples.spec_covers(
            x + 1 * j,
            #[trigger] (z + 0 * j),
        ) by {}
        assert forall|j: int| 1 <= j <= 32 implies samples.spec_covers(
            x + (-1) * j,
            #[trigger] (z + 0 * j),
        ) by {}
        assert forall|j: int| 1 <= j <= 32 implies samples.spec_covers(
            x + 0 * j,
            #[trigger] (z + 1 * j),
        ) by {}
        assert forall|j: int| 1 <= j <= 32 implies samples.spec_covers(
            x + 0 * j,
            #[trigger] (z + (-1) * j),
        ) by {}
    }
    let b0 = select_biome(samples, x, z);
    let mut out = scan_direction(samples, x, z, 1, 0, b0);
    let mut o2 = scan_direction(samples, x, z, -1, 0, b0);
    let mut o3 = scan_direction(samples, x, z, 0, 1, b0);
    let mut o4 = scan_direction(samples, x, z, 0, -1, b0);
    out.append(&mut o2);
    out.append(&mut o3);
    out.append(&mut o4);
    proof {
        lemma_dir_boundaries_ok(samples, x as int, z as int, 1, 0, b0, 32);
        lemma_dir_boundaries_ok(samples, x as int, z as int, -1, 0, b0, 32);
        lemma_dir_boundaries_ok(samples, x as int, z as int, 0, 1, b0, 32);
        lemma_dir_boundaries_ok(samples, x as int, z as int, 0, -1, b0, 32);
    }
    out
}

/// Running inverse-distance sums over a prefix of the boundary list:
/// the weighted sum of height differences (in millionths) and the weight sum.
pub open spec fn spec_idw(
    samples: &NoiseSamples,
    mgr: &BiomeManager,
    bs: Seq<BiomeBoundary>,
    x: int,
    z: int,
    ch: int,
) -> (int, int)
    decreases bs.len(),
{
    if bs.len() == 0 {
        (0, 0)
    } else {
        let prev = spec_idw(samples, mgr, bs.drop_last(), x, z, ch);
        let e = bs.last();
        let bh = spec_biome_height(samples, e.0 as int, e.1 as int, e.2, mgr.spec_config(e.2));
        let d = abs_int(e.0 - x) + abs_int(e.1 - z);
        let w = 1_000_000int / d;
        (prev.0 + (bh - ch) * w, prev.1 + w)
    }
}

/// Clamp a height into the band natural terrain may occupy.
pub open spec fn spec_clamp_height(h: int) -> int {
    if h > TERRAIN_MAX_HEIGHT {
        TERRAIN_MAX_HEIGHT as int
    } else if h < 1 {
        1
    } else {
        h
    }
}

/// Blended terrain height of column (x, z): the height of its own biome,
/// pulled toward the heights that nearby differing biomes would produce,
/// weighted by inverse distance, then clamped to [1, TERRAIN_MAX_HEIGHT].
/// With no boundary in reach, the column keeps its own biome's height,
/// clamped to the same band.
pub open spec fn spec_height_at(samples: &NoiseSamples, mgr: &BiomeManager, x: int, z: int) -> int {
    let b0 = spec_biome_at(samples, x, z);
    let ch = spec_biome_height(samples, x, z, b0, mgr.spec_config(b0));
    let bs = spec_boundaries(samples, x, z);
    if bs.len() == 0 {
        spec_clamp_height(ch)
    } else {
        let sums = spec_idw(samples, mgr, bs, x, z, ch);
        let blended = spec_round_div(sums.0, sums.1);
        let lifted = if blended < 0 {
            0
        } else {
            blended
        };
        let capped = if ch + lifted > TERRAIN_MAX_HEIGHT {
            TERRAIN_MAX_HEIGHT as int
        } else {
            ch + lifted
        };
        if capped < 1 {
            1
        } else {
            capped
        }
    }
}

/// The biome of a world column.
pub fn biome_at(samples: &NoiseSamples, x: i64, z: i64) -> (r: Biome)
    requires
        samples.wf(),
        samples.spec_covers(x as int, z as int),
    ensures
        r == spec_biome_at(samples, x as int, z as int),
{
    select_biome(samples, x, z)
}

/// Terrain height of a world column, blended across nearby biome borders.
pub fn height_at(samples: &NoiseSamples, mgr: &BiomeManager, x: i64, z: i64) -> (r: usize)
    requires
        samples.wf(),
        mgr.wf(),
        samples.covers_box(x - 32, z - 32, 65, 65),
    ensures
        r == spec_height_at(samples, mgr, x as int, z as int),
        1 <= r <= TERRAIN_MAX_HEIGHT,
{
    let b0 = select_biome(samples, x, z);
    proof {
        mgr.lemma_config_wf(b0);
    }
    let ch = calculate_height_for_biome(samples, x, z, b0, mgr.get_config(b0));
    let boundaries = find_biome_boundaries(samples, x, z);
    if boundaries.len() == 0 {
        if ch > TERRAIN_MAX_HEIGHT {
            return TERRAIN_MAX_HEIGHT;
        }
        if ch < 1 {
            return 1;
        }
        return ch;
    }
    let ghost bs = boundaries@;
    proof {
        let b0g = spec_biome_at(samples, x as int, z as int);
        lemma_dir_boundaries_ok(samples, x as int, z as int, 1, 0, b0g, 32);
        lemma_dir_boundaries_ok(samples, x as int, z as int, -1, 0, b0g, 32);
        lemma_dir_boundaries_ok(samples, x as int, z as int, 0, 1, b0g, 32);
        lemma_dir_boundaries_ok(samples, x as int, z as int, 0, -1, b0g, 32);
        assert(bs.len() <= 128);
    }
    let mut height_sum: i64 = 0;
    let mut weight_sum: i64 = 0;
    let mut i: usize = 0;
    while i < boundaries.len()
        invariant
            i <= bs.len(),
            bs.len() <= 128,
            boundaries@ == bs,
            samples.wf(),
            mgr.wf(),
            ch <= 5846,
            ch == spec_biome_height(
                samples,
                x as int,
                z as int,
                spec_biome_at(samples, x as int, z as int),
                mgr.spec_config(spec_biome_at(samples, x as int, z as int)),
            ),
            forall|j: int| 0 <= j < bs.len()
                ==> boundary_entry_ok(samples, x as int, z as int, #[trigger] bs[j]),
            (height_sum as int, weight_sum as int) == spec_idw(
                samples,
                mgr,
                bs.take(i as int),
                x as int,
                z as int,
                ch as int,
            ),
            -6_000_000_000 * i <= height_sum <= 6_000_000_000 * i,
            i <= weight_sum <= 1_000_000 * i,
        decreases bs.len() - i,
    {
        let (bx, bz, bb) = boundaries[i];
        proof {
            assert(boundary_entry_ok(samples, x as int, z as int, bs[i as int]));
            mgr.lemma_config_wf(bb);
            lemma_octave_sum_bounded(
                samples,
                bx as int,
                bz as int,
                bb,
                mgr.spec_config(bb),
            );
        }
        let bh = calculate_height_for_biome(samples, bx, bz, bb, mgr.get_config(bb));
        let adx: i64 = if bx >= x {
            bx - x
        } else {
            x - bx
        };
        let adz: i64 = if bz >= z {
            bz - z
        } else {
            z - bz
        };
        let d: i64 = adx + adz;
        let w: i64 = 1_000_000 / d;
        proof {
            assert(1 <= d <= 32);
            assert(31250 <= w <= 1_000_000) by (nonlinear_arith)
                requires
                    1 <= d <= 32,
                    w == 1_000_000 as int / d as int,
            {}
            assert(-6_000_000_000 <= (bh - ch) * w <= 6_000_000_000) by (nonlinear_arith)
                requires
                    -6000 <= bh - ch <= 6000,
                    0 <= w <= 1_000_000,
            {}
        }
        height_sum = height_sum + (bh as i64 - ch as i64) * w;
        weight_sum = weight_sum + w;
        proof {
            assert(bs.take(i + 1).drop_last() =~= bs.take(i as int));
        }
        i = i + 1;
    }
    proof {
        assert(bs.take(bs.len() as int) =~= bs);
    }
    let blended = round_div(height_sum, weight_sum);
    let lifted: i64 = if blended < 0 {
        0
    } else {
        blended
    };
    proof {
        let sums = spec_idw(samples, mgr, bs, x as int, z as int, ch as int);
        assert(spec_round_div(sums.0, sums.1) == blended);
    }
    let raw: i64 = ch as i64 + lifted;
    let capped: i64 = if raw > TERRAIN_MAX_HEIGHT as i64 {
        TERRAIN_MAX_HEIGHT as i64
    } else {
        raw
    };
    let clamped: i64 = if capped < 1 {
        1
    } else {
        capped
    };
    clamped as usize
}

/// The block kind of one cell of a terrain column: snow forced on high
/// mountain surfaces, otherwise the biome's surface block on the top row,
/// its subsurface block in the three rows beneath, and its stone block below.
pub open spec fn spec_block_for_position(
    y: int,
    height: int,
    biome: Biome,
    config: BiomeConfig,
) -> BlockType {
    let surface_level = if height >= 1 {
        height - 1
    } else {
        0
    };
    if biome == Biome::Mountain && y > 30 && y >= surface_level {
        BlockType::Snow
    } else if y >= surface_level {
        config.surface_block
    } else if y >= height - 4 {
        config.subsurface_block
    } else {
        config.stone_block
    }
}

/// The block kind generated at depth `y` of a column with terrain height
/// `height` in `biome`.
pub fn get_block_for_position(
    y: usize,
    height: usize,
    biome: Biome,
    config: &BiomeConfig,
) -> (r: BlockType)
    ensures
        r == spec_block_for_position(y as int, height as int, biome, *config),
{
    let surface_level: usize = if height >= 1 {
        height - 1
    } else {
        0
    };
    if biome == Biome::Mountain && y > 30 && y >= surface_level {
        BlockType::Snow
    } else if y >= surface_level {
        config.surface_block
    } else if height <= 4 || y >= height - 4 {
        config.subsurface_block
    } else {
        config.stone_block
    }
}

/// Height clamping: for any column, any sample grid and any accepted
/// configuration set, the terrain height lies in [1, TERRAIN_MAX_HEIGHT] -
/// both the lone-biome branch and the border-blended branch clamp into the
/// band.
pub proof fn lemma_height_clamped(samples: &NoiseSamples, mgr: &BiomeManager, x: int, z: int)
    ensures
        1 <= spec_height_at(samples, mgr, x, z) <= TERRAIN_MAX_HEIGHT,
{
}

/// Two height queries with the same samples, configurations and position
/// return the same height: the height is a function of those alone.
pub proof fn lemma_height_deterministic(
    s1: &NoiseSamples,
    m1: &BiomeManager,
    s2: &NoiseSamples,
    m2: &BiomeManager,
    x: int,
    z: int,
)
    requires
        s1 == s2,
        m1.wf(),
        m2.wf(),
        forall|b: Biome| #[trigger] m1.spec_config(b) == m2.spec_config(b),
    ensures
        spec_height_at(s1, m1, x, z) == spec_height_at(s2, m2, x, z),
{
    let bs = spec_boundaries(s1, x, z);
    lemma_idw_congruent(s1, m1, m2, bs, x, z);
}

proof fn lemma_idw_congruent(
    samples: &NoiseSamples,
    m1: &BiomeManager,
    m2: &BiomeManager,
    bs: Seq<BiomeBoundary>,
    x: int,
    z: int,
)
    requires
        forall|b: Biome| #[trigger] m1.spec_config(b) == m2.spec_config(b),
    ensures
        forall|ch: int| #[trigger] spec_idw(samples, m1, bs, x, z, ch) == spec_idw(
            samples,
            m2,
            bs,
            x,
            z,
            ch,
        ),
    decreases bs.len(),
{
    if bs.len() > 0 {
        lemma_idw_congruent(samples, m1, m2, bs.drop_last(), x, z);
        assert forall|ch: int| #[trigger] spec_idw(samples, m1, bs, x, z, ch) == spec_idw(
            samples,
            m2,
            bs,
            x,
            z,
            ch,
        ) by {
            assert(spec_idw(samples, m1, bs.drop_last(), x, z, ch) == spec_idw(
                samples,
                m2,
                bs.drop_last(),
                x,
                z,
                ch,
            ));
        }
    }
}

} // verus!
