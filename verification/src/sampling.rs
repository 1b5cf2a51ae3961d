use vstd::prelude::*;
use crate::biome::{Biome, BIOME_COUNT};

verus! {

/// Number of octaves summed for terrain height noise.
pub const OCTAVES: usize = 3;

/// Noise samples for a rectangle of world columns, in thousandths of a block
/// (every sample lies in [-1000, 1000]).
///
/// The world is shaped by several independent coherent-noise fields, all
/// derived from the world seed; the caller evaluates them and hands the
/// results over on this grid, one value per column for the temperature,
/// humidity and structure-placement fields, and one value per column, biome
/// and octave for the terrain-height field (each biome samples the height
/// field at its own frequency, and each octave doubles that frequency).
pub struct NoiseSamples {
    /// World x of the first column of the grid.
    pub x0: i64,
    /// World z of the first column of the grid.
    pub z0: i64,
    /// Number of columns along x.
    pub nx: usize,
    /// Number of columns along z.
    pub nz: usize,
    /// Temperature samples, one per column.
    pub temperature: Vec<i64>,
    /// Humidity samples, one per column.
    pub humidity: Vec<i64>,
    /// Structure-placement samples, one per column.
    pub structure: Vec<i64>,
    /// Height samples, one plane per (biome, octave) pair.
    pub height: Vec<Vec<i64>>,
}

/// Every value of the plane is a noise sample in thousandths: [-1000, 1000].
pub open spec fn plane_bounded(p: Seq<i64>) -> bool {
    forall|i: int| 0 <= i < p.len() ==> -1000 <= #[trigger] p[i] <= 1000
}

/// The raw parts make a well-shaped grid: the dimensions and origin are in
/// range, each per-column plane has one sample per column, there is one
/// height plane per biome and octave, and every sample is in range.
pub open spec fn spec_parts_ok(
    x0: i64,
    z0: i64,
    nx: usize,
    nz: usize,
    temperature: Seq<i64>,
    humidity: Seq<i64>,
    structure: Seq<i64>,
    height: Seq<Vec<i64>>,
) -> bool {
    &&& nx <= 50_000
    &&& nz <= 50_000
    &&& -0x2000_0000_0000_0000 <= x0 <= 0x2000_0000_0000_0000
    &&& -0x2000_0000_0000_0000 <= z0 <= 0x2000_0000_0000_0000
    &&& temperature.len() == nx * nz
    &&& humidity.len() == nx * nz
    &&& structure.len() == nx * nz
    &&& height.len() == BIOME_COUNT * OCTAVES
    &&& forall|p: int| 0 <= p < height.len() ==> (#[trigger] height[p])@.len() == nx * nz
    &&& plane_bounded(temperature)
    &&& plane_bounded(humidity)
    &&& plane_bounded(structure)
    &&& forall|p: int| 0 <= p < height.len() ==> plane_bounded((#[trigger] height[p])@)
}

impl NoiseSamples {
    pub open spec fn spec_temperature(&self) -> Seq<i64> {
        self.temperature@
    }

    pub open spec fn spec_humidity(&self) -> Seq<i64> {
        self.humidity@
    }

    pub open spec fn spec_structure(&self) -> Seq<i64> {
        self.structure@
    }

    pub open spec fn spec_height_plane(&self, biome: Biome, octave: int) -> Seq<i64> {
        self.height@[biome.spec_index() * OCTAVES + octave]@
    }

    pub open spec fn wf(&self) -> bool {
        &&& self.nx <= 50_000
        &&& self.nz <= 50_000
        &&& self.temperature@.len() == self.nx * self.nz
        &&& self.humidity@.len() == self.nx * self.nz
        &&& self.structure@.len() == self.nx * self.nz
        &&& self.height@.len() == BIOME_COUNT * OCTAVES
        &&& forall|p: int| 0 <= p < self.height@.len()
            ==> (#[trigger] self.height@[p])@.len() == self.nx * self.nz
        &&& plane_bounded(self.temperature@)
        &&& plane_bounded(self.humidity@)
        &&& plane_bounded(self.structure@)
        &&& forall|p: int| 0 <= p < self.height@.len()
            ==> plane_bounded((#[trigger] self.height@[p])@)
        &&& -0x2000_0000_0000_0000 <= self.x0 <= 0x2000_0000_0000_0000
        &&& -0x2000_0000_0000_0000 <= self.z0 <= 0x2000_0000_0000_0000
    }

    /// The grid holds a sample for world column (x, z).
    pub open spec fn spec_covers(&self, x: int, z: int) -> bool {
        &&& self.x0 <= x < self.x0 + self.nx
        &&& self.z0 <= z < self.z0 + self.nz
    }

    /// The grid covers the whole box [x, x + w) x [z, z + d).
    pub open spec fn covers_box(&self, x: int, z: int, w: int, d: int) -> bool {
        &&& self.x0 <= x
        &&& x + w <= self.x0 + self.nx
        &&& self.z0 <= z
        &&& z + d <= self.z0 + self.nz
    }

    /// Index of column (x, z) inside a plane.
    pub open spec fn spec_cell(&self, x: int, z: int) -> int {
        (x - self.x0) * self.nz + (z - self.z0)
    }

    pub proof fn lemma_cell_in_range(&self, x: int, z: int)
        requires
            self.wf(),
            self.spec_covers(x, z),
        ensures
            0 <= self.spec_cell(x, z) < self.nx * self.nz,
    {
        let ix = x - self.x0;
        let iz = z - self.z0;
        assert(0 <= ix * self.nz + iz < self.nx * self.nz) by (nonlinear_arith)
            requires
                0 <= ix < self.nx,
                0 <= iz < self.nz,
        {}
    }

    pub fn covers(&self, x: i64, z: i64) -> (r: bool)
        requires
            self.wf(),
            -0x2000_0000_0000_0000 <= x <= 0x2000_0000_0000_0000,
            -0x2000_0000_0000_0000 <= z <= 0x2000_0000_0000_0000,
        ensures
            r == self.spec_covers(x as int, z as int),
    {
        if self.x0 <= x && self.z0 <= z {
            x - self.x0 < self.nx as i64 && z - self.z0 < self.nz as i64
        } else {
            false
        }
    }

    fn cell(&self, x: i64, z: i64) -> (r: usize)
        requires
            self.wf(),
            self.spec_covers(x as int, z as int),
        ensures
            r == self.spec_cell(x as int, z as int),
            r < self.nx * self.nz,
    {
        proof {
            self.lemma_cell_in_range(x as int, z as int);
        }
        let ix = (x - self.x0) as usize;
        let iz = (z - self.z0) as usize;
        proof {
            assert(ix * self.nz + iz < 2_500_000_000) by (nonlinear_arith)
                requires
                    ix < self.nx,
                    iz < self.nz,
                    self.nx <= 50_000,
                    self.nz <= 50_000,
            {}
        }
        ix * self.nz + iz
    }

    /// The temperature sample at column (x, z).
    pub open spec fn spec_temperature_at(&self, x: int, z: int) -> i64 {
        self.spec_temperature()[self.spec_cell(x, z)]
    }

    pub fn temperature_at(&self, x: i64, z: i64) -> (r: i64)
        requires
            self.wf(),
            self.spec_covers(x as int, z as int),
        ensures
            r == self.spec_temperature_at(x as int, z as int),
            -1000 <= r <= 1000,
    {
        let c = self.cell(x, z);
        self.temperature[c]
    }

    /// The humidity sample at column (x, z).
    pub open spec fn spec_humidity_at(&self, x: int, z: int) -> i64 {
        self.spec_humidity()[self.spec_cell(x, z)]
    }

    pub fn humidity_at(&self, x: i64, z: i64) -> (r: i64)
        requires
            self.wf(),
            self.spec_covers(x as int, z as int),
        ensures
            r == self.spec_humidity_at(x as int, z as int),
            -1000 <= r <= 1000,
    {
        let c = self.cell(x, z);
        self.humidity[c]
    }

    /// The structure-placement sample at column (x, z).
    pub open spec fn spec_structure_at(&self, x: int, z: int) -> i64 {
        self.spec_structure()[self.spec_cell(x, z)]
    }

    pub fn structure_at(&self, x: i64, z: i64) -> (r: i64)
        requires
            self.wf(),
            self.spec_covers(x as int, z as int),
        ensures
            r == self.spec_structure_at(x as int, z as int),
            -1000 <= r <= 1000,
    {
        let c = self.cell(x, z);
        self.structure[c]
    }

    /// The height sample at column (x, z) for `biome`'s frequency at `octave`.
    pub open spec fn spec_height_at(&self, biome: Biome, octave: int, x: int, z: int) -> i64 {
        self.spec_height_plane(biome, octave)[self.spec_cell(x, z)]
    }

    pub fn height_sample_at(&self, biome: Biome, octave: usize, x: i64, z: i64) -> (r: i64)
        requires
            self.wf(),
            octave < OCTAVES,
            self.spec_covers(x as int, z as int),
        ensures
            r == self.spec_height_at(biome, octave as int, x as int, z as int),
            -1000 <= r <= 1000,
    {
        let c = self.cell(x, z);
        let plane = biome.index() * OCTAVES + octave;
        self.height[plane][c]
    }

    /// Assemble a sample grid, checking its shape and that every sample lies
    /// in [-1000, 1000]; returns None exactly when something is out of shape
    /// or range.
    pub fn from_parts(
        x0: i64,
        z0: i64,
        nx: usize,
        nz: usize,
        temperature: Vec<i64>,
        humidity: Vec<i64>,
        structure: Vec<i64>,
        height: Vec<Vec<i64>>,
    ) -> (r: Option<NoiseSamples>)
        ensures
            match r {
                Some(s) => {
                    &&& s.wf()
                    &&& s.x0 == x0
                    &&& s.z0 == z0
                    &&& s.nx == nx
                    &&& s.nz == nz
                    &&& s.spec_temperature() == temperature@
                    &&& s.spec_humidity() == humidity@
                    &&& s.spec_structure() == structure@
                    &&& forall|b: Biome, o: int| 0 <= o < OCTAVES
                        ==> s.spec_height_plane(b, o)
                            == (#[trigger] height@[b.spec_index() * OCTAVES + o])@
                },
                None => !spec_parts_ok(
                    x0,
                    z0,
                    nx,
                    nz,
                    temperature@,
                    humidity@,
                    structure@,
                    height@,
                ),
            },
    {
        if nx > 50_000 || nz > 50_000 {
            return None;
        }
        if x0 < -0x2000_0000_0000_0000 || x0 > 0x2000_0000_0000_0000 {
            return None;
        }
        if z0 < -0x2000_0000_0000_0000 || z0 > 0x2000_0000_0000_0000 {
            return None;
        }
        proof {
            assert(nx * nz <= 2_500_000_000) by (nonlinear_arith)
                requires
                    nx <= 50_000,
                    nz <= 50_000,
            {}
        }
        let cells = nx * nz;
        if temperature.len() != cells || humidity.len() != cells || structure.len() != cells {
            return None;
        }
        if height.len() != BIOME_COUNT * OCTAVES {
            return None;
        }
        if !plane_ok(&temperature, cells) || !plane_ok(&humidity, cells) || !plane_ok(
            &structure,
            cells,
        ) {
            return None;
        }
        let mut p: usize = 0;
        while p < height.len()
            invariant
                p <= height@.len(),
                cells == nx * nz,
                forall|q: int| 0 <= q < p ==> {
                    &&& (#[trigger] height@[q])@.len() == cells
                    &&& plane_bounded(height@[q]@)
                },
            decreases height@.len() - p,
        {
            if !plane_ok(&height[p], cells) {
                proof {
                    assert(!((height@[p as int])@.len() == nx * nz && plane_bounded(
                        height@[p as int]@,
                    )));
                }
                return None;
            }
            p = p + 1;
        }
        let s = NoiseSamples { x0, z0, nx, nz, temperature, humidity, structure, height };
        proof {
            assert forall|b: Biome, o: int| 0 <= o < OCTAVES implies s.spec_height_plane(b, o)
                == (#[trigger] s.height@[b.spec_index() * OCTAVES + o])@ by {
                assert(0 <= b.spec_index() < BIOME_COUNT);
            }
        }
        Some(s)
    }
}

/// Whether a plane has exactly `cells` samples, all in [-1000, 1000].
fn plane_ok(p: &Vec<i64>, cells: usize) -> (r: bool)
    ensures
        r == (p@.len() == cells && plane_bounded(p@)),
{
    if p.len() != cells {
        return false;
    }
    let mut i: usize = 0;
    while i < p.len()
        invariant
            i <= p@.len(),
            forall|j: int| 0 <= j < i ==> -1000 <= #[trigger] p@[j] <= 1000,
        decreases p@.len() - i,
    {
        let v = p[i];
        if v < -1000 || v > 1000 {
            return false;
        }
        i = i + 1;
    }
    true
}

} // verus!
