use vstd::prelude::*;
use crate::block::BlockType;
use crate::sampling::NoiseSamples;

verus! {

/// The environmental categories a world column can fall in.
#[derive(Clone, Copy, PartialEq, Eq, Hash, Debug, Structural)]
pub enum Biome {
    Plains,
    Desert,
    Mountain,
    Tundra,
    Forest,
    Swamp,
}

/// Number of biomes; biome indices are always below this.
pub const BIOME_COUNT: usize = 6;

impl Biome {
    /// A dense index for this biome, usable as a table key.
    pub open spec fn spec_index(self) -> usize {
        match self {
            Biome::Plains => 0,
            Biome::Desert => 1,
            Biome::Mountain => 2,
            Biome::Tundra => 3,
            Biome::Forest => 4,
            Biome::Swamp => 5,
        }
    }

    pub fn index(self) -> (r: usize)
        ensures
            r == self.spec_index(),
            r < BIOME_COUNT,
    {
        match self {
            Biome::Plains => 0,
            Biome::Desert => 1,
            Biome::Mountain => 2,
            Biome::Tundra => 3,
            Biome::Forest => 4,
            Biome::Swamp => 5,
        }
    }

    /// The display name of this biome.
    pub open spec fn spec_name(self) -> Seq<char> {
        match self {
            Biome::Plains => "Plains"@,
            Biome::Desert => "Desert"@,
            Biome::Mountain => "Mountain"@,
            Biome::Tundra => "Tundra"@,
            Biome::Forest => "Forest"@,
            Biome::Swamp => "Swamp"@,
        }
    }

    pub fn name(&self) -> (r: &'static str)
        ensures
            r@ == self.spec_name(),
    {
        match self {
            Biome::Plains => "Plains",
            Biome::Desert => "Desert",
            Biome::Mountain => "Mountain",
            Biome::Tundra => "Tundra",
            Biome::Forest => "Forest",
            Biome::Swamp => "Swamp",
        }
    }

    /// The built-in generation parameters of this biome.
    pub fn get_config(&self) -> (r: BiomeConfig)
        ensures
            r == default_config(*self),
            r.wf(),
    {
        match self {
            Biome::Mountain => BiomeConfig {
                base_height: 8,
                frequency_micro: 20_000,
                amplitude_milli: 6_000,
                surface_block: BlockType::Stone,
                subsurface_block: BlockType::Stone,
                stone_block: BlockType::Stone,
                temperature_milli: -500i32,
                humidity_milli: 0,
                tree_density_micro: 5_000,
                house_chance_micro: 1_000,
            },
            Biome::Desert => BiomeConfig {
                base_height: 5,
                frequency_micro: 15_000,
                amplitude_milli: 1_500,
                surface_block: BlockType::Sand,
                subsurface_block: BlockType::Sand,
                stone_block: BlockType::Stone,
                temperature_milli: 800,
                humidity_milli: -800i32,
                tree_density_micro: 100,
                house_chance_micro: 2_000,
            },
            Biome::Plains => BiomeConfig {
                base_height: 5,
                frequency_micro: 18_000,
                amplitude_milli: 2_500,
                surface_block: BlockType::Grass,
                subsurface_block: BlockType::Dirt,
                stone_block: BlockType::Stone,
                temperature_milli: 200,
                humidity_milli: 0,
                tree_density_micro: 15_000,
                house_chance_micro: 8_000,
            },
            Biome::Forest => BiomeConfig {
                base_height: 5,
                frequency_micro: 22_000,
                amplitude_milli: 3_000,
                surface_block: BlockType::Grass,
                subsurface_block: BlockType::Dirt,
                stone_block: BlockType::Stone,
                temperature_milli: 300,
                humidity_milli: 200,
                tree_density_micro: 80_000,
                house_chance_micro: 3_000,
            },
            Biome::Tundra => BiomeConfig {
                base_height: 5,
                frequency_micro: 12_000,
                amplitude_milli: 1_000,
                surface_block: BlockType::Snow,
                subsurface_block: BlockType::Dirt,
                stone_block: BlockType::Stone,
                temperature_milli: -700i32,
                humidity_milli: -200i32,
                tree_density_micro: 2_000,
                house_chance_micro: 500,
            },
            Biome::Swamp => BiomeConfig {
                base_height: 3,
                frequency_micro: 10_000,
                amplitude_milli: 800,
                surface_block: BlockType::Grass,
                subsurface_block: BlockType::Dirt,
                stone_block: BlockType::Stone,
                temperature_milli: 100,
                humidity_milli: 800,
                tree_density_micro: 40_000,
                house_chance_micro: 1_000,
            },
        }
    }
}

/// Generation parameters of one biome. Ratios are held in fixed point:
/// `_milli` fields are thousandths, `_micro` fields are millionths.
#[derive(Clone, Copy, PartialEq, Eq, Debug, Structural)]
pub struct BiomeConfig {
    /// Base elevation of the biome's terrain, in blocks.
    pub base_height: u32,
    /// Base frequency of the height noise, in millionths per block.
    pub frequency_micro: u32,
    /// Base amplitude of the height noise, in thousandths of a block.
    pub amplitude_milli: u32,
    /// Block kind of the topmost terrain layer.
    pub surface_block: BlockType,
    /// Block kind of the next few layers beneath the surface.
    pub subsurface_block: BlockType,
    /// Block kind of everything deeper down.
    pub stone_block: BlockType,
    /// Nominal temperature of the biome, in thousandths.
    pub temperature_milli: i32,
    /// Nominal humidity of the biome, in thousandths.
    pub humidity_milli: i32,
    /// Tree spawn ratio per sampled anchor, in millionths.
    pub tree_density_micro: u32,
    /// House spawn ratio per sampled anchor, in millionths.
    pub house_chance_micro: u32,
}

impl BiomeConfig {
    /// Bounds that keep the height arithmetic exact; a configuration outside
    /// them is rejected as malformed.
    pub open spec fn wf(self) -> bool {
        &&& self.base_height <= 4096
        &&& self.frequency_micro <= 10_000_000
        &&& self.amplitude_milli <= 1_000_000
        &&& self.tree_density_micro <= 1_000_000
        &&& self.house_chance_micro <= 1_000_000
    }

    fn check_wf(&self) -> (r: bool)
        ensures
            r == self.wf(),
    {
        self.base_height <= 4096 && self.frequency_micro <= 10_000_000 && self.amplitude_milli
            <= 1_000_000 && self.tree_density_micro <= 1_000_000 && self.house_chance_micro
            <= 1_000_000
    }
}

/// The built-in configuration of each biome.
pub open spec fn default_config(b: Biome) -> BiomeConfig {
    match b {
        Biome::Mountain => BiomeConfig {
            base_height: 8,
            frequency_micro: 20_000,
            amplitude_milli: 6_000,
            surface_block: BlockType::Stone,
            subsurface_block: BlockType::Stone,
            stone_block: BlockType::Stone,
            temperature_milli: -500i32,
            humidity_milli: 0,
            tree_density_micro: 5_000,
            house_chance_micro: 1_000,
        },
        Biome::Desert => BiomeConfig {
            base_height: 5,
            frequency_micro: 15_000,
            amplitude_milli: 1_500,
            surface_block: BlockType::Sand,
            subsurface_block: BlockType::Sand,
            stone_block: BlockType::Stone,
            temperature_milli: 800,
            humidity_milli: -800i32,
            tree_density_micro: 100,
            house_chance_micro: 2_000,
        },
        Biome::Plains => BiomeConfig {
            base_height: 5,
            frequency_micro: 18_000,
            amplitude_milli: 2_500,
            surface_block: BlockType::Grass,
            subsurface_block: BlockType::Dirt,
            stone_block: BlockType::Stone,
            temperature_milli: 200,
            humidity_milli: 0,
            tree_density_micro: 15_000,
            house_chance_micro: 8_000,
        },
        Biome::Forest => BiomeConfig {
            base_height: 5,
            frequency_micro: 22_000,
            amplitude_milli: 3_000,
            surface_block: BlockType::Grass,
            subsurface_block: BlockType::Dirt,
            stone_block: BlockType::Stone,
            temperature_milli: 300,
            humidity_milli: 200,
            tree_density_micro: 80_000,
            house_chance_micro: 3_000,
        },
        Biome::Tundra => BiomeConfig {
            base_height: 5,
            frequency_micro: 12_000,
            amplitude_milli: 1_000,
            surface_block: BlockType::Snow,
            subsurface_block: BlockType::Dirt,
            stone_block: BlockType::Stone,
            temperature_milli: -700i32,
            humidity_milli: -200i32,
            tree_density_micro: 2_000,
            house_chance_micro: 500,
        },
        Biome::Swamp => BiomeConfig {
            base_height: 3,
            frequency_micro: 10_000,
            amplitude_milli: 800,
            surface_block: BlockType::Grass,
            subsurface_block: BlockType::Dirt,
            stone_block: BlockType::Stone,
            temperature_milli: 100,
            humidity_milli: 800,
            tree_density_micro: 40_000,
            house_chance_micro: 1_000,
        },
    }
}

/// The biome selected for a pair of temperature and humidity samples (both in
/// thousandths): an ordered cascade of threshold rules, first match wins.
pub open spec fn spec_classify(temp_milli: int, humidity_milli: int) -> Biome {
    if temp_milli < -400 && humidity_milli < 0 {
        Biome::Tundra
    } else if temp_milli < -200 {
        Biome::Mountain
    } else if temp_milli > 300 && humidity_milli < -200 {
        Biome::Desert
    } else if humidity_milli > 400 {
        Biome::Swamp
    } else if temp_milli > 100 {
        Biome::Forest
    } else {
        Biome::Plains
    }
}

/// Classify a column from its temperature and humidity samples (thousandths).
/// The rule order is part of the contract: very cold and dry is Tundra, then
/// cold is Mountain, hot and dry is Desert, wet is Swamp, warm is Forest, and
/// everything else is Plains.
pub fn classify(temp_milli: i64, humidity_milli: i64) -> (r: Biome)
    ensures
        r == spec_classify(temp_milli as int, humidity_milli as int),
{
    if temp_milli < -400 && humidity_milli < 0 {
        Biome::Tundra
    } else if temp_milli < -200 {
        Biome::Mountain
    } else if temp_milli > 300 && humidity_milli < -200 {
        Biome::Desert
    } else if humidity_milli > 400 {
        Biome::Swamp
    } else if temp_milli > 100 {
        Biome::Forest
    } else {
        Biome::Plains
    }
}

/// The biome of column (x, z) under the sample grid `samples`.
pub open spec fn spec_biome_at(samples: &NoiseSamples, x: int, z: int) -> Biome {
    spec_classify(
        samples.spec_temperature_at(x, z) as int,
        samples.spec_humidity_at(x, z) as int,
    )
}

/// Select the biome of a world column from its sampled temperature and
/// humidity.
pub fn select_biome(samples: &NoiseSamples, x: i64, z: i64) -> (r: Biome)
    requires
        samples.wf(),
        samples.spec_covers(x as int, z as int),
    ensures
        r == spec_biome_at(samples, x as int, z as int),
{
    let t = samples.temperature_at(x, z);
    let h = samples.humidity_at(x, z);
    classify(t, h)
}

/// Classification is deterministic: any two classifications of the same
/// temperature and humidity samples name the same biome, in this process or
/// any other - the biome is a pure function of the two samples.
pub proof fn lemma_classify_deterministic(
    temp_milli: int,
    humidity_milli: int,
    b1: Biome,
    b2: Biome,
)
    requires
        b1 == spec_classify(temp_milli, humidity_milli),
        b2 == spec_classify(temp_milli, humidity_milli),
    ensures
        b1 == b2,
{
}

/// Why a set of biome configurations was rejected.
#[derive(Clone, Copy, PartialEq, Eq, Debug, Structural)]
pub enum BiomeConfigError {
    /// No configuration was given for this biome.
    MissingBiome(Biome),
    /// The configuration given for this biome is out of the accepted ranges.
    InvalidConfig(Biome),
}

/// Holds one configuration per biome.
pub struct BiomeManager {
    configs: Vec<BiomeConfig>,
}

impl BiomeManager {
    /// The configuration this manager holds for `biome`.
    pub closed spec fn spec_config(&self, biome: Biome) -> BiomeConfig {
        self.configs@[biome.spec_index() as int]
    }

    pub closed spec fn wf(&self) -> bool {
        &&& self.configs@.len() == BIOME_COUNT
        &&& forall|i: int| 0 <= i < BIOME_COUNT ==> (#[trigger] self.configs@[i]).wf()
    }

    pub proof fn lemma_config_wf(&self, biome: Biome)
        requires
            self.wf(),
        ensures
            self.spec_config(biome).wf(),
    {
        assert(0 <= biome.spec_index() < BIOME_COUNT);
    }

    /// Every biome carries its built-in configuration.
    pub open spec fn is_default(&self) -> bool {
        &&& self.wf()
        &&& forall|b: Biome| #[trigger] self.spec_config(b) == default_config(b)
    }

    /// A manager with the built-in configuration for every biome.
    pub fn new() -> (r: BiomeManager)
        ensures
            r.is_default(),
    {
        let configs: Vec<BiomeConfig> = vec![
            Biome::Plains.get_config(),
            Biome::Desert.get_config(),
            Biome::Mountain.get_config(),
            Biome::Tundra.get_config(),
            Biome::Forest.get_config(),
            Biome::Swamp.get_config(),
        ];
        let r = BiomeManager { configs };
        proof {
            assert forall|b: Biome| #[trigger] r.spec_config(b) == default_config(b) by {
                assert(0 <= b.spec_index() < BIOME_COUNT);
            }
            assert forall|i: int| 0 <= i < BIOME_COUNT implies (#[trigger] r.configs@[i]).wf() by {
            }
        }
        r
    }

    /// Build a manager from externally supplied (biome, configuration) pairs.
    /// Later pairs override earlier ones for the same biome. Every one of the
    /// six biomes must be present and every configuration must be in range;
    /// otherwise the first offender, in the fixed biome order, is reported.
    pub fn from_entries(entries: &Vec<(Biome, BiomeConfig)>) -> (r: Result<
        BiomeManager,
        BiomeConfigError,
    >)
        ensures
            match r {
                Ok(m) => {
                    &&& m.wf()
                    &&& forall|b: Biome| #[trigger] entries_contain(entries@, b)
                    &&& forall|b: Biome| #[trigger] m.spec_config(b) == spec_last_entry(
                        entries@,
                        b,
                    )
                },
                Err(BiomeConfigError::MissingBiome(b)) => {
                    &&& !entries_contain(entries@, b)
                    &&& forall|q: int|
                        0 <= q < spec_order_pos(b) ==> entries_contain(
                            entries@,
                            #[trigger] spec_biome_of_index(q),
                        ) && spec_last_entry(entries@, spec_biome_of_index(q)).wf()
                },
                Err(BiomeConfigError::InvalidConfig(b)) => {
                    &&& entries_contain(entries@, b)
                    &&& !spec_last_entry(entries@, b).wf()
                    &&& forall|q: int|
                        0 <= q < spec_order_pos(b) ==> entries_contain(
                            entries@,
                            #[trigger] spec_biome_of_index(q),
                        ) && spec_last_entry(entries@, spec_biome_of_index(q)).wf()
                },
            },
    {
        let mut configs: Vec<BiomeConfig> = vec![
            Biome::Plains.get_config(),
            Biome::Desert.get_config(),
            Biome::Mountain.get_config(),
            Biome::Tundra.get_config(),
            Biome::Forest.get_config(),
            Biome::Swamp.get_config(),
        ];
        let mut seen: Vec<bool> = vec![false, false, false, false, false, false];
        let mut i: usize = 0;
        while i < entries.len()
            invariant
                i <= entries@.len(),
                configs@.len() == BIOME_COUNT,
                seen@.len() == BIOME_COUNT,
                forall|b: Biome| #[trigger] seen@[b.spec_index() as int] == entries_contain(
                    entries@.take(i as int),
                    b,
                ),
                forall|b: Biome| seen@[b.spec_index() as int]
                    ==> #[trigger] configs@[b.spec_index() as int] == spec_last_entry(
                        entries@.take(i as int),
                        b,
                    ),
            decreases entries@.len() - i,
        {
            let (b, c) = entries[i];
            let idx = b.index();
            configs.set(idx, c);
            seen.set(idx, true);
            proof {
                assert(entries@.take(i + 1).drop_last() =~= entries@.take(i as int));
                assert forall|bb: Biome| seen@[bb.spec_index() as int]
                    implies #[trigger] configs@[bb.spec_index() as int] == spec_last_entry(
                        entries@.take(i + 1),
                        bb,
                    ) by {
                    if bb.spec_index() == b.spec_index() {
                        assert(bb == b);
                    } else {
                        lemma_last_entry_skip(entries@.take(i + 1), bb);
                    }
                }
                assert forall|bb: Biome| #[trigger] seen@[bb.spec_index() as int]
                    == entries_contain(entries@.take(i + 1), bb) by {
                    if bb.spec_index() == b.spec_index() {
                        assert(bb == b);
                        assert(entries@.take(i + 1)[i as int].0 == bb);
                        assert(entries_contain(entries@.take(i + 1), bb));
                    } else {
                        assert(bb != b);
                        if seen@[bb.spec_index() as int] {
                            let j = choose|j: int|
                                0 <= j < i && #[trigger] entries@.take(i as int)[j].0 == bb;
                            assert(entries@.take(i + 1)[j].0 == bb);
                        }
                        if entries_contain(entries@.take(i + 1), bb) {
                            let j = choose|j: int|
                                0 <= j < i + 1 && #[trigger] entries@.take(i + 1)[j].0 == bb;
                            assert(j < i);
                            assert(entries@.take(i as int)[j].0 == bb);
                        }
                    }
                }
            }
            i = i + 1;
        }
        proof {
            assert(entries@.take(entries@.len() as int) =~= entries@);
        }
        let order: Vec<Biome> = vec![
            Biome::Plains,
            Biome::Desert,
            Biome::Mountain,
            Biome::Tundra,
            Biome::Forest,
            Biome::Swamp,
        ];
        let mut k: usize = 0;
        while k < BIOME_COUNT
            invariant
                k <= BIOME_COUNT,
                order@.len() == BIOME_COUNT,
                configs@.len() == BIOME_COUNT,
                seen@.len() == BIOME_COUNT,
                order@ =~= seq![
                    Biome::Plains,
                    Biome::Desert,
                    Biome::Mountain,
                    Biome::Tundra,
                    Biome::Forest,
                    Biome::Swamp,
                ],
                forall|b: Biome| #[trigger] seen@[b.spec_index() as int] == entries_contain(
                    entries@,
                    b,
                ),
                forall|b: Biome| seen@[b.spec_index() as int]
                    ==> #[trigger] configs@[b.spec_index() as int] == spec_last_entry(entries@, b),
                forall|q: int| 0 <= q < k ==> {
                    &&& seen@[(#[trigger] order@[q]).spec_index() as int]
                    &&& configs@[order@[q].spec_index() as int].wf()
                },
            decreases BIOME_COUNT - k,
        {
            let b = order[k];
            let idx = b.index();
            proof {
                assert(spec_order_pos(b) == k as int);
                assert forall|q: int|
                    0 <= q < k implies entries_contain(
                    entries@,
                    #[trigger] spec_biome_of_index(q),
                ) && spec_last_entry(entries@, spec_biome_of_index(q)).wf() by {
                    assert(order@[q] == spec_biome_of_index(q));
                    assert(seen@[(#[trigger] order@[q]).spec_index() as int]);
                    assert(configs@[order@[q].spec_index() as int].wf());
                }
            }
            if !seen[idx] {
                return Err(BiomeConfigError::MissingBiome(b));
            }
            if !configs[idx].check_wf() {
                return Err(BiomeConfigError::InvalidConfig(b));
            }
            k = k + 1;
        }
        let m = BiomeManager { configs };
        proof {
            assert forall|i2: int| 0 <= i2 < BIOME_COUNT implies (
                #[trigger] m.configs@[i2]).wf() by {
                let b = spec_biome_of_index(i2);
                let q = spec_order_pos(b);
                assert(order@[q].spec_index() == i2);
                assert(m.configs@[order@[q].spec_index() as int].wf());
            }
            assert forall|b: Biome| #[trigger] entries_contain(entries@, b) by {
                let q = spec_order_pos(b);
                assert(seen@[(order@[q]).spec_index() as int]);
            }
            assert forall|b: Biome| #[trigger] m.spec_config(b) == spec_last_entry(
                entries@,
                b,
            ) by {
                let q = spec_order_pos(b);
                assert(seen@[(order@[q]).spec_index() as int]);
            }
        }
        Ok(m)
    }

    /// The configuration of `biome`.
    pub fn get_config(&self, biome: Biome) -> (r: &BiomeConfig)
        requires
            self.wf(),
        ensures
            *r == self.spec_config(biome),
            r.wf(),
    {
        proof {
            self.lemma_config_wf(biome);
        }
        let idx = biome.index();
        &self.configs[idx]
    }
}

/// The biome whose dense index is `i` (Plains for an index out of range).
pub open spec fn spec_biome_of_index(i: int) -> Biome {
    if i == 1 {
        Biome::Desert
    } else if i == 2 {
        Biome::Mountain
    } else if i == 3 {
        Biome::Tundra
    } else if i == 4 {
        Biome::Forest
    } else if i == 5 {
        Biome::Swamp
    } else {
        Biome::Plains
    }
}

/// Position of `b` in the fixed validation order.
pub open spec fn spec_order_pos(b: Biome) -> int {
    b.spec_index() as int
}

/// Some entry names biome `b`.
pub open spec fn entries_contain(entries: Seq<(Biome, BiomeConfig)>, b: Biome) -> bool {
    exists|i: int| 0 <= i < entries.len() && #[trigger] entries[i].0 == b
}

/// The configuration of the last entry for `b`, or its built-in default if
/// no entry names it.
pub open spec fn spec_last_entry(entries: Seq<(Biome, BiomeConfig)>, b: Biome) -> BiomeConfig
    decreases entries.len(),
{
    if entries.len() == 0 {
        default_config(b)
    } else if entries.last().0 == b {
        entries.last().1
    } else {
        spec_last_entry(entries.drop_last(), b)
    }
}

proof fn lemma_last_entry_skip(entries: Seq<(Biome, BiomeConfig)>, b: Biome)
    requires
        entries.len() > 0,
        entries.last().0 != b,
    ensures
        spec_last_entry(entries, b) == spec_last_entry(entries.drop_last(), b),
{
}

} // verus!
