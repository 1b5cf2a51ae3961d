use vstd::prelude::*;
use crate::voxel::FaceTextures;

verus! {

/// The kinds of blocks the world can hold.
#[derive(Clone, Copy, PartialEq, Eq, Hash, Debug, Structural)]
pub enum BlockType {
    Air,
    Stone,
    Dirt,
    Grass,
    Sand,
    Water,
    Wood,
    Leaves,
    Snow,
    Planks,
    Cobblestone,
    Glass,
}

/// Number of block kinds; block indices are always below this.
pub const BLOCK_KIND_COUNT: usize = 12;

impl BlockType {
    /// A dense index for this block kind, usable as a table key.
    pub open spec fn spec_index(self) -> usize {
        match self {
            BlockType::Air => 0,
            BlockType::Stone => 1,
            BlockType::Dirt => 2,
            BlockType::Grass => 3,
            BlockType::Sand => 4,
            BlockType::Water => 5,
            BlockType::Wood => 6,
            BlockType::Leaves => 7,
            BlockType::Snow => 8,
            BlockType::Planks => 9,
            BlockType::Cobblestone => 10,
            BlockType::Glass => 11,
        }
    }

    pub fn index(self) -> (r: usize)
        ensures
            r == self.spec_index(),
            r < BLOCK_KIND_COUNT,
    {
        match self {
            BlockType::Air => 0,
            BlockType::Stone => 1,
            BlockType::Dirt => 2,
            BlockType::Grass => 3,
            BlockType::Sand => 4,
            BlockType::Water => 5,
            BlockType::Wood => 6,
            BlockType::Leaves => 7,
            BlockType::Snow => 8,
            BlockType::Planks => 9,
            BlockType::Cobblestone => 10,
            BlockType::Glass => 11,
        }
    }
}

/// Texture atlas slots for the block textures.
#[derive(Clone, Copy, PartialEq, Eq, Debug, Structural)]
pub enum TextureId {
    Stone,
    Dirt,
    GrassTop,
    GrassSide,
    Sand,
    Water,
    WoodTop,
    WoodSide,
    Leaves,
    Snow,
    Bedrock,
    Planks,
    Cobblestone,
    Glass,
}

impl TextureId {
    /// The slot number of this texture in the atlas.
    pub open spec fn spec_index(self) -> u32 {
        match self {
            TextureId::Stone => 0,
            TextureId::Dirt => 1,
            TextureId::GrassTop => 2,
            TextureId::GrassSide => 3,
            TextureId::Sand => 4,
            TextureId::Water => 5,
            TextureId::WoodTop => 6,
            TextureId::WoodSide => 7,
            TextureId::Leaves => 8,
            TextureId::Snow => 9,
            TextureId::Bedrock => 10,
            TextureId::Planks => 11,
            TextureId::Cobblestone => 12,
            TextureId::Glass => 13,
        }
    }

    pub fn index(self) -> (r: u32)
        ensures
            r == self.spec_index(),
    {
        match self {
            TextureId::Stone => 0,
            TextureId::Dirt => 1,
            TextureId::GrassTop => 2,
            TextureId::GrassSide => 3,
            TextureId::Sand => 4,
            TextureId::Water => 5,
            TextureId::WoodTop => 6,
            TextureId::WoodSide => 7,
            TextureId::Leaves => 8,
            TextureId::Snow => 9,
            TextureId::Bedrock => 10,
            TextureId::Planks => 11,
            TextureId::Cobblestone => 12,
            TextureId::Glass => 13,
        }
    }
}

/// Render-relevant properties of one block kind.
#[derive(Clone, Copy, PartialEq, Eq, Debug, Structural)]
pub struct BlockMaterial {
    pub textures: FaceTextures,
    pub is_solid: bool,
    pub is_transparent: bool,
}

/// Table of material properties for every block kind.
pub struct BlockRegistry {
    materials: Vec<Option<BlockMaterial>>,
}

impl BlockRegistry {
    /// The material registered for a block kind, if any.
    pub closed spec fn spec_material(&self, block_type: BlockType) -> Option<BlockMaterial> {
        self.materials@[block_type.spec_index() as int]
    }

    pub closed spec fn wf(&self) -> bool {
        self.materials@.len() == BLOCK_KIND_COUNT
    }

    /// Whether a block kind counts as solid: its registered material says so,
    /// and an unregistered kind never does.
    pub open spec fn spec_is_solid(&self, block_type: BlockType) -> bool {
        match self.spec_material(block_type) {
            Some(m) => m.is_solid,
            None => false,
        }
    }

    /// The face textures of a block kind, with the stone texture standing in
    /// for unregistered kinds.
    pub open spec fn spec_textures(&self, block_type: BlockType) -> FaceTextures {
        match self.spec_material(block_type) {
            Some(m) => m.textures,
            None => FaceTextures::spec_all_same(TextureId::Stone.spec_index()),
        }
    }

    /// A registry with the default material for every block kind.
    pub fn new() -> (r: BlockRegistry)
        ensures
            r.wf(),
            forall|b: BlockType| r.spec_material(b) == Some(default_material(b)),
    {
        let mut registry = BlockRegistry { materials: Vec::new() };
        let mut i: usize = 0;
        while i < BLOCK_KIND_COUNT
            invariant
                registry.materials@.len() == i,
                i <= BLOCK_KIND_COUNT,
                forall|j: int| 0 <= j < i ==> registry.materials@[j] is None,
            decreases BLOCK_KIND_COUNT - i,
        {
            registry.materials.push(None);
            i = i + 1;
        }
        registry.register_defaults();
        registry
    }

    /// Register (or replace) the material of a block kind.
    pub fn register(&mut self, block_type: BlockType, material: BlockMaterial)
        requires
            old(self).wf(),
        ensures
            final(self).wf(),
            final(self).spec_material(block_type) == Some(material),
            forall|b: BlockType| b.spec_index() != block_type.spec_index()
                ==> final(self).spec_material(b) == old(self).spec_material(b),
    {
        let idx = block_type.index();
        self.materials.set(idx, Some(material));
    }

    /// Material properties of a block kind, if registered.
    pub fn get_material(&self, block_type: BlockType) -> (r: Option<&BlockMaterial>)
        requires
            self.wf(),
        ensures
            match r {
                Some(m) => self.spec_material(block_type) == Some(*m),
                None => self.spec_material(block_type) is None,
            },
    {
        let idx = block_type.index();
        self.materials[idx].as_ref()
    }

    /// The face textures of a block kind; unregistered kinds fall back to stone.
    pub fn get_textures(&self, block_type: BlockType) -> (r: FaceTextures)
        requires
            self.wf(),
        ensures
            r == self.spec_textures(block_type),
    {
        match self.get_material(block_type) {
            Some(m) => m.textures,
            None => FaceTextures::all_same(TextureId::Stone.index()),
        }
    }

    /// Whether a block kind is solid; unregistered kinds are not.
    pub fn is_solid(&self, block_type: BlockType) -> (r: bool)
        requires
            self.wf(),
        ensures
            r == self.spec_is_solid(block_type),
    {
        match self.get_material(block_type) {
            Some(m) => m.is_solid,
            None => false,
        }
    }

    /// Install the default material for every block kind.
    fn register_defaults(&mut self)
        requires
            old(self).wf(),
        ensures
            final(self).wf(),
            forall|b: BlockType| final(self).spec_material(b) == Some(default_material(b)),
    {
        self.register(
            BlockType::Air,
            BlockMaterial {
                textures: FaceTextures::all_same(TextureId::Stone.index()),
                is_solid: false,
                is_transparent: true,
            },
        );
        self.register(
            BlockType::Stone,
            BlockMaterial {
                textures: FaceTextures::all_same(TextureId::Stone.index()),
                is_solid: true,
                is_transparent: false,
            },
        );
        self.register(
            BlockType::Dirt,
            BlockMaterial {
                textures: FaceTextures::all_same(TextureId::Dirt.index()),
                is_solid: true,
                is_transparent: false,
            },
        );
        self.register(
            BlockType::Grass,
            BlockMaterial {
                textures: FaceTextures::new(
                    TextureId::GrassSide.index(),
                    TextureId::GrassSide.index(),
                    TextureId::GrassSide.index(),
                    TextureId::GrassSide.index(),
                    TextureId::GrassTop.index(),
                    TextureId::Dirt.index(),
                ),
                is_solid: true,
                is_transparent: false,
            },
        );
        self.register(
            BlockType::Sand,
            BlockMaterial {
                textures: FaceTextures::all_same(TextureId::Sand.index()),
                is_solid: true,
                is_transparent: false,
            },
        );
        self.register(
            BlockType::Water,
            BlockMaterial {
                textures: FaceTextures::all_same(TextureId::Water.index()),
                is_solid: false,
                is_transparent: true,
            },
        );
        self.register(
            BlockType::Wood,
            BlockMaterial {
                textures: FaceTextures::new(
                    TextureId::WoodSide.index(),
                    TextureId::WoodSide.index(),
                    TextureId::WoodSide.index(),
                    TextureId::WoodSide.index(),
                    TextureId::WoodTop.index(),
                    TextureId::WoodTop.index(),
                ),
                is_solid: true,
                is_transparent: false,
            },
        );
        self.register(
            BlockType::Leaves,
            BlockMaterial {
                textures: FaceTextures::all_same(TextureId::Leaves.index()),
                is_solid: true,
                is_transparent: true,
            },
        );
        self.register(
            BlockType::Snow,
            BlockMaterial {
                textures: FaceTextures::all_same(TextureId::Snow.index()),
                is_solid: true,
                is_transparent: false,
            },
        );
        self.register(
            BlockType::Planks,
            BlockMaterial {
                textures: FaceTextures::all_same(TextureId::Planks.index()),
                is_solid: true,
                is_transparent: false,
            },
        );
        self.register(
            BlockType::Cobblestone,
            BlockMaterial {
                textures: FaceTextures::all_same(TextureId::Cobblestone.index()),
                is_solid: true,
                is_transparent: false,
            },
        );
        self.register(
            BlockType::Glass,
            BlockMaterial {
                textures: FaceTextures::all_same(TextureId::Glass.index()),
                is_solid: true,
                is_transparent: true,
            },
        );
        assert forall|b: BlockType| self.spec_material(b) == Some(default_material(b)) by {
            assert(0 <= b.spec_index() < BLOCK_KIND_COUNT);
        }
    }
}

/// The built-in material of each block kind.
pub open spec fn default_material(b: BlockType) -> BlockMaterial {
    match b {
        BlockType::Air => BlockMaterial {
            textures: FaceTextures::spec_all_same(TextureId::Stone.spec_index()),
            is_solid: false,
            is_transparent: true,
        },
        BlockType::Stone => BlockMaterial {
            textures: FaceTextures::spec_all_same(TextureId::Stone.spec_index()),
            is_solid: true,
            is_transparent: false,
        },
        BlockType::Dirt => BlockMaterial {
            textures: FaceTextures::spec_all_same(TextureId::Dirt.spec_index()),
            is_solid: true,
            is_transparent: false,
        },
        BlockType::Grass => BlockMaterial {
            textures: FaceTextures {
                front: TextureId::GrassSide.spec_index(),
                back: TextureId::GrassSide.spec_index(),
                left: TextureId::GrassSide.spec_index(),
                right: TextureId::GrassSide.spec_index(),
                top: TextureId::GrassTop.spec_index(),
                bottom: TextureId::Dirt.spec_index(),
            },
            is_solid: true,
            is_transparent: false,
        },
        BlockType::Sand => BlockMaterial {
            textures: FaceTextures::spec_all_same(TextureId::Sand.spec_index()),
            is_solid: true,
            is_transparent: false,
        },
        BlockType::Water => BlockMaterial {
            textures: FaceTextures::spec_all_same(TextureId::Water.spec_index()),
            is_solid: false,
            is_transparent: true,
        },
        BlockType::Wood => BlockMaterial {
            textures: FaceTextures {
                front: TextureId::WoodSide.spec_index(),
                back: TextureId::WoodSide.spec_index(),
                left: TextureId::WoodSide.spec_index(),
                right: TextureId::WoodSide.spec_index(),
                top: TextureId::WoodTop.spec_index(),
                bottom: TextureId::WoodTop.spec_index(),
            },
            is_solid: true,
            is_transparent: false,
        },
        BlockType::Leaves => BlockMaterial {
            textures: FaceTextures::spec_all_same(TextureId::Leaves.spec_index()),
            is_solid: true,
            is_transparent: true,
        },
        BlockType::Snow => BlockMaterial {
            textures: FaceTextures::spec_all_same(TextureId::Snow.spec_index()),
            is_solid: true,
            is_transparent: false,
        },
        BlockType::Planks => BlockMaterial {
            textures: FaceTextures::spec_all_same(TextureId::Planks.spec_index()),
            is_solid: true,
            is_transparent: false,
        },
        BlockType::Cobblestone => BlockMaterial {
            textures: FaceTextures::spec_all_same(TextureId::Cobblestone.spec_index()),
            is_solid: true,
            is_transparent: false,
        },
        BlockType::Glass => BlockMaterial {
            textures: FaceTextures::spec_all_same(TextureId::Glass.spec_index()),
            is_solid: true,
            is_transparent: true,
        },
    }
}

/// Build the block registry that the world starts from.
pub fn init_block_registry() -> (r: BlockRegistry)
    ensures
        r.wf(),
        forall|b: BlockType| r.spec_material(b) == Some(default_material(b)),
{
    BlockRegistry::new()
}

} // verus!
