//! Blocks: the closed set of block kinds, per-kind static attributes,
//! and the byte code used by the persistent chunk format.

use vstd::prelude::*;

verus! {

/// An integer 2-vector, used for texture atlas coordinates.
#[derive(Clone, Copy, PartialEq, Eq, Structural, Debug, Hash)]
pub struct IVec2 {
    pub x: i32,
    pub y: i32,
}

impl IVec2 {
    pub fn new(x: i32, y: i32) -> (r: IVec2)
        ensures
            r == (IVec2 { x, y }),
    {
        IVec2 { x, y }
    }
}

/// The closed enumeration of block kinds.
#[derive(Clone, Copy, PartialEq, Eq, Structural, Debug, Hash)]
pub enum BlockID {
    Air,
    Dirt,
    Grass,
    Stone,
    StoneBrick,
    Log,
    Leaves,
    Water,
}

/// One voxel: a block kind plus accumulated damage.
#[derive(Clone, Copy, PartialEq, Eq, Structural, Debug)]
pub struct Block {
    pub id: BlockID,
    pub damage: u8,
}

impl Block {
    pub fn new(id: BlockID) -> (r: Block)
        ensures
            r == (Block { id, damage: 0 }),
    {
        Block { id, damage: 0 }
    }

    pub fn get_attributes(self) -> (r: BlockAttributes)
        ensures
            r == block_attributes(self.id),
    {
        self.id.get_attributes()
    }
}

/// How a block interacts with bodies and fluids.
#[derive(Clone, Copy, PartialEq, Eq, Structural, Debug)]
pub enum Solidity {
    Solid,
    NonSolid,
    Water,
}

/// Kinds of items a block can yield when damaged or cost when built.
#[derive(Clone, Copy, PartialEq, Eq, Structural, Debug, Hash)]
pub enum ItemID {
    Stone,
    Wood,
}

/// A stack of items of one kind.
#[derive(Clone, Copy, PartialEq, Eq, Structural, Debug)]
pub struct Item {
    pub id: ItemID,
    pub amount: u16,
}

impl Item {
    pub fn new(id: ItemID, amount: u16) -> (r: Item)
        ensures
            r == (Item { id, amount }),
    {
        Item { id, amount }
    }
}

/// Per-face texture atlas coordinates of a block.
#[derive(Clone, Copy, PartialEq, Eq, Structural, Debug)]
pub struct TextureCoords {
    pub top: IVec2,
    pub bottom: IVec2,
    pub north: IVec2,
    pub south: IVec2,
    pub east: IVec2,
    pub west: IVec2,
}

impl TextureCoords {
    /// The same texture on all six faces.
    pub fn symmetrical(coord: IVec2) -> (r: TextureCoords)
        ensures
            r == spec_symmetrical(coord),
    {
        TextureCoords { top: coord, bottom: coord, north: coord, south: coord, east: coord, west: coord }
    }

    /// Distinct top and bottom textures, one texture on the four sides.
    pub fn asymmetric_y(top: IVec2, bottom: IVec2, sides: IVec2) -> (r: TextureCoords)
        ensures
            r == (TextureCoords { top, bottom, north: sides, south: sides, east: sides, west: sides }),
    {
        TextureCoords { top, bottom, north: sides, south: sides, east: sides, west: sides }
    }

    /// A distinct top texture, one texture everywhere else.
    pub fn unique_top(top: IVec2, sides: IVec2) -> (r: TextureCoords)
        ensures
            r == (TextureCoords { top, bottom: sides, north: sides, south: sides, east: sides, west: sides }),
    {
        TextureCoords { top, bottom: sides, north: sides, south: sides, east: sides, west: sides }
    }
}

pub open spec fn spec_symmetrical(coord: IVec2) -> TextureCoords {
    TextureCoords { top: coord, bottom: coord, north: coord, south: coord, east: coord, west: coord }
}

/// The static attribute table entry of a block kind. Attributes are a
/// pure function of the kind and are never stored per block instance.
#[derive(Clone, Copy, Debug)]
pub struct BlockAttributes {
    pub health: u8,
    pub toughness: u8,
    pub tex_coords: TextureCoords,
    pub breaks_into: BlockID,
    pub give_on_damage: Option<Item>,
    pub cost_to_build: (Option<Item>, Option<Item>, Option<Item>),
    pub solidity: Solidity,
}

pub open spec fn default_attributes() -> BlockAttributes {
    BlockAttributes {
        health: 0,
        toughness: 0,
        tex_coords: spec_symmetrical(IVec2 { x: 0, y: 0 }),
        breaks_into: BlockID::Air,
        give_on_damage: None,
        cost_to_build: (None, None, None),
        solidity: Solidity::Solid,
    }
}

/// The attribute table, as a mathematical function of the block kind.
pub open spec fn block_attributes(id: BlockID) -> BlockAttributes {
    match id {
        BlockID::Air => BlockAttributes {
            health: 0,
            solidity: Solidity::NonSolid,
            ..default_attributes()
        },
        BlockID::Dirt => BlockAttributes {
            health: 3,
            tex_coords: spec_symmetrical(IVec2 { x: 0, y: 0 }),
            ..default_attributes()
        },
        BlockID::Grass => BlockAttributes {
            health: 1,
            tex_coords: TextureCoords {
                top: IVec2 { x: 0, y: 1 },
                bottom: IVec2 { x: 0, y: 0 },
                north: IVec2 { x: 1, y: 1 },
                south: IVec2 { x: 1, y: 1 },
                east: IVec2 { x: 1, y: 1 },
                west: IVec2 { x: 1, y: 1 },
            },
            breaks_into: BlockID::Dirt,
            ..default_attributes()
        },
        BlockID::Stone => BlockAttributes {
            health: 5,
            tex_coords: spec_symmetrical(IVec2 { x: 0, y: 2 }),
            give_on_damage: Some(Item { id: ItemID::Stone, amount: 16 }),
            ..default_attributes()
        },
        BlockID::StoneBrick => BlockAttributes {
            health: 5,
            tex_coords: spec_symmetrical(IVec2 { x: 0, y: 3 }),
            give_on_damage: Some(Item { id: ItemID::Stone, amount: 2 }),
            cost_to_build: (Some(Item { id: ItemID::Stone, amount: 16 }), None, None),
            ..default_attributes()
        },
        BlockID::Log => BlockAttributes {
            health: 2,
            tex_coords: spec_symmetrical(IVec2 { x: 0, y: 4 }),
            give_on_damage: Some(Item { id: ItemID::Wood, amount: 32 }),
            ..default_attributes()
        },
        BlockID::Leaves => BlockAttributes {
            health: 1,
            tex_coords: spec_symmetrical(IVec2 { x: 0, y: 5 }),
            solidity: Solidity::NonSolid,
            ..default_attributes()
        },
        BlockID::Water => BlockAttributes {
            health: 0,
            tex_coords: TextureCoords {
                top: IVec2 { x: 0, y: 7 },
                bottom: IVec2 { x: 1, y: 7 },
                north: IVec2 { x: 1, y: 7 },
                south: IVec2 { x: 1, y: 7 },
                east: IVec2 { x: 1, y: 7 },
                west: IVec2 { x: 1, y: 7 },
            },
            solidity: Solidity::Water,
            ..default_attributes()
        },
    }
}

/// The byte that stands for a block kind in the persistent format.
pub open spec fn block_id_code(id: BlockID) -> u8 {
    match id {
        BlockID::Air => 0,
        BlockID::Dirt => 1,
        BlockID::Grass => 2,
        BlockID::Stone => 3,
        BlockID::StoneBrick => 4,
        BlockID::Log => 5,
        BlockID::Leaves => 6,
        BlockID::Water => 7,
    }
}

/// The block kind a byte stands for, if any.
pub open spec fn block_id_of_code(num: u8) -> Option<BlockID> {
    match num {
        0u8 => Some(BlockID::Air),
        1u8 => Some(BlockID::Dirt),
        2u8 => Some(BlockID::Grass),
        3u8 => Some(BlockID::Stone),
        4u8 => Some(BlockID::StoneBrick),
        5u8 => Some(BlockID::Log),
        6u8 => Some(BlockID::Leaves),
        7u8 => Some(BlockID::Water),
        _ => None,
    }
}

impl BlockID {
    pub fn get_attributes(self) -> (r: BlockAttributes)
        ensures
            r == block_attributes(self),
    {
        match self {
            BlockID::Air => BlockAttributes {
                health: 0,
                toughness: 0,
                tex_coords: TextureCoords::symmetrical(IVec2::new(0, 0)),
                breaks_into: BlockID::Air,
                give_on_damage: None,
                cost_to_build: (None, None, None),
                solidity: Solidity::NonSolid,
            },
            BlockID::Dirt => BlockAttributes {
                health: 3,
                toughness: 0,
                tex_coords: TextureCoords::symmetrical(IVec2::new(0, 0)),
                breaks_into: BlockID::Air,
                give_on_damage: None,
                cost_to_build: (None, None, None),
                solidity: Solidity::Solid,
            },
            BlockID::Grass => BlockAttributes {
                health: 1,
                toughness: 0,
                tex_coords: TextureCoords::asymmetric_y(
                    IVec2::new(0, 1),
                    IVec2::new(0, 0),
                    IVec2::new(1, 1),
                ),
                breaks_into: BlockID::Dirt,
                give_on_damage: None,
                cost_to_build: (None, None, None),
                solidity: Solidity::Solid,
            },
            BlockID::Stone => BlockAttributes {
                health: 5,
                toughness: 0,
                tex_coords: TextureCoords::symmetrical(IVec2::new(0, 2)),
                breaks_into: BlockID::Air,
                give_on_damage: Some(Item::new(ItemID::Stone, 16)),
                cost_to_build: (None, None, None),
                solidity: Solidity::Solid,
            },
            BlockID::StoneBrick => BlockAttributes {
                health: 5,
                toughness: 0,
                tex_coords: TextureCoords::symmetrical(IVec2::new(0, 3)),
                breaks_into: BlockID::Air,
                give_on_damage: Some(Item::new(ItemID::Stone, 2)),
                cost_to_build: (Some(Item::new(ItemID::Stone, 16)), None, None),
                solidity: Solidity::Solid,
            },
            BlockID::Log => BlockAttributes {
                health: 2,
                toughness: 0,
                tex_coords: TextureCoords::symmetrical(IVec2::new(0, 4)),
                breaks_into: BlockID::Air,
                give_on_damage: Some(Item::new(ItemID::Wood, 32)),
                cost_to_build: (None, None, None),
                solidity: Solidity::Solid,
            },
            BlockID::Leaves => BlockAttributes {
                health: 1,
                toughness: 0,
                tex_coords: TextureCoords::symmetrical(IVec2::new(0, 5)),
                breaks_into: BlockID::Air,
                give_on_damage: None,
                cost_to_build: (None, None, None),
                solidity: Solidity::NonSolid,
            },
            BlockID::Water => BlockAttributes {
                health: 0,
                toughness: 0,
                tex_coords: TextureCoords::unique_top(IVec2::new(0, 7), IVec2::new(1, 7)),
                breaks_into: BlockID::Air,
                give_on_damage: None,
                cost_to_build: (None, None, None),
                solidity: Solidity::Water,
            },
        }
    }

    /// The byte this kind is stored as in the persistent format.
    pub fn to_u8(self) -> (r: u8)
        ensures
            r == block_id_code(self),
    {
        match self {
            BlockID::Air => 0,
            BlockID::Dirt => 1,
            BlockID::Grass => 2,
            BlockID::Stone => 3,
            BlockID::StoneBrick => 4,
            BlockID::Log => 5,
            BlockID::Leaves => 6,
            BlockID::Water => 7,
        }
    }

    /// Reads a block kind back from its stored byte. An unassigned byte
    /// yields `None`, so a corrupt chunk row fails its own load instead
    /// of aborting the process.
    pub fn from_u8(num: u8) -> (r: Option<BlockID>)
        ensures
            r == block_id_of_code(num),
    {
        match num {
            0 => Some(BlockID::Air),
            1 => Some(BlockID::Dirt),
            2 => Some(BlockID::Grass),
            3 => Some(BlockID::Stone),
            4 => Some(BlockID::StoneBrick),
            5 => Some(BlockID::Log),
            6 => Some(BlockID::Leaves),
            7 => Some(BlockID::Water),
            _ => None,
        }
    }
}

/// Reading back the byte a block kind was stored as always yields that
/// same kind.
pub proof fn lemma_block_code_roundtrip(id: BlockID)
    ensures
        block_id_of_code(block_id_code(id)) == Some(id),
{
}

} // verus!
