//! Structure generation rules: where each structure starts, the box it
//! occupies, which templates and jigsaw pools it uses, and the block layout
//! of the structures built directly rather than from templates.

pub mod desert_well;
pub mod end_city;
pub mod jigsaw;
pub mod overworld_fossil;
pub mod template;

use vstd::prelude::*;
use crate::math::BlockBox;

verus! {

/// The kinds of structure pieces placed directly by a generator.
#[derive(Debug, Clone, Copy, PartialEq, Eq, Structural)]
pub enum StructurePieceType {
    DesertWell,
    EndCity,
    EndCityShip,
    OverworldFossil,
}

/// A placed piece of a structure: its kind, the box it may touch and its
/// depth in the structure's piece chain.
#[derive(Debug, Clone, Copy, PartialEq, Eq, Structural)]
pub struct StructurePiece {
    pub piece_type: StructurePieceType,
    pub bounding_box: BlockBox,
    pub chain_length: u32,
}

impl StructurePiece {
    /// A piece of the given kind and box.
    pub fn new(piece_type: StructurePieceType, bounding_box: BlockBox, chain_length: u32) -> (p:
        Self)
        ensures
            p == (StructurePiece { piece_type, bounding_box, chain_length }),
    {
        StructurePiece { piece_type, bounding_box, chain_length }
    }
}

/// A quarter-turn rotation of a structure around the vertical axis.
#[derive(Debug, Clone, Copy, PartialEq, Eq, Structural)]
pub enum Rotation {
    NoRotation,
    Clockwise90,
    Clockwise180,
    CounterClockwise90,
}

/// The rotation with index `i`, counting quarter turns clockwise.
pub open spec fn rotation_of_index(i: u8) -> Rotation {
    if i == 0 {
        Rotation::NoRotation
    } else if i == 1 {
        Rotation::Clockwise90
    } else if i == 2 {
        Rotation::Clockwise180
    } else {
        Rotation::CounterClockwise90
    }
}

/// Whether a rotation swaps the x and z extents of a structure.
pub open spec fn swaps_axes(r: Rotation) -> bool {
    r == Rotation::Clockwise90 || r == Rotation::CounterClockwise90
}

impl Rotation {
    /// The rotation with index `i` (0 to 3), counting quarter turns
    /// clockwise.
    pub fn from_index(i: u8) -> (r: Rotation)
        requires
            i < 4,
        ensures
            r == rotation_of_index(i),
    {
        if i == 0 {
            Rotation::NoRotation
        } else if i == 1 {
            Rotation::Clockwise90
        } else if i == 2 {
            Rotation::Clockwise180
        } else {
            Rotation::CounterClockwise90
        }
    }

    /// The extents `(x, y, z)` of a structure after this rotation: a
    /// quarter turn swaps x and z.
    pub fn transform_size(&self, size: (i32, i32, i32)) -> (r: (i32, i32, i32))
        ensures
            r == (if swaps_axes(*self) {
                (size.2, size.1, size.0)
            } else {
                size
            }),
    {
        match self {
            Rotation::Clockwise90 | Rotation::CounterClockwise90 => (size.2, size.1, size.0),
            _ => size,
        }
    }
}


/// Rotation indices count quarter turns clockwise: 0 none, 1 a quarter
/// turn clockwise, 2 a half turn, 3 a quarter turn counter-clockwise; the
/// four indices give four different rotations, and exactly the odd ones
/// (the quarter turns) swap the x and z extents.
pub proof fn lemma_rotation_indices(i: u8, j: u8)
    requires
        i < 4,
        j < 4,
    ensures
        rotation_of_index(0) == Rotation::NoRotation,
        rotation_of_index(1) == Rotation::Clockwise90,
        rotation_of_index(2) == Rotation::Clockwise180,
        rotation_of_index(3) == Rotation::CounterClockwise90,
        rotation_of_index(i) == rotation_of_index(j) ==> i == j,
        swaps_axes(rotation_of_index(i)) <==> i % 2 == 1,
{
}

} // verus!
