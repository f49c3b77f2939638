//! Overworld fossils: buried bone structures with an ore overlay, in a
//! plain variant and a deepslate one.

use vstd::prelude::*;
use crate::math::{BlockBox, BlockPos, chunk_in_range, chunk_start, start_block_x, start_block_z};
use crate::structures::{
    Rotation, StructurePiece, StructurePieceType, rotation_of_index, swaps_axes,
};

verus! {

/// Number of fossil shapes, each with its overlay.
pub const FOSSIL_COUNT: usize = 7;

/// The fossil templates of the given variant, by index.
pub open spec fn fossil_structures(deepslate: bool) -> Seq<&'static str> {
    if deepslate {
        seq![
        "fossil/fossil_1_deepslate",
        "fossil/fossil_2_deepslate",
        "fossil/fossil_3_deepslate",
        "fossil/fossil_4_deepslate",
        "fossil/fossil_5_deepslate",
        "fossil/fossil_6_deepslate",
        "fossil/fossil_7_deepslate",
    ]
    } else {
        seq![
        "fossil/fossil_1",
        "fossil/fossil_2",
        "fossil/fossil_3",
        "fossil/fossil_4",
        "fossil/fossil_5",
        "fossil/fossil_6",
        "fossil/fossil_7",
    ]
    }
}
/// The ore overlay templates of the given variant, by index: coal for the plain variant, diamond for the deepslate one.
pub open spec fn fossil_overlays(deepslate: bool) -> Seq<&'static str> {
    if deepslate {
        seq![
        "fossil/fossil_1_diamond",
        "fossil/fossil_2_diamond",
        "fossil/fossil_3_diamond",
        "fossil/fossil_4_diamond",
        "fossil/fossil_5_diamond",
        "fossil/fossil_6_diamond",
        "fossil/fossil_7_diamond",
    ]
    } else {
        seq![
        "fossil/fossil_1_coal",
        "fossil/fossil_2_coal",
        "fossil/fossil_3_coal",
        "fossil/fossil_4_coal",
        "fossil/fossil_5_coal",
        "fossil/fossil_6_coal",
        "fossil/fossil_7_coal",
    ]
    }
}

/// Generator for overworld fossils.
pub struct OverworldFossilGenerator {
    pub is_deepslate: bool,
}

/// Where a fossil starts, the box it may touch, how it is turned and which
/// templates it is built from.
pub struct FossilPlacement {
    pub start_pos: BlockPos,
    pub piece: StructurePiece,
    pub rotation: Rotation,
    pub fossil_template: &'static str,
    pub overlay_template: &'static str,
}

/// The box of a fossil whose turned extents are `size` around column
/// `(x, z)`: half of each horizontal extent either way, from `min_y` to 256.
pub open spec fn fossil_box(x: int, z: int, size: (i32, i32, i32), min_y: i32) -> BlockBox {
    BlockBox {
        min: BlockPos { x: (x - size.0 / 2) as i32, y: min_y, z: (z - size.2 / 2) as i32 },
        max: BlockPos { x: (x + size.0 / 2) as i32, y: 256, z: (z + size.2 / 2) as i32 },
    }
}

/// Half of an extent `size` fits either way around coordinate `c`.
pub open spec fn half_extent_fits(c: int, size: i32) -> bool {
    i32::MIN <= c - size / 2 && c + size / 2 <= i32::MAX
}

/// The extents of a fossil after `rotation`.
pub open spec fn turned_size(rotation: Rotation, size: (i32, i32, i32)) -> (i32, i32, i32) {
    if swaps_axes(rotation) {
        (size.2, size.1, size.0)
    } else {
        size
    }
}

impl OverworldFossilGenerator {
    /// The plain variant, with coal overlays.
    pub fn new() -> (g: Self)
        ensures
            !g.is_deepslate,
    {
        OverworldFossilGenerator { is_deepslate: false }
    }

    /// The deepslate variant, with diamond overlays.
    pub fn deepslate() -> (g: Self)
        ensures
            g.is_deepslate,
    {
        OverworldFossilGenerator { is_deepslate: true }
    }

    /// The fossil template and its overlay at `index` in this variant's
    /// tables.
    pub fn template_names(&self, index: usize) -> (names: (&'static str, &'static str))
        requires
            index < FOSSIL_COUNT,
        ensures
            names.0 == fossil_structures(self.is_deepslate)[index as int],
            names.1 == fossil_overlays(self.is_deepslate)[index as int],
    {
        let fossil = if self.is_deepslate {
            match index {
                0 => "fossil/fossil_1_deepslate",
                1 => "fossil/fossil_2_deepslate",
                2 => "fossil/fossil_3_deepslate",
                3 => "fossil/fossil_4_deepslate",
                4 => "fossil/fossil_5_deepslate",
                5 => "fossil/fossil_6_deepslate",
                _ => "fossil/fossil_7_deepslate",
            }
        } else {
            match index {
                0 => "fossil/fossil_1",
                1 => "fossil/fossil_2",
                2 => "fossil/fossil_3",
                3 => "fossil/fossil_4",
                4 => "fossil/fossil_5",
                5 => "fossil/fossil_6",
                _ => "fossil/fossil_7",
            }
        };
        let overlay = if self.is_deepslate {
            match index {
                0 => "fossil/fossil_1_diamond",
                1 => "fossil/fossil_2_diamond",
                2 => "fossil/fossil_3_diamond",
                3 => "fossil/fossil_4_diamond",
                4 => "fossil/fossil_5_diamond",
                5 => "fossil/fossil_6_diamond",
                _ => "fossil/fossil_7_diamond",
            }
        } else {
            match index {
                0 => "fossil/fossil_1_coal",
                1 => "fossil/fossil_2_coal",
                2 => "fossil/fossil_3_coal",
                3 => "fossil/fossil_4_coal",
                4 => "fossil/fossil_5_coal",
                5 => "fossil/fossil_6_coal",
                _ => "fossil/fossil_7_coal",
            }
        };
        (fossil, overlay)
    }

    /// Where a fossil in chunk `(chunk_x, chunk_z)` starts, given the random
    /// offsets (0 to 15) of its column within the chunk, the random
    /// rotation index (0 to 3), the random template index, the extents of
    /// that fossil template if it was found, and whether its overlay
    /// template was found. There is no fossil when either template is
    /// missing.
    pub fn get_structure_position(
        &self,
        chunk_x: i32,
        chunk_z: i32,
        offset_x: i32,
        offset_z: i32,
        rotation_index: u8,
        template_index: usize,
        fossil_size: Option<(i32, i32, i32)>,
        overlay_found: bool,
        min_y: i32,
    ) -> (r: Option<FossilPlacement>)
        requires
            chunk_in_range(chunk_x),
            chunk_in_range(chunk_z),
            0 <= offset_x < 16,
            0 <= offset_z < 16,
            rotation_index < 4,
            template_index < FOSSIL_COUNT,
            fossil_size matches Some(size) ==> {
                &&& 0 <= size.0
                &&& 0 <= size.2
                &&& half_extent_fits(chunk_start(chunk_x) + offset_x, size.0)
                &&& half_extent_fits(chunk_start(chunk_x) + offset_x, size.2)
                &&& half_extent_fits(chunk_start(chunk_z) + offset_z, size.0)
                &&& half_extent_fits(chunk_start(chunk_z) + offset_z, size.2)
            },
        ensures
            r is None <==> (fossil_size is None || !overlay_found),
            r matches Some(p) ==> {
                &&& p.start_pos == (BlockPos {
                    x: (chunk_start(chunk_x) + offset_x) as i32,
                    y: 64,
                    z: (chunk_start(chunk_z) + offset_z) as i32,
                })
                &&& p.rotation == rotation_of_index(rotation_index)
                &&& p.piece == (StructurePiece {
                    piece_type: StructurePieceType::OverworldFossil,
                    bounding_box: fossil_box(
                        chunk_start(chunk_x) + offset_x,
                        chunk_start(chunk_z) + offset_z,
                        turned_size(rotation_of_index(rotation_index), fossil_size->0),
                        min_y,
                    ),
                    chain_length: 0,
                })
                &&& p.fossil_template == fossil_structures(self.is_deepslate)[template_index as int]
                &&& p.overlay_template == fossil_overlays(self.is_deepslate)[template_index as int]
            },
    {
        let x = start_block_x(chunk_x) + offset_x;
        let z = start_block_z(chunk_z) + offset_z;
        let rotation = Rotation::from_index(rotation_index);
        let names = self.template_names(template_index);
        let size = match fossil_size {
            Some(size) => size,
            None => {
                return None;
            },
        };
        if !overlay_found {
            return None;
        }
        let rotated_size = rotation.transform_size(size);
        let half_x = rotated_size.0 / 2;
        let half_z = rotated_size.2 / 2;
        let bounding_box = BlockBox::new(x - half_x, min_y, z - half_z, x + half_x, 256, z + half_z);
        Some(
            FossilPlacement {
                start_pos: BlockPos::new(x, 64, z),
                piece: StructurePiece::new(StructurePieceType::OverworldFossil, bounding_box, 0),
                rotation,
                fossil_template: names.0,
                overlay_template: names.1,
            },
        )
    }
}

} // verus!
