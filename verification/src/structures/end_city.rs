//! End cities: a tower stacked from four templates, with an end ship beside
//! it half of the time, and the end ship as a structure of its own.

use vstd::prelude::*;
use crate::math::{BlockBox, BlockPos, chunk_in_range, chunk_start, get_center_x, get_center_z};
use crate::structures::{Rotation, StructurePiece, StructurePieceType, rotation_of_index};

verus! {

/// The box of a structure reaching `radius` blocks around the column
/// `(cx, cz)`, from `min_y` up to height 256.
pub open spec fn centred_box(cx: int, cz: int, radius: int, min_y: i32) -> BlockBox {
    BlockBox {
        min: BlockPos { x: (cx - radius) as i32, y: min_y, z: (cz - radius) as i32 },
        max: BlockPos { x: (cx + radius) as i32, y: 256, z: (cz + radius) as i32 },
    }
}

/// Where an end city starts, how it is turned, and whether it has a ship.
pub struct EndCityPlacement {
    pub start_pos: BlockPos,
    pub piece: StructurePiece,
    pub rotation: Rotation,
    pub has_ship: bool,
}

/// Where a stand-alone end ship starts and how it is turned.
pub struct EndCityShipPlacement {
    pub start_pos: BlockPos,
    pub piece: StructurePiece,
    pub rotation: Rotation,
}

/// Generator for end cities.
pub struct EndCityGenerator;

/// Generator for stand-alone end ships.
pub struct EndCityShipGenerator;

impl EndCityGenerator {
    /// Where an end city in chunk `(chunk_x, chunk_z)` starts, given the
    /// random rotation index (0 to 3), the random choice of a ship, and
    /// which of its five templates (base floor, tower base, tower piece,
    /// tower top, ship) were found: nothing when any is missing, else the
    /// chunk centre at height 64, in a box reaching 30 blocks around it
    /// from `min_y` to 256.
    pub fn get_structure_position(
        &self,
        chunk_x: i32,
        chunk_z: i32,
        min_y: i32,
        rotation_index: u8,
        templates_found: [bool; 5],
        has_ship: bool,
    ) -> (r: Option<EndCityPlacement>)
        requires
            chunk_in_range(chunk_x),
            chunk_in_range(chunk_z),
            rotation_index < 4,
        ensures
            r is None <==> exists|i: int| 0 <= i < 5 && !templates_found@[i],
            r matches Some(p) ==> {
                &&& p.start_pos == (BlockPos {
                    x: (chunk_start(chunk_x) + 8) as i32,
                    y: 64,
                    z: (chunk_start(chunk_z) + 8) as i32,
                })
                &&& p.piece == (StructurePiece {
                    piece_type: StructurePieceType::EndCity,
                    bounding_box: centred_box(
                        chunk_start(chunk_x) + 8,
                        chunk_start(chunk_z) + 8,
                        30,
                        min_y,
                    ),
                    chain_length: 0,
                })
                &&& p.rotation == rotation_of_index(rotation_index)
                &&& p.has_ship == has_ship
            },
    {
        let cx = get_center_x(chunk_x);
        let cz = get_center_z(chunk_z);
        let rotation = Rotation::from_index(rotation_index);
        let mut i: usize = 0;
        while i < 5
            invariant
                i <= 5,
                forall|j: int| 0 <= j < i ==> templates_found@[j],
            decreases 5 - i,
        {
            if !templates_found[i] {
                return None;
            }
            i = i + 1;
        }
        let bounding_box = BlockBox::new(cx - 30, min_y, cz - 30, cx + 30, 256, cz + 30);
        Some(
            EndCityPlacement {
                start_pos: BlockPos::new(cx, 64, cz),
                piece: StructurePiece::new(StructurePieceType::EndCity, bounding_box, 0),
                rotation,
                has_ship,
            },
        )
    }
}

impl EndCityShipGenerator {
    /// Where an end ship in chunk `(chunk_x, chunk_z)` starts, given the
    /// random rotation index (0 to 3) and whether the ship template was
    /// found: nothing when it is missing, else the chunk centre at height
    /// 64, in a box reaching 20 blocks around it from `min_y` to 256.
    pub fn get_structure_position(
        &self,
        chunk_x: i32,
        chunk_z: i32,
        min_y: i32,
        rotation_index: u8,
        ship_found: bool,
    ) -> (r: Option<EndCityShipPlacement>)
        requires
            chunk_in_range(chunk_x),
            chunk_in_range(chunk_z),
            rotation_index < 4,
        ensures
            r is None <==> !ship_found,
            r matches Some(p) ==> {
                &&& p.start_pos == (BlockPos {
                    x: (chunk_start(chunk_x) + 8) as i32,
                    y: 64,
                    z: (chunk_start(chunk_z) + 8) as i32,
                })
                &&& p.piece == (StructurePiece {
                    piece_type: StructurePieceType::EndCityShip,
                    bounding_box: centred_box(
                        chunk_start(chunk_x) + 8,
                        chunk_start(chunk_z) + 8,
                        20,
                        min_y,
                    ),
                    chain_length: 0,
                })
                &&& p.rotation == rotation_of_index(rotation_index)
            },
    {
        let cx = get_center_x(chunk_x);
        let cz = get_center_z(chunk_z);
        let rotation = Rotation::from_index(rotation_index);
        if !ship_found {
            return None;
        }
        let bounding_box = BlockBox::new(cx - 20, min_y, cz - 20, cx + 20, 256, cz + 20);
        Some(
            EndCityShipPlacement {
                start_pos: BlockPos::new(cx, 64, cz),
                piece: StructurePiece::new(StructurePieceType::EndCityShip, bounding_box, 0),
                rotation,
            },
        )
    }
}

/// The height an end city is built from: the surface height sampled at
/// its origin, or 60 where the sample is not above 0.
pub open spec fn start_height(surface_y: i32) -> int {
    if surface_y <= 0 {
        60
    } else {
        surface_y as int
    }
}

/// Where each template of an end city goes: the base floor on the start
/// height, each tower part on top of the one below, and the ship, if any,
/// 16 blocks out in x and z and 20 blocks up.
pub struct EndCityLayout {
    pub base_floor: BlockPos,
    pub tower_base: BlockPos,
    pub tower_piece: BlockPos,
    pub tower_top: BlockPos,
    pub ship: Option<BlockPos>,
}

/// Inputs for which an end city's layout stays within `i32`.
pub open spec fn layout_fits(
    origin: BlockPos,
    surface_y: i32,
    base_floor_height: i32,
    tower_base_height: i32,
    tower_piece_height: i32,
) -> bool {
    &&& i32::MIN <= start_height(surface_y) + base_floor_height <= i32::MAX
    &&& i32::MIN <= start_height(surface_y) + base_floor_height + tower_base_height <= i32::MAX
    &&& i32::MIN <= start_height(surface_y) + base_floor_height + tower_base_height
        + tower_piece_height <= i32::MAX
    &&& start_height(surface_y) + 20 <= i32::MAX
    &&& origin.x + 16 <= i32::MAX
    &&& origin.z + 16 <= i32::MAX
}

/// Where the templates of an end city whose box starts at `origin` go,
/// given the surface height sampled there and the heights of the base
/// floor, tower base and tower piece templates.
pub fn end_city_layout(
    origin: BlockPos,
    surface_y: i32,
    base_floor_height: i32,
    tower_base_height: i32,
    tower_piece_height: i32,
    has_ship: bool,
) -> (l: EndCityLayout)
    requires
        layout_fits(origin, surface_y, base_floor_height, tower_base_height, tower_piece_height),
    ensures
        l.base_floor == (BlockPos { x: origin.x, y: start_height(surface_y) as i32, z: origin.z }),
        l.tower_base == (BlockPos {
            x: origin.x,
            y: (start_height(surface_y) + base_floor_height) as i32,
            z: origin.z,
        }),
        l.tower_piece == (BlockPos {
            x: origin.x,
            y: (start_height(surface_y) + base_floor_height + tower_base_height) as i32,
            z: origin.z,
        }),
        l.tower_top == (BlockPos {
            x: origin.x,
            y: (start_height(surface_y) + base_floor_height + tower_base_height
                + tower_piece_height) as i32,
            z: origin.z,
        }),
        has_ship ==> l.ship == Some(
            BlockPos {
                x: (origin.x + 16) as i32,
                y: (start_height(surface_y) + 20) as i32,
                z: (origin.z + 16) as i32,
            },
        ),
        !has_ship ==> l.ship is None,
{
    let start_y = if surface_y <= 0 {
        60
    } else {
        surface_y
    };
    let mut pos = BlockPos { x: origin.x, y: start_y, z: origin.z };
    let base_floor = pos;
    pos.y = pos.y + base_floor_height;
    let tower_base = pos;
    pos.y = pos.y + tower_base_height;
    let tower_piece = pos;
    pos.y = pos.y + tower_piece_height;
    let tower_top = pos;
    let ship = if has_ship {
        Some(BlockPos { x: origin.x + 16, y: start_y + 20, z: origin.z + 16 })
    } else {
        None
    };
    EndCityLayout { base_floor, tower_base, tower_piece, tower_top, ship }
}

/// Where a stand-alone end ship whose box starts at `origin` goes: 20
/// blocks above the start height.
pub fn end_ship_origin(origin: BlockPos, surface_y: i32) -> (p: BlockPos)
    requires
        start_height(surface_y) + 20 <= i32::MAX,
    ensures
        p == (BlockPos { x: origin.x, y: (start_height(surface_y) + 20) as i32, z: origin.z }),
{
    let start_y = if surface_y <= 0 {
        60
    } else {
        surface_y
    };
    BlockPos { x: origin.x, y: start_y + 20, z: origin.z }
}

} // verus!
