//! The desert well: a small sandstone well with water at the bottom, built
//! block by block on a sand surface.

use vstd::prelude::*;
use crate::math::{BlockBox, BlockPos, box_contains, chunk_in_range, chunk_start, start_block_x, start_block_z};
use crate::structures::{StructurePiece, StructurePieceType};

verus! {

broadcast use vstd::seq_lib::group_filter_ensures;

/// The blocks a well is built from.
#[derive(Debug, Clone, Copy, PartialEq, Eq, Structural)]
pub enum WellBlock {
    Sandstone,
    SandstoneSlab,
    Water,
}

/// The offset `(dx, dz)` of cell `i` of the 5 by 5 grid around the well's
/// centre, walking dx from -2 to 2 and, within it, dz from -2 to 2.
pub open spec fn grid_offset(i: int) -> (int, int) {
    (i / 5 - 2, i % 5 - 2)
}

/// Whether cell `i` is on the rim of the grid but not a corner: where the
/// walls and the slabs go.
pub open spec fn on_rim(i: int) -> bool {
    let (dx, dz) = grid_offset(i);
    (dx == -2 || dx == 2 || dz == -2 || dz == 2) && !(dx == -2 && dz == -2) && !(dx == -2 && dz
        == 2) && !(dx == 2 && dz == -2) && !(dx == 2 && dz == 2)
}

/// The block position of cell `i` of the grid at height `y` around column
/// `(x, z)`.
pub open spec fn grid_pos(x: i32, y: int, z: i32, i: int) -> BlockPos {
    BlockPos { x: (x + grid_offset(i).0) as i32, y: y as i32, z: (z + grid_offset(i).1) as i32 }
}

/// Whether cell `i` of one layer is set: it lies in the chunk box and, for
/// a rim layer, on the rim.
pub open spec fn layer_cell(x: i32, y: int, z: i32, rim_only: bool, bx: BlockBox, i: int) -> bool {
    (!rim_only || on_rim(i)) && box_contains(bx, grid_pos(x, y, z, i))
}

/// One layer of the well at height `y`: the cells that are set, in grid
/// order, each with `block`.
pub open spec fn layer(
    x: i32,
    y: int,
    z: i32,
    rim_only: bool,
    block: WellBlock,
    bx: BlockBox,
) -> Seq<(BlockPos, WellBlock)> {
    Seq::new(25, |i: int| i).filter(|i: int| layer_cell(x, y, z, rim_only, bx, i)).map_values(
        |i: int| (grid_pos(x, y, z, i), block),
    )
}

/// The blocks of a well on surface height `y` at column `(x, z)`, in the
/// order they are set, leaving out those outside the chunk box: a full
/// sandstone floor below the surface, two layers of sandstone walls on the
/// rim, water in the centre, and sandstone slabs on the rim above.
pub open spec fn well_plan(x: i32, y: i32, z: i32, bx: BlockBox) -> Seq<(BlockPos, WellBlock)> {
    let centre = BlockPos { x, y, z };
    layer(x, y - 1, z, false, WellBlock::Sandstone, bx) + layer(
        x,
        y as int,
        z,
        true,
        WellBlock::Sandstone,
        bx,
    ) + layer(x, y + 1, z, true, WellBlock::Sandstone, bx) + (if box_contains(bx, centre) {
        seq![(centre, WellBlock::Water)]
    } else {
        Seq::empty()
    }) + layer(x, y + 2, z, true, WellBlock::SandstoneSlab, bx)
}

/// The positions that must hold air before a well is built on the sand
/// surface block at `(x, y, z)`: the 5 by 5 grids of the two layers above
/// it, cell by cell.
pub open spec fn site_positions(x: i32, y: i32, z: i32) -> Seq<BlockPos> {
    Seq::new(50, |k: int| grid_pos(x, y + 1 + k % 2, z, k / 2))
}

/// Every position that must hold air lies above the surface block, so a
/// sand surface with two clear layers above it is a valid site.
pub proof fn lemma_site_above_surface(x: i32, y: i32, z: i32, k: int)
    requires
        i32::MIN + 2 <= x <= i32::MAX - 2,
        i32::MIN + 2 <= z <= i32::MAX - 2,
        y <= i32::MAX - 2,
        0 <= k < 50,
    ensures
        site_positions(x, y, z)[k].y > y,
        site_positions(x, y, z)[k] != (BlockPos { x, y, z }),
{
}

/// Coordinates around which a well can be laid out without overflow.
pub open spec fn well_fits(x: i32, y: i32, z: i32) -> bool {
    &&& i32::MIN + 2 <= x <= i32::MAX - 2
    &&& i32::MIN + 2 <= z <= i32::MAX - 2
    &&& i32::MIN + 1 <= y <= i32::MAX - 2
}

/// Append one layer of the well to `plan`.
fn push_layer(
    plan: &mut Vec<(BlockPos, WellBlock)>,
    x: i32,
    y: i32,
    z: i32,
    rim_only: bool,
    block: WellBlock,
    bx: &BlockBox,
)
    requires
        i32::MIN + 2 <= x <= i32::MAX - 2,
        i32::MIN + 2 <= z <= i32::MAX - 2,
    ensures
        final(plan)@ == old(plan)@ + layer(x, y as int, z, rim_only, block, *bx),
{
    let ghost pred = |i: int| layer_cell(x, y as int, z, rim_only, *bx, i);
    let ghost f = |i: int| (grid_pos(x, y as int, z, i), block);
    let mut i: i32 = 0;
    while i < 25
        invariant
            0 <= i <= 25,
            i32::MIN + 2 <= x <= i32::MAX - 2,
            i32::MIN + 2 <= z <= i32::MAX - 2,
            pred == (|i: int| layer_cell(x, y as int, z, rim_only, *bx, i)),
            f == (|i: int| (grid_pos(x, y as int, z, i), block)),
            plan@ == old(plan)@ + Seq::new(i as nat, |k: int| k).filter(pred).map_values(f),
        decreases 25 - i,
    {
        let dx = i / 5 - 2;
        let dz = i % 5 - 2;
        let on_edge = (dx == -2 || dx == 2 || dz == -2 || dz == 2) && !(dx == -2 && dz == -2) && !(
        dx == -2 && dz == 2) && !(dx == 2 && dz == -2) && !(dx == 2 && dz == 2);
        let pos = BlockPos { x: x + dx, y, z: z + dz };
        assert(pos == grid_pos(x, y as int, z, i as int));
        let set = (!rim_only || on_edge) && bx.contains_pos(&pos);
        proof {
            let s = Seq::new(i as nat, |k: int| k);
            assert(Seq::new((i + 1) as nat, |k: int| k) =~= s.push(i as int));
            s.lemma_filter_push(i as int, pred);
            assert(set == pred(i as int));
            if set {
                assert(s.filter(pred).push(i as int).map_values(f) =~= s.filter(pred).map_values(
                    f,
                ).push((pos, block)));
            }
        }
        if set {
            plan.push((pos, block));
        }
        i = i + 1;
    }
}

/// The blocks of a well on surface height `y` at column `(x, z)`, in the
/// order they are set, leaving out those outside `chunk_box`.
pub fn well_placements(x: i32, y: i32, z: i32, chunk_box: &BlockBox) -> (plan: Vec<
    (BlockPos, WellBlock),
>)
    requires
        well_fits(x, y, z),
    ensures
        plan@ == well_plan(x, y, z, *chunk_box),
{
    let mut plan: Vec<(BlockPos, WellBlock)> = Vec::new();
    push_layer(&mut plan, x, y - 1, z, false, WellBlock::Sandstone, chunk_box);
    push_layer(&mut plan, x, y, z, true, WellBlock::Sandstone, chunk_box);
    push_layer(&mut plan, x, y + 1, z, true, WellBlock::Sandstone, chunk_box);
    let centre = BlockPos { x, y, z };
    let ghost before_water = plan@;
    if chunk_box.contains_pos(&centre) {
        plan.push((centre, WellBlock::Water));
    }
    push_layer(&mut plan, x, y + 2, z, true, WellBlock::SandstoneSlab, chunk_box);
    assert(plan@ =~= well_plan(x, y, z, *chunk_box));
    plan
}

/// The positions that must hold air before a well is built on the sand
/// surface block at height `y` of column `(x, z)`: the two layers above it.
pub fn well_site_positions(x: i32, y: i32, z: i32) -> (sites: Vec<BlockPos>)
    requires
        well_fits(x, y, z),
    ensures
        sites@ == site_positions(x, y, z),
{
    let mut sites: Vec<BlockPos> = Vec::new();
    let mut k: i32 = 0;
    while k < 50
        invariant
            0 <= k <= 50,
            well_fits(x, y, z),
            sites@ =~= site_positions(x, y, z).take(k as int),
        decreases 50 - k,
    {
        let cell = k / 2;
        let dx = cell / 5 - 2;
        let dz = cell % 5 - 2;
        let pos = BlockPos { x: x + dx, y: y + 1 + k % 2, z: z + dz };
        assert(pos == site_positions(x, y, z)[k as int]);
        sites.push(pos);
        k = k + 1;
    }
    sites
}

/// Whether a well may be built: the surface block is sand and every site
/// position (the two layers above it) holds air.
pub fn well_site_is_valid(surface_is_sand: bool, site_is_air: &Vec<bool>) -> (ok: bool)
    requires
        site_is_air@.len() == 50,
    ensures
        ok == (surface_is_sand && forall|k: int| 0 <= k < 50 ==> #[trigger] site_is_air@[k]),
{
    if !surface_is_sand {
        return false;
    }
    let mut k: usize = 0;
    while k < 50
        invariant
            0 <= k <= 50,
            site_is_air@.len() == 50,
            forall|j: int| 0 <= j < k ==> #[trigger] site_is_air@[j],
        decreases 50 - k,
    {
        if !site_is_air[k] {
            return false;
        }
        k = k + 1;
    }
    true
}

/// Try to build a well at column `(x, z)` whose surface block is at height
/// `y`, given whether that block is sand and, for each position of
/// [`site_positions`] (the two layers above it) in turn, whether it holds
/// air: nothing when the surface is not sand or a site position is not air,
/// else the blocks to set, in order, leaving out those outside `chunk_box`.
pub fn try_generate_well_in_chunk(
    x: i32,
    y: i32,
    z: i32,
    surface_is_sand: bool,
    site_is_air: &Vec<bool>,
    chunk_box: &BlockBox,
) -> (plan: Option<Vec<(BlockPos, WellBlock)>>)
    requires
        well_fits(x, y, z),
        site_is_air@.len() == 50,
    ensures
        plan is Some <==> (surface_is_sand && forall|k: int|
            0 <= k < 50 ==> #[trigger] site_is_air@[k]),
        plan matches Some(p) ==> p@ == well_plan(x, y, z, *chunk_box),
{
    if !well_site_is_valid(surface_is_sand, site_is_air) {
        return None;
    }
    Some(well_placements(x, y, z, chunk_box))
}

/// Generator for desert wells.
pub struct DesertWellGenerator;

/// The piece of a desert well.
pub struct DesertWellPiece {
    pub piece: StructurePiece,
}

/// The box of a desert well piece started at column `(x, z)`: two blocks
/// around the column, from height 0 to 255. The well itself is built around
/// the box's low corner (see [`DesertWellPiece::well_column`]), so its
/// blocks reach up to two blocks beyond the box's low sides and this box
/// does not bound them.
pub open spec fn well_box(x: int, z: int) -> BlockBox {
    BlockBox {
        min: BlockPos { x: (x - 2) as i32, y: 0, z: (z - 2) as i32 },
        max: BlockPos { x: (x + 2) as i32, y: 255, z: (z + 2) as i32 },
    }
}

impl DesertWellGenerator {
    /// Where a desert well in chunk `(chunk_x, chunk_z)` starts, given the
    /// random offsets (0 to 15) of its column within the chunk: the start
    /// position at height 64 and a piece whose box spans two blocks around
    /// the column from height 0 to 255.
    pub fn get_structure_position(
        &self,
        chunk_x: i32,
        chunk_z: i32,
        offset_x: i32,
        offset_z: i32,
    ) -> (r: (BlockPos, DesertWellPiece))
        requires
            chunk_in_range(chunk_x),
            chunk_in_range(chunk_z),
            0 <= offset_x < 16,
            0 <= offset_z < 16,
        ensures
            r.0 == (BlockPos {
                x: (chunk_start(chunk_x) + offset_x) as i32,
                y: 64,
                z: (chunk_start(chunk_z) + offset_z) as i32,
            }),
            r.1.piece == (StructurePiece {
                piece_type: StructurePieceType::DesertWell,
                bounding_box: well_box(
                    chunk_start(chunk_x) + offset_x,
                    chunk_start(chunk_z) + offset_z,
                ),
                chain_length: 0,
            }),
    {
        let x = start_block_x(chunk_x) + offset_x;
        let z = start_block_z(chunk_z) + offset_z;
        let bounding_box = BlockBox::new(x - 2, 0, z - 2, x + 2, 255, z + 2);
        let piece = StructurePiece::new(StructurePieceType::DesertWell, bounding_box, 0);
        (BlockPos::new(x, 64, z), DesertWellPiece { piece })
    }
}

impl DesertWellPiece {
    /// The column the well is built around: the low corner of the piece's
    /// box, not its centre.
    pub fn well_column(&self) -> (c: (i32, i32))
        ensures
            c == (self.piece.bounding_box.min.x, self.piece.bounding_box.min.z),
    {
        (self.piece.bounding_box.min.x, self.piece.bounding_box.min.z)
    }
}

} // verus!
