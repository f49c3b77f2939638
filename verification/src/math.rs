//! Block positions, axis-aligned block boxes and chunk coordinates.

use vstd::prelude::*;

verus! {

/// A block position in the world.
#[derive(Debug, Clone, Copy, PartialEq, Eq, Structural)]
pub struct BlockPos {
    pub x: i32,
    pub y: i32,
    pub z: i32,
}

/// The 64-bit packing of a block position: 26 bits of x, then 26 bits of
/// z, then 12 bits of y.
pub open spec fn packed_bits(x: i32, y: i32, z: i32) -> u64 {
    (((x as u64) & 0x3FF_FFFF) << 38u64) | (((z as u64) & 0x3FF_FFFF) << 12u64) | ((y as u64)
        & 0xFFF)
}

/// The `bits`-bit two's complement value of the low `bits` bits of `u`.
pub open spec fn sign_extend(u: int, bits: nat) -> int {
    if u >= vstd::arithmetic::power2::pow2((bits - 1) as nat) {
        u - vstd::arithmetic::power2::pow2(bits)
    } else {
        u
    }
}

/// The coordinates packed in a 64-bit block position.
pub open spec fn unpacked(v: i64) -> BlockPos {
    let u = v as u64;
    BlockPos {
        x: sign_extend((u >> 38u64) as int, 26) as i32,
        y: sign_extend((u & 0xFFF) as int, 12) as i32,
        z: sign_extend(((u >> 12u64) & 0x3FF_FFFF) as int, 26) as i32,
    }
}

/// Coordinates the packing holds without loss.
pub open spec fn packable(x: i32, y: i32, z: i32) -> bool {
    &&& -0x200_0000 <= x < 0x200_0000
    &&& -0x800 <= y < 0x800
    &&& -0x200_0000 <= z < 0x200_0000
}

impl BlockPos {
    /// The position `(x, y, z)`.
    pub fn new(x: i32, y: i32, z: i32) -> (p: Self)
        ensures
            p == (BlockPos { x, y, z }),
    {
        BlockPos { x, y, z }
    }

    /// The position packed into 64 bits.
    pub fn to_i64(&self) -> (v: i64)
        ensures
            v == packed_bits(self.x, self.y, self.z) as i64,
    {
        let bits: u64 = (((self.x as u64) & 0x3FF_FFFF) << 38u64) | (((self.z as u64)
            & 0x3FF_FFFF) << 12u64) | ((self.y as u64) & 0xFFF);
        bits as i64
    }

    /// The position a packed 64-bit value holds.
    pub fn from_i64(v: i64) -> (p: Self)
        ensures
            p == unpacked(v),
    {
        let u = v as u64;
        let xb: u64 = u >> 38u64;
        let yb: u64 = u & 0xFFF;
        let zb: u64 = (u >> 12u64) & 0x3FF_FFFF;
        assert(xb < 0x400_0000) by (bit_vector)
            requires
                xb == u >> 38u64,
        ;
        assert(zb < 0x400_0000) by (bit_vector)
            requires
                zb == (u >> 12u64) & 0x3FF_FFFF,
        ;
        assert(yb < 0x1000) by (bit_vector)
            requires
                yb == u & 0xFFF,
        ;
        proof {
            vstd::arithmetic::power2::lemma2_to64();
            vstd::arithmetic::power2::lemma2_to64_rest();
        }
        let x: i32 = if xb >= 0x200_0000 {
            (xb as i64 - 0x400_0000) as i32
        } else {
            xb as i32
        };
        let y: i32 = if yb >= 0x800 {
            (yb as i64 - 0x1000) as i32
        } else {
            yb as i32
        };
        let z: i32 = if zb >= 0x200_0000 {
            (zb as i64 - 0x400_0000) as i32
        } else {
            zb as i32
        };
        BlockPos { x, y, z }
    }
}

/// Unpacking a packed position gives the position back, for every
/// position the packing can hold.
pub proof fn lemma_block_pos_roundtrip(x: i32, y: i32, z: i32)
    requires
        packable(x, y, z),
    ensures
        unpacked(packed_bits(x, y, z) as i64) == (BlockPos { x, y, z }),
{
    let p = packed_bits(x, y, z);
    let u = (p as i64) as u64;
    assert(u == p) by (bit_vector)
        requires
            u == (p as i64) as u64,
    ;
    vstd::arithmetic::power2::lemma2_to64();
    vstd::arithmetic::power2::lemma2_to64_rest();
    assert((u >> 38u64) == ((x as u64) & 0x3FF_FFFF)) by (bit_vector)
        requires
            u == (((x as u64) & 0x3FF_FFFF) << 38u64) | (((z as u64) & 0x3FF_FFFF) << 12u64) | ((
                y as u64) & 0xFFF),
    ;
    assert((u & 0xFFF) == ((y as u64) & 0xFFF)) by (bit_vector)
        requires
            u == (((x as u64) & 0x3FF_FFFF) << 38u64) | (((z as u64) & 0x3FF_FFFF) << 12u64) | ((
                y as u64) & 0xFFF),
    ;
    assert(((u >> 12u64) & 0x3FF_FFFF) == ((z as u64) & 0x3FF_FFFF)) by (bit_vector)
        requires
            u == (((x as u64) & 0x3FF_FFFF) << 38u64) | (((z as u64) & 0x3FF_FFFF) << 12u64) | ((
                y as u64) & 0xFFF),
    ;
    assert(((x as u64) & 0x3FF_FFFF) == (if x >= 0 {
        x as int
    } else {
        x + 0x400_0000
    })) by (bit_vector)
        requires
            -0x200_0000 <= x < 0x200_0000,
    ;
    assert(((z as u64) & 0x3FF_FFFF) == (if z >= 0 {
        z as int
    } else {
        z + 0x400_0000
    })) by (bit_vector)
        requires
            -0x200_0000 <= z < 0x200_0000,
    ;
    assert(((y as u64) & 0xFFF) == (if y >= 0 {
        y as int
    } else {
        y + 0x1000
    })) by (bit_vector)
        requires
            -0x800 <= y < 0x800,
    ;
}

/// An axis-aligned box of blocks, bounds included.
#[derive(Debug, Clone, Copy, PartialEq, Eq, Structural)]
pub struct BlockBox {
    pub min: BlockPos,
    pub max: BlockPos,
}

/// Whether `p` lies in `b`, bounds included.
pub open spec fn box_contains(b: BlockBox, p: BlockPos) -> bool {
    &&& b.min.x <= p.x <= b.max.x
    &&& b.min.y <= p.y <= b.max.y
    &&& b.min.z <= p.z <= b.max.z
}

impl BlockBox {
    /// The box from `(min_x, min_y, min_z)` to `(max_x, max_y, max_z)`.
    pub fn new(min_x: i32, min_y: i32, min_z: i32, max_x: i32, max_y: i32, max_z: i32) -> (b:
        Self)
        ensures
            b.min == (BlockPos { x: min_x, y: min_y, z: min_z }),
            b.max == (BlockPos { x: max_x, y: max_y, z: max_z }),
    {
        BlockBox {
            min: BlockPos { x: min_x, y: min_y, z: min_z },
            max: BlockPos { x: max_x, y: max_y, z: max_z },
        }
    }

    /// Whether `p` lies in the box.
    pub fn contains_pos(&self, p: &BlockPos) -> (r: bool)
        ensures
            r == box_contains(*self, *p),
    {
        self.min.x <= p.x && p.x <= self.max.x && self.min.y <= p.y && p.y <= self.max.y
            && self.min.z <= p.z && p.z <= self.max.z
    }
}

/// Chunk coordinates whose block coordinates fit an `i32` with room to
/// spare for structure offsets (some 250 blocks either way): far beyond the
/// world border.
pub open spec fn chunk_in_range(c: i32) -> bool {
    -0x7FF_FFF0 <= c <= 0x7FF_FFF0
}

/// The first block coordinate of chunk `c`.
pub open spec fn chunk_start(c: i32) -> int {
    c * 16
}

/// The block coordinate of the first block of chunk `c`.
pub fn start_block_x(c: i32) -> (x: i32)
    requires
        chunk_in_range(c),
    ensures
        x == chunk_start(c),
{
    c * 16
}

/// The block coordinate of the first block of chunk `c` along z.
pub fn start_block_z(c: i32) -> (z: i32)
    requires
        chunk_in_range(c),
    ensures
        z == chunk_start(c),
{
    c * 16
}

/// The block coordinate of the centre of chunk `c`.
pub fn get_center_x(c: i32) -> (x: i32)
    requires
        chunk_in_range(c),
    ensures
        x == chunk_start(c) + 8,
{
    c * 16 + 8
}

/// The block coordinate of the centre of chunk `c` along z.
pub fn get_center_z(c: i32) -> (z: i32)
    requires
        chunk_in_range(c),
    ensures
        z == chunk_start(c) + 8,
{
    c * 16 + 8
}

} // verus!
