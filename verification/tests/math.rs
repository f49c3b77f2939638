use pumpkin::math::{
    get_center_x, get_center_z, start_block_x, start_block_z, BlockBox, BlockPos,
};

#[test]
fn block_pos_packing_exact_value() {
    assert_eq!(BlockPos::new(10, 64, 10).to_i64(), 2_748_779_110_464);
    assert_eq!(BlockPos::new(0, 0, 0).to_i64(), 0);
    assert_eq!(BlockPos::new(-1, -1, -1).to_i64(), -1);
    assert_eq!(BlockPos::new(1, 0, 0).to_i64(), 1 << 38);
    assert_eq!(BlockPos::new(0, 0, 1).to_i64(), 1 << 12);
    assert_eq!(BlockPos::new(0, 1, 0).to_i64(), 1);
}

#[test]
fn block_pos_packing_roundtrip() {
    for &(x, y, z) in &[
        (10, 64, 10),
        (-1, -1, -1),
        (33_554_431, 2047, -33_554_432),
        (-33_554_432, -2048, 33_554_431),
        (100, -64, -100),
    ] {
        let p = BlockPos::new(x, y, z);
        assert_eq!(BlockPos::from_i64(p.to_i64()), p);
    }
}

#[test]
fn block_box_contains_bounds() {
    let b = BlockBox::new(-2, 0, -2, 2, 255, 2);
    assert!(b.contains_pos(&BlockPos::new(-2, 0, -2)));
    assert!(b.contains_pos(&BlockPos::new(2, 255, 2)));
    assert!(!b.contains_pos(&BlockPos::new(3, 10, 0)));
    assert!(!b.contains_pos(&BlockPos::new(0, 256, 0)));
    assert!(!b.contains_pos(&BlockPos::new(0, -1, 0)));
}

#[test]
fn chunk_coordinates() {
    assert_eq!(start_block_x(0), 0);
    assert_eq!(start_block_x(-1), -16);
    assert_eq!(start_block_z(3), 48);
    assert_eq!(get_center_x(0), 8);
    assert_eq!(get_center_z(-2), -24);
}
