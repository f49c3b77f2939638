use pumpkin::math::{BlockBox, BlockPos};
use pumpkin::native_loader::{NativePluginLoader, TargetOs};
use pumpkin::structures::desert_well::{
    try_generate_well_in_chunk, well_placements, well_site_is_valid, well_site_positions,
    DesertWellGenerator, WellBlock,
};
use pumpkin::structures::end_city::{end_city_layout, end_ship_origin, EndCityGenerator, EndCityShipGenerator};
use pumpkin::structures::jigsaw::{
    structure_template_groups, village_start_pool, AncientCityGenerator, BastionRemnantGenerator,
    PillagerOutpostGenerator, TrailRuinsGenerator, TrialChambersGenerator, VillageDesertGenerator,
    VillageKind, VillagePlainsGenerator, VillageTaigaGenerator,
};
use pumpkin::structures::overworld_fossil::OverworldFossilGenerator;
use pumpkin::structures::template::{
    preload_all_structure_templates, preload_structure_group, template_cache_key,
};
use pumpkin::structures::{Rotation, StructurePieceType};

#[test]
fn jigsaw_starts() {
    let a = AncientCityGenerator.jigsaw_start();
    assert_eq!(a.start_pool, "minecraft:ancient_city/city_center");
    assert_eq!(a.size, 7);
    assert_eq!(a.start_jigsaw, Some("minecraft:city_anchor"));
    assert!(!a.use_expansion_hack);
    let b = BastionRemnantGenerator.jigsaw_start();
    assert_eq!((b.start_pool, b.size, b.start_jigsaw), ("minecraft:bastion/starts", 6, None));
    let p = PillagerOutpostGenerator.jigsaw_start();
    assert_eq!(p.start_pool, "minecraft:pillager_outpost/base_plates");
    let t = TrailRuinsGenerator.jigsaw_start();
    assert_eq!(t.start_jigsaw, Some("minecraft:bottom"));
    let c = TrialChambersGenerator.jigsaw_start();
    assert_eq!(c.start_pool, "minecraft:trial_chambers/corridor");
    assert_eq!(c.start_jigsaw, Some("minecraft:entrance"));
    assert!(c.use_expansion_hack);
}

#[test]
fn village_starts() {
    assert_eq!(
        village_start_pool(VillageKind::Snowy),
        "minecraft:village/snowy/town_centers"
    );
    let plains = VillagePlainsGenerator.jigsaw_start(None);
    assert_eq!(plains.start_pool, "minecraft:village/plains/town_centers");
    assert_eq!(plains.size, 6);
    assert_eq!(VillageDesertGenerator.jigsaw_start(Some(8)).size, 8);
    assert_eq!(
        VillageTaigaGenerator.jigsaw_start(Some(6)).start_pool,
        "minecraft:village/taiga/town_centers"
    );
}

#[test]
fn every_start_pool_is_preloaded() {
    let groups = structure_template_groups();
    assert_eq!(groups.len(), 6);
    let sizes: Vec<usize> = groups.iter().map(|g| g.len()).collect();
    assert_eq!(sizes, vec![7, 22, 4, 6, 18, 30]);
    let all: Vec<&str> = groups.iter().flatten().copied().collect();
    for pool in [
        AncientCityGenerator.jigsaw_start().start_pool,
        BastionRemnantGenerator.jigsaw_start().start_pool,
        PillagerOutpostGenerator.jigsaw_start().start_pool,
        TrailRuinsGenerator.jigsaw_start().start_pool,
        TrialChambersGenerator.jigsaw_start().start_pool,
        village_start_pool(VillageKind::Plains),
        village_start_pool(VillageKind::Desert),
        village_start_pool(VillageKind::Savanna),
        village_start_pool(VillageKind::Snowy),
        village_start_pool(VillageKind::Taiga),
    ] {
        assert!(all.contains(&pool), "{} is not preloaded", pool);
    }
}

#[test]
fn desert_well_position() {
    let (start, piece) = DesertWellGenerator.get_structure_position(1, 2, 3, 4);
    assert_eq!(start, BlockPos::new(19, 64, 36));
    assert_eq!(piece.piece.piece_type, StructurePieceType::DesertWell);
    assert_eq!(piece.piece.bounding_box, BlockBox::new(17, 0, 34, 21, 255, 38));
    assert_eq!(piece.piece.chain_length, 0);
    assert_eq!(piece.well_column(), (17, 34));
}

#[test]
fn desert_well_layout() {
    let everywhere = BlockBox::new(-100, -100, -100, 100, 100, 100);
    let plan = well_placements(0, 10, 0, &everywhere);
    assert_eq!(plan.len(), 25 + 12 + 12 + 1 + 12);
    assert_eq!(plan[0], (BlockPos::new(-2, 9, -2), WellBlock::Sandstone));
    assert_eq!(plan[24], (BlockPos::new(2, 9, 2), WellBlock::Sandstone));
    assert_eq!(plan[25], (BlockPos::new(-2, 10, -1), WellBlock::Sandstone));
    assert_eq!(plan[49], (BlockPos::new(0, 10, 0), WellBlock::Water));
    assert_eq!(plan[61], (BlockPos::new(2, 12, 1), WellBlock::SandstoneSlab));
    assert!(plan.iter().all(|(p, _)| *p != BlockPos::new(2, 10, 2)));
    let half = BlockBox::new(0, -100, -100, 100, 100, 100);
    let clipped = well_placements(0, 10, 0, &half);
    assert!(clipped.iter().all(|(p, _)| p.x >= 0));
    assert_eq!(clipped.len(), 15 + 7 + 7 + 1 + 7);
}

#[test]
fn desert_well_site() {
    let sites = well_site_positions(5, 20, 5);
    assert_eq!(sites.len(), 50);
    // The two layers above the sand surface at height 20.
    assert_eq!(sites[0], BlockPos::new(3, 21, 3));
    assert_eq!(sites[1], BlockPos::new(3, 22, 3));
    assert_eq!(sites[49], BlockPos::new(7, 22, 7));
    assert!(sites.iter().all(|p| p.y > 20));
    let mut air = vec![true; 50];
    assert!(well_site_is_valid(true, &air));
    assert!(!well_site_is_valid(false, &air));
    air[17] = false;
    assert!(!well_site_is_valid(true, &air));
}

#[test]
fn end_city_position() {
    let c = EndCityGenerator.get_structure_position(0, 0, -64, 1, [true; 5], true).unwrap();
    assert_eq!(c.start_pos, BlockPos::new(8, 64, 8));
    assert_eq!(c.piece.bounding_box, BlockBox::new(-22, -64, -22, 38, 256, 38));
    assert_eq!(c.piece.piece_type, StructurePieceType::EndCity);
    assert_eq!(c.rotation, Rotation::Clockwise90);
    assert!(c.has_ship);
    let s = EndCityShipGenerator.get_structure_position(-1, 2, 0, 3, true).unwrap();
    assert_eq!(s.start_pos, BlockPos::new(-8, 64, 40));
    assert_eq!(s.piece.bounding_box, BlockBox::new(-28, 0, 20, 12, 256, 60));
    assert_eq!(s.rotation, Rotation::CounterClockwise90);
}

#[test]
fn end_city_template_layout() {
    let origin = BlockPos::new(100, 0, 200);
    let l = end_city_layout(origin, 70, 5, 8, 11, true);
    assert_eq!(l.base_floor, BlockPos::new(100, 70, 200));
    assert_eq!(l.tower_base, BlockPos::new(100, 75, 200));
    assert_eq!(l.tower_piece, BlockPos::new(100, 83, 200));
    assert_eq!(l.tower_top, BlockPos::new(100, 94, 200));
    assert_eq!(l.ship, Some(BlockPos::new(116, 90, 216)));
    let low = end_city_layout(origin, 0, 5, 8, 11, false);
    assert_eq!(low.base_floor.y, 60);
    assert_eq!(low.ship, None);
    assert_eq!(end_ship_origin(origin, -5), BlockPos::new(100, 80, 200));
}

#[test]
fn fossil_position_and_templates() {
    let g = OverworldFossilGenerator::new();
    assert!(!g.is_deepslate);
    let f = g.get_structure_position(0, 0, 5, 6, 1, 2, Some((10, 5, 14)), true, -64).unwrap();
    assert_eq!(f.start_pos, BlockPos::new(5, 64, 6));
    assert_eq!(f.rotation, Rotation::Clockwise90);
    assert_eq!(f.piece.bounding_box, BlockBox::new(-2, -64, 1, 12, 256, 11));
    assert_eq!(f.fossil_template, "fossil/fossil_3");
    assert_eq!(f.overlay_template, "fossil/fossil_3_coal");
    let d = OverworldFossilGenerator::deepslate();
    assert!(d.is_deepslate);
    assert_eq!(
        d.template_names(6),
        ("fossil/fossil_7_deepslate", "fossil/fossil_7_diamond")
    );
    let unturned = d.get_structure_position(0, 0, 5, 6, 2, 0, Some((10, 5, 14)), true, 0).unwrap();
    assert_eq!(unturned.piece.bounding_box, BlockBox::new(0, 0, -1, 10, 256, 13));
}

#[test]
fn rotation_swaps_extents_on_quarter_turns() {
    assert_eq!(Rotation::from_index(0).transform_size((1, 2, 3)), (1, 2, 3));
    assert_eq!(Rotation::from_index(1).transform_size((1, 2, 3)), (3, 2, 1));
    assert_eq!(Rotation::from_index(2).transform_size((1, 2, 3)), (1, 2, 3));
    assert_eq!(Rotation::from_index(3).transform_size((1, 2, 3)), (3, 2, 1));
}

#[test]
fn template_names_lose_their_namespace() {
    assert_eq!(template_cache_key("minecraft:end_city/ship"), "end_city/ship");
    assert_eq!(template_cache_key("end_city/ship"), "end_city/ship");
    assert_eq!(template_cache_key("minecraft:"), "");
    assert_eq!(template_cache_key("other:x"), "other:x");
    assert_eq!(template_cache_key("minecraft"), "minecraft");
}

#[test]
fn native_loader_extensions() {
    let loader = NativePluginLoader;
    assert!(loader.can_load("so", TargetOs::Other));
    assert!(loader.can_load("SO", TargetOs::Other));
    assert!(!loader.can_load("dll", TargetOs::Other));
    assert!(loader.can_load("DlL", TargetOs::Windows));
    assert!(loader.can_load("dylib", TargetOs::MacOs));
    assert!(!loader.can_load("dyli", TargetOs::MacOs));
    assert!(!loader.can_load("", TargetOs::Other));
    assert!(!loader.can_unload(TargetOs::Windows));
    assert!(loader.can_unload(TargetOs::Other));
}

#[test]
fn preload_hands_over_every_pool_in_order() {
    let seen = std::cell::RefCell::new(Vec::new());
    preload_all_structure_templates(&|pool: &str| seen.borrow_mut().push(pool.to_string()));
    let seen = seen.into_inner();
    assert_eq!(seen.len(), 87);
    assert_eq!(seen[0], "minecraft:ancient_city/city_center");
    assert_eq!(seen[7], "minecraft:bastion/starts");
    assert_eq!(seen[86], "minecraft:village/taiga/zombie/houses");
    let expected: Vec<String> = structure_template_groups()
        .iter()
        .flatten()
        .map(|p| p.to_string())
        .collect();
    assert_eq!(seen, expected);
}

#[test]
fn preload_group_visits_each_id_once() {
    let seen = std::cell::RefCell::new(Vec::new());
    preload_structure_group(&["a", "b", "a"], &|pool: &str| seen.borrow_mut().push(pool.to_string()));
    assert_eq!(seen.into_inner(), vec!["a", "b", "a"]);
}

#[test]
fn missing_templates_give_no_structure() {
    let g = OverworldFossilGenerator::new();
    assert!(g.get_structure_position(0, 0, 5, 6, 1, 2, None, true, -64).is_none());
    assert!(g.get_structure_position(0, 0, 5, 6, 1, 2, Some((10, 5, 14)), false, -64).is_none());
    for missing in 0..5 {
        let mut found = [true; 5];
        found[missing] = false;
        assert!(EndCityGenerator.get_structure_position(0, 0, -64, 1, found, false).is_none());
    }
    assert!(EndCityShipGenerator.get_structure_position(0, 0, 0, 0, false).is_none());
}

#[test]
fn well_built_only_on_clear_sand() {
    let everywhere = BlockBox::new(-100, -100, -100, 100, 100, 100);
    let clear = vec![true; 50];
    let plan = try_generate_well_in_chunk(0, 10, 0, true, &clear, &everywhere).unwrap();
    assert_eq!(plan, well_placements(0, 10, 0, &everywhere));
    assert!(plan.contains(&(BlockPos::new(0, 10, 0), WellBlock::Water)));
    assert!(try_generate_well_in_chunk(0, 10, 0, false, &clear, &everywhere).is_none());
    let mut blocked = clear.clone();
    blocked[49] = false;
    assert!(try_generate_well_in_chunk(0, 10, 0, true, &blocked, &everywhere).is_none());
}
