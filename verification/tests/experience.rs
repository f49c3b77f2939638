use pumpkin::experience::{
    add_points_to_level, points_in_level, points_to_level, total_to_level_and_points,
};

#[test]
fn add_points_within_current_level() {
    // Level 0 needs 7 points. Start at 3 points, add 2 more = 5 points.
    let (lvl, pts) = add_points_to_level(0, 3, 2);
    assert_eq!(lvl, 0, "should stay at level 0");
    assert_eq!(pts, 5, "5 points in level 0");
}

#[test]
fn add_points_carries_to_next_level() {
    let (lvl, pts) = add_points_to_level(0, 5, 5);
    assert_eq!(lvl, 1, "should carry to level 1");
    assert_eq!(pts, 3, "3 points remaining at level 1");
}

#[test]
fn add_points_carries_multiple_levels() {
    let (lvl, pts) = add_points_to_level(0, 0, 30);
    assert_eq!(lvl, 3, "30 points should reach level 3");
    assert_eq!(pts, 3, "3 points into level 3");
}

#[test]
fn add_points_exact_boundary_at_level() {
    let (lvl, pts) = add_points_to_level(0, 0, 7);
    assert_eq!(lvl, 1, "exact fill should level up");
    assert_eq!(pts, 0, "0 points remaining");
}

#[test]
fn add_large_amount_does_not_overflow() {
    let (lvl, pts) = add_points_to_level(0, 0, i32::MAX);
    assert!(lvl > 0, "level should be positive");
    assert!(lvl <= 100_000, "level should be within practical bounds");
    assert!(pts >= 0, "points should be non-negative");
    assert!(pts < points_in_level(lvl), "points should be within the level");
}

#[test]
fn add_points_zero_is_noop() {
    let (lvl, pts) = add_points_to_level(5, 3, 0);
    assert_eq!(lvl, 5);
    assert_eq!(pts, 3);
}

#[test]
fn total_consistency_after_addition() {
    let (orig_level, orig_points) = (10, 5);
    let total_before = points_to_level(orig_level) as i64 + orig_points as i64;
    let added: i32 = 500;
    let (new_level, new_points) = add_points_to_level(orig_level, orig_points, added);
    let new_total = points_to_level(new_level) as i64 + new_points as i64;
    assert_eq!(
        new_total,
        total_before + added as i64,
        "total XP should increase by exactly added_points"
    );
}

#[test]
fn points_never_exceed_level_threshold() {
    for level in 0..50 {
        let max_pts = points_in_level(level);
        if max_pts <= 0 {
            continue;
        }
        for pts in 0..max_pts {
            for added in [0, 1, 5, 50, 500, i32::MAX] {
                let (new_lvl, new_pts) = add_points_to_level(level, pts, added);
                if new_lvl < 100_000 {
                    assert!(
                        new_pts < points_in_level(new_lvl),
                        "points {} should be < max {} for level {} (start: {}+{})",
                        new_pts,
                        points_in_level(new_lvl),
                        new_lvl,
                        level,
                        added
                    );
                }
            }
        }
    }
}

#[test]
fn points_in_level_per_band() {
    assert_eq!(points_in_level(0), 7);
    assert_eq!(points_in_level(15), 37);
    assert_eq!(points_in_level(16), 42);
    assert_eq!(points_in_level(30), 112);
    assert_eq!(points_in_level(31), 121);
    assert_eq!(points_in_level(100), 742);
}

#[test]
fn points_to_level_per_band() {
    assert_eq!(points_to_level(0), 0);
    assert_eq!(points_to_level(16), 352);
    assert_eq!(points_to_level(17), 394);
    assert_eq!(points_to_level(31), 1507);
    assert_eq!(points_to_level(32), 1628);
    assert_eq!(points_to_level(100), 30970);
    // Beyond level 21863 the total no longer fits and saturates.
    assert_eq!(points_to_level(21863), 2_147_407_943);
    assert_eq!(points_to_level(30000), i32::MAX);
}

#[test]
fn points_to_level_matches_float_formula() {
    // The game's formulas for bands 17..=31 and 32.. are written in floating
    // point; the integer ones give the same value on every level whose total fits.
    for level in 17..=21863 {
        let l = f64::from(level);
        let expected = if level <= 31 {
            (2.5 * l * l - 40.5 * l + 360.0) as i32
        } else {
            (4.5 * l * l - 162.5 * l + 2220.0) as i32
        };
        assert_eq!(points_to_level(level), expected, "level {level}");
    }
}

#[test]
fn level_steps_add_up() {
    for level in 0..21863 {
        assert_eq!(
            points_to_level(level + 1) as i64 - points_to_level(level) as i64,
            points_in_level(level) as i64
        );
    }
}

#[test]
fn total_to_level_basic() {
    assert_eq!(total_to_level_and_points(0), (0, 0));
    assert_eq!(total_to_level_and_points(6), (0, 6));
    assert_eq!(total_to_level_and_points(7), (1, 0));
    assert_eq!(total_to_level_and_points(352), (16, 0));
    assert_eq!(total_to_level_and_points(393), (16, 41));
    assert_eq!(total_to_level_and_points(394), (17, 0));
    assert_eq!(total_to_level_and_points(1507), (31, 0));
    assert_eq!(total_to_level_and_points(1628), (32, 0));
    assert_eq!(total_to_level_and_points(-5), (0, -5));
}

#[test]
fn total_to_level_on_level_boundaries() {
    // Exactly reaching a level's start puts the player at that level with
    // no points, also where a square-root formula would round down.
    assert_eq!(total_to_level_and_points(297_845), (275, 0));
    assert_eq!(total_to_level_and_points(297_844), (274, 2_307));
    assert_eq!(total_to_level_and_points(i32::MAX), (21863, 75_704));
}

#[test]
fn total_to_level_inverts_points_to_level() {
    for level in 0..2000 {
        let start = points_to_level(level);
        for pts in [0, 1, points_in_level(level) - 1] {
            assert_eq!(total_to_level_and_points(start + pts), (level, pts));
        }
    }
}

#[test]
fn add_points_agrees_with_total_conversion() {
    for level in 0..60 {
        for pts in [0, points_in_level(level) - 1] {
            for added in [0, 1, 13, 999, 123_456] {
                let total = points_to_level(level) + pts + added;
                assert_eq!(
                    add_points_to_level(level, pts, added),
                    total_to_level_and_points(total)
                );
            }
        }
    }
}

#[test]
fn add_negative_total_clamps_points() {
    assert_eq!(add_points_to_level(4, 3, -10), (4, 0));
}

#[test]
fn add_points_from_negative_level_climbs_to_zero() {
    // Level -1 costs -167: climbing to level 0 gains 167 points, enough for
    // ten levels and 7 points more.
    assert_eq!(add_points_to_level(-1, 0, 0), (10, 7));
    assert_eq!(add_points_to_level(-3, 0, 5), (19, 40));
    assert_eq!(add_points_to_level(-10, 0, 0), (35, 30));
    assert_eq!(add_points_to_level(-1, -167, 0), (0, 0));
    // Points below the (negative) cost keep the level and clear the points.
    assert_eq!(add_points_to_level(-1, -168, 0), (-1, 0));
    assert_eq!(add_points_to_level(-1, -200, 0), (-1, 0));
}

#[test]
fn add_points_at_the_highest_levels() {
    assert_eq!(add_points_to_level(238_609_293, 0, 0), (238_609_293, 0));
    assert_eq!(add_points_to_level(238_609_294, 0, 0), (238_609_294, 0));
    assert_eq!(add_points_to_level(238_609_293, 5, 10), (238_609_293, 15));
}
