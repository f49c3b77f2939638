//! Experience level arithmetic.
//!
//! A player's progress is a pair `(level, points)`: `points` experience
//! points earned inside `level`.  The total experience of such a pair is
//! `level_start_total(level) + points`.

use vstd::prelude::*;

verus! {

/// Largest level whose per-level cost `9 * level - 158` fits in an `i32`.
pub const MAX_COST_LEVEL: i32 = 238_609_294;

/// Points needed to go from `level` to `level + 1`.
pub open spec fn level_cost(level: int) -> int {
    if 0 <= level <= 15 {
        2 * level + 7
    } else if 16 <= level <= 30 {
        5 * level - 38
    } else {
        9 * level - 158
    }
}

/// Twice the total experience needed to reach `level` from level 0.
pub open spec fn twice_level_start(level: int) -> int {
    if 0 <= level <= 16 {
        2 * (level * level + 6 * level)
    } else if 17 <= level <= 31 {
        5 * level * level - 81 * level + 720
    } else {
        9 * level * level - 325 * level + 4440
    }
}

/// Total experience needed to reach `level` from level 0 (unbounded).
pub open spec fn level_start_total(level: int) -> int {
    twice_level_start(level) / 2
}

/// Clamp a mathematical integer into the `i32` range.
pub open spec fn saturate_i32(v: int) -> i32 {
    if v > i32::MAX {
        i32::MAX
    } else if v < i32::MIN {
        i32::MIN
    } else {
        v as i32
    }
}

/// `(level, points)` is a valid progress pair (points strictly inside the
/// level) whose total experience is `total`.
pub open spec fn decomposes(total: int, level: int, points: int) -> bool {
    &&& 0 <= level
    &&& 0 <= points < level_cost(level)
    &&& level_start_total(level) + points == total
}

/// Reaching `level + 1` costs exactly `level_cost(level)` more than
/// reaching `level`.
pub proof fn lemma_level_start_step(level: int)
    requires
        0 <= level,
    ensures
        level_start_total(level + 1) == level_start_total(level) + level_cost(level),
{
    let l = level;
    if l <= 15 {
        assert((l + 1) * (l + 1) + 6 * (l + 1) == l * l + 6 * l + 2 * l + 7) by (nonlinear_arith);
    } else if l == 16 {
        assert(level_start_total(16) == 352);
        assert(level_start_total(17) == 394);
    } else if l <= 30 {
        assert(5 * (l + 1) * (l + 1) - 81 * (l + 1) + 720 == (5 * l * l - 81 * l + 720) + 2 * (5
            * l - 38)) by (nonlinear_arith);
        let a = 5 * l * l - 81 * l + 720;
        assert((a + 2 * (5 * l - 38)) / 2 == a / 2 + (5 * l - 38));
    } else if l == 31 {
        assert(level_start_total(31) == 1507);
        assert(level_start_total(32) == 1628);
    } else {
        assert(9 * (l + 1) * (l + 1) - 325 * (l + 1) + 4440 == (9 * l * l - 325 * l + 4440) + 2
            * (9 * l - 158)) by (nonlinear_arith);
        let a = 9 * l * l - 325 * l + 4440;
        assert((a + 2 * (9 * l - 158)) / 2 == a / 2 + (9 * l - 158));
    }
}

/// Every level from 0 on costs at least 7 points.
pub proof fn lemma_level_cost_positive(level: int)
    requires
        0 <= level,
    ensures
        level_cost(level) >= 7,
{
}

/// The start total of levels is strictly increasing from level 0 on.
pub proof fn lemma_level_start_monotone(a: int, b: int)
    requires
        0 <= a <= b,
    ensures
        level_start_total(a) <= level_start_total(b),
        a < b ==> level_start_total(a) < level_start_total(b),
    decreases b - a,
{
    if a < b {
        lemma_level_start_monotone(a, b - 1);
        lemma_level_start_step(b - 1);
    }
}

/// A total experience amount splits into at most one valid
/// `(level, points)` pair: the level and the points inside it are fixed by
/// the total.
pub proof fn lemma_decomposition_unique(total: int, l1: int, p1: int, l2: int, p2: int)
    requires
        decomposes(total, l1, p1),
        decomposes(total, l2, p2),
    ensures
        l1 == l2,
        p1 == p2,
{
    if l1 < l2 {
        lemma_level_start_monotone(l1 + 1, l2);
        lemma_level_start_step(l1);
    } else if l2 < l1 {
        lemma_level_start_monotone(l2 + 1, l1);
        lemma_level_start_step(l2);
    }
}

/// Returns the number of points required to progress within a specific level.
pub fn points_in_level(level: i32) -> (cost: i32)
    requires
        -238_609_276 <= level <= MAX_COST_LEVEL,
    ensures
        cost == level_cost(level as int),
{
    if 0 <= level && level <= 15 {
        2 * level + 7
    } else if 16 <= level && level <= 30 {
        5 * level - 38
    } else {
        9 * level - 158
    }
}

/// Exact start total of a level, computed in 64 bits.
fn level_start_total_wide(level: i64) -> (total: i64)
    requires
        -46340 <= level <= 46340,
    ensures
        total == level_start_total(level as int),
        total >= 0,
{
    let l = level;
    assert(0 <= l * l <= 46340 * 46340 && -46340 * 9 <= 9 * l <= 46340 * 9 && 9 * l * l == 9 * (
    l * l) && 5 * l * l == 5 * (l * l)) by (nonlinear_arith)
        requires
            -46340 <= l <= 46340,
    ;
    if 0 <= l && l <= 16 {
        l * l + 6 * l
    } else if 17 <= l && l <= 31 {
        assert(5 * l * l - 81 * l + 720 > 0) by (nonlinear_arith);
        (5 * l * l - 81 * l + 720) / 2
    } else {
        assert(9 * l * l - 325 * l + 4440 > 0) by (nonlinear_arith);
        (9 * l * l - 325 * l + 4440) / 2
    }
}

/// Calculates the total points required to reach a given level, saturated
/// to the `i32` range.
pub fn points_to_level(level: i32) -> (total: i32)
    requires
        -46340 <= level <= 46340,
    ensures
        total == saturate_i32(level_start_total(level as int)),
{
    if 0 <= level && level <= 16 {
        assert(level * level <= 256) by (nonlinear_arith)
            requires
                0 <= level <= 16,
        ;
        level * level + 6 * level
    } else {
        let wide = level_start_total_wide(level as i64);
        if wide > i32::MAX as i64 {
            i32::MAX
        } else {
            wide as i32
        }
    }
}

/// Converts total experience points into a level and points within that
/// level.
///
/// For a non-negative total the level is the highest one whose start total
/// does not exceed `total_points`, and the points are what is left of the
/// total once that level is reached.  A negative total stays at level 0 with
/// all of its (negative) points.
pub fn total_to_level_and_points(total_points: i32) -> (res: (i32, i32))
    ensures
        total_points < 0 ==> res == (0i32, total_points),
        total_points >= 0 ==> decomposes(total_points as int, res.0 as int, res.1 as int),
{
    if total_points < 0 {
        return (0, 0 + total_points);
    }
    let mut level: i64 = 0;
    assert(level_start_total(21864) > i32::MAX);
    loop
        invariant
            0 <= level <= 21863,
            total_points >= 0,
            level_start_total(level as int) <= total_points,
        ensures
            0 <= level <= 21863,
            level_start_total(level as int) <= total_points < level_start_total(level + 1),
        decreases 21863 - level,
    {
        let next_start = level_start_total_wide(level + 1);
        if next_start > total_points as i64 {
            break;
        }
        proof {
            if level + 1 >= 21864 {
                lemma_level_start_monotone(21864, level + 1);
            }
        }
        level = level + 1;
    }
    proof {
        lemma_level_start_monotone(0, level as int);
    }
    proof {
        lemma_level_start_step(level as int);
    }
    let level_i32 = level as i32;
    let start = points_to_level(level_i32);
    (level_i32, total_points - start)
}

/// The points a pair at a negative `level` holding `r` points has on
/// reaching level 0: below level 0 a level's cost is negative, so each level
/// climbed adds its absolute cost.
pub open spec fn climb(level: int, r: int) -> int
    decreases (if level < 0 { -level } else { 0 }),
{
    if level >= 0 {
        r
    } else {
        climb(level + 1, r - level_cost(level))
    }
}

/// Climbing from a negative level only gains points.
proof fn lemma_climb_grows(level: int, r: int)
    ensures
        climb(level, r) >= r,
    decreases (if level < 0 { -level } else { 0 }),
{
    if level < 0 {
        lemma_climb_grows(level + 1, r - level_cost(level));
    }
}

/// Adds experience points to a `(level, points)` pair, carrying the surplus
/// across level boundaries without converting to a total.
///
/// When `points + added_points` does not cover the cost of `level` and is
/// negative, the result is `(level, 0)`. From a negative level, whose costs
/// are negative, the pair climbs to level 0, gaining each level's absolute
/// cost (see [`climb`]), and goes on from there. Otherwise the result is the
/// pair at or above the starting level whose points fit inside its level and
/// whose total experience equals the old total plus `added_points`.
pub fn add_points_to_level(level: i32, points: i32, added_points: i32) -> (res: (i32, i32))
    requires
        -238_609_276 <= level <= MAX_COST_LEVEL,
        level < 0 && points + added_points >= level_cost(level as int) ==> climb(
            level as int,
            points + added_points,
        ) < level_start_total(MAX_COST_LEVEL + 1),
        level >= 0 && points + added_points >= 0 ==> level_start_total(level as int) + points
            + added_points < level_start_total(MAX_COST_LEVEL + 1),
    ensures
        level >= 0 && points + added_points < 0 ==> res == (level, 0i32),
        level < 0 && points + added_points < level_cost(level as int) ==> res == (level, 0i32),
        level >= 0 && points + added_points >= 0 ==> {
            &&& level <= res.0
            &&& decomposes(
                level_start_total(level as int) + points + added_points,
                res.0 as int,
                res.1 as int,
            )
        },
        level < 0 && points + added_points >= level_cost(level as int) ==> decomposes(
            climb(level as int, points + added_points),
            res.0 as int,
            res.1 as int,
        ),
{
    let mut remaining: i64 = (points as i64) + (added_points as i64);
    let mut new_level: i64 = level as i64;
    let ghost initial = remaining as int;
    // Below level 0 every cost is negative: climb while the points cover it.
    while new_level < 0 && remaining >= points_in_level(new_level as i32) as i64
        invariant
            -238_609_276 <= level <= MAX_COST_LEVEL,
            initial == points + added_points,
            level >= 0 && initial >= 0 ==> level_start_total(level as int) + initial
                < level_start_total(MAX_COST_LEVEL + 1),
            level >= 0 ==> new_level == level,
            level < 0 ==> level <= new_level <= 0,
            level < 0 && initial >= level_cost(level as int) ==> climb(level as int, initial)
                < level_start_total(MAX_COST_LEVEL + 1),
            new_level == level ==> remaining == initial,
            new_level > level ==> {
                &&& remaining >= 0
                &&& initial >= level_cost(level as int)
                &&& climb(new_level as int, remaining as int) == climb(level as int, initial)
            },
        decreases 0 - new_level,
    {
        let cost = points_in_level(new_level as i32) as i64;
        proof {
            if new_level > level {
                lemma_climb_grows(new_level + 1, remaining - cost);
            } else {
                lemma_climb_grows(new_level + 1, initial - cost);
            }
            assert(climb(new_level as int, remaining as int) == climb(
                new_level + 1,
                remaining - cost,
            ));
            assert(level_start_total(MAX_COST_LEVEL + 1) < 0x7FFF_FFFF_FFFF_FFFF);
        }
        remaining = remaining - cost;
        new_level = new_level + 1;
    }
    let ghost climbed = new_level > level;
    let ghost total = level_start_total(new_level as int) + remaining;
    proof {
        if climbed {
            // Stopped at level 0: below it the cost is negative and the
            // points are not.
            if new_level < 0 {
                assert(level_cost(new_level as int) < 0);
            }
            assert(new_level == 0);
            assert(level_start_total(0) == 0);
        }
    }
    let ghost start_level = new_level;
    let ghost start_remaining = remaining as int;
    // From a level at or above 0, carry the surplus upward.
    loop
        invariant
            start_level <= new_level <= MAX_COST_LEVEL,
            -238_609_276 <= start_level <= MAX_COST_LEVEL,
            remaining <= start_remaining || start_remaining >= 0,
            start_level < 0 ==> new_level == start_level && remaining == start_remaining
                && start_remaining < level_cost(start_level as int),
            start_level >= 0 && start_remaining < 0 ==> new_level == start_level && remaining
                == start_remaining,
            start_level >= 0 && start_remaining >= 0 ==> {
                &&& remaining >= 0
                &&& level_start_total(new_level as int) + remaining == total
                &&& total < level_start_total(MAX_COST_LEVEL + 1)
            },
        ensures
            start_level <= new_level <= MAX_COST_LEVEL,
            start_level < 0 ==> new_level == start_level && remaining == start_remaining
                && start_remaining < 0,
            start_level >= 0 && start_remaining < 0 ==> new_level == start_level && remaining
                == start_remaining,
            start_level >= 0 && start_remaining >= 0 ==> {
                &&& 0 <= remaining < level_cost(new_level as int)
                &&& level_start_total(new_level as int) + remaining == total
            },
        decreases MAX_COST_LEVEL - new_level,
    {
        let cost = points_in_level(new_level as i32) as i64;
        if !(remaining >= cost && new_level < i32::MAX as i64) {
            break;
        }
        proof {
            lemma_level_start_step(new_level as int);
            lemma_level_start_step(new_level + 1);
            if new_level + 1 > MAX_COST_LEVEL {
                lemma_level_start_monotone(MAX_COST_LEVEL + 1, new_level + 1);
            }
        }
        remaining = remaining - cost;
        new_level = new_level + 1;
        proof {
            if new_level + 0 > MAX_COST_LEVEL {
                lemma_level_start_monotone(MAX_COST_LEVEL + 1, new_level as int);
            }
        }
    }
    if new_level >= i32::MAX as i64 {
        remaining = 0;
        new_level = i32::MAX as i64 - 1;
    }
    if remaining < 0 {
        remaining = 0;
    }
    let final_level = if new_level > i32::MAX as i64 {
        i32::MAX - 1
    } else {
        new_level as i32
    };
    let final_points = if remaining > i32::MAX as i64 {
        i32::MAX
    } else {
        remaining as i32
    };
    (final_level, final_points)
}

/// Level costs and totals at the band edges: levels 0 to 15 cost
/// `2 * level + 7` (7 up to 37), levels 16 to 30 cost `5 * level - 38`
/// (42 up to 112), higher levels cost `9 * level - 158` (121 at 31);
/// reaching level 16 takes 352 points in all, level 31 takes 1507, and
/// every level costs more than the one before.
pub proof fn lemma_experience_band_edges(level: int)
    requires
        0 <= level,
    ensures
        level_cost(0) == 7,
        level_cost(15) == 37,
        level_cost(16) == 42,
        level_cost(30) == 112,
        level_cost(31) == 121,
        level_start_total(16) == 352,
        level_start_total(31) == 1507,
        level_start_total(0) == 0,
        level_cost(level + 1) > level_cost(level),
{
}

} // verus!
