//! Structures assembled by the jigsaw engine from template pools: the start
//! each generator asks for, and the pools preloaded at server start.

use vstd::prelude::*;
use crate::structures::StructurePiece;

verus! {

/// What a jigsaw generator asks the jigsaw engine for: the pool of the
/// first piece, the depth of assembly, the jigsaw block the first piece is
/// anchored by, and whether to use the height expansion hack.
#[derive(Debug, Clone, Copy, PartialEq, Eq)]
pub struct JigsawStart {
    pub start_pool: &'static str,
    pub size: u32,
    pub start_jigsaw: Option<&'static str>,
    pub use_expansion_hack: bool,
}

/// Generator for ancient cities in the deep dark.
pub struct AncientCityGenerator;

/// Piece of an ancient city, placed by the jigsaw engine.
pub struct AncientCityPiece {
    pub piece: StructurePiece,
}

/// The jigsaw start of an ancient city.
pub open spec fn ancient_city_start() -> JigsawStart {
    JigsawStart {
        start_pool: "minecraft:ancient_city/city_center",
        size: 7,
        start_jigsaw: Some("minecraft:city_anchor"),
        use_expansion_hack: false,
    }
}

impl AncientCityGenerator {
    /// The jigsaw start of an ancient city: the city centre pool, depth 7,
    /// anchored by the city anchor jigsaw.
    pub fn jigsaw_start(&self) -> (s: JigsawStart)
        ensures
            s == ancient_city_start(),
    {
        JigsawStart {
            start_pool: "minecraft:ancient_city/city_center",
            size: 7,
            start_jigsaw: Some("minecraft:city_anchor"),
            use_expansion_hack: false,
        }
    }
}

/// Generator for bastion remnants in the Nether.
pub struct BastionRemnantGenerator;

/// Piece of a bastion remnant, placed by the jigsaw engine.
pub struct BastionRemnantPiece {
    pub piece: StructurePiece,
}

/// The jigsaw start of a bastion remnant.
pub open spec fn bastion_remnant_start() -> JigsawStart {
    JigsawStart {
        start_pool: "minecraft:bastion/starts",
        size: 6,
        start_jigsaw: None,
        use_expansion_hack: false,
    }
}

impl BastionRemnantGenerator {
    /// The jigsaw start of a bastion remnant: the starts pool, depth 6.
    pub fn jigsaw_start(&self) -> (s: JigsawStart)
        ensures
            s == bastion_remnant_start(),
    {
        JigsawStart {
            start_pool: "minecraft:bastion/starts",
            size: 6,
            start_jigsaw: None,
            use_expansion_hack: false,
        }
    }
}

/// Generator for pillager outposts.
pub struct PillagerOutpostGenerator;

/// Piece of a pillager outpost, placed by the jigsaw engine.
pub struct PillagerOutpostPiece {
    pub piece: StructurePiece,
}

/// The jigsaw start of a pillager outpost.
pub open spec fn pillager_outpost_start() -> JigsawStart {
    JigsawStart {
        start_pool: "minecraft:pillager_outpost/base_plates",
        size: 7,
        start_jigsaw: None,
        use_expansion_hack: false,
    }
}

impl PillagerOutpostGenerator {
    /// The jigsaw start of a pillager outpost: the base plates pool,
    /// depth 7.
    pub fn jigsaw_start(&self) -> (s: JigsawStart)
        ensures
            s == pillager_outpost_start(),
    {
        JigsawStart {
            start_pool: "minecraft:pillager_outpost/base_plates",
            size: 7,
            start_jigsaw: None,
            use_expansion_hack: false,
        }
    }
}

/// Generator for trail ruins.
pub struct TrailRuinsGenerator;

/// Piece of trail ruins, placed by the jigsaw engine.
pub struct TrailRuinsPiece {
    pub piece: StructurePiece,
}

/// The jigsaw start of trail ruins.
pub open spec fn trail_ruins_start() -> JigsawStart {
    JigsawStart {
        start_pool: "minecraft:trail_ruins/tower/tower_top",
        size: 7,
        start_jigsaw: Some("minecraft:bottom"),
        use_expansion_hack: false,
    }
}

impl TrailRuinsGenerator {
    /// The jigsaw start of trail ruins: the tower top pool, depth 7,
    /// anchored by the bottom jigsaw.
    pub fn jigsaw_start(&self) -> (s: JigsawStart)
        ensures
            s == trail_ruins_start(),
    {
        JigsawStart {
            start_pool: "minecraft:trail_ruins/tower/tower_top",
            size: 7,
            start_jigsaw: Some("minecraft:bottom"),
            use_expansion_hack: false,
        }
    }
}

/// Generator for trial chambers.
pub struct TrialChambersGenerator;

/// Piece of trial chambers, placed by the jigsaw engine.
pub struct TrialChambersPiece {
    pub piece: StructurePiece,
}

/// The jigsaw start of trial chambers.
pub open spec fn trial_chambers_start() -> JigsawStart {
    JigsawStart {
        start_pool: "minecraft:trial_chambers/corridor",
        size: 7,
        start_jigsaw: Some("minecraft:entrance"),
        use_expansion_hack: true,
    }
}

impl TrialChambersGenerator {
    /// The jigsaw start of trial chambers: the corridor pool, depth 7,
    /// anchored by the entrance jigsaw, with the expansion hack.
    pub fn jigsaw_start(&self) -> (s: JigsawStart)
        ensures
            s == trial_chambers_start(),
    {
        JigsawStart {
            start_pool: "minecraft:trial_chambers/corridor",
            size: 7,
            start_jigsaw: Some("minecraft:entrance"),
            use_expansion_hack: true,
        }
    }
}

/// The biome variants of villages.
#[derive(Debug, Clone, Copy, PartialEq, Eq, Structural)]
pub enum VillageKind {
    Plains,
    Desert,
    Savanna,
    Snowy,
    Taiga,
}

/// The town centre pool a village variant starts from.
pub open spec fn village_pool(kind: VillageKind) -> &'static str {
    match kind {
        VillageKind::Plains => "minecraft:village/plains/town_centers",
        VillageKind::Desert => "minecraft:village/desert/town_centers",
        VillageKind::Savanna => "minecraft:village/savanna/town_centers",
        VillageKind::Snowy => "minecraft:village/snowy/town_centers",
        VillageKind::Taiga => "minecraft:village/taiga/town_centers",
    }
}

/// The start pool of a village variant.
pub fn village_start_pool(kind: VillageKind) -> (pool: &'static str)
    ensures
        pool == village_pool(kind),
{
    match kind {
        VillageKind::Plains => "minecraft:village/plains/town_centers",
        VillageKind::Desert => "minecraft:village/desert/town_centers",
        VillageKind::Savanna => "minecraft:village/savanna/town_centers",
        VillageKind::Snowy => "minecraft:village/snowy/town_centers",
        VillageKind::Taiga => "minecraft:village/taiga/town_centers",
    }
}

/// The jigsaw start of a village: its town centre pool, at the depth the
/// structure registry gives (6 when it gives none).
pub open spec fn village_start(kind: VillageKind, configured_size: Option<u32>) -> JigsawStart {
    JigsawStart {
        start_pool: village_pool(kind),
        size: match configured_size {
            Some(n) => n,
            None => 6,
        },
        start_jigsaw: None,
        use_expansion_hack: false,
    }
}

/// The jigsaw start of a village variant, given the depth the structure
/// registry configures for it.
pub fn village_jigsaw_start(kind: VillageKind, configured_size: Option<u32>) -> (s: JigsawStart)
    ensures
        s == village_start(kind, configured_size),
{
    let size = match configured_size {
        Some(n) => n,
        None => 6,
    };
    JigsawStart {
        start_pool: village_start_pool(kind),
        size,
        start_jigsaw: None,
        use_expansion_hack: false,
    }
}

/// Generator for plains villages.
pub struct VillagePlainsGenerator;

/// Generator for desert villages.
pub struct VillageDesertGenerator;

/// Generator for savanna villages.
pub struct VillageSavannaGenerator;

/// Generator for snowy villages.
pub struct VillageSnowyGenerator;

/// Generator for taiga villages.
pub struct VillageTaigaGenerator;

impl VillagePlainsGenerator {
    /// The jigsaw start of a plains village.
    pub fn jigsaw_start(&self, configured_size: Option<u32>) -> (s: JigsawStart)
        ensures
            s == village_start(VillageKind::Plains, configured_size),
    {
        village_jigsaw_start(VillageKind::Plains, configured_size)
    }
}

impl VillageDesertGenerator {
    /// The jigsaw start of a desert village.
    pub fn jigsaw_start(&self, configured_size: Option<u32>) -> (s: JigsawStart)
        ensures
            s == village_start(VillageKind::Desert, configured_size),
    {
        village_jigsaw_start(VillageKind::Desert, configured_size)
    }
}

impl VillageSavannaGenerator {
    /// The jigsaw start of a savanna village.
    pub fn jigsaw_start(&self, configured_size: Option<u32>) -> (s: JigsawStart)
        ensures
            s == village_start(VillageKind::Savanna, configured_size),
    {
        village_jigsaw_start(VillageKind::Savanna, configured_size)
    }
}

impl VillageSnowyGenerator {
    /// The jigsaw start of a snowy village.
    pub fn jigsaw_start(&self, configured_size: Option<u32>) -> (s: JigsawStart)
        ensures
            s == village_start(VillageKind::Snowy, configured_size),
    {
        village_jigsaw_start(VillageKind::Snowy, configured_size)
    }
}

impl VillageTaigaGenerator {
    /// The jigsaw start of a taiga village.
    pub fn jigsaw_start(&self, configured_size: Option<u32>) -> (s: JigsawStart)
        ensures
            s == village_start(VillageKind::Taiga, configured_size),
    {
        village_jigsaw_start(VillageKind::Taiga, configured_size)
    }
}

/// The template pools preloaded at server start, one group per structure
/// family, so that generating a structure never waits on loading.
pub open spec fn template_pool_groups() -> Seq<Seq<&'static str>> {
    seq![
        // Ancient cities
        seq![
            "minecraft:ancient_city/city_center",
            "minecraft:ancient_city/structures",
            "minecraft:ancient_city/walls",
            "minecraft:ancient_city/city/entrance",
            "minecraft:ancient_city/city_center/walls",
            "minecraft:ancient_city/walls/no_corners",
            "minecraft:ancient_city/sculk",
        ],
        // Bastion remnants
        seq![
            "minecraft:bastion/starts",
            "minecraft:bastion/bridge/starting_pieces",
            "minecraft:bastion/bridge/bridge_pieces",
            "minecraft:bastion/bridge/connectors",
            "minecraft:bastion/bridge/legs",
            "minecraft:bastion/bridge/ramparts",
            "minecraft:bastion/bridge/walls",
            "minecraft:bastion/hoglin_stable/starting_pieces",
            "minecraft:bastion/hoglin_stable/large_stables",
            "minecraft:bastion/hoglin_stable/small_stables",
            "minecraft:bastion/treasure/bases",
            "minecraft:bastion/treasure/brains",
            "minecraft:bastion/treasure/connectors",
            "minecraft:bastion/treasure/corners",
            "minecraft:bastion/treasure/entrances",
            "minecraft:bastion/treasure/extensions",
            "minecraft:bastion/units/center_pieces",
            "minecraft:bastion/units/edges",
            "minecraft:bastion/units/fillers",
            "minecraft:bastion/units/pathways",
            "minecraft:bastion/units/stages",
            "minecraft:bastion/units/wall_units",
        ],
        // Pillager outposts
        seq![
            "minecraft:pillager_outpost/base_plates",
            "minecraft:pillager_outpost/towers",
            "minecraft:pillager_outpost/feature_plates",
            "minecraft:pillager_outpost/features",
        ],
        // Trail ruins
        seq![
            "minecraft:trail_ruins/tower/tower_top",
            "minecraft:trail_ruins/tower/additions",
            "minecraft:trail_ruins/buildings",
            "minecraft:trail_ruins/buildings/grouped",
            "minecraft:trail_ruins/roads",
            "minecraft:trail_ruins/decor",
        ],
        // Trial chambers
        seq![
            "minecraft:trial_chambers/corridor",
            "minecraft:trial_chambers/hallway",
            "minecraft:trial_chambers/intersection",
            "minecraft:trial_chambers/chamber",
            "minecraft:trial_chambers/chamber/addon",
            "minecraft:trial_chambers/chamber/assembly",
            "minecraft:trial_chambers/chamber/eruption",
            "minecraft:trial_chambers/chamber/pedestal",
            "minecraft:trial_chambers/chamber/slanted",
            "minecraft:trial_chambers/spawner/breeze",
            "minecraft:trial_chambers/spawner/melee",
            "minecraft:trial_chambers/spawner/ranged",
            "minecraft:trial_chambers/spawner/slow_ranged",
            "minecraft:trial_chambers/spawner/small_melee",
            "minecraft:trial_chambers/decor",
            "minecraft:trial_chambers/chests/supply",
            "minecraft:trial_chambers/dispensers/chamber",
            "minecraft:trial_chambers/reward/all",
        ],
        // Villages
        seq![
            "minecraft:village/plains/town_centers",
            "minecraft:village/plains/houses",
            "minecraft:village/plains/streets",
            "minecraft:village/plains/terminators",
            "minecraft:village/plains/decor",
            "minecraft:village/plains/trees",
            "minecraft:village/plains/zombie/houses",
            "minecraft:village/plains/zombie/streets",
            "minecraft:village/plains/zombie/terminators",
            "minecraft:village/desert/town_centers",
            "minecraft:village/desert/houses",
            "minecraft:village/desert/streets",
            "minecraft:village/desert/terminators",
            "minecraft:village/desert/decor",
            "minecraft:village/desert/zombie/houses",
            "minecraft:village/savanna/town_centers",
            "minecraft:village/savanna/houses",
            "minecraft:village/savanna/streets",
            "minecraft:village/savanna/terminators",
            "minecraft:village/savanna/zombie/houses",
            "minecraft:village/snowy/town_centers",
            "minecraft:village/snowy/houses",
            "minecraft:village/snowy/streets",
            "minecraft:village/snowy/terminators",
            "minecraft:village/snowy/zombie/houses",
            "minecraft:village/taiga/town_centers",
            "minecraft:village/taiga/houses",
            "minecraft:village/taiga/streets",
            "minecraft:village/taiga/terminators",
            "minecraft:village/taiga/zombie/houses",
        ],
    ]
}

/// Whether `pool` is among the preloaded template pools.
pub open spec fn is_preloaded(pool: &'static str) -> bool {
    exists|i: int, j: int|
        0 <= i < template_pool_groups().len() && 0 <= j < template_pool_groups()[i].len()
            && #[trigger] template_pool_groups()[i][j] == pool
}

/// The template pools to preload at server start, group by group.
pub fn structure_template_groups() -> (groups: Vec<Vec<&'static str>>)
    ensures
        groups@.len() == template_pool_groups().len(),
        forall|i: int| 0 <= i < groups@.len() ==> #[trigger] groups@[i]@ == template_pool_groups()[i],
{
    let groups: Vec<Vec<&'static str>> = vec![
        // Ancient cities
        vec![
            "minecraft:ancient_city/city_center",
            "minecraft:ancient_city/structures",
            "minecraft:ancient_city/walls",
            "minecraft:ancient_city/city/entrance",
            "minecraft:ancient_city/city_center/walls",
            "minecraft:ancient_city/walls/no_corners",
            "minecraft:ancient_city/sculk",
        ],
        // Bastion remnants
        vec![
            "minecraft:bastion/starts",
            "minecraft:bastion/bridge/starting_pieces",
            "minecraft:bastion/bridge/bridge_pieces",
            "minecraft:bastion/bridge/connectors",
            "minecraft:bastion/bridge/legs",
            "minecraft:bastion/bridge/ramparts",
            "minecraft:bastion/bridge/walls",
            "minecraft:bastion/hoglin_stable/starting_pieces",
            "minecraft:bastion/hoglin_stable/large_stables",
            "minecraft:bastion/hoglin_stable/small_stables",
            "minecraft:bastion/treasure/bases",
            "minecraft:bastion/treasure/brains",
            "minecraft:bastion/treasure/connectors",
            "minecraft:bastion/treasure/corners",
            "minecraft:bastion/treasure/entrances",
            "minecraft:bastion/treasure/extensions",
            "minecraft:bastion/units/center_pieces",
            "minecraft:bastion/units/edges",
            "minecraft:bastion/units/fillers",
            "minecraft:bastion/units/pathways",
            "minecraft:bastion/units/stages",
            "minecraft:bastion/units/wall_units",
        ],
        // Pillager outposts
        vec![
            "minecraft:pillager_outpost/base_plates",
            "minecraft:pillager_outpost/towers",
            "minecraft:pillager_outpost/feature_plates",
            "minecraft:pillager_outpost/features",
        ],
        // Trail ruins
        vec![
            "minecraft:trail_ruins/tower/tower_top",
            "minecraft:trail_ruins/tower/additions",
            "minecraft:trail_ruins/buildings",
            "minecraft:trail_ruins/buildings/grouped",
            "minecraft:trail_ruins/roads",
            "minecraft:trail_ruins/decor",
        ],
        // Trial chambers
        vec![
            "minecraft:trial_chambers/corridor",
            "minecraft:trial_chambers/hallway",
            "minecraft:trial_chambers/intersection",
            "minecraft:trial_chambers/chamber",
            "minecraft:trial_chambers/chamber/addon",
            "minecraft:trial_chambers/chamber/assembly",
            "minecraft:trial_chambers/chamber/eruption",
            "minecraft:trial_chambers/chamber/pedestal",
            "minecraft:trial_chambers/chamber/slanted",
            "minecraft:trial_chambers/spawner/breeze",
            "minecraft:trial_chambers/spawner/melee",
            "minecraft:trial_chambers/spawner/ranged",
            "minecraft:trial_chambers/spawner/slow_ranged",
            "minecraft:trial_chambers/spawner/small_melee",
            "minecraft:trial_chambers/decor",
            "minecraft:trial_chambers/chests/supply",
            "minecraft:trial_chambers/dispensers/chamber",
            "minecraft:trial_chambers/reward/all",
        ],
        // Villages
        vec![
            "minecraft:village/plains/town_centers",
            "minecraft:village/plains/houses",
            "minecraft:village/plains/streets",
            "minecraft:village/plains/terminators",
            "minecraft:village/plains/decor",
            "minecraft:village/plains/trees",
            "minecraft:village/plains/zombie/houses",
            "minecraft:village/plains/zombie/streets",
            "minecraft:village/plains/zombie/terminators",
            "minecraft:village/desert/town_centers",
            "minecraft:village/desert/houses",
            "minecraft:village/desert/streets",
            "minecraft:village/desert/terminators",
            "minecraft:village/desert/decor",
            "minecraft:village/desert/zombie/houses",
            "minecraft:village/savanna/town_centers",
            "minecraft:village/savanna/houses",
            "minecraft:village/savanna/streets",
            "minecraft:village/savanna/terminators",
            "minecraft:village/savanna/zombie/houses",
            "minecraft:village/snowy/town_centers",
            "minecraft:village/snowy/houses",
            "minecraft:village/snowy/streets",
            "minecraft:village/snowy/terminators",
            "minecraft:village/snowy/zombie/houses",
            "minecraft:village/taiga/town_centers",
            "minecraft:village/taiga/houses",
            "minecraft:village/taiga/streets",
            "minecraft:village/taiga/terminators",
            "minecraft:village/taiga/zombie/houses",
        ],
    ];
    assert(groups@[0]@ =~= template_pool_groups()[0]);
    assert(groups@[1]@ =~= template_pool_groups()[1]);
    assert(groups@[2]@ =~= template_pool_groups()[2]);
    assert(groups@[3]@ =~= template_pool_groups()[3]);
    assert(groups@[4]@ =~= template_pool_groups()[4]);
    assert(groups@[5]@ =~= template_pool_groups()[5]);
    groups
}

/// Every jigsaw structure starts from a pool that is preloaded at server
/// start, whatever depth the registry gives a village.
pub proof fn lemma_start_pools_preloaded(kind: VillageKind, configured_size: Option<u32>)
    ensures
        is_preloaded(ancient_city_start().start_pool),
        is_preloaded(bastion_remnant_start().start_pool),
        is_preloaded(pillager_outpost_start().start_pool),
        is_preloaded(trail_ruins_start().start_pool),
        is_preloaded(trial_chambers_start().start_pool),
        is_preloaded(village_start(kind, configured_size).start_pool),
{
    let g = template_pool_groups();
    assert(g[0][0] == ancient_city_start().start_pool);
    assert(g[1][0] == bastion_remnant_start().start_pool);
    assert(g[2][0] == pillager_outpost_start().start_pool);
    assert(g[3][0] == trail_ruins_start().start_pool);
    assert(g[4][0] == trial_chambers_start().start_pool);
    match kind {
        VillageKind::Plains => {
            assert(g[5][0] == village_start(kind, configured_size).start_pool);
        },
        VillageKind::Desert => {
            assert(g[5][9] == village_start(kind, configured_size).start_pool);
        },
        VillageKind::Savanna => {
            assert(g[5][15] == village_start(kind, configured_size).start_pool);
        },
        VillageKind::Snowy => {
            assert(g[5][20] == village_start(kind, configured_size).start_pool);
        },
        VillageKind::Taiga => {
            assert(g[5][25] == village_start(kind, configured_size).start_pool);
        },
    }
}

} // verus!
