//! Terrain classes, the noise banding that assigns them, and the terrain
//! catalog that maps each class to a display name and its texture variants.
//!
//! Noise samples are fixed-point thousandths: a nominal sample lies in
//! [-1000, 1000]. The banding picks a base biome from the biome sample at
//! fixed thresholds (roughly 50% grass, 20% dirt, 17.5% sand, 12.5% alien),
//! lets a high relief sample override it with a mountain, and layers rare
//! decorations, common rock formations and frequent forests from the feature
//! sample, each keyed by the base biome.

use vstd::prelude::*;

verus! {

/// Biome sample above which a cell is grass.
pub const BIOME_GRASS_MIN: i64 = 0;

/// Biome sample above which a cell is dirt (when not grass).
pub const BIOME_DIRT_MIN: i64 = -400;

/// Biome sample above which a cell is sand (when not grass or dirt); below,
/// it is alien.
pub const BIOME_SAND_MIN: i64 = -750;

/// Relief sample above which a cell becomes a mountain.
pub const RELIEF_MOUNTAIN_MIN: i64 = 870;

/// Feature sample above which a rare decoration appears.
pub const FEATURE_DECOR_MIN: i64 = 850;

/// Feature sample above which a rock formation appears.
pub const FEATURE_ROCKS_MIN: i64 = 300;

/// Feature sample above which a forest appears.
pub const FEATURE_FOREST_MIN: i64 = -100;

/// The terrain a tile can have: four base biomes, their mountain overrides,
/// and their decoration, rock and forest features.
#[derive(Clone, Copy, Debug, PartialEq, Eq, Structural)]
pub enum TerrainClass {
    Grass,
    Dirt,
    Sand,
    Alien,
    GreenMountain,
    BigMountain,
    AlienMountain,
    Cactus,
    GreenRocks,
    DirtRocks,
    SandRocks,
    AlienRocks,
    GrassForest,
    AlienForest,
}

/// A catalog entry: the display name of a terrain class and the ordered
/// handles of its texture variants.
#[derive(Debug)]
pub struct Terrain {
    pub name: String,
    pub class: TerrainClass,
    /// Presentation-layer handles of the texture variants, in order.
    pub texture_variants: Vec<u64>,
}

/// The base biome of a cell, from its biome sample.
pub open spec fn base_biome(biome: int) -> TerrainClass {
    if biome > BIOME_GRASS_MIN {
        TerrainClass::Grass
    } else if biome > BIOME_DIRT_MIN {
        TerrainClass::Dirt
    } else if biome > BIOME_SAND_MIN {
        TerrainClass::Sand
    } else {
        TerrainClass::Alien
    }
}

/// The terrain of a cell before isolation smoothing: the base biome,
/// overridden by a mountain on high relief, else layered with a rare
/// decoration, rocks, or a forest by feature bands.
pub open spec fn classify(biome: int, relief: int, feature: int) -> TerrainClass {
    let base = base_biome(biome);
    if relief > RELIEF_MOUNTAIN_MIN {
        match base {
            TerrainClass::Grass => TerrainClass::GreenMountain,
            TerrainClass::Alien => TerrainClass::AlienMountain,
            _ => TerrainClass::BigMountain,
        }
    } else if feature > FEATURE_DECOR_MIN {
        match base {
            TerrainClass::Sand => TerrainClass::Cactus,
            _ => base,
        }
    } else if feature > FEATURE_ROCKS_MIN {
        match base {
            TerrainClass::Grass => TerrainClass::GreenRocks,
            TerrainClass::Dirt => TerrainClass::DirtRocks,
            TerrainClass::Sand => TerrainClass::SandRocks,
            TerrainClass::Alien => TerrainClass::AlienRocks,
            _ => base,
        }
    } else if feature > FEATURE_FOREST_MIN {
        match base {
            TerrainClass::Grass => TerrainClass::GrassForest,
            TerrainClass::Alien => TerrainClass::AlienForest,
            _ => base,
        }
    } else {
        base
    }
}

/// The terrain of a cell before isolation smoothing, from its three noise
/// samples.
pub fn classify_terrain(biome: i64, relief: i64, feature: i64) -> (c: TerrainClass)
    ensures
        c == classify(biome as int, relief as int, feature as int),
{
    let base = if biome > BIOME_GRASS_MIN {
        TerrainClass::Grass
    } else if biome > BIOME_DIRT_MIN {
        TerrainClass::Dirt
    } else if biome > BIOME_SAND_MIN {
        TerrainClass::Sand
    } else {
        TerrainClass::Alien
    };
    if relief > RELIEF_MOUNTAIN_MIN {
        match base {
            TerrainClass::Grass => TerrainClass::GreenMountain,
            TerrainClass::Alien => TerrainClass::AlienMountain,
            _ => TerrainClass::BigMountain,
        }
    } else if feature > FEATURE_DECOR_MIN {
        match base {
            TerrainClass::Sand => TerrainClass::Cactus,
            _ => base,
        }
    } else if feature > FEATURE_ROCKS_MIN {
        match base {
            TerrainClass::Grass => TerrainClass::GreenRocks,
            TerrainClass::Dirt => TerrainClass::DirtRocks,
            TerrainClass::Sand => TerrainClass::SandRocks,
            TerrainClass::Alien => TerrainClass::AlienRocks,
            _ => base,
        }
    } else if feature > FEATURE_FOREST_MIN {
        match base {
            TerrainClass::Grass => TerrainClass::GrassForest,
            TerrainClass::Alien => TerrainClass::AlienForest,
            _ => base,
        }
    } else {
        base
    }
}

/// Index of the first catalog entry for class `c`, or -1 when the catalog
/// has none.
pub open spec fn lookup_class(entries: Seq<Terrain>, c: TerrainClass) -> int
    decreases entries.len(),
{
    if entries.len() == 0 {
        -1
    } else if entries[0].class == c {
        0
    } else {
        let t = lookup_class(entries.drop_first(), c);
        if t < 0 {
            -1
        } else {
            t + 1
        }
    }
}

/// What `lookup_class` returns: -1 exactly when the class is absent, else
/// the first index holding it.
pub proof fn lemma_lookup_class_props(entries: Seq<Terrain>, c: TerrainClass)
    ensures
        lookup_class(entries, c) == -1 ==> forall|i: int|
            0 <= i < entries.len() ==> (#[trigger] entries[i].class) != c,
        lookup_class(entries, c) != -1 ==> {
            &&& 0 <= lookup_class(entries, c) < entries.len()
            &&& entries[lookup_class(entries, c)].class == c
            &&& forall|j: int|
                0 <= j < lookup_class(entries, c) ==> (#[trigger] entries[j].class) != c
        },
    decreases entries.len(),
{
    if entries.len() == 0 {
    } else if entries[0].class == c {
    } else {
        let rest = entries.drop_first();
        lemma_lookup_class_props(rest, c);
        let t = lookup_class(rest, c);
        if t == -1 {
            assert forall|i: int| 0 <= i < entries.len() implies (#[trigger] entries[i].class)
                != c by {
                if i > 0 {
                    assert(rest[i - 1] == entries[i]);
                    assert(rest[i - 1].class != c);
                }
            }
        } else {
            assert(entries[t + 1] == rest[t]);
            assert forall|j: int| 0 <= j < t + 1 implies (#[trigger] entries[j].class) != c by {
                if j > 0 {
                    assert(rest[j - 1] == entries[j]);
                    assert(rest[j - 1].class != c);
                }
            }
        }
    }
}

/// The first occurrence of class `c` in the catalog determines
/// `lookup_class`.
pub proof fn lemma_lookup_class_first(entries: Seq<Terrain>, c: TerrainClass, i: int)
    requires
        0 <= i < entries.len(),
        entries[i].class == c,
        forall|j: int| 0 <= j < i ==> (#[trigger] entries[j].class) != c,
    ensures
        lookup_class(entries, c) == i,
    decreases i,
{
    if i == 0 {
    } else {
        assert(entries[0].class != c);
        assert(forall|j: int|
            0 <= j < entries.drop_first().len() ==> #[trigger] entries.drop_first()[j] == entries[j
                + 1]);
        lemma_lookup_class_first(entries.drop_first(), c, i - 1);
    }
}

/// Index of the first catalog entry for class `c`, if the catalog has one.
pub fn find_terrain(entries: &Vec<Terrain>, c: TerrainClass) -> (r: Option<usize>)
    ensures
        r is None <==> lookup_class(entries@, c) == -1,
        r matches Some(i) ==> i as int == lookup_class(entries@, c) && i < entries@.len()
            && entries@[i as int].class == c,
{
    let mut i: usize = 0;
    while i < entries.len()
        invariant
            i <= entries.len(),
            forall|j: int| 0 <= j < i ==> (#[trigger] entries@[j].class) != c,
        decreases entries.len() - i,
    {
        if entries[i].class == c {
            proof {
                lemma_lookup_class_first(entries@, c, i as int);
            }
            return Some(i);
        }
        i = i + 1;
    }
    proof {
        lemma_lookup_class_props(entries@, c);
        if lookup_class(entries@, c) != -1 {
            assert(entries@[lookup_class(entries@, c)].class == c);
        }
    }
    None
}

/// One catalog entry with `count` texture variants whose handles follow
/// `first_handle`.
fn make_terrain(name: &str, class: TerrainClass, count: usize, first_handle: u64) -> (t: Terrain)
    requires
        count <= 1000,
        first_handle <= 0xffff_ffff,
    ensures
        t.name@ == name@,
        t.class == class,
        t.texture_variants@.len() == count,
{
    let mut handles: Vec<u64> = Vec::new();
    let mut i: usize = 0;
    while i < count
        invariant
            i <= count,
            count <= 1000,
            first_handle <= 0xffff_ffff,
            handles@.len() == i,
        decreases count - i,
    {
        handles.push(first_handle + i as u64);
        i = i + 1;
    }
    Terrain { name: name.to_string(), class, texture_variants: handles }
}

/// The game's terrain catalog: the fourteen terrain classes, their display
/// names, and how many texture variants each offers. Every class the banding
/// can produce is present, with at least one variant.
pub fn default_catalog() -> (r: Vec<Terrain>)
    ensures
        r@.len() == 14,
        forall|i: int| 0 <= i < 14 ==> (#[trigger] r@[i].texture_variants@.len()) >= 1,
        forall|i: int| 0 <= i < 14 ==> (#[trigger] r@[i].texture_variants@.len()) <= 4,
        r@[0].class == TerrainClass::Sand && r@[0].texture_variants@.len() == 4 && r@[0].name@
            == "sand"@,
        r@[1].class == TerrainClass::Cactus && r@[1].texture_variants@.len() == 1 && r@[1].name@
            == "cactus"@,
        r@[2].class == TerrainClass::Alien && r@[2].texture_variants@.len() == 2 && r@[2].name@
            == "alien"@,
        r@[3].class == TerrainClass::AlienForest && r@[3].texture_variants@.len() == 1
            && r@[3].name@ == "alienForest"@,
        r@[4].class == TerrainClass::Dirt && r@[4].texture_variants@.len() == 2 && r@[4].name@
            == "dirt"@,
        r@[5].class == TerrainClass::BigMountain && r@[5].texture_variants@.len() == 1
            && r@[5].name@ == "bigMountain"@,
        r@[6].class == TerrainClass::DirtRocks && r@[6].texture_variants@.len() == 2 && r@[6].name@
            == "dirtRocks"@,
        r@[7].class == TerrainClass::GreenMountain && r@[7].texture_variants@.len() == 1
            && r@[7].name@ == "greenMountain"@,
        r@[8].class == TerrainClass::GreenRocks && r@[8].texture_variants@.len() == 1
            && r@[8].name@ == "greenRocks"@,
        r@[9].class == TerrainClass::SandRocks && r@[9].texture_variants@.len() == 3 && r@[9].name@
            == "sandRocks"@,
        r@[10].class == TerrainClass::Grass && r@[10].texture_variants@.len() == 3 && r@[10].name@
            == "grass"@,
        r@[11].class == TerrainClass::GrassForest && r@[11].texture_variants@.len() == 2
            && r@[11].name@ == "grassForest"@,
        r@[12].class == TerrainClass::AlienRocks && r@[12].texture_variants@.len() == 3
            && r@[12].name@ == "alienRocks"@,
        r@[13].class == TerrainClass::AlienMountain && r@[13].texture_variants@.len() == 1
            && r@[13].name@ == "alienMountain"@,
{
    let mut out: Vec<Terrain> = Vec::new();
    out.push(make_terrain("sand", TerrainClass::Sand, 4, 0));
    out.push(make_terrain("cactus", TerrainClass::Cactus, 1, 100));
    out.push(make_terrain("alien", TerrainClass::Alien, 2, 200));
    out.push(make_terrain("alienForest", TerrainClass::AlienForest, 1, 300));
    out.push(make_terrain("dirt", TerrainClass::Dirt, 2, 400));
    out.push(make_terrain("bigMountain", TerrainClass::BigMountain, 1, 500));
    out.push(make_terrain("dirtRocks", TerrainClass::DirtRocks, 2, 600));
    out.push(make_terrain("greenMountain", TerrainClass::GreenMountain, 1, 700));
    out.push(make_terrain("greenRocks", TerrainClass::GreenRocks, 1, 800));
    out.push(make_terrain("sandRocks", TerrainClass::SandRocks, 3, 900));
    out.push(make_terrain("grass", TerrainClass::Grass, 3, 1000));
    out.push(make_terrain("grassForest", TerrainClass::GrassForest, 2, 1100));
    out.push(make_terrain("alienRocks", TerrainClass::AlienRocks, 3, 1200));
    out.push(make_terrain("alienMountain", TerrainClass::AlienMountain, 1, 1300));
    out
}

} // verus!
