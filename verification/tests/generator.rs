use hexcore::generator::{
    cell_count, generate, grid_cells, in_grid_cell, CellSample, GenError,
};
use hexcore::terrain::{default_catalog, find_terrain, Terrain, TerrainClass};

fn uniform_samples(n: usize, biome: i64, relief: i64, feature: i64, variant: i64) -> Vec<CellSample> {
    let mut v = Vec::new();
    for _ in 0..n {
        v.push(CellSample { biome, relief, feature, variant });
    }
    v
}

#[test]
fn cell_count_formula() {
    assert_eq!(cell_count(0), 1);
    assert_eq!(cell_count(1), 7);
    assert_eq!(cell_count(2), 19);
    assert_eq!(cell_count(58), 3 * 58 * 58 + 3 * 58 + 1);
}

#[test]
fn grid_cells_enumerates_each_cell_once() {
    let cells = grid_cells(2);
    assert_eq!(cells.len(), 19);
    for i in 0..cells.len() {
        let (q, r) = cells[i];
        assert!(in_grid_cell(2, q, r));
        for j in 0..i {
            assert_ne!(cells[j], cells[i]);
        }
    }
}

#[test]
fn radius_two_yields_nineteen_tiles_with_unique_ids() {
    let catalog = default_catalog();
    let samples = uniform_samples(19, 500, 0, -500, 0);
    let tiles = generate(2, &catalog, &samples).unwrap();
    assert_eq!(tiles.len(), 19);
    for (k, tile) in tiles.iter().enumerate() {
        assert_eq!(tile.id, k);
        // Every tile's terrain has a catalog entry, and its variant indexes
        // that entry's texture list.
        let idx = find_terrain(&catalog, tile.terrain).unwrap();
        assert!(tile.texture_variant < catalog[idx].texture_variants.len());
        for other in tiles.iter().skip(k + 1) {
            assert_ne!(tile.id, other.id);
            assert_ne!((tile.q, tile.r), (other.q, other.r));
        }
    }
}

#[test]
fn quiet_samples_give_uniform_grass() {
    let catalog = default_catalog();
    let samples = uniform_samples(7, 500, 0, -500, 0);
    let tiles = generate(1, &catalog, &samples).unwrap();
    for tile in &tiles {
        assert_eq!(tile.terrain, TerrainClass::Grass);
        assert_eq!(tile.texture_variant, 0);
    }
}

#[test]
fn banding_places_mountains_rocks_and_forests() {
    let catalog = default_catalog();
    // One-cell grid; drive each band directly.
    let case = |biome: i64, relief: i64, feature: i64| -> TerrainClass {
        let samples = uniform_samples(1, biome, relief, feature, 0);
        generate(0, &catalog, &samples).unwrap()[0].terrain
    };
    assert_eq!(case(500, 0, -500), TerrainClass::Grass);
    assert_eq!(case(-100, 0, -500), TerrainClass::Dirt);
    assert_eq!(case(-500, 0, -500), TerrainClass::Sand);
    assert_eq!(case(-800, 0, -500), TerrainClass::Alien);
    assert_eq!(case(500, 900, 0), TerrainClass::GreenMountain);
    assert_eq!(case(-800, 900, 0), TerrainClass::AlienMountain);
    assert_eq!(case(-100, 900, 0), TerrainClass::BigMountain);
    assert_eq!(case(-500, 0, 900), TerrainClass::Cactus);
    assert_eq!(case(500, 0, 900), TerrainClass::Grass);
    assert_eq!(case(500, 0, 500), TerrainClass::GreenRocks);
    assert_eq!(case(-100, 0, 500), TerrainClass::DirtRocks);
    assert_eq!(case(-500, 0, 500), TerrainClass::SandRocks);
    assert_eq!(case(-800, 0, 500), TerrainClass::AlienRocks);
    assert_eq!(case(500, 0, 0), TerrainClass::GrassForest);
    assert_eq!(case(-800, 0, 0), TerrainClass::AlienForest);
    assert_eq!(case(-100, 0, 0), TerrainClass::Dirt);
    // Band boundaries are strict.
    assert_eq!(case(0, 0, -500), TerrainClass::Dirt);
    assert_eq!(case(500, 870, -500), TerrainClass::Grass);
    assert_eq!(case(500, 0, 300), TerrainClass::GrassForest);
    assert_eq!(case(500, 0, -100), TerrainClass::Grass);
}

#[test]
fn isolated_center_takes_neighbor_terrain() {
    let catalog = default_catalog();
    // Radius-1 grid: cells in order (-1,0) (-1,1) (0,-1) (0,0) (0,1) (1,-1)
    // (1,0); the center (0,0) is at index 3 and touches all six others.
    let mut samples = uniform_samples(7, 500, 0, -500, 0);
    samples[3].biome = -100; // center banded to dirt, ring to grass
    let tiles = generate(1, &catalog, &samples).unwrap();
    assert_eq!((tiles[3].q, tiles[3].r), (0, 0));
    assert_eq!(tiles[3].terrain, TerrainClass::Grass);
    for (k, tile) in tiles.iter().enumerate() {
        if k != 3 {
            assert_eq!(tile.terrain, TerrainClass::Grass);
        }
    }
}

#[test]
fn majority_neighbors_win_on_smoothing() {
    let catalog = default_catalog();
    // Center dirt; five neighbors grass and one sand: 6 differing neighbors,
    // so the center is reassigned to the most frequent neighbor terrain.
    let mut samples = uniform_samples(7, 500, 0, -500, 0);
    samples[3].biome = -100; // center: dirt
    samples[0].biome = -500; // one ring cell: sand
    let tiles = generate(1, &catalog, &samples).unwrap();
    assert_eq!(tiles[3].terrain, TerrainClass::Grass);
    assert_eq!(tiles[0].terrain, TerrainClass::Sand);
}

#[test]
fn four_matching_neighbors_prevent_smoothing() {
    let catalog = default_catalog();
    // Center grass with exactly four differing neighbors: below the
    // five-neighbor isolation bar, so the center keeps its terrain.
    let mut samples = uniform_samples(7, 500, 0, -500, 0);
    for k in [0usize, 1, 2, 4] {
        samples[k].biome = -100;
    }
    let tiles = generate(1, &catalog, &samples).unwrap();
    assert_eq!(tiles[3].terrain, TerrainClass::Grass);
}

#[test]
fn variant_selection_is_always_in_bounds() {
    let catalog = default_catalog();
    // Grass has three variants: |v| * 3 / 1000 mod 3.
    let variant_for = |v: i64| -> usize {
        let samples = uniform_samples(1, 500, 0, -500, v);
        generate(0, &catalog, &samples).unwrap()[0].texture_variant
    };
    assert_eq!(variant_for(0), 0);
    assert_eq!(variant_for(-999), 2);
    assert_eq!(variant_for(400), 1);
    assert_eq!(variant_for(5000), 0); // 15 mod 3: out-of-nominal samples stay in bounds
    assert_eq!(variant_for(-1_000_000), 0);
}

#[test]
fn unknown_terrain_aborts_generation() {
    // A catalog without grass cannot supply a grass cell.
    let catalog: Vec<Terrain> = default_catalog()
        .into_iter()
        .filter(|t| t.class != TerrainClass::Grass)
        .collect();
    let samples = uniform_samples(1, 500, 0, -500, 0);
    assert_eq!(
        generate(0, &catalog, &samples),
        Err(GenError::UnknownTerrain(TerrainClass::Grass))
    );
}

#[test]
fn empty_variant_list_aborts_generation() {
    let mut catalog = default_catalog();
    for t in catalog.iter_mut() {
        if t.class == TerrainClass::Grass {
            t.texture_variants.clear();
        }
    }
    let samples = uniform_samples(1, 500, 0, -500, 0);
    assert_eq!(
        generate(0, &catalog, &samples),
        Err(GenError::EmptyVariantList(TerrainClass::Grass))
    );
}

#[test]
fn full_game_radius_generates() {
    let radius = 58;
    let catalog = default_catalog();
    let samples = uniform_samples(cell_count(radius), 500, 0, -500, 0);
    let tiles = generate(radius, &catalog, &samples).unwrap();
    assert_eq!(tiles.len(), 3 * 58 * 58 + 3 * 58 + 1);
    for (k, tile) in tiles.iter().enumerate() {
        assert_eq!(tile.id, k);
    }
}

#[test]
fn tile_positions_match_coordinates() {
    let catalog = default_catalog();
    let samples = uniform_samples(19, 500, 0, -500, 0);
    let tiles = generate(2, &catalog, &samples).unwrap();
    for tile in &tiles {
        let p = hexcore::coords::axial_to_world(tile.q, tile.r);
        assert_eq!(tile.position, p);
    }
}
