//! Generation driven by real layered noise fields, sampled the way the game
//! samples them: a sheared transform of each cell plus a session offset,
//! fed through fractal biome and relief fields and a turbulence-modulated
//! feature field.

use hexcore::generator::{cell_count, generate, grid_cells, CellSample};
use hexcore::terrain::{default_catalog, find_terrain};
use noise::{Fbm, MultiFractal, NoiseFn, Perlin, Turbulence};

fn noise_coords(q: i32, r: i32, offset_x: f64, offset_z: f64) -> [f64; 2] {
    let x = (q as f64) * 1.0 - (r as f64) * 0.6 + offset_x;
    let z = (r as f64) * 0.9 + offset_z;
    [x, z]
}

fn sample_grid(radius: i32, seed: u32, offset_x: f64, offset_z: f64) -> Vec<CellSample> {
    let biome_noise = Fbm::<Perlin>::new(seed)
        .set_octaves(6)
        .set_frequency(0.02)
        .set_persistence(0.6);
    let relief_noise = Fbm::<Perlin>::new(seed.wrapping_add(1))
        .set_octaves(4)
        .set_frequency(0.025)
        .set_persistence(0.5);
    let feature_noise = Turbulence::<Perlin, Perlin>::new(Perlin::new(seed.wrapping_add(2)))
        .set_frequency(0.03)
        .set_power(0.7);

    let to_fixed = |v: f64| -> i64 { (v * 1000.0) as i64 };

    grid_cells(radius)
        .iter()
        .map(|&(q, r)| {
            let pos = noise_coords(q, r, offset_x, offset_z);
            let variant_pos = noise_coords(q * 2, r * 2, offset_x * 2.0, offset_z * 2.0);
            CellSample {
                biome: to_fixed(biome_noise.get(pos)),
                relief: to_fixed(relief_noise.get(pos)),
                feature: to_fixed(feature_noise.get(pos)),
                variant: to_fixed(feature_noise.get(variant_pos)),
            }
        })
        .collect()
}

#[test]
fn noise_driven_generation_fills_the_grid() {
    let radius = 5;
    let catalog = default_catalog();
    let samples = sample_grid(radius, 7, 381.5, -922.25);
    assert_eq!(samples.len(), cell_count(radius));
    let tiles = generate(radius, &catalog, &samples).expect("catalog supplies every class");
    assert_eq!(tiles.len(), cell_count(radius));
    for (k, tile) in tiles.iter().enumerate() {
        assert_eq!(tile.id, k);
        let idx = find_terrain(&catalog, tile.terrain).expect("terrain in catalog");
        assert!(tile.texture_variant < catalog[idx].texture_variants.len());
    }
}

#[test]
fn noise_driven_generation_is_deterministic_per_seed() {
    let radius = 3;
    let catalog = default_catalog();
    let a = generate(radius, &catalog, &sample_grid(radius, 11, 10.0, 20.0)).unwrap();
    let b = generate(radius, &catalog, &sample_grid(radius, 11, 10.0, 20.0)).unwrap();
    assert_eq!(a, b);
    let c = generate(radius, &catalog, &sample_grid(radius, 12, 10.0, 20.0)).unwrap();
    assert_eq!(c.len(), a.len());
}
