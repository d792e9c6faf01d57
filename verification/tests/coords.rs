use hexcore::coords::{axial_to_world, hex_distance, world_to_axial, WorldPosition, GRID_RADIUS};

#[test]
fn world_position_of_origin() {
    let p = axial_to_world(0, 0);
    assert_eq!(p.x, 0);
    assert_eq!(p.y, 0);
    assert_eq!(p.z, 0);
}

#[test]
fn world_position_exact_values() {
    // One column step is twice the half-step; one row step is 1.5 hex sizes.
    let p = axial_to_world(1, 0);
    assert_eq!((p.x, p.y, p.z), (51962, 0, 0));
    let p = axial_to_world(0, 1);
    assert_eq!((p.x, p.y, p.z), (25981, 45000, 0));
    let p = axial_to_world(2, -1);
    assert_eq!((p.x, p.y, p.z), (77943, -45000, 0));
    let p = axial_to_world(-3, 2);
    assert_eq!((p.x, p.y, p.z), (25981 * -4, 90000, 0));
}

#[test]
fn round_trip_recovers_every_cell_in_grid() {
    let radius = GRID_RADIUS;
    for q in -radius..=radius {
        for r in -radius..=radius {
            let p = axial_to_world(q, r);
            assert_eq!(world_to_axial(p), (q, r));
        }
    }
}

#[test]
fn round_trip_far_from_origin() {
    for &(q, r) in &[(1_000_000, -1_000_000), (-999_999, 999_999), (12345, -54321)] {
        let p = axial_to_world(q, r);
        assert_eq!(world_to_axial(p), (q, r));
    }
}

#[test]
fn world_to_axial_rounds_to_nearest_center() {
    assert_eq!(world_to_axial(WorldPosition { x: 0, y: 0, z: 0 }), (0, 0));
    // A point less than half a column step to the right of the origin still
    // maps to the origin cell.
    assert_eq!(world_to_axial(WorldPosition { x: 25000, y: 0, z: 0 }), (0, 0));
    // Past the midpoint it maps to the next column.
    assert_eq!(world_to_axial(WorldPosition { x: 27000, y: 0, z: 0 }), (1, 0));
}

#[test]
fn hex_distance_of_neighbors_is_one() {
    let neighbors = [(1, 0), (1, -1), (0, -1), (-1, 0), (-1, 1), (0, 1)];
    for &(q, r) in &neighbors {
        assert_eq!(hex_distance(0, 0, q, r), 1);
    }
}

#[test]
fn hex_distance_exact_values() {
    assert_eq!(hex_distance(0, 0, 0, 0), 0);
    assert_eq!(hex_distance(0, 0, 2, -1), 2);
    assert_eq!(hex_distance(0, 0, 2, 2), 4);
    assert_eq!(hex_distance(-3, 2, 4, -5), 7);
}

#[test]
fn hex_distance_is_symmetric() {
    let pairs = [
        (0, 0, 5, -2),
        (3, -1, -4, 2),
        (-7, 7, 7, -7),
        (58, -58, -58, 58),
    ];
    for &(q1, r1, q2, r2) in &pairs {
        assert_eq!(hex_distance(q1, r1, q2, r2), hex_distance(q2, r2, q1, r1));
        assert_eq!(hex_distance(q1, r1, q1, r1), 0);
    }
}
