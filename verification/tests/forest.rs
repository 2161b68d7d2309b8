use bof::scatter::{
    forest_cells, forest_kind, hash_u32, noise_corner_hash, ring_boundary_seed, tile_blade_seed,
    tree_family, TreeFamily, TreeKind, GRID_RADIUS,
};

#[test]
fn the_scatter_hash_is_the_integer_finaliser() {
    assert_eq!(hash_u32(0), 0);
    assert_eq!(hash_u32(1), 1_753_845_952);
    assert_eq!(hash_u32(0x5eed_1234), 1_807_421_872);
}

#[test]
fn the_forest_grid_keeps_about_a_third_of_its_cells() {
    let cells = forest_cells();
    assert_eq!(cells.len(), 191);
    assert!(cells
        .iter()
        .all(|cell| cell.x.abs() <= GRID_RADIUS && cell.z.abs() <= GRID_RADIUS));
    assert!(cells.iter().all(|cell| cell.hash % 100 < 31));
    assert_eq!((cells[0].x, cells[0].z, cells[0].hash), (-6, -12, 3_575_606_702));
    assert_eq!(forest_kind(cells[0].hash), TreeKind::Pine3);
}

#[test]
fn a_kind_reads_its_species_and_variant_from_apart_bits() {
    // Band (hash >> 8) % 20 = 0 is common; the variant is hash % 5.
    assert_eq!(forest_kind(0), TreeKind::Common1);
    assert_eq!(forest_kind(4), TreeKind::Common5);
    assert_eq!(forest_kind((11 << 8) + 4), TreeKind::Pine1);
    assert_eq!(forest_kind((19 << 8) + 3), TreeKind::Twisted3);
    assert_eq!(tree_family(TreeKind::Pine4), TreeFamily::Pine);
    assert_eq!(tree_family(TreeKind::Twisted1), TreeFamily::Twisted);
}

#[test]
fn a_tile_grows_the_same_blades_every_time_and_its_neighbour_others() {
    assert_eq!(tile_blade_seed(3, -7, 5), tile_blade_seed(3, -7, 5));
    assert_eq!(tile_blade_seed(3, -7, 5), 3_464_115_171);
    assert_ne!(tile_blade_seed(3, -7, 5), tile_blade_seed(4, -7, 5));
    assert_ne!(tile_blade_seed(3, -7, 5), tile_blade_seed(3, -7, 6));
    assert_eq!(tile_blade_seed(0, 0, 0), 0);
}

#[test]
fn the_ring_seed_saturates_and_the_noise_corner_is_stable() {
    assert_eq!(ring_boundary_seed(2, 3, usize::MAX), ring_boundary_seed(2, 3, u32::MAX as usize));
    assert_ne!(ring_boundary_seed(2, 3, 0), ring_boundary_seed(2, 3, 1));
    assert_eq!(noise_corner_hash(5, -3, 77), noise_corner_hash(5, -3, 77));
    assert_ne!(noise_corner_hash(5, -3, 77), noise_corner_hash(5, -3, 78));
}
