use bof::grass_plan::{
    blades_per_chunk, card_albedo_path, chunk_tile_blades, submitted_triangles_per_blade,
    SUBMITTED_TRIANGLES_PER_BLADE,
};

#[test]
fn only_solo_spike_drops_the_second_triangle() {
    assert_eq!(submitted_triangles_per_blade("solo púa"), 1);
    assert_eq!(submitted_triangles_per_blade("auto"), SUBMITTED_TRIANGLES_PER_BLADE);
    assert_eq!(submitted_triangles_per_blade("solo hoja"), 2);
    assert_eq!(submitted_triangles_per_blade("solo carta"), 2);
}

#[test]
fn a_card_candidate_never_changes_the_shipped_asset_without_an_explicit_name() {
    let base = card_albedo_path("base");
    assert_eq!(base.path, "textures/props/T_GrassMeadowCard_Albedo.png");
    assert!(!base.unknown);
    let unknown = card_albedo_path("v9");
    assert_eq!(unknown.path, base.path);
    assert!(unknown.unknown);
    assert_eq!(card_albedo_path("legacy").path, "textures/props/T_GrassCard_Albedo.png");
    assert_eq!(card_albedo_path("v3").path, "textures/props/T_GrassMeadowCard_v3_Albedo.png");
}

#[test]
fn chunk_blade_positions_yields_every_tile_times_index_pair() {
    let blades = chunk_tile_blades(-3, 5, 4, 10, 13);
    assert_eq!(blades.len(), 4 * 4 * 3);
    for dz in 0..4 {
        for dx in 0..4 {
            for index in 10..13 {
                let count = blades
                    .iter()
                    .filter(|blade| **blade == (-3 + dx, 5 + dz, index))
                    .count();
                assert_eq!(count, 1, "tile ({dx}, {dz}) blade {index}");
            }
        }
    }
    // Row by row, and within a tile the stretch in order.
    assert_eq!(&blades[..4], &[(-3, 5, 10), (-3, 5, 11), (-3, 5, 12), (-2, 5, 10)]);
    assert_eq!(blades[12], (-3, 6, 10));
}

#[test]
fn a_chunk_counts_its_blades_and_saturates() {
    assert_eq!(blades_per_chunk(3, 4), 48);
    assert_eq!(blades_per_chunk(0, 16), 0);
    assert_eq!(blades_per_chunk(u32::MAX, 2), u32::MAX);
    assert_eq!(blades_per_chunk(70_000, 300), u32::MAX);
    assert!(chunk_tile_blades(0, 0, 3, 7, 7).is_empty());
}
