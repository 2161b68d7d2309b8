use bof::terrain_kind::TerrainKind;
use bof::terrain_mesh::{semantic_payload, terrain_mesh_corners, VERTICES_PER_CELL};

#[test]
fn semantic_payload_is_data_not_display_colour() {
    assert_eq!(semantic_payload(TerrainKind::TallGrass, true), [2, 1, 1, 1]);
    assert_eq!(semantic_payload(TerrainKind::Rock, false), [1, 0, 0, 0]);
    assert_eq!(semantic_payload(TerrainKind::Soil, true)[0], 0);
}

#[test]
fn every_triangle_lies_on_grid_points_of_its_own_cell() {
    let points = 4;
    let corners = terrain_mesh_corners(points);
    let cells = points - 1;
    assert_eq!(corners.len(), cells * cells * VERTICES_PER_CELL);
    for (k, (row, col)) in corners.iter().copied().enumerate() {
        let cell = k / VERTICES_PER_CELL;
        let (cell_row, cell_col) = (cell / cells, cell % cells);
        assert!(row == cell_row || row == cell_row + 1);
        assert!(col == cell_col || col == cell_col + 1);
    }
    // The first cell: a, d, b then d, c, b.
    assert_eq!(&corners[..6], &[(0, 0), (0, 1), (1, 0), (0, 1), (1, 1), (1, 0)]);
    assert!(terrain_mesh_corners(1).is_empty());
}
