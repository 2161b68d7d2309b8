use bof::terrain_debug::{requested_terrain_view, TerrainDebugView};

#[test]
fn the_terrain_views_are_the_hud_list_in_shader_order() {
    let views = TerrainDebugView::all();
    assert_eq!(views.len(), 5);
    for (index, view) in views.iter().enumerate() {
        assert_eq!(view.shader_index() as usize, index);
    }
    assert_eq!(TerrainDebugView::default(), TerrainDebugView::Off);
    assert_eq!(TerrainDebugView::Off.label(), "Arte");
    assert_eq!(TerrainDebugView::Cuttable.label(), "Cortable");
}

#[test]
fn the_last_request_wins_unless_a_measurement_runs() {
    let requests = [TerrainDebugView::Kind, TerrainDebugView::Flammable];
    assert_eq!(requested_terrain_view(&requests, false), Some(TerrainDebugView::Flammable));
    assert_eq!(requested_terrain_view(&requests, true), None);
    assert_eq!(requested_terrain_view(&[], false), None);
}
