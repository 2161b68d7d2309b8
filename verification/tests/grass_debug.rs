use bof::grass_debug::{
    shape_measure_legend, slot_srgb, subpixel_legend, BladeShape, GrassDebugView, PALETTE_SLOTS,
};

#[test]
fn the_knob_ladder_and_the_views_are_the_same_list() {
    let views = GrassDebugView::all();
    assert_eq!(views.len(), 8);
    for step in 0..views.len() {
        let view = GrassDebugView::from_step(step);
        assert_eq!(view, views[step]);
        assert_eq!(view.shader_index() as usize, step);
    }
    assert_eq!(GrassDebugView::from_step(0), GrassDebugView::Off);
    assert_eq!(GrassDebugView::from_step(99), GrassDebugView::ShapeMeasure);
}

#[test]
fn no_two_rings_share_a_colour() {
    for a in 0..PALETTE_SLOTS {
        for b in (a + 1)..PALETTE_SLOTS {
            assert_ne!(slot_srgb(a), slot_srgb(b), "anillos {a} y {b}");
        }
    }
}

#[test]
fn shape_measurement_has_exact_categories() {
    let shapes = shape_measure_legend();
    assert_eq!(
        shapes.iter().map(|shape| shape.name.as_str()).collect::<Vec<_>>(),
        BladeShape::all().into_iter().map(BladeShape::name).collect::<Vec<_>>()
    );
    for shape in BladeShape::all() {
        assert_eq!(
            shapes[shape.shader_index() as usize].color,
            slot_srgb(shape.shader_index() as usize)
        );
    }
    assert_eq!(BladeShape::Spike.name(), "púa");
}

#[test]
fn the_palette_is_the_authored_one_and_saturates_at_grey() {
    assert_eq!(slot_srgb(0), [0xF5, 0x8C, 0xA0]);
    assert_eq!(slot_srgb(6), [0x8C, 0xF5, 0xE4]);
    assert_eq!(slot_srgb(7), [0xD5, 0xD5, 0xD5]);
    assert_eq!(slot_srgb(40), [0xD5, 0xD5, 0xD5]);
    let bands = subpixel_legend();
    assert_eq!(bands.len(), 3);
    assert_eq!(bands[0].color, slot_srgb(0));
    assert_eq!(bands[1].color, slot_srgb(5));
    assert_eq!(bands[2].name, "2 px o mas — se resuelve entera");
}

#[test]
fn only_measuring_views_are_flat_and_only_cards_face_the_camera() {
    let flat: Vec<GrassDebugView> = GrassDebugView::all()
        .into_iter()
        .filter(|view| view.is_flat())
        .collect();
    assert_eq!(
        flat,
        vec![
            GrassDebugView::Subpixel,
            GrassDebugView::Measure,
            GrassDebugView::ShapeMeasure
        ]
    );
    assert!(BladeShape::Card.faces_camera());
    assert!(!BladeShape::Leaf.faces_camera());
}
