use bof::grass_cover::{grass_layer_mask, kind_bears_grass, texture_layer};
use bof::terrain_kind::{kind_table, SurfaceKind, TerrainKind};

#[test]
fn every_kind_has_exactly_one_row() {
    let table = kind_table();
    assert_eq!(table.len(), TerrainKind::ALL.len());
    for kind in TerrainKind::ALL {
        let matches = table.iter().filter(|props| props.kind == kind).count();
        assert_eq!(matches, 1, "{kind:?} should have exactly one row");
    }
}

#[test]
fn labels_are_unique_and_non_empty() {
    let table = kind_table();
    let mut labels: Vec<&str> = table.iter().map(|props| props.label).collect();
    let total = labels.len();
    labels.sort_unstable();
    labels.dedup();
    assert_eq!(labels.len(), total, "two kinds share a label");
    assert!(table.iter().all(|props| !props.label.is_empty()));
}

#[test]
fn the_table_is_what_makes_a_kind_mean_something() {
    assert!(TerrainKind::TallGrass.flammable());
    assert!(TerrainKind::TallGrass.cuttable());
    assert!(!TerrainKind::Rock.flammable());
    assert!(!TerrainKind::Rock.cuttable());
}

#[test]
fn an_unpainted_level_is_soil() {
    assert_eq!(TerrainKind::default(), TerrainKind::Soil);
}

#[test]
fn each_kind_is_distinguishable_underfoot() {
    for kind in TerrainKind::ALL {
        let twins: Vec<TerrainKind> = TerrainKind::ALL
            .into_iter()
            .filter(|other| *other != kind && other.surface() == kind.surface())
            .collect();
        assert!(
            twins.is_empty(),
            "{kind:?} sounds exactly like {twins:?} underfoot"
        );
    }
}

#[test]
fn props_answer_with_the_row_of_the_kind() {
    let table = kind_table();
    for kind in TerrainKind::ALL {
        let row = table.iter().find(|props| props.kind == kind).unwrap();
        assert_eq!(kind.props().label, row.label);
        assert_eq!(kind.label(), row.label);
        assert_eq!(kind.surface(), row.surface);
        assert_eq!(kind.flammable(), row.flammable);
        assert_eq!(kind.cuttable(), row.cuttable);
    }
    assert_eq!(TerrainKind::Soil.label(), "Tierra");
    assert_eq!(TerrainKind::Rock.surface(), SurfaceKind::Stone);
    assert_eq!(TerrainKind::TallGrass.surface(), SurfaceKind::Grass);
    assert_eq!(TerrainKind::Sand.surface(), SurfaceKind::Sand);
}

#[test]
fn the_shader_mask_names_the_same_kinds_as_the_rule() {
    let mask = grass_layer_mask();
    for kind in TerrainKind::ALL {
        let bit = 1u32 << texture_layer(kind);
        assert_eq!(
            mask & bit != 0,
            kind_bears_grass(kind),
            "{kind:?} disagrees between the rule and the shader mask"
        );
    }
}

#[test]
fn short_and_tall_grass_bear_grass_on_layers_four_and_two() {
    assert!(kind_bears_grass(TerrainKind::ShortGrass));
    assert!(kind_bears_grass(TerrainKind::TallGrass));
    assert!(!kind_bears_grass(TerrainKind::Soil));
    assert!(!kind_bears_grass(TerrainKind::Rock));
    assert!(!kind_bears_grass(TerrainKind::Sand));
    assert_eq!(grass_layer_mask(), 0b10100);
    assert_eq!(grass_layer_mask(), 20);
    assert_eq!(grass_layer_mask(), grass_layer_mask());
}

#[test]
fn the_palette_puts_short_grass_between_soil_and_tall_grass() {
    assert_eq!(
        TerrainKind::ALL,
        [
            TerrainKind::Soil,
            TerrainKind::ShortGrass,
            TerrainKind::TallGrass,
            TerrainKind::Rock,
            TerrainKind::Sand,
        ]
    );
    assert_eq!(TerrainKind::ShortGrass.label(), "Pasto corto");
    assert!(TerrainKind::ShortGrass.flammable());
    assert!(!TerrainKind::ShortGrass.cuttable());
}

#[test]
fn every_kind_maps_to_one_stable_array_layer() {
    assert_eq!(texture_layer(TerrainKind::Soil), 0);
    assert_eq!(texture_layer(TerrainKind::Rock), 1);
    assert_eq!(texture_layer(TerrainKind::TallGrass), 2);
    assert_eq!(texture_layer(TerrainKind::Sand), 3);
    assert_eq!(texture_layer(TerrainKind::ShortGrass), 4);
    let mut layers: Vec<u8> = TerrainKind::ALL.iter().map(|kind| texture_layer(*kind)).collect();
    layers.dedup();
    assert_eq!(layers.len(), TerrainKind::ALL.len());
}
