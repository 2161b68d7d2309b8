use bof::animation_roles::distinct_nodes;
use bof::cascades::{cascade_choice, CascadeChoice, DEFAULT_CASCADES};
use bof::catalog::{
    appearance_for, AppearanceKey, RootPlacement, RootTransform, TreeSilhouette, VisualCatalog,
    COMMON_TREE_1, PINE_1, PINE_3, PLAYER_APPEARANCE, PLAYER_RANGER_FEMALE, PLAYER_RANGER_MALE,
};
use bof::scatter::{tree_family, TreeFamily, TreeKind};
use bof::terrain_grid::{grid_neighbours, grid_shape_is_valid};

#[test]
fn known_and_unknown_appearances_are_explicit() {
    let catalog = VisualCatalog::default();
    assert_eq!(
        catalog.recipe(AppearanceKey(COMMON_TREE_1)).unwrap().label,
        "Quaternius common tree 1"
    );
    assert!(catalog.recipe(AppearanceKey("unknown_appearance")).is_none());
    assert!(catalog.recipe(AppearanceKey(PLAYER_RANGER_FEMALE)).is_some());
    assert!(catalog.recipe(AppearanceKey(PLAYER_RANGER_MALE)).is_some());
}

#[test]
fn every_tree_kind_has_a_registered_recipe() {
    let catalog = VisualCatalog::default();
    let kinds = [
        TreeKind::Common1, TreeKind::Common2, TreeKind::Common3, TreeKind::Common4,
        TreeKind::Common5, TreeKind::Pine1, TreeKind::Pine2, TreeKind::Pine3, TreeKind::Pine4,
        TreeKind::Pine5, TreeKind::Twisted1, TreeKind::Twisted2, TreeKind::Twisted3,
        TreeKind::Twisted4, TreeKind::Twisted5,
    ];
    for kind in kinds {
        let key = appearance_for(kind);
        assert!(catalog.recipe(key).is_some(), "{kind:?} has no recipe");
        let expected = match tree_family(kind) {
            TreeFamily::Common => TreeSilhouette::Rounded,
            TreeFamily::Pine => TreeSilhouette::Conical,
            TreeFamily::Twisted => TreeSilhouette::Gnarled,
        };
        assert_eq!(catalog.tree_proxy(key).unwrap().silhouette, expected);
    }
    assert!(catalog.tree_proxy(AppearanceKey(PLAYER_APPEARANCE)).is_none());
}

#[test]
fn recipes_carry_their_scene_and_placement() {
    let catalog = VisualCatalog::default();
    let player = catalog.recipe(AppearanceKey(PLAYER_APPEARANCE)).unwrap();
    assert_eq!(player.scene, "game/characters/ranger_female.glb#Scene0");
    assert_eq!(player.animation_source.as_deref(), Some("game/characters/ranger_female.glb"));
    assert_eq!(player.placement, RootPlacement::Character);
    let pine = catalog.recipe(AppearanceKey(PINE_3)).unwrap();
    assert_eq!(pine.scene, "Stylized Nature MegaKit[Standard]/glTF/Pine_3.gltf#Scene0");
    assert_eq!(pine.placement, RootPlacement::Raised { centimetres: 24 });
    let twisted = catalog.recipe(appearance_for(TreeKind::Twisted2)).unwrap();
    assert_eq!(twisted.placement, RootPlacement::Raised { centimetres: 20 });
    assert!(twisted.animation_source.is_none());
}

#[test]
fn a_character_is_lowered_turned_and_scaled_to_the_player() {
    assert_eq!(
        RootPlacement::Character.root_transform(),
        RootTransform { lift_centimetres: -100, half_turns: 1, to_centimetres: 200, from_centimetres: 179 }
    );
    assert_eq!(
        RootPlacement::Raised { centimetres: 24 }.root_transform(),
        RootTransform { lift_centimetres: 24, half_turns: 0, to_centimetres: 1, from_centimetres: 1 }
    );
    assert_eq!(
        RootPlacement::Identity.root_transform(),
        RootTransform { lift_centimetres: 0, half_turns: 0, to_centimetres: 1, from_centimetres: 1 }
    );
}

#[test]
fn authored_assets_are_registered_last_and_win() {
    let catalog = VisualCatalog::with_authored(&[
        ("authored_rock", "game/props/rock.glb"),
        (PINE_1, "game/trees/pine.glb"),
    ]);
    let rock = catalog.recipe(AppearanceKey("authored_rock")).unwrap();
    assert_eq!(rock.label, "authored_rock");
    assert_eq!(rock.scene, "game/props/rock.glb#Scene0");
    assert!(rock.animation_source.is_none());
    assert_eq!(rock.placement, RootPlacement::Identity);
    let pine = catalog.recipe(AppearanceKey(PINE_1)).unwrap();
    assert_eq!(pine.scene, "game/trees/pine.glb#Scene0");
    assert_eq!(pine.placement, RootPlacement::Identity);
    let male = catalog.recipe(AppearanceKey(PLAYER_RANGER_MALE)).unwrap();
    assert_eq!(male.label, "Ranger male");
    assert!(catalog.recipe(AppearanceKey("unknown_appearance")).is_none());
    let plain = VisualCatalog::with_authored(&[]);
    assert_eq!(
        plain.recipe(AppearanceKey(PINE_1)).unwrap().scene,
        "Stylized Nature MegaKit[Standard]/glTF/Pine_1.gltf#Scene0"
    );
}

#[test]
fn the_cascade_count_takes_one_to_four_and_refuses_the_rest() {
    assert_eq!(cascade_choice(None), CascadeChoice { count: DEFAULT_CASCADES, refused: None });
    assert_eq!(cascade_choice(Some(2)), CascadeChoice { count: 2, refused: None });
    assert_eq!(cascade_choice(Some(0)), CascadeChoice { count: 4, refused: Some(0) });
    assert_eq!(cascade_choice(Some(5)), CascadeChoice { count: 4, refused: Some(5) });
}

#[test]
fn a_grid_point_has_its_orthogonal_neighbours_inside_the_grid() {
    // A 3x3 grid: the centre has four, a corner two, an edge three.
    assert_eq!(grid_neighbours(3, 4), vec![1, 7, 3, 5]);
    assert_eq!(grid_neighbours(3, 0), vec![3, 1]);
    assert_eq!(grid_neighbours(3, 5), vec![2, 8, 4]);
    assert_eq!(grid_neighbours(1, 0), Vec::<usize>::new());
}

#[test]
fn a_saved_grid_needs_two_points_a_side_and_one_height_each() {
    assert!(grid_shape_is_valid(3, 9));
    assert!(!grid_shape_is_valid(3, 8));
    assert!(!grid_shape_is_valid(1, 1));
    assert!(!grid_shape_is_valid(0, 0));
}

#[test]
fn a_blend_plays_each_node_once_in_the_order_asked() {
    assert_eq!(distinct_nodes(&[0, 0]), vec![0]);
    assert_eq!(distinct_nodes(&[3, 1, 3, 2, 1]), vec![3, 1, 2]);
    assert!(distinct_nodes(&[]).is_empty());
}
