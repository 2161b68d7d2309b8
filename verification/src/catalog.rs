//! Presentation-owned mapping from stable appearance identities to assets.
//! Simulation components never store these keys or paths.
//!
//! A semantic tree carries two representations: a near-free graybox proxy and
//! the detailed scene. Cost is a property of the representation, not of the
//! identity, so the same tree kind can be a proxy now and a full mesh later.

use vstd::prelude::*;

use crate::scatter::{spec_family, TreeFamily, TreeKind};
use crate::text::{chars_of, same_text};

verus! {

broadcast use vstd::string::group_string_axioms;

/// A stable appearance identity.
#[derive(Debug, Clone, Copy, PartialEq, Eq, Hash)]
pub struct AppearanceKey(pub &'static str);

// The stable key names. A key is built from its name: `AppearanceKey(PINE_1)`.
pub const PLAYER_RANGER_FEMALE: &'static str = "legacy_char_ranger_female";
pub const PLAYER_RANGER_MALE: &'static str = "legacy_char_ranger_male";
pub const COMMON_TREE_1: &'static str = "legacy_tree_common_1";
pub const COMMON_TREE_2: &'static str = "legacy_tree_common_2";
pub const COMMON_TREE_3: &'static str = "legacy_tree_common_3";
pub const COMMON_TREE_4: &'static str = "legacy_tree_common_4";
pub const COMMON_TREE_5: &'static str = "legacy_tree_common_5";
pub const PINE_1: &'static str = "legacy_tree_pine_1";
pub const PINE_2: &'static str = "legacy_tree_pine_2";
pub const PINE_3: &'static str = "legacy_tree_pine_3";
pub const PINE_4: &'static str = "legacy_tree_pine_4";
pub const PINE_5: &'static str = "legacy_tree_pine_5";
pub const TWISTED_TREE_1: &'static str = "legacy_tree_twisted_1";
pub const TWISTED_TREE_2: &'static str = "legacy_tree_twisted_2";
pub const TWISTED_TREE_3: &'static str = "legacy_tree_twisted_3";
pub const TWISTED_TREE_4: &'static str = "legacy_tree_twisted_4";
pub const TWISTED_TREE_5: &'static str = "legacy_tree_twisted_5";

/// The name of the appearance the local player wears.
pub const PLAYER_APPEARANCE: &'static str = "legacy_char_ranger_female";

/// Coarse tree shape for the graybox proxy: readable species, not per-variant
/// silhouettes.
#[derive(Debug, Clone, Copy, PartialEq, Eq, Structural)]
pub enum TreeSilhouette {
    Rounded,
    Conical,
    Gnarled,
}

/// The cheap representation tier of a tree.
#[derive(Debug, Clone, Copy, PartialEq, Eq, Structural)]
pub struct TreeProxy {
    pub silhouette: TreeSilhouette,
}

/// How a scene's root is normalised: the source libraries differ in scale,
/// orientation and pivot.
#[derive(Debug, Clone, Copy, PartialEq, Eq, Structural)]
pub enum RootPlacement {
    /// A character rig: lowered one metre so its feet meet the capsule's base,
    /// turned half a turn about the vertical to face forward, and scaled from
    /// the rig's 1.79 m to the player's 2 m.
    Character,
    /// A tree lifted by this many centimetres so its roots meet the ground.
    Raised { centimetres: u32 },
    /// An authored asset, exported already normalised: the scene as it is.
    Identity,
}

/// A root transform in exact units: a vertical offset, a number of half
/// turns about the vertical, and a uniform scale of `to_centimetres` over
/// `from_centimetres`.
#[derive(Debug, Clone, Copy, PartialEq, Eq, Structural)]
pub struct RootTransform {
    pub lift_centimetres: i64,
    pub half_turns: u32,
    pub to_centimetres: u32,
    pub from_centimetres: u32,
}

/// The transform each placement stands for.
pub open spec fn spec_root_transform(placement: RootPlacement) -> RootTransform {
    match placement {
        RootPlacement::Character => RootTransform {
            lift_centimetres: -100i64,
            half_turns: 1u32,
            to_centimetres: 200u32,
            from_centimetres: 179u32,
        },
        RootPlacement::Raised { centimetres } => RootTransform {
            lift_centimetres: centimetres as i64,
            half_turns: 0u32,
            to_centimetres: 1u32,
            from_centimetres: 1u32,
        },
        RootPlacement::Identity => RootTransform {
            lift_centimetres: 0i64,
            half_turns: 0u32,
            to_centimetres: 1u32,
            from_centimetres: 1u32,
        },
    }
}

impl RootPlacement {
    /// The transform this placement stands for.
    pub fn root_transform(self) -> (transform: RootTransform)
        ensures
            transform == spec_root_transform(self),
    {
        match self {
            RootPlacement::Character => RootTransform {
                lift_centimetres: -100,
                half_turns: 1,
                to_centimetres: 200,
                from_centimetres: 179,
            },
            RootPlacement::Raised { centimetres } => RootTransform {
                lift_centimetres: centimetres as i64,
                half_turns: 0,
                to_centimetres: 1,
                from_centimetres: 1,
            },
            RootPlacement::Identity => RootTransform {
                lift_centimetres: 0,
                half_turns: 0,
                to_centimetres: 1,
                from_centimetres: 1,
            },
        }
    }
}

/// The detailed tier: a loaded scene.
#[derive(Debug)]
pub struct VisualRecipe {
    pub label: String,
    pub scene: String,
    pub animation_source: Option<String>,
    pub placement: RootPlacement,
}

/// A recipe as plain text.
pub type RecipeView = (Seq<char>, Seq<char>, Option<Seq<char>>, RootPlacement);

/// The text view of a recipe.
pub open spec fn recipe_view(recipe: &VisualRecipe) -> RecipeView {
    (
        recipe.label@,
        recipe.scene@,
        match recipe.animation_source {
            Some(source) => Some(source@),
            None => None,
        },
        recipe.placement,
    )
}

/// A player character's row.
pub open spec fn character_row(key: &str, label: &str, file: &str) -> (Seq<char>, RecipeView) {
    (key@, (label@, file@ + "#Scene0"@, Some(file@), RootPlacement::Character))
}

/// A tree's row.
pub open spec fn tree_row(key: &str, label: &str, file: &str, centimetres: u32) -> (
    Seq<char>,
    RecipeView,
) {
    (
        key@,
        (
            label@,
            "Stylized Nature MegaKit[Standard]/glTF/"@ + file@ + "#Scene0"@,
            None,
            RootPlacement::Raised { centimetres },
        ),
    )
}

/// The catalog's rows, in registration order.
pub open spec fn catalog_rows() -> Seq<(Seq<char>, RecipeView)> {
    seq![
        character_row("legacy_char_ranger_female", "Ranger female", "game/characters/ranger_female.glb"),
        character_row("legacy_char_ranger_male", "Ranger male", "game/characters/ranger_male.glb"),
        tree_row("legacy_tree_common_1", "Quaternius common tree 1", "CommonTree_1.gltf", 24),
        tree_row("legacy_tree_common_2", "Quaternius common tree 2", "CommonTree_2.gltf", 24),
        tree_row("legacy_tree_common_3", "Quaternius common tree 3", "CommonTree_3.gltf", 24),
        tree_row("legacy_tree_common_4", "Quaternius common tree 4", "CommonTree_4.gltf", 24),
        tree_row("legacy_tree_common_5", "Quaternius common tree 5", "CommonTree_5.gltf", 24),
        tree_row("legacy_tree_pine_1", "Quaternius pine 1", "Pine_1.gltf", 24),
        tree_row("legacy_tree_pine_2", "Quaternius pine 2", "Pine_2.gltf", 24),
        tree_row("legacy_tree_pine_3", "Quaternius pine 3", "Pine_3.gltf", 24),
        tree_row("legacy_tree_pine_4", "Quaternius pine 4", "Pine_4.gltf", 24),
        tree_row("legacy_tree_pine_5", "Quaternius pine 5", "Pine_5.gltf", 24),
        tree_row("legacy_tree_twisted_1", "Quaternius twisted tree 1", "TwistedTree_1.gltf", 20),
        tree_row("legacy_tree_twisted_2", "Quaternius twisted tree 2", "TwistedTree_2.gltf", 20),
        tree_row("legacy_tree_twisted_3", "Quaternius twisted tree 3", "TwistedTree_3.gltf", 20),
        tree_row("legacy_tree_twisted_4", "Quaternius twisted tree 4", "TwistedTree_4.gltf", 20),
        tree_row("legacy_tree_twisted_5", "Quaternius twisted tree 5", "TwistedTree_5.gltf", 20),
    ]
}

/// An authored asset's row: labelled by its key, its scene the file's first,
/// drawn as exported.
pub open spec fn authored_row(key: Seq<char>, path: Seq<char>) -> (Seq<char>, RecipeView) {
    (key, (key, path + "#Scene0"@, None, RootPlacement::Identity))
}

/// The rows of the authored assets, in their order.
pub open spec fn authored_rows(authored: Seq<(&'static str, &str)>) -> Seq<(Seq<char>, RecipeView)> {
    authored.map_values(|a: (&'static str, &str)| authored_row(a.0@, a.1@))
}

/// The recipe registered under a key name: the last row of that name, as a map
/// filled in row order keeps it.
pub open spec fn catalog_lookup(rows: Seq<(Seq<char>, RecipeView)>, name: Seq<char>) -> Option<
    RecipeView,
>
    decreases rows.len(),
{
    if rows.len() == 0 {
        None
    } else if rows.last().0 == name {
        Some(rows.last().1)
    } else {
        catalog_lookup(rows.drop_last(), name)
    }
}

/// The proxy silhouette of a tree appearance, by key name; `None` for anything
/// that is not a tree.
pub open spec fn tree_silhouette(name: Seq<char>) -> Option<TreeSilhouette> {
    if name == "legacy_tree_common_1"@ || name == "legacy_tree_common_2"@ || name
        == "legacy_tree_common_3"@ || name == "legacy_tree_common_4"@ || name
        == "legacy_tree_common_5"@ {
        Some(TreeSilhouette::Rounded)
    } else if name == "legacy_tree_pine_1"@ || name == "legacy_tree_pine_2"@ || name
        == "legacy_tree_pine_3"@ || name == "legacy_tree_pine_4"@ || name
        == "legacy_tree_pine_5"@ {
        Some(TreeSilhouette::Conical)
    } else if name == "legacy_tree_twisted_1"@ || name == "legacy_tree_twisted_2"@ || name
        == "legacy_tree_twisted_3"@ || name == "legacy_tree_twisted_4"@ || name
        == "legacy_tree_twisted_5"@ {
        Some(TreeSilhouette::Gnarled)
    } else {
        None
    }
}

/// The appearance key name of a tree kind.
pub open spec fn appearance_name(kind: TreeKind) -> Seq<char> {
    match kind {
        TreeKind::Common1 => "legacy_tree_common_1"@,
        TreeKind::Common2 => "legacy_tree_common_2"@,
        TreeKind::Common3 => "legacy_tree_common_3"@,
        TreeKind::Common4 => "legacy_tree_common_4"@,
        TreeKind::Common5 => "legacy_tree_common_5"@,
        TreeKind::Pine1 => "legacy_tree_pine_1"@,
        TreeKind::Pine2 => "legacy_tree_pine_2"@,
        TreeKind::Pine3 => "legacy_tree_pine_3"@,
        TreeKind::Pine4 => "legacy_tree_pine_4"@,
        TreeKind::Pine5 => "legacy_tree_pine_5"@,
        TreeKind::Twisted1 => "legacy_tree_twisted_1"@,
        TreeKind::Twisted2 => "legacy_tree_twisted_2"@,
        TreeKind::Twisted3 => "legacy_tree_twisted_3"@,
        TreeKind::Twisted4 => "legacy_tree_twisted_4"@,
        TreeKind::Twisted5 => "legacy_tree_twisted_5"@,
    }
}

/// The silhouette that reads as a species.
pub open spec fn family_silhouette(family: TreeFamily) -> TreeSilhouette {
    match family {
        TreeFamily::Common => TreeSilhouette::Rounded,
        TreeFamily::Pine => TreeSilhouette::Conical,
        TreeFamily::Twisted => TreeSilhouette::Gnarled,
    }
}

/// The appearance a tree kind is drawn with.
pub fn appearance_for(kind: TreeKind) -> (key: AppearanceKey)
    ensures
        key.0@ == appearance_name(kind),
{
    match kind {
        TreeKind::Common1 => AppearanceKey(COMMON_TREE_1),
        TreeKind::Common2 => AppearanceKey(COMMON_TREE_2),
        TreeKind::Common3 => AppearanceKey(COMMON_TREE_3),
        TreeKind::Common4 => AppearanceKey(COMMON_TREE_4),
        TreeKind::Common5 => AppearanceKey(COMMON_TREE_5),
        TreeKind::Pine1 => AppearanceKey(PINE_1),
        TreeKind::Pine2 => AppearanceKey(PINE_2),
        TreeKind::Pine3 => AppearanceKey(PINE_3),
        TreeKind::Pine4 => AppearanceKey(PINE_4),
        TreeKind::Pine5 => AppearanceKey(PINE_5),
        TreeKind::Twisted1 => AppearanceKey(TWISTED_TREE_1),
        TreeKind::Twisted2 => AppearanceKey(TWISTED_TREE_2),
        TreeKind::Twisted3 => AppearanceKey(TWISTED_TREE_3),
        TreeKind::Twisted4 => AppearanceKey(TWISTED_TREE_4),
        TreeKind::Twisted5 => AppearanceKey(TWISTED_TREE_5),
    }
}

/// Whether a text equals a given name.
fn named(text: &Vec<char>, name: &str) -> (equal: bool)
    ensures
        equal == (text@ == name@),
{
    let wanted = chars_of(name);
    same_text(text, &wanted)
}

/// A character's recipe.
fn character_recipe(label: &str, file: &str) -> (recipe: VisualRecipe)
    ensures
        recipe_view(&recipe) == (label@, file@ + "#Scene0"@, Some(file@), RootPlacement::Character),
{
    let mut scene = file.to_owned();
    scene.append("#Scene0");
    VisualRecipe {
        label: label.to_owned(),
        scene,
        animation_source: Some(file.to_owned()),
        placement: RootPlacement::Character,
    }
}

/// A tree's recipe.
fn tree_recipe(label: &str, file: &str, centimetres: u32) -> (recipe: VisualRecipe)
    ensures
        recipe_view(&recipe) == (
            label@,
            "Stylized Nature MegaKit[Standard]/glTF/"@ + file@ + "#Scene0"@,
            None::<Seq<char>>,
            RootPlacement::Raised { centimetres },
        ),
{
    let mut scene = "Stylized Nature MegaKit[Standard]/glTF/".to_owned();
    scene.append(file);
    scene.append("#Scene0");
    VisualRecipe {
        label: label.to_owned(),
        scene,
        animation_source: None,
        placement: RootPlacement::Raised { centimetres },
    }
}

/// An authored asset's recipe.
fn authored_recipe(key: &'static str, path: &str) -> (recipe: VisualRecipe)
    ensures
        (key@, recipe_view(&recipe)) == authored_row(key@, path@),
{
    let mut scene = path.to_owned();
    scene.append("#Scene0");
    VisualRecipe {
        label: key.to_owned(),
        scene,
        animation_source: None,
        placement: RootPlacement::Identity,
    }
}

/// The presentation registry: which scene draws each appearance.
pub struct VisualCatalog {
    recipes: Vec<(AppearanceKey, VisualRecipe)>,
}

impl VisualCatalog {
    /// The catalog's rows as text.
    pub closed spec fn rows(&self) -> Seq<(Seq<char>, RecipeView)> {
        self.recipes@.map_values(|r: (AppearanceKey, VisualRecipe)| (r.0.0@, recipe_view(&r.1)))
    }

    /// The legacy rows, then one row per authored asset (its key and the path
    /// of its exported file), registered last so that an authored asset wins
    /// over a legacy row of the same key.
    pub fn with_authored(authored: &[(&'static str, &str)]) -> (catalog: VisualCatalog)
        ensures
            catalog.rows() == catalog_rows() + authored_rows(authored@),
    {
        let mut catalog = VisualCatalog::default();
        let mut i: usize = 0;
        while i < authored.len()
            invariant
                i <= authored.len(),
                catalog.rows() == catalog_rows() + authored_rows(authored@.take(i as int)),
            decreases authored.len() - i,
        {
            let (key, path) = authored[i];
            let recipe = authored_recipe(key, path);
            let ghost before = catalog.recipes@;
            let ghost old_rows = catalog.rows();
            let ghost row = (key@, recipe_view(&recipe));
            catalog.recipes.push((AppearanceKey(key), recipe));
            proof {
                assert(catalog.recipes@ == before.push((AppearanceKey(key), recipe)));
                assert(catalog.rows() =~= old_rows.push(row));
                assert(authored_rows(authored@.take(i + 1)) =~= authored_rows(
                    authored@.take(i as int),
                ).push(authored_row(key@, path@)));
                assert(catalog.rows() =~= catalog_rows() + authored_rows(authored@.take(i + 1)));
            }
            i = i + 1;
        }
        assert(authored@.take(authored.len() as int) =~= authored@);
        catalog
    }

    /// The detailed tier: the scene registered for an appearance.
    pub fn recipe(&self, key: AppearanceKey) -> (recipe: Option<&VisualRecipe>)
        ensures
            match recipe {
                Some(r) => catalog_lookup(self.rows(), key.0@) == Some(recipe_view(r)),
                None => catalog_lookup(self.rows(), key.0@) is None,
            },
    {
        let wanted = chars_of(key.0);
        let ghost rows = self.rows();
        let mut i: usize = self.recipes.len();
        assert(rows.take(i as int) =~= rows);
        while i > 0
            invariant
                i <= self.recipes.len(),
                rows == self.rows(),
                wanted@ == key.0@,
                catalog_lookup(rows, key.0@) == catalog_lookup(rows.take(i as int), key.0@),
            decreases i,
        {
            let name = chars_of(self.recipes[i - 1].0.0);
            assert(rows.take(i as int).last() == rows[i - 1]);
            if same_text(&name, &wanted) {
                return Some(&self.recipes[i - 1].1);
            }
            assert(rows.take(i as int).drop_last() =~= rows.take(i - 1));
            i = i - 1;
        }
        None
    }

    /// The cheap graybox tier of a tree appearance; `None` for anything that
    /// is not a tree (the player has no proxy: it is always its scene).
    pub fn tree_proxy(&self, key: AppearanceKey) -> (proxy: Option<TreeProxy>)
        ensures
            proxy == match tree_silhouette(key.0@) {
                Some(silhouette) => Some(TreeProxy { silhouette }),
                None => None,
            },
    {
        let name = chars_of(key.0);
        if named(&name, "legacy_tree_common_1") || named(&name, "legacy_tree_common_2") || named(
            &name,
            "legacy_tree_common_3",
        ) || named(&name, "legacy_tree_common_4") || named(&name, "legacy_tree_common_5") {
            Some(TreeProxy { silhouette: TreeSilhouette::Rounded })
        } else if named(&name, "legacy_tree_pine_1") || named(&name, "legacy_tree_pine_2") || named(
            &name,
            "legacy_tree_pine_3",
        ) || named(&name, "legacy_tree_pine_4") || named(&name, "legacy_tree_pine_5") {
            Some(TreeProxy { silhouette: TreeSilhouette::Conical })
        } else if named(&name, "legacy_tree_twisted_1") || named(&name, "legacy_tree_twisted_2")
            || named(&name, "legacy_tree_twisted_3") || named(&name, "legacy_tree_twisted_4")
            || named(&name, "legacy_tree_twisted_5") {
            Some(TreeProxy { silhouette: TreeSilhouette::Gnarled })
        } else {
            None
        }
    }
}

impl Default for VisualCatalog {
    /// The two player characters and the fifteen stylised trees.
    fn default() -> (catalog: VisualCatalog)
        ensures
            catalog.rows() == catalog_rows(),
    {
        let mut recipes: Vec<(AppearanceKey, VisualRecipe)> = Vec::new();
        recipes.push(
            (
                AppearanceKey(PLAYER_RANGER_FEMALE),
                character_recipe("Ranger female", "game/characters/ranger_female.glb"),
            ),
        );
        recipes.push(
            (
                AppearanceKey(PLAYER_RANGER_MALE),
                character_recipe("Ranger male", "game/characters/ranger_male.glb"),
            ),
        );
        recipes.push(
            (
                AppearanceKey(COMMON_TREE_1),
                tree_recipe("Quaternius common tree 1", "CommonTree_1.gltf", 24),
            ),
        );
        recipes.push(
            (
                AppearanceKey(COMMON_TREE_2),
                tree_recipe("Quaternius common tree 2", "CommonTree_2.gltf", 24),
            ),
        );
        recipes.push(
            (
                AppearanceKey(COMMON_TREE_3),
                tree_recipe("Quaternius common tree 3", "CommonTree_3.gltf", 24),
            ),
        );
        recipes.push(
            (
                AppearanceKey(COMMON_TREE_4),
                tree_recipe("Quaternius common tree 4", "CommonTree_4.gltf", 24),
            ),
        );
        recipes.push(
            (
                AppearanceKey(COMMON_TREE_5),
                tree_recipe("Quaternius common tree 5", "CommonTree_5.gltf", 24),
            ),
        );
        recipes.push(
            (AppearanceKey(PINE_1), tree_recipe("Quaternius pine 1", "Pine_1.gltf", 24)),
        );
        recipes.push(
            (AppearanceKey(PINE_2), tree_recipe("Quaternius pine 2", "Pine_2.gltf", 24)),
        );
        recipes.push(
            (AppearanceKey(PINE_3), tree_recipe("Quaternius pine 3", "Pine_3.gltf", 24)),
        );
        recipes.push(
            (AppearanceKey(PINE_4), tree_recipe("Quaternius pine 4", "Pine_4.gltf", 24)),
        );
        recipes.push(
            (AppearanceKey(PINE_5), tree_recipe("Quaternius pine 5", "Pine_5.gltf", 24)),
        );
        recipes.push(
            (
                AppearanceKey(TWISTED_TREE_1),
                tree_recipe("Quaternius twisted tree 1", "TwistedTree_1.gltf", 20),
            ),
        );
        recipes.push(
            (
                AppearanceKey(TWISTED_TREE_2),
                tree_recipe("Quaternius twisted tree 2", "TwistedTree_2.gltf", 20),
            ),
        );
        recipes.push(
            (
                AppearanceKey(TWISTED_TREE_3),
                tree_recipe("Quaternius twisted tree 3", "TwistedTree_3.gltf", 20),
            ),
        );
        recipes.push(
            (
                AppearanceKey(TWISTED_TREE_4),
                tree_recipe("Quaternius twisted tree 4", "TwistedTree_4.gltf", 20),
            ),
        );
        recipes.push(
            (
                AppearanceKey(TWISTED_TREE_5),
                tree_recipe("Quaternius twisted tree 5", "TwistedTree_5.gltf", 20),
            ),
        );
        let catalog = VisualCatalog { recipes };
        assert(catalog.rows() =~= catalog_rows());
        catalog
    }
}

/// A lookup in rows registered after others answers from the later rows
/// whenever they carry the name.
proof fn lemma_lookup_in_later_rows(
    first: Seq<(Seq<char>, RecipeView)>,
    later: Seq<(Seq<char>, RecipeView)>,
    name: Seq<char>,
)
    ensures
        catalog_lookup(first + later, name) == match catalog_lookup(later, name) {
            Some(recipe) => Some(recipe),
            None => catalog_lookup(first, name),
        },
    decreases later.len(),
{
    if later.len() == 0 {
        assert(first + later =~= first);
    } else {
        assert((first + later).drop_last() =~= first + later.drop_last());
        lemma_lookup_in_later_rows(first, later.drop_last(), name);
    }
}

/// Authored assets are registered last and win: a key that some authored
/// asset carries gets the last such asset's recipe, and any other key keeps
/// what the legacy rows give it (nothing, for a key that is in neither).
pub proof fn an_authored_asset_wins_over_a_legacy_row(
    authored: Seq<(&'static str, &str)>,
    name: Seq<char>,
)
    ensures
        catalog_lookup(catalog_rows() + authored_rows(authored), name) == match catalog_lookup(
            authored_rows(authored),
            name,
        ) {
            Some(recipe) => Some(recipe),
            None => catalog_lookup(catalog_rows(), name),
        },
{
    lemma_lookup_in_later_rows(catalog_rows(), authored_rows(authored), name);
}

/// A name that some row carries is registered.
proof fn lemma_a_carried_name_is_registered(rows: Seq<(Seq<char>, RecipeView)>, i: int)
    requires
        0 <= i < rows.len(),
    ensures
        catalog_lookup(rows, rows[i].0) is Some,
    decreases rows.len(),
{
    if rows.last().0 != rows[i].0 {
        assert(rows.drop_last()[i] == rows[i]);
        lemma_a_carried_name_is_registered(rows.drop_last(), i);
    }
}

/// Every tree kind is drawable both ways: its appearance has a registered
/// scene, and its proxy reads as its species.
pub proof fn every_tree_kind_has_a_recipe_and_a_proxy_of_its_species(kind: TreeKind)
    ensures
        catalog_lookup(catalog_rows(), appearance_name(kind)) is Some,
        tree_silhouette(appearance_name(kind)) == Some(family_silhouette(spec_family(kind))),
{
    reveal_strlit("legacy_char_ranger_female");
    reveal_strlit("legacy_char_ranger_male");
    reveal_strlit("legacy_tree_common_1");
    reveal_strlit("legacy_tree_common_2");
    reveal_strlit("legacy_tree_common_3");
    reveal_strlit("legacy_tree_common_4");
    reveal_strlit("legacy_tree_common_5");
    reveal_strlit("legacy_tree_pine_1");
    reveal_strlit("legacy_tree_pine_2");
    reveal_strlit("legacy_tree_pine_3");
    reveal_strlit("legacy_tree_pine_4");
    reveal_strlit("legacy_tree_pine_5");
    reveal_strlit("legacy_tree_twisted_1");
    reveal_strlit("legacy_tree_twisted_2");
    reveal_strlit("legacy_tree_twisted_3");
    reveal_strlit("legacy_tree_twisted_4");
    reveal_strlit("legacy_tree_twisted_5");
    assert("legacy_tree_common_1"@.len() == 20);
    assert("legacy_tree_common_2"@.len() == 20);
    assert("legacy_tree_common_3"@.len() == 20);
    assert("legacy_tree_common_4"@.len() == 20);
    assert("legacy_tree_common_5"@.len() == 20);
    assert("legacy_tree_pine_1"@.len() == 18);
    assert("legacy_tree_pine_2"@.len() == 18);
    assert("legacy_tree_pine_3"@.len() == 18);
    assert("legacy_tree_pine_4"@.len() == 18);
    assert("legacy_tree_pine_5"@.len() == 18);
    assert("legacy_tree_twisted_1"@.len() == 21);
    assert("legacy_tree_twisted_2"@.len() == 21);
    assert("legacy_tree_twisted_3"@.len() == 21);
    assert("legacy_tree_twisted_4"@.len() == 21);
    assert("legacy_tree_twisted_5"@.len() == 21);
    let row: int = match kind {
        TreeKind::Common1 => 2,
        TreeKind::Common2 => 3,
        TreeKind::Common3 => 4,
        TreeKind::Common4 => 5,
        TreeKind::Common5 => 6,
        TreeKind::Pine1 => 7,
        TreeKind::Pine2 => 8,
        TreeKind::Pine3 => 9,
        TreeKind::Pine4 => 10,
        TreeKind::Pine5 => 11,
        TreeKind::Twisted1 => 12,
        TreeKind::Twisted2 => 13,
        TreeKind::Twisted3 => 14,
        TreeKind::Twisted4 => 15,
        TreeKind::Twisted5 => 16,
    };
    assert(catalog_rows()[row].0 == appearance_name(kind));
    lemma_a_carried_name_is_registered(catalog_rows(), row);
}

} // verus!
