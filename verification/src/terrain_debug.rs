//! The terrain's semantic debug views: painting each cell by what it means
//! instead of how it looks.

use vstd::prelude::*;

verus! {

/// What the terrain's debug view paints.
#[derive(Clone, Copy, Debug, PartialEq, Eq, Structural)]
pub enum TerrainDebugView {
    /// The art.
    Off,
    /// The terrain kind of each cell.
    Kind,
    /// Whether a cell can be climbed.
    Climbable,
    /// Whether a cell burns.
    Flammable,
    /// Whether a blade clears a cell.
    Cuttable,
}

/// The views in the order the HUD offers them.
pub open spec fn all_terrain_views() -> Seq<TerrainDebugView> {
    seq![
        TerrainDebugView::Off,
        TerrainDebugView::Kind,
        TerrainDebugView::Climbable,
        TerrainDebugView::Flammable,
        TerrainDebugView::Cuttable,
    ]
}

/// The number the terrain shader knows a view by.
pub open spec fn spec_terrain_view_index(view: TerrainDebugView) -> u8 {
    match view {
        TerrainDebugView::Off => 0,
        TerrainDebugView::Kind => 1,
        TerrainDebugView::Climbable => 2,
        TerrainDebugView::Flammable => 3,
        TerrainDebugView::Cuttable => 4,
    }
}

/// A view's name in the HUD.
pub open spec fn terrain_view_label(view: TerrainDebugView) -> Seq<char> {
    match view {
        TerrainDebugView::Off => "Arte"@,
        TerrainDebugView::Kind => "Tipo"@,
        TerrainDebugView::Climbable => "Escalable"@,
        TerrainDebugView::Flammable => "Inflamable"@,
        TerrainDebugView::Cuttable => "Cortable"@,
    }
}

impl TerrainDebugView {
    /// The views in HUD order.
    pub fn all() -> (views: Vec<TerrainDebugView>)
        ensures
            views@ == all_terrain_views(),
    {
        let views = vec![
            TerrainDebugView::Off,
            TerrainDebugView::Kind,
            TerrainDebugView::Climbable,
            TerrainDebugView::Flammable,
            TerrainDebugView::Cuttable,
        ];
        assert(views@ =~= all_terrain_views());
        views
    }

    /// The view's name in the HUD.
    pub fn label(self) -> (label: &'static str)
        ensures
            label@ == terrain_view_label(self),
    {
        match self {
            TerrainDebugView::Off => "Arte",
            TerrainDebugView::Kind => "Tipo",
            TerrainDebugView::Climbable => "Escalable",
            TerrainDebugView::Flammable => "Inflamable",
            TerrainDebugView::Cuttable => "Cortable",
        }
    }

    /// The number the shader knows the view by.
    pub fn shader_index(self) -> (index: u8)
        ensures
            index == spec_terrain_view_index(self),
    {
        match self {
            TerrainDebugView::Off => 0,
            TerrainDebugView::Kind => 1,
            TerrainDebugView::Climbable => 2,
            TerrainDebugView::Flammable => 3,
            TerrainDebugView::Cuttable => 4,
        }
    }
}

impl Default for TerrainDebugView {
    /// The art: no diagnostic.
    fn default() -> (view: TerrainDebugView)
        ensures
            view == TerrainDebugView::Off,
    {
        TerrainDebugView::Off
    }
}

/// The view to switch to from this update's requests: the last one asked for,
/// unless a measurement is running, which a view change would spoil.
pub fn requested_terrain_view(requests: &[TerrainDebugView], measuring: bool) -> (view: Option<
    TerrainDebugView,
>)
    ensures
        view == (if requests@.len() == 0 || measuring {
            None::<TerrainDebugView>
        } else {
            Some(requests@.last())
        }),
{
    if requests.len() == 0 || measuring {
        None
    } else {
        Some(requests[requests.len() - 1])
    }
}

/// Each view is numbered by its place in the HUD, so the shader and the HUD
/// speak of the same view.
pub proof fn terrain_views_are_numbered_in_order(i: int)
    requires
        0 <= i < all_terrain_views().len(),
    ensures
        spec_terrain_view_index(all_terrain_views()[i]) == i,
{
}

} // verus!
