//! What the ground **is**, cell by cell: the level's semantic layer.
//!
//! Properties come from the table, not from the brush. One meaning is painted
//! per cell, and everything that follows from it (what it sounds like
//! underfoot, whether it burns, whether a blade clears it) is looked up in one
//! row of [`kind_table`].

use vstd::prelude::*;

verus! {

/// What an actor hears underfoot. The sound system turns it into a footstep;
/// the simulation never branches on it.
#[derive(Clone, Copy, PartialEq, Eq, Debug, Hash, Structural)]
pub enum SurfaceKind {
    Dirt,
    Stone,
    Grass,
    /// Cropped turf: quieter underfoot than the waist-high stalks.
    Turf,
    Sand,
}

/// What a terrain cell is made of. An unpainted level is all soil.
#[derive(Clone, Copy, PartialEq, Eq, Debug, Hash, Structural)]
pub enum TerrainKind {
    /// Bare earth.
    Soil,
    /// Ankle-high grass: the meadow floor. Blades grow on it, but it hides
    /// nobody and there is nothing for a blade to clear.
    ShortGrass,
    /// Waist-high grass: the cover that hides you and the fuel that spreads fire.
    TallGrass,
    /// Exposed stone. Nothing grows on it and nothing burns.
    Rock,
    Sand,
}

/// Everything that follows from a cell's kind. One row per [`TerrainKind`].
#[derive(Clone, Copy, PartialEq, Eq, Debug)]
pub struct KindProps {
    pub kind: TerrainKind,
    /// What the editor calls it (the tool's HUD is in Spanish).
    pub label: &'static str,
    /// What it sounds like underfoot.
    pub surface: SurfaceKind,
    /// Fire can take hold and spread here.
    pub flammable: bool,
    /// A blade clears it.
    pub cuttable: bool,
}

/// Every kind, in the order the editor offers them.
pub open spec fn spec_all_kinds() -> Seq<TerrainKind> {
    seq![
        TerrainKind::Soil,
        TerrainKind::ShortGrass,
        TerrainKind::TallGrass,
        TerrainKind::Rock,
        TerrainKind::Sand,
    ]
}

/// The property table, one row per kind, in palette order.
pub open spec fn spec_kind_table() -> Seq<KindProps> {
    seq![
        KindProps {
            kind: TerrainKind::Soil,
            label: "Tierra",
            surface: SurfaceKind::Dirt,
            flammable: false,
            cuttable: false,
        },
        KindProps {
            kind: TerrainKind::ShortGrass,
            label: "Pasto corto",
            surface: SurfaceKind::Turf,
            flammable: true,
            cuttable: false,
        },
        KindProps {
            kind: TerrainKind::TallGrass,
            label: "Pasto largo",
            surface: SurfaceKind::Grass,
            flammable: true,
            cuttable: true,
        },
        KindProps {
            kind: TerrainKind::Rock,
            label: "Roca",
            surface: SurfaceKind::Stone,
            flammable: false,
            cuttable: false,
        },
        KindProps {
            kind: TerrainKind::Sand,
            label: "Arena",
            surface: SurfaceKind::Sand,
            flammable: false,
            cuttable: false,
        },
    ]
}

/// Where a kind's row sits in the table.
pub open spec fn spec_row_index(kind: TerrainKind) -> int {
    match kind {
        TerrainKind::Soil => 0,
        TerrainKind::ShortGrass => 1,
        TerrainKind::TallGrass => 2,
        TerrainKind::Rock => 3,
        TerrainKind::Sand => 4,
    }
}

/// The row of the table that describes `kind`.
pub open spec fn spec_props(kind: TerrainKind) -> KindProps {
    spec_kind_table()[spec_row_index(kind)]
}

/// How many rows of `table` describe `kind`.
pub open spec fn rows_for(table: Seq<KindProps>, kind: TerrainKind) -> nat
    decreases table.len(),
{
    if table.len() == 0 {
        0
    } else {
        rows_for(table.drop_last(), kind) + if table.last().kind == kind {
            1nat
        } else {
            0nat
        }
    }
}

impl TerrainKind {
    /// Every kind, in the order the editor offers them.
    pub const ALL: [TerrainKind; 5] = [
        TerrainKind::Soil,
        TerrainKind::ShortGrass,
        TerrainKind::TallGrass,
        TerrainKind::Rock,
        TerrainKind::Sand,
    ];

    /// This kind's row of the property table.
    pub fn props(self) -> (row: &'static KindProps)
        ensures
            *row == spec_props(self),
            row.kind == self,
    {
        match self {
            TerrainKind::Soil => &KindProps {
                kind: TerrainKind::Soil,
                label: "Tierra",
                surface: SurfaceKind::Dirt,
                flammable: false,
                cuttable: false,
            },
            TerrainKind::ShortGrass => &KindProps {
                kind: TerrainKind::ShortGrass,
                label: "Pasto corto",
                surface: SurfaceKind::Turf,
                flammable: true,
                cuttable: false,
            },
            TerrainKind::Rock => &KindProps {
                kind: TerrainKind::Rock,
                label: "Roca",
                surface: SurfaceKind::Stone,
                flammable: false,
                cuttable: false,
            },
            TerrainKind::TallGrass => &KindProps {
                kind: TerrainKind::TallGrass,
                label: "Pasto largo",
                surface: SurfaceKind::Grass,
                flammable: true,
                cuttable: true,
            },
            TerrainKind::Sand => &KindProps {
                kind: TerrainKind::Sand,
                label: "Arena",
                surface: SurfaceKind::Sand,
                flammable: false,
                cuttable: false,
            },
        }
    }

    /// What the editor calls this kind.
    pub fn label(self) -> (label: &'static str)
        ensures
            label == spec_props(self).label,
    {
        self.props().label
    }

    /// The surface an actor standing on this cell reports.
    pub fn surface(self) -> (surface: SurfaceKind)
        ensures
            surface == spec_props(self).surface,
    {
        self.props().surface
    }

    /// Whether fire spreads here.
    pub fn flammable(self) -> (flammable: bool)
        ensures
            flammable == spec_props(self).flammable,
    {
        self.props().flammable
    }

    /// Whether a blade clears it.
    pub fn cuttable(self) -> (cuttable: bool)
        ensures
            cuttable == spec_props(self).cuttable,
    {
        self.props().cuttable
    }
}

impl Default for TerrainKind {
    /// An unpainted level is all soil: the neutral ground, not a special material.
    fn default() -> (kind: TerrainKind)
        ensures
            kind == TerrainKind::Soil,
    {
        TerrainKind::Soil
    }
}

/// The property table, one row per kind, in palette order.
pub fn kind_table() -> (table: Vec<KindProps>)
    ensures
        table@ == spec_kind_table(),
{
    let mut table: Vec<KindProps> = Vec::new();
    let mut i: usize = 0;
    while i < 5
        invariant
            0 <= i <= 5,
            table@ == Seq::new(i as nat, |j: int| spec_props(spec_all_kinds()[j])),
        decreases 5 - i,
    {
        let kind = TerrainKind::ALL[i];
        table.push(*kind.props());
        i = i + 1;
    }
    assert(table@ =~= spec_kind_table());
    table
}

/// Every kind has exactly one row, and it is the row `props` answers with: a
/// new kind without a row, or a kind with two, cannot exist.
pub proof fn every_kind_has_exactly_one_row(kind: TerrainKind)
    ensures
        rows_for(spec_kind_table(), kind) == 1,
        spec_kind_table().len() == spec_all_kinds().len(),
        spec_kind_table()[spec_row_index(kind)].kind == kind,
{
    let t = spec_kind_table();
    reveal_with_fuel(rows_for, 6);
    assert(t.drop_last().drop_last().drop_last().drop_last().drop_last() =~= Seq::<
        KindProps,
    >::empty());
    assert(t.drop_last() =~= t.subrange(0, 4));
    assert(t.drop_last().drop_last() =~= t.subrange(0, 3));
    assert(t.drop_last().drop_last().drop_last() =~= t.subrange(0, 2));
    assert(t.drop_last().drop_last().drop_last().drop_last() =~= t.subrange(0, 1));
}

/// Labels are how the author picks a kind in the HUD: no two kinds share one,
/// and none is empty.
pub proof fn labels_are_unique_and_non_empty(a: TerrainKind, b: TerrainKind)
    ensures
        spec_props(a).label@.len() > 0,
        a != b ==> spec_props(a).label@ != spec_props(b).label@,
{
    reveal_strlit("Tierra");
    reveal_strlit("Roca");
    reveal_strlit("Pasto largo");
    reveal_strlit("Pasto corto");
    reveal_strlit("Arena");
    assert("Tierra"@[0] != "Roca"@[0]);
    assert("Tierra"@[0] != "Pasto largo"@[0]);
    assert("Tierra"@[0] != "Arena"@[0]);
    assert("Roca"@[0] != "Pasto largo"@[0]);
    assert("Roca"@[0] != "Arena"@[0]);
    assert("Pasto largo"@[0] != "Arena"@[0]);
    assert("Tierra"@[0] != "Pasto corto"@[0]);
    assert("Roca"@[0] != "Pasto corto"@[0]);
    assert("Pasto corto"@[0] != "Arena"@[0]);
    assert("Pasto corto"@[6] != "Pasto largo"@[6]);
}

/// The layer is only authorable if the author can tell what they painted by
/// walking on it: two kinds never sound the same underfoot.
pub proof fn each_kind_is_distinguishable_underfoot(a: TerrainKind, b: TerrainKind)
    ensures
        a != b ==> spec_props(a).surface != spec_props(b).surface,
{
}

/// Tall grass is the kind that burns and cuts; rock is the kind that does
/// neither. Only grass burns, and only tall grass is cleared by a blade.
pub proof fn the_table_is_what_makes_a_kind_mean_something(kind: TerrainKind)
    ensures
        spec_props(kind).flammable <==> (kind == TerrainKind::ShortGrass || kind
            == TerrainKind::TallGrass),
        spec_props(kind).cuttable <==> kind == TerrainKind::TallGrass,
{
}

/// Each kind sounds like what it is made of, and only it does: bare earth
/// like dirt, short grass like cropped turf, tall grass like grass, rock like
/// stone and sand like sand.
pub proof fn each_kind_sounds_like_what_it_is_made_of(kind: TerrainKind)
    ensures
        spec_props(kind).surface == SurfaceKind::Dirt <==> kind == TerrainKind::Soil,
        spec_props(kind).surface == SurfaceKind::Turf <==> kind == TerrainKind::ShortGrass,
        spec_props(kind).surface == SurfaceKind::Grass <==> kind == TerrainKind::TallGrass,
        spec_props(kind).surface == SurfaceKind::Stone <==> kind == TerrainKind::Rock,
        spec_props(kind).surface == SurfaceKind::Sand <==> kind == TerrainKind::Sand,
{
}

} // verus!
