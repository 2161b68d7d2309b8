//! Where grass grows: one rule, two consumers.
//!
//! The meadow stamper reads it to decide how many blades a patch of ground
//! gets; the terrain shader reads it to decide how far to tint the same ground.
//! What crosses to the shader is not a copy of the rule but its parameters:
//! the set of grass-bearing kinds as a bitmask over texture layers.

use vstd::prelude::*;

use crate::terrain_kind::{spec_all_kinds, TerrainKind};

verus! {

/// Whether a cell's authored meaning bears grass at all.
pub open spec fn spec_bears_grass(kind: TerrainKind) -> bool {
    match kind {
        TerrainKind::ShortGrass | TerrainKind::TallGrass => true,
        TerrainKind::Soil | TerrainKind::Rock | TerrainKind::Sand => false,
    }
}

/// The texture-array layer a kind is painted with. Stable: every terrain mesh
/// and material already encodes these numbers.
pub open spec fn spec_texture_layer(kind: TerrainKind) -> u8 {
    match kind {
        TerrainKind::Soil => 0,
        TerrainKind::Rock => 1,
        TerrainKind::TallGrass => 2,
        TerrainKind::Sand => 3,
        // Appended after the four layers every existing terrain mesh and
        // material already encodes; palette order is `TerrainKind::ALL`'s.
        TerrainKind::ShortGrass => 4,
    }
}

/// The bit a kind owns in a layer mask.
pub open spec fn layer_bit(kind: TerrainKind) -> u32 {
    1u32 << (spec_texture_layer(kind) as u32)
}

/// The mask of the grass-bearing kinds among `kinds`.
pub open spec fn grass_mask_over(kinds: Seq<TerrainKind>) -> u32
    decreases kinds.len(),
{
    if kinds.len() == 0 {
        0
    } else {
        grass_mask_over(kinds.drop_last()) | if spec_bears_grass(kinds.last()) {
            layer_bit(kinds.last())
        } else {
            0u32
        }
    }
}

/// Whether a cell's authored meaning bears grass at all.
///
/// An exhaustive match rather than a list, so adding a kind forces this
/// decision instead of silently defaulting to bare ground.
pub fn kind_bears_grass(kind: TerrainKind) -> (bears: bool)
    ensures
        bears == spec_bears_grass(kind),
{
    match kind {
        TerrainKind::ShortGrass | TerrainKind::TallGrass => true,
        TerrainKind::Soil | TerrainKind::Rock | TerrainKind::Sand => false,
    }
}

/// The texture-array layer a kind is painted with.
pub fn texture_layer(kind: TerrainKind) -> (layer: u8)
    ensures
        layer == spec_texture_layer(kind),
{
    match kind {
        TerrainKind::Soil => 0,
        TerrainKind::Rock => 1,
        TerrainKind::TallGrass => 2,
        TerrainKind::Sand => 3,
        // Appended after the four layers every existing terrain mesh and
        // material already encodes; palette order is `TerrainKind::ALL`'s.
        TerrainKind::ShortGrass => 4,
    }
}

/// The grass-bearing kinds as a bitmask over texture layers, for the terrain
/// shader, which knows a cell by its layer index and not by a Rust enum.
pub fn grass_layer_mask() -> (mask: u32)
    ensures
        mask == grass_mask_over(spec_all_kinds()),
        mask == 20,
{
    proof {
        lemma_grass_mask_value();
    }
    let mut mask: u32 = 0;
    let mut i: usize = 0;
    while i < 5
        invariant
            0 <= i <= 5,
            mask == grass_mask_over(spec_all_kinds().subrange(0, i as int)),
        decreases 5 - i,
    {
        let kind = TerrainKind::ALL[i];
        proof {
            let s = spec_all_kinds().subrange(0, i + 1);
            assert(s.drop_last() =~= spec_all_kinds().subrange(0, i as int));
            assert(s.last() == kind);
        }
        if kind_bears_grass(kind) {
            let layer = texture_layer(kind) as u32;
            mask = mask | (1u32 << layer);
        } else {
            mask = mask | 0u32;
        }
        i = i + 1;
    }
    assert(spec_all_kinds().subrange(0, 5) =~= spec_all_kinds());
    mask
}

/// Short and tall grass are the grass-bearing kinds, on layers 4 and 2: the
/// mask the shader gets is `0b10100`.
proof fn lemma_grass_mask_value()
    ensures
        grass_mask_over(spec_all_kinds()) == 20u32,
{
    let s = spec_all_kinds();
    reveal_with_fuel(grass_mask_over, 6);
    assert(s.drop_last().drop_last().drop_last().drop_last().drop_last() =~= Seq::<
        TerrainKind,
    >::empty());
    assert(s.drop_last() =~= seq![
        TerrainKind::Soil,
        TerrainKind::ShortGrass,
        TerrainKind::TallGrass,
        TerrainKind::Rock,
    ]);
    assert(s.drop_last().drop_last() =~= seq![
        TerrainKind::Soil,
        TerrainKind::ShortGrass,
        TerrainKind::TallGrass,
    ]);
    assert(s.drop_last().drop_last().drop_last() =~= seq![
        TerrainKind::Soil,
        TerrainKind::ShortGrass,
    ]);
    assert(s.drop_last().drop_last().drop_last().drop_last() =~= seq![TerrainKind::Soil]);
    assert(1u32 << 2u32 == 4u32) by (bit_vector);
    assert(1u32 << 4u32 == 16u32) by (bit_vector);
    assert(0u32 | 0u32 == 0u32) by (bit_vector);
    assert(0u32 | 16u32 == 16u32) by (bit_vector);
    assert(16u32 | 4u32 == 20u32) by (bit_vector);
    assert(20u32 | 0u32 == 20u32) by (bit_vector);
}

/// The mask names exactly the kinds the rule names: a kind's layer bit is set
/// if and only if that kind bears grass.
pub proof fn the_shader_mask_names_the_same_kinds_as_the_rule(kind: TerrainKind)
    ensures
        (grass_mask_over(spec_all_kinds()) & layer_bit(kind) != 0) <==> spec_bears_grass(kind),
{
    lemma_grass_mask_value();
    assert(20u32 & (1u32 << 0u32) == 0u32) by (bit_vector);
    assert(20u32 & (1u32 << 1u32) == 0u32) by (bit_vector);
    assert(20u32 & (1u32 << 2u32) != 0u32) by (bit_vector);
    assert(20u32 & (1u32 << 3u32) == 0u32) by (bit_vector);
    assert(20u32 & (1u32 << 4u32) != 0u32) by (bit_vector);
}

/// Texture layers are stable: the four kinds every existing terrain mesh and
/// material already encodes keep layers 0 to 3 (soil, rock, tall grass,
/// sand), short grass comes after them on layer 4, and no two kinds share a
/// layer.
pub proof fn every_kind_keeps_its_own_stable_layer(a: TerrainKind, b: TerrainKind)
    ensures
        spec_texture_layer(a) < 5,
        a != b ==> spec_texture_layer(a) != spec_texture_layer(b),
        spec_texture_layer(a) == 0 <==> a == TerrainKind::Soil,
        spec_texture_layer(a) == 1 <==> a == TerrainKind::Rock,
        spec_texture_layer(a) == 2 <==> a == TerrainKind::TallGrass,
        spec_texture_layer(a) == 3 <==> a == TerrainKind::Sand,
        spec_texture_layer(a) == 4 <==> a == TerrainKind::ShortGrass,
        spec_bears_grass(a) <==> (a == TerrainKind::ShortGrass || a == TerrainKind::TallGrass),
{
}

} // verus!
