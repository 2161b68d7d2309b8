//! What a meadow chunk plants and how its geometry is submitted.
//!
//! A blade belongs to the world, not to the level that draws it: a chunk walks
//! its world tiles and takes from each the blades of its own stretch of the
//! tile's sequence. The order is the order of the chunk's records, and a chunk's
//! records fill a fixed-stride slot, so the order is part of the contract.

use vstd::prelude::*;

use crate::text::{chars_of, same_text};

verus! {

broadcast use vstd::string::group_string_axioms;

/// Triangles submitted per blade by the shared index mesh.
pub const SUBMITTED_TRIANGLES_PER_BLADE: usize = 2;

/// How many triangles per blade a level's index mesh submits: two, except
/// while the shape bench forces every blade to be a spike, which never uses its
/// second triangle.
pub fn submitted_triangles_per_blade(shape_bench_label: &str) -> (triangles: usize)
    ensures
        triangles == if shape_bench_label@ == "solo púa"@ {
            1
        } else {
            SUBMITTED_TRIANGLES_PER_BLADE
        },
{
    let label = chars_of(shape_bench_label);
    let spike_only = chars_of("solo púa");
    if same_text(&label, &spike_only) {
        1
    } else {
        SUBMITTED_TRIANGLES_PER_BLADE
    }
}

/// The albedo a card candidate selects.
#[derive(Clone, Copy, Debug, PartialEq, Eq)]
pub struct CardAlbedo {
    pub path: &'static str,
    /// The candidate's name was not one of the known ones and the shipped card
    /// was used instead; worth a warning.
    pub unknown: bool,
}

/// The card albedo of a measurement candidate: `legacy` and `v3` name their
/// own, anything else the shipped card, and a name that is not `base` is
/// reported as unknown.
pub fn card_albedo_path(candidate_label: &str) -> (albedo: CardAlbedo)
    ensures
        candidate_label@ == "legacy"@ ==> albedo.path@ == "textures/props/T_GrassCard_Albedo.png"@
            && !albedo.unknown,
        candidate_label@ == "v3"@ ==> albedo.path@
            == "textures/props/T_GrassMeadowCard_v3_Albedo.png"@ && !albedo.unknown,
        candidate_label@ != "legacy"@ && candidate_label@ != "v3"@ ==> albedo.path@
            == "textures/props/T_GrassMeadowCard_Albedo.png"@ && albedo.unknown == (
        candidate_label@ != "base"@),
{
    proof {
        reveal_strlit("legacy");
        reveal_strlit("v3");
        assert("legacy"@.len() == 6 && "v3"@.len() == 2);
        assert("legacy"@ != "v3"@);
    }
    let label = chars_of(candidate_label);
    if same_text(&label, &chars_of("legacy")) {
        CardAlbedo { path: "textures/props/T_GrassCard_Albedo.png", unknown: false }
    } else if same_text(&label, &chars_of("v3")) {
        CardAlbedo { path: "textures/props/T_GrassMeadowCard_v3_Albedo.png", unknown: false }
    } else {
        let base = same_text(&label, &chars_of("base"));
        CardAlbedo { path: "textures/props/T_GrassMeadowCard_Albedo.png", unknown: !base }
    }
}

/// Blades in one chunk: the blades its stretch takes from each tile, times its
/// tiles, saturating.
pub fn blades_per_chunk(per_tile: u32, tiles_per_side: u32) -> (blades: u32)
    ensures
        blades == if per_tile as int * tiles_per_side as int * tiles_per_side as int
            <= u32::MAX {
            (per_tile * tiles_per_side * tiles_per_side) as u32
        } else {
            u32::MAX
        },
{
    assert(per_tile as int * tiles_per_side as int <= 0xffff_ffff_ffff_ffff) by (nonlinear_arith)
        requires
            per_tile <= u32::MAX,
            tiles_per_side <= u32::MAX,
    ;
    let wide: u128 = (per_tile as u128) * (tiles_per_side as u128);
    assert(wide as int * tiles_per_side as int <= 0xffff_ffff_ffff_ffff_ffff_ffff) by (nonlinear_arith)
        requires
            wide <= 0xffff_ffff_ffff_ffff,
            tiles_per_side <= u32::MAX,
    ;
    let all: u128 = wide * (tiles_per_side as u128);
    if all > u32::MAX as u128 {
        u32::MAX
    } else {
        all as u32
    }
}

/// The `k`-th blade a chunk plants: tiles row by row from its first tile, and
/// within a tile the indices of its stretch in order.
pub open spec fn planted_blade(first_x: int, first_z: int, side: int, start: int, per_tile: int, k: int) -> (int, int, int) {
    let tile = k / per_tile;
    (first_x + tile % side, first_z + tile / side, start + k % per_tile)
}

/// Every `(tile, index)` pair a chunk plants, as `(tile_x, tile_z, index)`:
/// its `side * side` tiles row by row from `(first_x, first_z)`, and from each
/// tile the indices `start..end` of its sequence.
pub fn chunk_tile_blades(first_x: i32, first_z: i32, side: u32, start: u32, end: u32) -> (blades: Vec<(i32, i32, u32)>)
    requires
        start <= end,
        side <= i32::MAX,
        first_x + side <= i32::MAX,
        first_z + side <= i32::MAX,
        side as int * side as int * (end - start) <= usize::MAX,
    ensures
        blades@.len() == side as int * side as int * (end - start),
        forall|k: int|
            0 <= k < blades@.len() ==> (blades@[k].0 as int, blades@[k].1 as int, blades@[k].2 as int)
                == planted_blade(first_x as int, first_z as int, side as int, start as int, end - start, k),
{
    let per_tile = end - start;
    let mut blades: Vec<(i32, i32, u32)> = Vec::new();
    let mut row: u32 = 0;
    assert(0 * side as int * per_tile == 0) by (nonlinear_arith);
    while row < side
        invariant
            side <= i32::MAX,
            row <= side,
            per_tile == end - start,
            start <= end,
            first_x + side <= i32::MAX,
            first_z + side <= i32::MAX,
            side as int * side as int * per_tile <= usize::MAX,
            blades@.len() == row as int * side as int * per_tile,
            forall|k: int|
                0 <= k < blades@.len() ==> (blades@[k].0 as int, blades@[k].1 as int, blades@[k].2 as int)
                    == planted_blade(first_x as int, first_z as int, side as int, start as int, per_tile as int, k),
        decreases side - row,
    {
        let mut col: u32 = 0;
        while col < side
            invariant
                side <= i32::MAX,
                row < side,
                col <= side,
                per_tile == end - start,
                start <= end,
                first_x + side <= i32::MAX,
                first_z + side <= i32::MAX,
                side as int * side as int * per_tile <= usize::MAX,
                blades@.len() == (row as int * side as int + col as int) * per_tile,
                forall|k: int|
                    0 <= k < blades@.len() ==> (blades@[k].0 as int, blades@[k].1 as int, blades@[k].2 as int)
                        == planted_blade(first_x as int, first_z as int, side as int, start as int, per_tile as int, k),
            decreases side - col,
        {
            let mut index: u32 = start;
            while index < end
                invariant
                    side <= i32::MAX,
                    row < side,
                    col < side,
                    start <= index <= end,
                    per_tile == end - start,
                    first_x + side <= i32::MAX,
                    first_z + side <= i32::MAX,
                    side as int * side as int * per_tile <= usize::MAX,
                    blades@.len() == (row as int * side as int + col as int) * per_tile + (index - start),
                    forall|k: int|
                        0 <= k < blades@.len() ==> (blades@[k].0 as int, blades@[k].1 as int, blades@[k].2 as int)
                            == planted_blade(first_x as int, first_z as int, side as int, start as int, per_tile as int, k),
                decreases end - index,
            {
                let ghost k = blades@.len() as int;
                let ghost tile = row as int * side as int + col as int;
                proof {
                    vstd::arithmetic::div_mod::lemma_fundamental_div_mod_converse(
                        k,
                        per_tile as int,
                        tile,
                        index - start,
                    );
                    vstd::arithmetic::div_mod::lemma_fundamental_div_mod_converse(
                        tile,
                        side as int,
                        row as int,
                        col as int,
                    );
                    assert((row as int * side as int + col as int) * per_tile + (index - start)
                        < side as int * side as int * per_tile) by (nonlinear_arith)
                        requires
                            row < side,
                            col < side,
                            index < end,
                            start <= index,
                            per_tile == end - start,
                    ;
                }
                let x = first_x + col as i32;
                let z = first_z + row as i32;
                blades.push((x, z, index));
                index = index + 1;
            }
            proof {
                assert((row as int * side as int + col as int) * per_tile + per_tile == (row as int
                    * side as int + (col + 1) as int) * per_tile) by (nonlinear_arith);
            }
            col = col + 1;
        }
        proof {
            assert((row as int * side as int + side as int) * per_tile == (row + 1) as int
                * side as int * per_tile) by (nonlinear_arith);
        }
        row = row + 1;
    }
    blades
}

/// A chunk plants every blade of its stretch on every one of its tiles, each
/// exactly once: the blade of index `start + j` on tile `(dx, dz)` of the
/// chunk is the record at `(dz * side + dx) * per_tile + j`, and no other.
pub proof fn every_tile_blade_is_planted_once(
    first_x: int,
    first_z: int,
    side: int,
    start: int,
    per_tile: int,
    dx: int,
    dz: int,
    j: int,
    k: int,
)
    requires
        0 <= dx < side,
        0 <= dz < side,
        0 <= j < per_tile,
        0 <= k,
    ensures
        planted_blade(first_x, first_z, side, start, per_tile, k) == (first_x + dx, first_z + dz, start + j)
            <==> k == (dz * side + dx) * per_tile + j,
{
    let tile = dz * side + dx;
    if k == tile * per_tile + j {
        vstd::arithmetic::div_mod::lemma_fundamental_div_mod_converse(k, per_tile, tile, j);
        vstd::arithmetic::div_mod::lemma_fundamental_div_mod_converse(tile, side, dz, dx);
    }
    if planted_blade(first_x, first_z, side, start, per_tile, k) == (first_x + dx, first_z + dz, start + j) {
        let q = k / per_tile;
        vstd::arithmetic::div_mod::lemma_fundamental_div_mod(k, per_tile);
        vstd::arithmetic::div_mod::lemma_fundamental_div_mod(q, side);
        assert(k % per_tile == j);
        assert(q % side == dx && q / side == dz);
        assert(q == side * dz + dx);
        assert(k == per_tile * q + j);
        assert(k == (dz * side + dx) * per_tile + j) by (nonlinear_arith)
            requires
                k == per_tile * q + j,
                q == side * dz + dx,
        ;
    }
}

} // verus!
