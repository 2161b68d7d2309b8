//! The terrain's visual mesh as grid topology: flat-shaded, two triangles per
//! cell, every vertex its cell's own, so that the semantic payload a cell's
//! vertices carry never blends across a cell boundary.

use vstd::prelude::*;

use crate::grass_cover::{spec_texture_layer, texture_layer};
use crate::terrain_kind::{spec_props, TerrainKind};

verus! {

/// Vertices emitted per grid cell: two triangles.
pub const VERTICES_PER_CELL: usize = 6;

/// The grid point of the `j`-th vertex of cell `(row, col)`. With `a` at
/// `(row, col)`, `b` one row on, `c` diagonally across and `d` one column on,
/// the triangles are `a, d, b` and `d, c, b`.
pub open spec fn cell_corner(row: int, col: int, j: int) -> (int, int) {
    if j == 0 {
        (row, col)
    } else if j == 1 {
        (row, col + 1)
    } else if j == 2 {
        (row + 1, col)
    } else if j == 3 {
        (row, col + 1)
    } else if j == 4 {
        (row + 1, col + 1)
    } else {
        (row + 1, col)
    }
}

/// The grid point of the `k`-th vertex of a mesh over `cells` cells a side,
/// cells walked row by row.
pub open spec fn mesh_corner(cells: int, k: int) -> (int, int) {
    let cell = k / 6;
    cell_corner(cell / cells, cell % cells, k % 6)
}

/// The grid point, as `(row, col)`, of every vertex of the terrain mesh over a
/// grid of `points` points a side.
pub fn terrain_mesh_corners(points: usize) -> (corners: Vec<(usize, usize)>)
    requires
        1 <= points,
        (points - 1) * (points - 1) * 6 <= usize::MAX,
    ensures
        corners@.len() == (points - 1) * (points - 1) * 6,
        forall|k: int|
            0 <= k < corners@.len() ==> (corners@[k].0 as int, corners@[k].1 as int) == mesh_corner(
                points - 1,
                k,
            ),
{
    let cells = points - 1;
    let mut corners: Vec<(usize, usize)> = Vec::new();
    let mut row: usize = 0;
    assert(0 * cells as int * 6 == 0) by (nonlinear_arith);
    while row < cells
        invariant
            cells == points - 1,
            cells as int * cells as int * 6 <= usize::MAX,
            row <= cells,
            corners@.len() == row as int * cells as int * 6,
            forall|k: int|
                0 <= k < corners@.len() ==> (corners@[k].0 as int, corners@[k].1 as int)
                    == mesh_corner(cells as int, k),
        decreases cells - row,
    {
        let mut col: usize = 0;
        while col < cells
            invariant
                cells == points - 1,
                cells as int * cells as int * 6 <= usize::MAX,
                row < cells,
                col <= cells,
                corners@.len() == (row as int * cells as int + col as int) * 6,
                forall|k: int|
                    0 <= k < corners@.len() ==> (corners@[k].0 as int, corners@[k].1 as int)
                        == mesh_corner(cells as int, k),
            decreases cells - col,
        {
            let ghost cell = row as int * cells as int + col as int;
            let ghost base = corners@.len() as int;
            proof {
                vstd::arithmetic::div_mod::lemma_fundamental_div_mod_converse(
                    cell,
                    cells as int,
                    row as int,
                    col as int,
                );
                vstd::arithmetic::div_mod::lemma_fundamental_div_mod_converse(
                    base + 0,
                    6,
                    cell,
                    0,
                );
                vstd::arithmetic::div_mod::lemma_fundamental_div_mod_converse(
                    base + 1,
                    6,
                    cell,
                    1,
                );
                vstd::arithmetic::div_mod::lemma_fundamental_div_mod_converse(
                    base + 2,
                    6,
                    cell,
                    2,
                );
                vstd::arithmetic::div_mod::lemma_fundamental_div_mod_converse(
                    base + 3,
                    6,
                    cell,
                    3,
                );
                vstd::arithmetic::div_mod::lemma_fundamental_div_mod_converse(
                    base + 4,
                    6,
                    cell,
                    4,
                );
                vstd::arithmetic::div_mod::lemma_fundamental_div_mod_converse(
                    base + 5,
                    6,
                    cell,
                    5,
                );
                assert((row as int * cells as int + col as int) * 6 + 6 <= cells as int
                    * cells as int * 6) by (nonlinear_arith)
                    requires
                        row < cells,
                        col < cells,
                ;
            }
            corners.push((row, col));
            corners.push((row, col + 1));
            corners.push((row + 1, col));
            corners.push((row, col + 1));
            corners.push((row + 1, col + 1));
            corners.push((row + 1, col));
            col = col + 1;
        }
        proof {
            assert((row as int * cells as int + cells as int) * 6 == (row + 1) as int * cells as int
                * 6) by (nonlinear_arith);
        }
        row = row + 1;
    }
    corners
}

/// The semantic payload a cell's vertices carry to the terrain shader: its
/// texture layer, and whether it is climbable, flammable and cuttable. Data for
/// the shader to read, not a display colour.
pub fn semantic_payload(kind: TerrainKind, climbable: bool) -> (payload: [u8; 4])
    ensures
        payload[0] == spec_texture_layer(kind),
        payload[1] == (if climbable { 1u8 } else { 0u8 }),
        payload[2] == (if spec_props(kind).flammable { 1u8 } else { 0u8 }),
        payload[3] == (if spec_props(kind).cuttable { 1u8 } else { 0u8 }),
{
    let flag = |on: bool| -> (bit: u8)
        ensures
            bit == (if on { 1u8 } else { 0u8 }),
        {
            if on {
                1u8
            } else {
                0u8
            }
        };
    [texture_layer(kind), flag(climbable), flag(kind.flammable()), flag(kind.cuttable())]
}

/// Every vertex of the terrain mesh is a corner of its own cell, and so a
/// point of the grid: the mesh lies on the same points the collider is built
/// from.
pub proof fn every_vertex_is_a_corner_of_its_cell(cells: int, k: int)
    requires
        0 < cells,
        0 <= k < cells * cells * 6,
    ensures
        ({
            let cell = k / 6;
            let (r, c) = mesh_corner(cells, k);
            &&& 0 <= cell / cells < cells
            &&& cell / cells <= r <= cell / cells + 1
            &&& cell % cells <= c <= cell % cells + 1
            &&& 0 <= r <= cells
            &&& 0 <= c <= cells
        }),
{
    let cell = k / 6;
    vstd::arithmetic::div_mod::lemma_fundamental_div_mod(k, 6);
    vstd::arithmetic::div_mod::lemma_fundamental_div_mod(cell, cells);
    vstd::arithmetic::div_mod::lemma_mod_bound(k, 6);
    vstd::arithmetic::div_mod::lemma_mod_bound(cell, cells);
    assert(0 <= cell < cells * cells) by (nonlinear_arith)
        requires
            k == 6 * cell + k % 6,
            0 <= k % 6 < 6,
            0 <= k < cells * cells * 6,
    ;
    assert(0 <= cell / cells < cells) by (nonlinear_arith)
        requires
            cell == cells * (cell / cells) + cell % cells,
            0 <= cell % cells < cells,
            0 <= cell < cells * cells,
            0 < cells,
    ;
}

} // verus!
