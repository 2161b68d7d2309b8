//! The **index mesh** a meadow level shares among all its chunks.
//!
//! It carries no useful positions (those come from the records); what it does
//! carry is, per vertex, which blade and which corner it is, so the shader never
//! depends on where the mesh lives in the renderer's shared vertex buffer. And
//! it carries the triangle list: one triangle per spike, two per leaf.

use vstd::prelude::*;

verus! {

/// Vertices reserved per blade: four for every shape, including the spike
/// that only uses three, so that one stride serves every shape.
pub const VERTICES_PER_BLADE: u32 = 4;

/// The address of a vertex: which blade it belongs to, and which corner.
pub open spec fn spec_vertex_address(vertex: int) -> (int, int) {
    (vertex / 4, vertex % 4)
}

/// How many indices a blade contributes.
pub open spec fn indices_per_blade(triangles_per_blade: u32) -> int {
    if triangles_per_blade == 2 {
        6
    } else {
        3
    }
}

/// The `j`-th index of blade `blade`: the corner order the vertex shader
/// expects, `(0, 1, 2)` and, for a two-triangle blade, `(1, 3, 2)`.
pub open spec fn spec_blade_index(blade: int, j: int) -> int {
    4 * blade + if j == 0 {
        0int
    } else if j == 1 {
        1int
    } else if j == 2 {
        2int
    } else if j == 3 {
        1int
    } else if j == 4 {
        3int
    } else {
        2int
    }
}

/// Per vertex of an index mesh of `blades` blades, its `(blade, corner)`
/// address.
pub fn index_mesh_addresses(blades: u32) -> (addresses: Vec<(u32, u32)>)
    requires
        blades as int * 4 <= u32::MAX,
    ensures
        addresses@.len() == blades as int * 4,
        forall|v: int|
            0 <= v < addresses@.len() ==> (addresses@[v].0 as int, addresses@[v].1 as int)
                == spec_vertex_address(v),
{
    let vertices = blades * VERTICES_PER_BLADE;
    let mut addresses: Vec<(u32, u32)> = Vec::new();
    let mut vertex: u32 = 0;
    while vertex < vertices
        invariant
            vertices == blades as int * 4,
            vertex <= vertices,
            addresses@.len() == vertex,
            forall|v: int|
                0 <= v < vertex ==> (addresses@[v].0 as int, addresses@[v].1 as int)
                    == spec_vertex_address(v),
        decreases vertices - vertex,
    {
        addresses.push((vertex / VERTICES_PER_BLADE, vertex % VERTICES_PER_BLADE));
        vertex = vertex + 1;
    }
    addresses
}

/// The triangle list of an index mesh of `blades` blades, with one triangle per
/// blade, or two when `triangles_per_blade` is 2.
pub fn index_mesh_indices(blades: u32, triangles_per_blade: u32) -> (indices: Vec<u32>)
    requires
        blades as int * 4 <= u32::MAX,
    ensures
        indices@.len() == blades as int * indices_per_blade(triangles_per_blade),
        forall|i: int|
            0 <= i < indices@.len() ==> indices@[i] as int == spec_blade_index(
                i / indices_per_blade(triangles_per_blade),
                i % indices_per_blade(triangles_per_blade),
            ),
{
    let ghost per = indices_per_blade(triangles_per_blade);
    let mut indices: Vec<u32> = Vec::new();
    let mut blade: u32 = 0;
    while blade < blades
        invariant
            blades as int * 4 <= u32::MAX,
            blade <= blades,
            per == indices_per_blade(triangles_per_blade),
            indices@.len() == blade as int * per,
            forall|i: int|
                0 <= i < indices@.len() ==> indices@[i] as int == spec_blade_index(
                    i / per,
                    i % per,
                ),
        decreases blades - blade,
    {
        let first = blade * VERTICES_PER_BLADE;
        let ghost before = indices@.len() as int;
        indices.push(first);
        indices.push(first + 1);
        indices.push(first + 2);
        if triangles_per_blade == 2 {
            indices.push(first + 1);
            indices.push(first + 3);
            indices.push(first + 2);
        }
        proof {
            assert forall|i: int| before <= i < indices@.len() implies indices@[i] as int
                == spec_blade_index(i / per, i % per) by {
                assert(before == blade as int * per);
                let j = i - before;
                assert(0 <= j < per);
                assert(i == blade as int * per + j);
                vstd::arithmetic::div_mod::lemma_fundamental_div_mod_converse(
                    i,
                    per,
                    blade as int,
                    j,
                );
            }
            assert(indices@.len() == (blade as int + 1) * per) by (nonlinear_arith)
                requires
                    indices@.len() == blade as int * per + per,
            ;
        }
        blade = blade + 1;
    }
    indices
}

/// The index mesh only ever indexes vertices it has: every index of a mesh of
/// `blades` blades is below `4 * blades`.
pub proof fn the_index_mesh_indexes_only_vertices_it_has(
    blades: nat,
    triangles_per_blade: u32,
    i: int,
)
    requires
        0 <= i < blades * indices_per_blade(triangles_per_blade),
    ensures
        0 <= spec_blade_index(
            i / indices_per_blade(triangles_per_blade),
            i % indices_per_blade(triangles_per_blade),
        ) < 4 * blades,
{
    let per = indices_per_blade(triangles_per_blade);
    assert(0 <= i / per < blades) by {
        vstd::arithmetic::div_mod::lemma_div_pos_is_pos(i, per);
        vstd::arithmetic::div_mod::lemma_div_by_multiple_is_strongly_ordered(i, blades * per, blades as int, per);
        vstd::arithmetic::div_mod::lemma_div_by_multiple(blades as int, per);
    }
    assert(0 <= i % per < per) by {
        vstd::arithmetic::div_mod::lemma_mod_pos_bound(i, per);
    }
}

} // verus!
