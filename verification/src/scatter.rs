//! The project's one source of pseudo-randomness, and what is decided with it:
//! which forest cells grow a tree and of which kind, and the seeds behind every
//! blade of the meadow, every wrinkle of the noise brush and every ragged ring
//! boundary.
//!
//! Everything here is a pure function of integers, so the same ground always
//! grows the same forest and the same blades.

use vstd::prelude::*;

verus! {

/// The scatter hash: an integer finaliser, a pure function of its input.
pub open spec fn spec_hash_u32(value: u32) -> u32 {
    let v1 = value ^ (value >> 16u32);
    let v2 = v1.wrapping_mul(0x7feb_352du32);
    let v3 = v2 ^ (v2 >> 15u32);
    let v4 = v3.wrapping_mul(0x846c_a68bu32);
    v4 ^ (v4 >> 16u32)
}

/// The scatter hash: an integer finaliser, a pure function of its input.
pub fn hash_u32(value: u32) -> (hash: u32)
    ensures
        hash == spec_hash_u32(value),
{
    let mut value = value;
    value = value ^ (value >> 16u32);
    value = value.wrapping_mul(0x7feb_352du32);
    value = value ^ (value >> 15u32);
    value = value.wrapping_mul(0x846c_a68bu32);
    value ^ (value >> 16u32)
}

/// Semantic tree identity. Physics is authored independently of it;
/// presentation maps it to the active asset library.
#[derive(Clone, Copy, PartialEq, Eq, Debug, Hash, Structural)]
pub enum TreeKind {
    Common1,
    Common2,
    Common3,
    Common4,
    Common5,
    Pine1,
    Pine2,
    Pine3,
    Pine4,
    Pine5,
    Twisted1,
    Twisted2,
    Twisted3,
    Twisted4,
    Twisted5,
}

/// The three species a tree kind belongs to.
#[derive(Clone, Copy, PartialEq, Eq, Debug, Hash, Structural)]
pub enum TreeFamily {
    Common,
    Pine,
    Twisted,
}

/// The species of a tree kind.
pub open spec fn spec_family(kind: TreeKind) -> TreeFamily {
    match kind {
        TreeKind::Common1 | TreeKind::Common2 | TreeKind::Common3 | TreeKind::Common4
        | TreeKind::Common5 => TreeFamily::Common,
        TreeKind::Pine1 | TreeKind::Pine2 | TreeKind::Pine3 | TreeKind::Pine4
        | TreeKind::Pine5 => TreeFamily::Pine,
        _ => TreeFamily::Twisted,
    }
}

/// Which of the five variants of its species a tree kind is, from 0.
pub open spec fn spec_variant(kind: TreeKind) -> u32 {
    match kind {
        TreeKind::Common1 | TreeKind::Pine1 | TreeKind::Twisted1 => 0,
        TreeKind::Common2 | TreeKind::Pine2 | TreeKind::Twisted2 => 1,
        TreeKind::Common3 | TreeKind::Pine3 | TreeKind::Twisted3 => 2,
        TreeKind::Common4 | TreeKind::Pine4 | TreeKind::Twisted4 => 3,
        _ => 4,
    }
}

/// The tree kind that a cell's hash picks: the species from the hash's second
/// byte onwards (eleven shares in twenty common, seven pine, two twisted), the
/// variant from the hash modulo five.
pub open spec fn spec_forest_kind(hash: u32) -> TreeKind {
    let variant = hash % 5;
    let band = (hash >> 8u32) % 20;
    if band <= 10 {
        if variant == 0 {
            TreeKind::Common1
        } else if variant == 1 {
            TreeKind::Common2
        } else if variant == 2 {
            TreeKind::Common3
        } else if variant == 3 {
            TreeKind::Common4
        } else {
            TreeKind::Common5
        }
    } else if band <= 17 {
        if variant == 0 {
            TreeKind::Pine1
        } else if variant == 1 {
            TreeKind::Pine2
        } else if variant == 2 {
            TreeKind::Pine3
        } else if variant == 3 {
            TreeKind::Pine4
        } else {
            TreeKind::Pine5
        }
    } else {
        if variant == 0 {
            TreeKind::Twisted1
        } else if variant == 1 {
            TreeKind::Twisted2
        } else if variant == 2 {
            TreeKind::Twisted3
        } else if variant == 3 {
            TreeKind::Twisted4
        } else {
            TreeKind::Twisted5
        }
    }
}

/// The tree kind that a cell's hash picks.
pub fn forest_kind(hash: u32) -> (kind: TreeKind)
    ensures
        kind == spec_forest_kind(hash),
{
    let variant = hash % 5;
    match (hash >> 8u32) % 20 {
        0..=10 => match variant {
            0 => TreeKind::Common1,
            1 => TreeKind::Common2,
            2 => TreeKind::Common3,
            3 => TreeKind::Common4,
            _ => TreeKind::Common5,
        },
        11..=17 => match variant {
            0 => TreeKind::Pine1,
            1 => TreeKind::Pine2,
            2 => TreeKind::Pine3,
            3 => TreeKind::Pine4,
            _ => TreeKind::Pine5,
        },
        _ => match variant {
            0 => TreeKind::Twisted1,
            1 => TreeKind::Twisted2,
            2 => TreeKind::Twisted3,
            3 => TreeKind::Twisted4,
            _ => TreeKind::Twisted5,
        },
    }
}

/// The species a tree kind belongs to.
pub fn tree_family(kind: TreeKind) -> (family: TreeFamily)
    ensures
        family == spec_family(kind),
{
    match kind {
        TreeKind::Common1 | TreeKind::Common2 | TreeKind::Common3 | TreeKind::Common4
        | TreeKind::Common5 => TreeFamily::Common,
        TreeKind::Pine1 | TreeKind::Pine2 | TreeKind::Pine3 | TreeKind::Pine4
        | TreeKind::Pine5 => TreeFamily::Pine,
        _ => TreeFamily::Twisted,
    }
}

/// A kind's species is decided by the band the hash falls in, and its variant
/// by the hash modulo five: the two halves of the hash never mix.
pub proof fn forest_kind_reads_species_and_variant_apart(hash: u32)
    ensures
        spec_family(spec_forest_kind(hash)) == (if (hash >> 8u32) % 20 <= 10 {
            TreeFamily::Common
        } else if (hash >> 8u32) % 20 <= 17 {
            TreeFamily::Pine
        } else {
            TreeFamily::Twisted
        }),
        spec_variant(spec_forest_kind(hash)) == hash % 5,
{
}

/// Half the number of cells per side of the forest grid, around the origin.
pub const GRID_RADIUS: i32 = 12;
/// Cells per side of the forest grid.
pub const GRID_SIDE: u32 = 25;
/// Percent of the grid's cells that grow a tree.
pub const DENSITY_PERCENT: u32 = 31;

/// A forest grid cell that grows a tree, before jitter and before the course
/// clearing is cut out of it.
#[derive(Clone, Copy, PartialEq, Eq, Debug, Structural)]
pub struct ForestCell {
    /// Column, from `-GRID_RADIUS` to `GRID_RADIUS`.
    pub x: i32,
    /// Row, from `-GRID_RADIUS` to `GRID_RADIUS`.
    pub z: i32,
    /// The cell's hash: every later choice about its tree is read from it.
    pub hash: u32,
}

/// The hash of the `index`-th cell of the grid, counted row by row.
pub open spec fn spec_cell_hash(index: u32) -> u32 {
    spec_hash_u32(index.wrapping_add(0x5eed_1234u32))
}

/// The `index`-th cell of the grid, counted row by row from the far corner.
pub open spec fn spec_grid_cell(index: int) -> ForestCell {
    ForestCell {
        x: (index % (GRID_SIDE as int) - GRID_RADIUS) as i32,
        z: (index / (GRID_SIDE as int) - GRID_RADIUS) as i32,
        hash: spec_cell_hash(index as u32),
    }
}

/// Whether a cell with this hash grows a tree.
pub open spec fn spec_grows_tree(hash: u32) -> bool {
    hash % 100 < DENSITY_PERCENT
}

/// The tree-bearing cells among the first `n` cells of the grid, in grid order.
pub open spec fn spec_forest_cells(n: nat) -> Seq<ForestCell>
    decreases n,
{
    if n == 0 {
        Seq::empty()
    } else {
        let before = spec_forest_cells((n - 1) as nat);
        let cell = spec_grid_cell(n - 1);
        if spec_grows_tree(cell.hash) {
            before.push(cell)
        } else {
            before
        }
    }
}

/// Every tree-bearing cell of the forest grid, in the row-by-row order the
/// layout walks it.
pub fn forest_cells() -> (cells: Vec<ForestCell>)
    ensures
        cells@ == spec_forest_cells((GRID_SIDE * GRID_SIDE) as nat),
{
    let mut cells: Vec<ForestCell> = Vec::new();
    let mut index: u32 = 0;
    while index < GRID_SIDE * GRID_SIDE
        invariant
            index <= GRID_SIDE * GRID_SIDE,
            cells@ == spec_forest_cells(index as nat),
        decreases GRID_SIDE * GRID_SIDE - index,
    {
        let hash = hash_u32(index.wrapping_add(0x5eed_1234u32));
        if hash % 100 < DENSITY_PERCENT {
            let x = (index % GRID_SIDE) as i32 - GRID_RADIUS;
            let z = (index / GRID_SIDE) as i32 - GRID_RADIUS;
            let cell = ForestCell { x, z, hash };
            assert(cell == spec_grid_cell(index as int));
            cells.push(cell);
        }
        index = index + 1;
    }
    cells
}

/// Every tree-bearing cell lies inside the grid and really passed the density
/// cut: the layout never plants outside its square nor above its density.
pub proof fn forest_cells_lie_on_the_grid(n: nat, i: int)
    requires
        n <= GRID_SIDE * GRID_SIDE,
        0 <= i < spec_forest_cells(n).len(),
    ensures
        -GRID_RADIUS <= spec_forest_cells(n)[i].x <= GRID_RADIUS,
        -GRID_RADIUS <= spec_forest_cells(n)[i].z <= GRID_RADIUS,
        spec_grows_tree(spec_forest_cells(n)[i].hash),
    decreases n,
{
    if n > 0 {
        let before = spec_forest_cells((n - 1) as nat);
        if i < before.len() {
            forest_cells_lie_on_the_grid((n - 1) as nat, i);
        } else {
            let index = n - 1;
            assert(0 <= index % 25 < 25);
            assert(0 <= index / 25 < 25) by {
                assert(index < 625);
            }
        }
    }
}

/// The seed of blade `index` of world tile `(tile_x, tile_z)`. The seed is the
/// tile and the index and nothing else: not the level, not the chunk, not the
/// order it was baked in, which is what lets two levels over the same ground
/// speak of the same blades.
pub open spec fn spec_tile_blade_seed(tile_x: i32, tile_z: i32, index: u32) -> u32 {
    spec_hash_u32(
        (tile_x as u32).wrapping_mul(0x9e37_79b9u32) ^ (tile_z as u32).wrapping_mul(
            0x85eb_ca6bu32,
        ) ^ index.wrapping_mul(0x0019_6f3du32),
    )
}

/// The seed of blade `index` of world tile `(tile_x, tile_z)`.
pub fn tile_blade_seed(tile_x: i32, tile_z: i32, index: u32) -> (seed: u32)
    ensures
        seed == spec_tile_blade_seed(tile_x, tile_z, index),
{
    let x = tile_x as u32;
    let z = tile_z as u32;
    hash_u32(
        x.wrapping_mul(0x9e37_79b9u32) ^ z.wrapping_mul(0x85eb_ca6bu32) ^ index.wrapping_mul(
            0x0019_6f3du32,
        ),
    )
}

/// The seed of the ragged boundary of ring `ring` at chunk cell
/// `(cell_x, cell_z)`. A ring index past `u32` saturates, as in the renderer.
pub open spec fn spec_ring_boundary_seed(cell_x: i32, cell_z: i32, ring: u32) -> u32 {
    spec_hash_u32(
        (cell_x as u32).wrapping_mul(0x9e37_79b9u32) ^ (cell_z as u32).wrapping_mul(
            0x85eb_ca6bu32,
        ) ^ ring.wrapping_mul(0xc2b2_ae35u32),
    )
}

/// The seed of the ragged boundary of ring `ring` at chunk cell
/// `(cell_x, cell_z)`.
pub fn ring_boundary_seed(cell_x: i32, cell_z: i32, ring: usize) -> (seed: u32)
    ensures
        seed == spec_ring_boundary_seed(
            cell_x,
            cell_z,
            if ring <= u32::MAX as usize {
                ring as u32
            } else {
                u32::MAX
            },
        ),
{
    let ring32: u32 = if ring <= u32::MAX as usize {
        ring as u32
    } else {
        u32::MAX
    };
    let x = cell_x as u32;
    let z = cell_z as u32;
    hash_u32(
        x.wrapping_mul(0x9e37_79b9u32) ^ z.wrapping_mul(0x85eb_ca6bu32) ^ ring32.wrapping_mul(
            0xc2b2_ae35u32,
        ),
    )
}

/// The hash at a corner of the value-noise lattice, for brush seed `seed`.
pub open spec fn spec_noise_corner_hash(x: i32, y: i32, seed: u32) -> u32 {
    spec_hash_u32((x as u32).wrapping_mul(0x9e37_79b9u32) ^ spec_hash_u32((y as u32) ^ seed))
}

/// The hash at a corner of the value-noise lattice, for brush seed `seed`.
/// The same world corner always gives the same hash, so holding the noise
/// brush deepens the same wrinkles instead of boiling them.
pub fn noise_corner_hash(x: i32, y: i32, seed: u32) -> (hash: u32)
    ensures
        hash == spec_noise_corner_hash(x, y, seed),
{
    let ux = x as u32;
    let uy = y as u32;
    hash_u32(ux.wrapping_mul(0x9e37_79b9u32) ^ hash_u32(uy ^ seed))
}

} // verus!
