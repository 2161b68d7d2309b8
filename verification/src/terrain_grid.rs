//! The terrain's height grid as indices: row-major, `points` per side, the row
//! indexing X and the column indexing Z.
//!
//! The heights themselves are metres; what the brushes share here is which
//! points neighbour which.

use vstd::prelude::*;

verus! {

/// The row of grid point `idx`.
pub open spec fn grid_row(points: int, idx: int) -> int {
    idx / points
}

/// The column of grid point `idx`.
pub open spec fn grid_col(points: int, idx: int) -> int {
    idx % points
}

/// The orthogonal neighbours of a point inside the grid, in the order row
/// before, row after, column before, column after.
pub open spec fn spec_neighbours(points: int, idx: int) -> Seq<usize> {
    let row = grid_row(points, idx);
    let col = grid_col(points, idx);
    let up: Seq<usize> = if row > 0 {
        seq![(idx - points) as usize]
    } else {
        Seq::empty()
    };
    let down: Seq<usize> = if row + 1 < points {
        seq![(idx + points) as usize]
    } else {
        Seq::empty()
    };
    let left: Seq<usize> = if col > 0 {
        seq![(idx - 1) as usize]
    } else {
        Seq::empty()
    };
    let right: Seq<usize> = if col + 1 < points {
        seq![(idx + 1) as usize]
    } else {
        Seq::empty()
    };
    up + down + left + right
}

/// The orthogonal neighbours of grid point `idx` that lie inside the grid: the
/// points a smoothing brush averages.
pub fn grid_neighbours(points: usize, idx: usize) -> (neighbours: Vec<usize>)
    requires
        0 < points,
        idx < points * points,
        points * points <= usize::MAX,
    ensures
        neighbours@ == spec_neighbours(points as int, idx as int),
{
    let row = idx / points;
    let col = idx % points;
    proof {
        assert(idx == row * points + col) by (nonlinear_arith)
            requires
                row == idx / points,
                col == idx % points,
                points > 0,
        ;
        assert(row < points) by (nonlinear_arith)
            requires
                row == idx / points,
                idx < points * points,
                points > 0,
        ;
        assert((row + 1) * points <= points * points) by (nonlinear_arith)
            requires
                row < points,
                points > 0,
        ;
        assert(row > 0 ==> row * points >= points) by (nonlinear_arith)
            requires
                points > 0,
        ;
        assert(row + 1 < points ==> (row + 2) * points <= points * points) by (nonlinear_arith)
            requires
                points > 0,
        ;
        assert((row + 2) * points == row * points + 2 * points) by (nonlinear_arith);
    }
    let mut neighbours: Vec<usize> = Vec::new();
    if row > 0 {
        neighbours.push(idx - points);
    }
    if row + 1 < points {
        neighbours.push(idx + points);
    }
    if col > 0 {
        neighbours.push(idx - 1);
    }
    if col + 1 < points {
        neighbours.push(idx + 1);
    }
    assert(neighbours@ =~= spec_neighbours(points as int, idx as int));
    neighbours
}

/// Two grid points are orthogonal neighbours: one step apart along a row or
/// along a column.
pub open spec fn adjacent(points: int, a: int, b: int) -> bool {
    let (ra, ca) = (grid_row(points, a), grid_col(points, a));
    let (rb, cb) = (grid_row(points, b), grid_col(points, b));
    (ra == rb && (cb == ca + 1 || cb == ca - 1)) || (ca == cb && (rb == ra + 1 || rb == ra - 1))
}

/// Every neighbour a brush averages is a point of the grid one step away
/// along a row or a column, never across the grid's edge.
pub proof fn neighbours_are_adjacent_points_of_the_grid(points: int, idx: int, k: int)
    requires
        0 < points,
        points * points <= usize::MAX,
        0 <= idx < points * points,
        0 <= k < spec_neighbours(points, idx).len(),
    ensures
        0 <= spec_neighbours(points, idx)[k] < points * points,
        adjacent(points, idx, spec_neighbours(points, idx)[k] as int),
{
    let row = idx / points;
    let col = idx % points;
    vstd::arithmetic::div_mod::lemma_fundamental_div_mod(idx, points);
    assert(0 <= col < points) by {
        vstd::arithmetic::div_mod::lemma_mod_bound(idx, points);
    }
    assert(0 <= row < points) by (nonlinear_arith)
        requires
            idx == points * row + col,
            0 <= col < points,
            0 <= idx < points * points,
            points > 0,
    ;
    let up: Seq<usize> = if row > 0 {
        seq![(idx - points) as usize]
    } else {
        Seq::empty()
    };
    let down: Seq<usize> = if row + 1 < points {
        seq![(idx + points) as usize]
    } else {
        Seq::empty()
    };
    let left: Seq<usize> = if col > 0 {
        seq![(idx - 1) as usize]
    } else {
        Seq::empty()
    };
    let right: Seq<usize> = if col + 1 < points {
        seq![(idx + 1) as usize]
    } else {
        Seq::empty()
    };
    let all = spec_neighbours(points, idx);
    assert(all == up + down + left + right);
    assert(row > 0 ==> idx >= points) by (nonlinear_arith)
        requires
            idx == points * row + col,
            0 <= col,
            points > 0,
    ;
    assert(row + 1 < points ==> idx + points < points * points) by (nonlinear_arith)
        requires
            idx == points * row + col,
            0 <= col < points,
            points > 0,
    ;
    assert(col + 1 < points ==> idx + 1 < points * points) by (nonlinear_arith)
        requires
            idx == points * row + col,
            0 <= col < points,
            0 <= row < points,
            points > 0,
    ;
    let n = all[k] as int;
    assert((row > 0 && n == idx - points) || (row + 1 < points && n == idx + points) || (col > 0
        && n == idx - 1) || (col + 1 < points && n == idx + 1)) by {
        let a = up.len() as int;
        let b = a + down.len();
        let c = b + left.len();
        if k < a {
            assert(all[k] == up[k]);
        } else if k < b {
            assert(all[k] == down[k - a]);
        } else if k < c {
            assert(all[k] == left[k - b]);
        } else {
            assert(all[k] == right[k - c]);
        }
    }
    let (nr, nc) = if row > 0 && n == idx - points {
        (row - 1, col)
    } else if row + 1 < points && n == idx + points {
        (row + 1, col)
    } else if col > 0 && n == idx - 1 {
        (row, col - 1)
    } else {
        (row, col + 1)
    };
    assert(n == nr * points + nc && 0 <= nc < points && 0 <= nr < points) by (nonlinear_arith)
        requires
            idx == points * row + col,
            0 <= col < points,
            0 <= row < points,
            (nr == row - 1 && nc == col && row > 0 && n == idx - points) || (nr == row + 1 && nc
                == col && row + 1 < points && n == idx + points) || (nr == row && nc == col - 1
                && col > 0 && n == idx - 1) || (nr == row && nc == col + 1 && col + 1 < points && n
                == idx + 1),
    ;
    vstd::arithmetic::div_mod::lemma_fundamental_div_mod_converse(n, points, nr, nc);
    assert(0 <= n < points * points) by (nonlinear_arith)
        requires
            n == nr * points + nc,
            0 <= nc < points,
            0 <= nr < points,
    ;
}

/// Whether a saved grid has a usable shape: at least two points per side, and
/// exactly one height per point.
pub fn grid_shape_is_valid(points: usize, heights: usize) -> (valid: bool)
    requires
        points * points <= usize::MAX,
    ensures
        valid == (points >= 2 && heights == points * points),
{
    points >= 2 && heights == points * points
}

} // verus!
