use vstd::prelude::*;
use vstd::arithmetic::div_mod::{lemma_fundamental_div_mod, lemma_fundamental_div_mod_converse, lemma_mod_bound};
use crate::cell::Cell;

verus! {

/// The neighboring index one step toward zero, wrapping to `n - 1` at the edge.
pub open spec fn wrap_dec(i: int, n: int) -> int {
    if i == 0 {
        n - 1
    } else {
        i - 1
    }
}

/// The neighboring index one step away from zero, wrapping to 0 at `n - 1`.
pub open spec fn wrap_inc(i: int, n: int) -> int {
    if i == n - 1 {
        0
    } else {
        i + 1
    }
}

/// The flattened row-major index of the cell at (row, col).
pub open spec fn flat(width: int, row: int, col: int) -> int {
    row * width + col
}

/// The weight (0 or 1) of the cell at (row, col) in a row-major buffer.
pub open spec fn weight_at(cells: Seq<Cell>, width: int, row: int, col: int) -> int {
    cells[flat(width, row, col)].weight()
}

/// The number of live cells among the eight toroidal neighbors of (row, col):
/// north, south, east, west and the four diagonals, wrapping at the edges.
pub open spec fn live_neighbors(
    cells: Seq<Cell>,
    width: int,
    height: int,
    row: int,
    col: int,
) -> int {
    let north = wrap_dec(row, height);
    let south = wrap_inc(row, height);
    let west = wrap_dec(col, width);
    let east = wrap_inc(col, width);
    weight_at(cells, width, north, west) + weight_at(cells, width, north, col) + weight_at(
        cells,
        width,
        north,
        east,
    ) + weight_at(cells, width, row, west) + weight_at(cells, width, row, east) + weight_at(
        cells,
        width,
        south,
        west,
    ) + weight_at(cells, width, south, col) + weight_at(cells, width, south, east)
}

/// Conway's rule: the state a cell takes in the next generation, given its
/// current state and its live-neighbor count.
///
/// An `Alive` cell with a count other than 2 or 3 dies; a `Dead` cell with a
/// count of exactly 3 comes alive; every other cell keeps its state.
pub open spec fn next_state(c: Cell, live: int) -> Cell {
    if c is Alive && live != 2 && live != 3 {
        Cell::Dead
    } else if c is Dead && live == 3 {
        Cell::Alive
    } else {
        c
    }
}

/// The whole next generation, each cell computed from the frozen snapshot
/// `cells` of the current generation.
pub open spec fn step(cells: Seq<Cell>, width: int, height: int) -> Seq<Cell> {
    Seq::new(
        (width * height) as nat,
        |i: int| next_state(cells[i], live_neighbors(cells, width, height, i / width, i % width)),
    )
}

/// The state the deterministic seed gives the cell at flattened index `i`:
/// `Alive` when `i` is even or divisible by 7, otherwise `Dead`.
pub open spec fn seed_cell(i: int) -> Cell {
    if i % 2 == 0 || i % 7 == 0 {
        Cell::Alive
    } else {
        Cell::Dead
    }
}

/// The flattened index that the pair at position `j` of `pairs` names.
pub open spec fn pair_flat(pairs: Seq<(usize, usize)>, width: int, j: int) -> int {
    flat(width, pairs[j].0 as int, pairs[j].1 as int)
}

/// Whether some (row, col) pair in `pairs` names the flattened index `i`.
pub open spec fn marked(pairs: Seq<(usize, usize)>, width: int, i: int) -> bool {
    exists|j: int| 0 <= j < pairs.len() && pair_flat(pairs, width, j) == i
}

/// Both wrapped coordinates stay inside the grid.
pub proof fn lemma_wrap_in_range(i: int, n: int)
    requires
        0 <= i < n,
    ensures
        0 <= wrap_dec(i, n) < n,
        0 <= wrap_inc(i, n) < n,
{
}

/// The row-major index of an in-range coordinate lies inside the buffer.
pub proof fn lemma_flat_in_range(width: int, height: int, row: int, col: int)
    requires
        0 <= row < height,
        0 <= col < width,
    ensures
        0 <= flat(width, row, col) < width * height,
{
    assert(0 <= row * width + col < width * height) by (nonlinear_arith)
        requires
            0 <= row < height,
            0 <= col < width,
    ;
}

/// Dividing an in-range flattened index by the width recovers in-range
/// coordinates that flatten back to it.
pub proof fn lemma_unflatten(width: int, height: int, i: int)
    requires
        1 <= width,
        0 <= i < width * height,
    ensures
        0 <= i / width < height,
        0 <= i % width < width,
        flat(width, i / width, i % width) == i,
{
    let q = i / width;
    let r = i % width;
    lemma_fundamental_div_mod(i, width);
    lemma_mod_bound(i, width);
    assert(0 <= q < height && q * width + r == i) by (nonlinear_arith)
        requires
            1 <= width,
            0 <= i < width * height,
            i == width * q + r,
            0 <= r < width,
    ;
}

/// Flattening in-range coordinates and then dividing by the width gives
/// the coordinates back.
pub proof fn lemma_flat_div_mod(width: int, row: int, col: int)
    requires
        1 <= width,
        0 <= row,
        0 <= col < width,
    ensures
        flat(width, row, col) / width == row,
        flat(width, row, col) % width == col,
{
    lemma_fundamental_div_mod_converse(flat(width, row, col), width, row, col);
}

/// What `step` holds at the index of each in-range coordinate.
pub proof fn lemma_step_at(cells: Seq<Cell>, width: int, height: int, row: int, col: int)
    requires
        0 <= row < height,
        0 <= col < width,
    ensures
        step(cells, width, height).len() == width * height,
        step(cells, width, height)[flat(width, row, col)] == next_state(
            cells[flat(width, row, col)],
            live_neighbors(cells, width, height, row, col),
        ),
{
    lemma_flat_in_range(width, height, row, col);
    lemma_flat_div_mod(width, row, col);
}

/// Toroidal wrap at the origin: the north-west neighbor of the cell at
/// (0, 0) is the cell in the last row and last column, so when that far
/// corner is `Alive` the origin's live-neighbor count is at least 1.
pub proof fn lemma_origin_counts_far_corner(cells: Seq<Cell>, width: int, height: int)
    requires
        1 <= width,
        1 <= height,
        cells[flat(width, height - 1, width - 1)] is Alive,
    ensures
        wrap_dec(0, height) == height - 1,
        wrap_dec(0, width) == width - 1,
        live_neighbors(cells, width, height, 0, 0) >= 1,
{
}

/// Toroidal wrap, sharpened: with at least three rows and three columns
/// the eight neighbors of the origin lie at eight distinct indexes, and
/// the far corner (height - 1, width - 1) is one of them — so setting
/// that corner `Alive` instead of `Dead` raises the origin's
/// live-neighbor count by exactly one.
pub proof fn lemma_far_corner_changes_origin_count(cells: Seq<Cell>, width: int, height: int)
    requires
        3 <= width,
        3 <= height,
        cells.len() == width * height,
    ensures
        live_neighbors(
            cells.update(flat(width, height - 1, width - 1), Cell::Alive),
            width,
            height,
            0,
            0,
        ) == live_neighbors(
            cells.update(flat(width, height - 1, width - 1), Cell::Dead),
            width,
            height,
            0,
            0,
        ) + 1,
{
    let corner = flat(width, height - 1, width - 1);
    lemma_flat_in_range(width, height, height - 1, width - 1);
    lemma_flat_div_mod(width, height - 1, width - 1);
    // The other seven neighbors of (0, 0) name a row other than height - 1
    // or a column other than width - 1, so their indexes differ from the
    // corner's: recovering the coordinates by division tells them apart.
    lemma_flat_div_mod(width, height - 1, 0);
    lemma_flat_div_mod(width, height - 1, 1);
    lemma_flat_div_mod(width, 0, width - 1);
    lemma_flat_div_mod(width, 0, 1);
    lemma_flat_div_mod(width, 1, width - 1);
    lemma_flat_div_mod(width, 1, 0);
    lemma_flat_div_mod(width, 1, 1);
    lemma_flat_in_range(width, height, height - 1, 0);
    lemma_flat_in_range(width, height, height - 1, 1);
    lemma_flat_in_range(width, height, 0, width - 1);
    lemma_flat_in_range(width, height, 0, 1);
    lemma_flat_in_range(width, height, 1, width - 1);
    lemma_flat_in_range(width, height, 1, 0);
    lemma_flat_in_range(width, height, 1, 1);
    let on = cells.update(corner, Cell::Alive);
    let off = cells.update(corner, Cell::Dead);
    assert(weight_at(on, width, height - 1, width - 1) == 1);
    assert(weight_at(off, width, height - 1, width - 1) == 0);
    assert(weight_at(on, width, height - 1, 0) == weight_at(off, width, height - 1, 0));
    assert(weight_at(on, width, height - 1, 1) == weight_at(off, width, height - 1, 1));
    assert(weight_at(on, width, 0, width - 1) == weight_at(off, width, 0, width - 1));
    assert(weight_at(on, width, 0, 1) == weight_at(off, width, 0, 1));
    assert(weight_at(on, width, 1, width - 1) == weight_at(off, width, 1, width - 1));
    assert(weight_at(on, width, 1, 0) == weight_at(off, width, 1, 0));
    assert(weight_at(on, width, 1, 1) == weight_at(off, width, 1, 1));
}

/// In an all-`Dead` grid, a cell at an in-range coordinate weighs nothing.
proof fn lemma_dead_grid_weight(cells: Seq<Cell>, width: int, height: int, row: int, col: int)
    requires
        cells.len() == width * height,
        forall|i: int| 0 <= i < cells.len() ==> cells[i] is Dead,
        0 <= row < height,
        0 <= col < width,
    ensures
        weight_at(cells, width, row, col) == 0,
{
    lemma_flat_in_range(width, height, row, col);
}

/// In an all-`Dead` grid every cell has zero live neighbors.
pub proof fn lemma_dead_grid_has_no_live_neighbors(
    cells: Seq<Cell>,
    width: int,
    height: int,
    row: int,
    col: int,
)
    requires
        cells.len() == width * height,
        forall|i: int| 0 <= i < cells.len() ==> cells[i] is Dead,
        0 <= row < height,
        0 <= col < width,
    ensures
        live_neighbors(cells, width, height, row, col) == 0,
{
    lemma_wrap_in_range(row, height);
    lemma_wrap_in_range(col, width);
    let north = wrap_dec(row, height);
    let south = wrap_inc(row, height);
    let west = wrap_dec(col, width);
    let east = wrap_inc(col, width);
    lemma_dead_grid_weight(cells, width, height, north, west);
    lemma_dead_grid_weight(cells, width, height, north, col);
    lemma_dead_grid_weight(cells, width, height, north, east);
    lemma_dead_grid_weight(cells, width, height, row, west);
    lemma_dead_grid_weight(cells, width, height, row, east);
    lemma_dead_grid_weight(cells, width, height, south, west);
    lemma_dead_grid_weight(cells, width, height, south, col);
    lemma_dead_grid_weight(cells, width, height, south, east);
}

/// Stability of the empty grid: an all-`Dead` grid is a fixed point of
/// `step` — every cell of the next generation is `Dead` again.
pub proof fn lemma_all_dead_stays_dead(cells: Seq<Cell>, width: int, height: int)
    requires
        1 <= width,
        1 <= height,
        cells.len() == width * height,
        forall|i: int| 0 <= i < cells.len() ==> cells[i] is Dead,
    ensures
        step(cells, width, height).len() == cells.len(),
        forall|i: int| 0 <= i < cells.len() ==> step(cells, width, height)[i] is Dead,
{
    assert forall|i: int| 0 <= i < cells.len() implies step(cells, width, height)[i] is Dead by {
        lemma_unflatten(width, height, i);
        lemma_dead_grid_has_no_live_neighbors(cells, width, height, i / width, i % width);
        assert(step(cells, width, height)[i] == next_state(
            cells[i],
            live_neighbors(cells, width, height, i / width, i % width),
        ));
    }
}

} // verus!
