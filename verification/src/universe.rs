use vstd::prelude::*;
use crate::cell::Cell;
use crate::rules::{flat, live_neighbors, marked, pair_flat, seed_cell, step, weight_at};
use crate::rules::{lemma_flat_in_range, lemma_step_at, lemma_wrap_in_range};

verus! {

/// The glyph a cell renders as: a white square for `Dead`, a black
/// square for `Alive`.
pub open spec fn glyph(c: Cell) -> char {
    if c is Dead {
        '\u{25fb}'
    } else {
        '\u{25fc}'
    }
}

/// One rendered row of the grid, without its trailing newline.
pub open spec fn row_text(cells: Seq<Cell>, width: int, row: int) -> Seq<char> {
    Seq::new(width as nat, |col: int| glyph(cells[flat(width, row, col)]))
}

/// The first `nrows` rendered rows of the grid, each ending in a newline.
pub open spec fn rows_text(cells: Seq<Cell>, width: int, nrows: int) -> Seq<char>
    decreases nrows,
{
    if nrows <= 0 {
        Seq::empty()
    } else {
        rows_text(cells, width, nrows - 1) + row_text(cells, width, nrows - 1) + seq!['\n']
    }
}

/// The full textual snapshot of a grid: one line per row, one glyph per
/// cell, rows separated by newlines.
pub open spec fn render_text(cells: Seq<Cell>, width: int, height: int) -> Seq<char> {
    rows_text(cells, width, height)
}

/// The text a render produces is a function of the grid alone: two
/// snapshots of the same unmutated grid are the same text.
pub proof fn lemma_render_repeats(
    a: Seq<char>,
    b: Seq<char>,
    cells: Seq<Cell>,
    width: int,
    height: int,
)
    requires
        a == render_text(cells, width, height),
        b == render_text(cells, width, height),
    ensures
        a == b,
{
}

/// A toroidal grid of cells together with a same-sized scratch buffer.
///
/// `cells` holds the current generation, row-major; `swap` is scratch space
/// that `tick` writes the next generation into before exchanging the two
/// buffers, so that a step never reads a partially updated grid.
pub struct Universe {
    width: usize,
    height: usize,
    cells: Vec<Cell>,
    swap: Vec<Cell>,
}

impl Universe {
    /// The grid width in cells.
    pub closed spec fn spec_width(self) -> int {
        self.width as int
    }

    /// The grid height in cells.
    pub closed spec fn spec_height(self) -> int {
        self.height as int
    }

    /// The current generation, row-major.
    pub closed spec fn grid(self) -> Seq<Cell> {
        self.cells@
    }

    /// Well-formedness: positive dimensions whose product fits in `usize`,
    /// and both buffers of length width * height.
    pub closed spec fn wf(self) -> bool {
        &&& self.width >= 1
        &&& self.height >= 1
        &&& self.width * self.height <= usize::MAX
        &&& self.cells@.len() == self.width * self.height
        &&& self.swap@.len() == self.width * self.height
    }

    /// A universe of the default 128 x 128 size, seeded deterministically:
    /// the cell at flattened index `i` starts `Alive` exactly when `i` is
    /// even or divisible by 7.
    pub fn new() -> (u: Universe)
        ensures
            u.wf(),
            u.spec_width() == 128,
            u.spec_height() == 128,
            u.grid().len() == 128 * 128,
            forall|i: int| 0 <= i < u.grid().len() ==> u.grid()[i] == seed_cell(i),
    {
        let width: usize = 128;
        let height: usize = 128;
        let total: usize = width * height;

        let mut cells: Vec<Cell> = Vec::new();
        let mut i: usize = 0;
        while i < total
            invariant
                i <= total,
                cells@.len() == i,
                forall|k: int| 0 <= k < i ==> cells@[k] == seed_cell(k),
            decreases total - i,
        {
            let c = if i % 2 == 0 || i % 7 == 0 {
                Cell::Alive
            } else {
                Cell::Dead
            };
            cells.push(c);
            i += 1;
        }

        let swap = dead_buffer(total);
        Universe { width, height, cells, swap }
    }

    /// The grid width.
    pub fn width(&self) -> (w: usize)
        ensures
            w == self.spec_width(),
    {
        self.width
    }

    /// The grid height.
    pub fn height(&self) -> (h: usize)
        ensures
            h == self.spec_height(),
    {
        self.height
    }

    /// The flattened row-major index of the cell at (row, column).
    fn get_index(&self, row: usize, column: usize) -> (idx: usize)
        requires
            self.wf(),
            row < self.spec_height(),
            column < self.spec_width(),
        ensures
            idx == flat(self.spec_width(), row as int, column as int),
            idx < self.grid().len(),
    {
        proof {
            lemma_flat_in_range(self.spec_width(), self.spec_height(), row as int, column as int);
        }
        row * self.width + column
    }

    /// Reset both buffers to all-`Dead` at the current dimensions.
    pub fn reset_cells(&mut self)
        requires
            old(self).spec_width() >= 1,
            old(self).spec_height() >= 1,
            old(self).spec_width() * old(self).spec_height() <= usize::MAX,
        ensures
            final(self).wf(),
            final(self).spec_width() == old(self).spec_width(),
            final(self).spec_height() == old(self).spec_height(),
            final(self).grid().len() == final(self).spec_width() * final(self).spec_height(),
            forall|i: int| 0 <= i < final(self).grid().len() ==> final(self).grid()[i] is Dead,
    {
        let total: usize = self.width * self.height;
        self.cells = dead_buffer(total);
        self.swap = dead_buffer(total);
    }

    /// Set the grid width and reset every cell to `Dead`.
    pub fn set_width(&mut self, width: usize)
        requires
            old(self).spec_height() >= 1,
            width >= 1,
            width * old(self).spec_height() <= usize::MAX,
        ensures
            final(self).wf(),
            final(self).spec_width() == width,
            final(self).spec_height() == old(self).spec_height(),
            final(self).grid().len() == width * final(self).spec_height(),
            forall|i: int| 0 <= i < final(self).grid().len() ==> final(self).grid()[i] is Dead,
    {
        self.width = width;
        self.reset_cells();
    }

    /// Set the grid height and reset every cell to `Dead`.
    pub fn set_height(&mut self, height: usize)
        requires
            old(self).spec_width() >= 1,
            height >= 1,
            old(self).spec_width() * height <= usize::MAX,
        ensures
            final(self).wf(),
            final(self).spec_width() == old(self).spec_width(),
            final(self).spec_height() == height,
            final(self).grid().len() == final(self).spec_width() * height,
            forall|i: int| 0 <= i < final(self).grid().len() ==> final(self).grid()[i] is Dead,
    {
        self.height = height;
        self.reset_cells();
    }

    /// A read-only view of the current cell buffer, row-major, valid until
    /// the next mutating call.
    pub fn cells(&self) -> (buf: &Vec<Cell>)
        ensures
            buf@ == self.grid(),
    {
        &self.cells
    }

    /// The current cell buffer as a slice, row-major.
    pub fn get_cells(&self) -> (buf: &[Cell])
        ensures
            buf@ == self.grid(),
    {
        self.cells.as_slice()
    }

    /// Flip the cell at (row, column) between `Dead` and `Alive`.
    pub fn toggle_cell(&mut self, row: usize, column: usize)
        requires
            old(self).wf(),
            row < old(self).spec_height(),
            column < old(self).spec_width(),
        ensures
            final(self).wf(),
            final(self).spec_width() == old(self).spec_width(),
            final(self).spec_height() == old(self).spec_height(),
            final(self).grid() == old(self).grid().update(
                flat(old(self).spec_width(), row as int, column as int),
                old(self).grid()[flat(old(self).spec_width(), row as int, column as int)].flipped(),
            ),
    {
        let idx = self.get_index(row, column);
        let mut c = self.cells[idx];
        c.toggle();
        self.cells[idx] = c;
    }

    /// Set each cell named by a (row, column) pair to `Alive`, leaving
    /// every other cell untouched.
    pub fn set_cells(&mut self, cells: &[(usize, usize)])
        requires
            old(self).wf(),
            forall|j: int| 0 <= j < cells@.len() ==> (#[trigger] cells@[j]).0
                < old(self).spec_height() && cells@[j].1 < old(self).spec_width(),
        ensures
            final(self).wf(),
            final(self).spec_width() == old(self).spec_width(),
            final(self).spec_height() == old(self).spec_height(),
            final(self).grid().len() == old(self).grid().len(),
            forall|i: int| 0 <= i < final(self).grid().len() ==> final(self).grid()[i] == (
            if marked(cells@, old(self).spec_width(), i) {
                Cell::Alive
            } else {
                old(self).grid()[i]
            }),
    {
        let mut k: usize = 0;
        while k < cells.len()
            invariant
                old(self).wf(),
                self.wf(),
                k <= cells@.len(),
                self.width == old(self).width,
                self.height == old(self).height,
                self.swap == old(self).swap,
                self.grid().len() == old(self).grid().len(),
                forall|j: int| 0 <= j < cells@.len() ==> (#[trigger] cells@[j]).0
                    < old(self).spec_height() && cells@[j].1 < old(self).spec_width(),
                forall|i: int| 0 <= i < self.grid().len() ==> self.grid()[i] == (
                if marked(cells@.take(k as int), old(self).spec_width(), i) {
                    Cell::Alive
                } else {
                    old(self).grid()[i]
                }),
            decreases cells@.len() - k,
        {
            let (row, col) = cells[k];
            let idx = self.get_index(row, col);
            self.cells[idx] = Cell::Alive;
            proof {
                let w = old(self).spec_width();
                let prev = cells@.take(k as int);
                let cur = cells@.take(k as int + 1);
                assert(cur.drop_last() == prev);
                assert(cur.last() == cells@[k as int]);
                assert(pair_flat(cur, w, k as int) == idx);
                assert forall|i: int| 0 <= i < self.grid().len() implies self.grid()[i] == (
                if marked(cur, w, i) {
                    Cell::Alive
                } else {
                    old(self).grid()[i]
                }) by {
                    if i == idx {
                        assert(marked(cur, w, i));
                    } else {
                        if marked(cur, w, i) {
                            let j = choose|j: int|
                                0 <= j < cur.len() && pair_flat(cur, w, j) == i;
                            assert(pair_flat(prev, w, j) == i);
                            assert(marked(prev, w, i));
                        }
                        if marked(prev, w, i) {
                            let j = choose|j: int|
                                0 <= j < prev.len() && pair_flat(prev, w, j) == i;
                            assert(pair_flat(cur, w, j) == i);
                            assert(marked(cur, w, i));
                        }
                    }
                }
            }
            k += 1;
        }
        proof {
            assert(cells@.take(k as int) == cells@);
        }
    }

    /// A textual snapshot of the grid: one line per row, one glyph per
    /// cell, rows separated by newlines.
    pub fn render(&self) -> (text: String)
        requires
            self.wf(),
        ensures
            text@ == render_text(self.grid(), self.spec_width(), self.spec_height()),
    {
        let ghost w = self.spec_width();
        let ghost g = self.grid();
        let mut text = String::new();
        let mut row: usize = 0;
        while row < self.height
            invariant
                self.wf(),
                w == self.spec_width(),
                g == self.grid(),
                row <= self.spec_height(),
                text@ == rows_text(g, w, row as int),
            decreases self.spec_height() - row,
        {
            let mut col: usize = 0;
            while col < self.width
                invariant
                    self.wf(),
                    w == self.spec_width(),
                    g == self.grid(),
                    row < self.spec_height(),
                    col <= self.spec_width(),
                    text@ == rows_text(g, w, row as int) + row_text(g, w, row as int).take(
                        col as int,
                    ),
                decreases self.spec_width() - col,
            {
                let idx = self.get_index(row, col);
                let c = self.cells[idx];
                if c == Cell::Dead {
                    proof {
                        reveal_strlit("\u{25fb}");
                    }
                    text.append("\u{25fb}");
                } else {
                    proof {
                        reveal_strlit("\u{25fc}");
                    }
                    text.append("\u{25fc}");
                }
                proof {
                    assert(row_text(g, w, row as int).take(col as int + 1) =~= row_text(
                        g,
                        w,
                        row as int,
                    ).take(col as int) + seq![glyph(g[flat(w, row as int, col as int)])]);
                    assert(text@ =~= rows_text(g, w, row as int) + row_text(g, w, row as int).take(
                        col as int + 1,
                    ));
                }
                col += 1;
            }
            proof {
                reveal_strlit("\n");
            }
            text.append("\n");
            proof {
                assert(row_text(g, w, row as int).take(w) =~= row_text(g, w, row as int));
                assert(text@ =~= rows_text(g, w, row as int + 1));
            }
            row += 1;
        }
        text
    }

    /// The weight (0 or 1) of the cell at the in-range coordinate (row, col).
    fn cell_weight(&self, row: usize, col: usize) -> (n: u8)
        requires
            self.wf(),
            row < self.spec_height(),
            col < self.spec_width(),
        ensures
            n == weight_at(self.grid(), self.spec_width(), row as int, col as int),
            n <= 1,
    {
        let idx = self.get_index(row, col);
        self.cells[idx].as_count()
    }

    /// The number of live cells among the eight toroidal neighbors of
    /// (row, col), wrapping at the grid edges.
    #[verifier::rlimit(30)]
    fn live_neighbor_count(&self, row: usize, col: usize) -> (live: u8)
        requires
            self.wf(),
            row < self.spec_height(),
            col < self.spec_width(),
        ensures
            live == live_neighbors(
                self.grid(),
                self.spec_width(),
                self.spec_height(),
                row as int,
                col as int,
            ),
            live <= 8,
    {
        proof {
            lemma_wrap_in_range(row as int, self.spec_height());
            lemma_wrap_in_range(col as int, self.spec_width());
        }
        let north = if row == 0 {
            self.height - 1
        } else {
            row - 1
        };
        let south = if row == self.height - 1 {
            0
        } else {
            row + 1
        };
        let west = if col == 0 {
            self.width - 1
        } else {
            col - 1
        };
        let east = if col == self.width - 1 {
            0
        } else {
            col + 1
        };

        let mut live: u8 = 0;
        live = live + self.cell_weight(north, west);
        live = live + self.cell_weight(north, col);
        live = live + self.cell_weight(north, east);
        live = live + self.cell_weight(row, west);
        live = live + self.cell_weight(row, east);
        live = live + self.cell_weight(south, west);
        live = live + self.cell_weight(south, col);
        live = live + self.cell_weight(south, east);
        live
    }

    /// Advance the grid by one generation.
    ///
    /// Every next state is computed from the frozen snapshot of the current
    /// generation: the new states are written into the scratch buffer while
    /// the current buffer is only read, and the two buffers exchange roles
    /// once the whole grid has been recomputed.
    pub fn tick(&mut self)
        requires
            old(self).wf(),
        ensures
            final(self).wf(),
            final(self).spec_width() == old(self).spec_width(),
            final(self).spec_height() == old(self).spec_height(),
            final(self).grid() == step(
                old(self).grid(),
                old(self).spec_width(),
                old(self).spec_height(),
            ),
    {
        let ghost w = old(self).spec_width();
        let ghost h = old(self).spec_height();
        let ghost before = old(self).grid();
        let ghost next = step(before, w, h);

        let mut row: usize = 0;
        while row < self.height
            invariant
                self.wf(),
                row <= self.spec_height(),
                self.width == old(self).width,
                self.height == old(self).height,
                self.grid() == before,
                w == self.spec_width(),
                h == self.spec_height(),
                next == step(before, w, h),
                self.swap@.len() == self.grid().len(),
                forall|i: int| 0 <= i < row * w ==> self.swap@[i] == next[i],
            decreases self.spec_height() - row,
        {
            let mut col: usize = 0;
            while col < self.width
                invariant
                    self.wf(),
                    row < self.spec_height(),
                    col <= self.spec_width(),
                    self.width == old(self).width,
                    self.height == old(self).height,
                    self.grid() == before,
                    w == self.spec_width(),
                    h == self.spec_height(),
                    next == step(before, w, h),
                    self.swap@.len() == self.grid().len(),
                    forall|i: int| 0 <= i < row * w + col ==> self.swap@[i] == next[i],
                decreases self.spec_width() - col,
            {
                let idx = self.get_index(row, col);
                let cell = self.cells[idx];
                let live = self.live_neighbor_count(row, col);

                let next_cell = if live != 2 && live != 3 && cell == Cell::Alive {
                    Cell::Dead
                } else if live == 3 && cell == Cell::Dead {
                    Cell::Alive
                } else {
                    cell
                };

                proof {
                    lemma_step_at(before, w, h, row as int, col as int);
                    assert(next_cell == next[idx as int]);
                }
                self.swap[idx] = next_cell;
                col += 1;
            }
            proof {
                assert(row * w + w == (row + 1) * w) by (nonlinear_arith);
            }
            row += 1;
        }
        proof {
            assert(h * w == w * h) by (nonlinear_arith);
            assert(self.swap@ =~= next);
        }
        core::mem::swap(&mut self.cells, &mut self.swap);
    }
}

impl Default for Universe {
    /// The same universe `Universe::new` produces: the default 128 x 128
    /// grid with the deterministic seed.
    fn default() -> (u: Universe)
        ensures
            u.wf(),
            u.spec_width() == 128,
            u.spec_height() == 128,
            u.grid().len() == 128 * 128,
            forall|i: int| 0 <= i < u.grid().len() ==> u.grid()[i] == seed_cell(i),
    {
        Universe::new()
    }
}

/// A buffer of `len` `Dead` cells.
fn dead_buffer(len: usize) -> (v: Vec<Cell>)
    ensures
        v@.len() == len,
        forall|i: int| 0 <= i < len ==> v@[i] is Dead,
{
    let mut v: Vec<Cell> = Vec::new();
    let mut i: usize = 0;
    while i < len
        invariant
            i <= len,
            v@.len() == i,
            forall|k: int| 0 <= k < i ==> v@[k] is Dead,
        decreases len - i,
    {
        v.push(Cell::Dead);
        i += 1;
    }
    v
}

} // verus!
