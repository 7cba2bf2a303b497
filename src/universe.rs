//! The automaton engine: a universe that owns its grid and advances it.
use vstd::prelude::*;

use vstd::string::StringExecFns;

use crate::grid::Grid;
use crate::laws::lemma_advance_keeps_wf;
use crate::rules::{
    delta, is_cell_value, neighbor_count, next_generation, next_state, partial_count, ALIVE, DEAD,
};
use crate::seed::{cells_from_draws, random_draws};
use crate::text::{glyph, row_text, rows_text};

verus! {

/// A universe of the Game of Life on a torus of `width` by `height` cells.
pub struct D2caUniverse {
    width: u32,
    height: u32,
    cells: Vec<u8>,
}

/// The name under which the engine is also known.
pub type Universe = D2caUniverse;

impl View for D2caUniverse {
    type V = Grid;

    closed spec fn view(&self) -> Grid {
        Grid { width: self.width as nat, height: self.height as nat, cells: self.cells@ }
    }
}

/// `row * width + col` indexes the buffer of a grid of `height` rows.
proof fn lemma_index_in_grid(row: int, col: int, width: int, height: int)
    requires
        0 <= row < height,
        0 <= col < width,
    ensures
        0 <= row * width + col < width * height,
{
    assert(row * width + col < width * height) by (nonlinear_arith)
        requires
            0 <= row < height,
            0 <= col < width,
    ;
    assert(0 <= row * width) by (nonlinear_arith)
        requires
            0 <= row,
            0 <= col < width,
    ;
}

/// The offset at position `k` of `[n - 1, 0, 1]`.
fn delta_at(n: u32, k: usize) -> (r: u32)
    requires
        n > 0,
        k < 3,
    ensures
        r as int == delta(n as int, k as int),
{
    if k == 0 {
        n - 1
    } else if k == 1 {
        0
    } else {
        1
    }
}

impl D2caUniverse {
    /// The universe is well formed: see `Grid::wf`.
    pub open spec fn wf(&self) -> bool {
        self@.wf()
    }

    /// The number of cells in a row.
    pub fn get_width(&self) -> (r: u32)
        ensures
            r == self@.width,
    {
        self.width
    }

    /// The number of rows.
    pub fn get_height(&self) -> (r: u32)
        ensures
            r == self@.height,
    {
        self.height
    }

    /// A read-only view of the buffer, row by row, one byte per cell. It is
    /// borrowed from the universe, so it cannot outlive the next `tick`.
    pub fn get_cells(&self) -> (r: &[u8])
        ensures
            r@ == self@.cells,
    {
        self.cells.as_slice()
    }

    /// A universe of `width` by `height` cells, each seeded dead or alive by
    /// a random draw from the operating system's entropy source, or `None`
    /// where that source fails.
    pub fn new(width: u32, height: u32) -> (r: Option<D2caUniverse>)
        requires
            width > 0,
            height > 0,
            width * height <= u32::MAX,
        ensures
            r matches Some(u) ==> u.wf() && u@.width == width && u@.height == height,
    {
        match random_draws((width * height) as usize) {
            Some(draws) => {
                let cells = cells_from_draws(&draws);
                Some(D2caUniverse { width, height, cells })
            },
            None => None,
        }
    }

    /// A universe with the given buffer, or `None` where the buffer does not
    /// make a well-formed grid of `width` by `height` cells.
    pub fn from_cells(width: u32, height: u32, cells: Vec<u8>) -> (r: Option<D2caUniverse>)
        ensures
            r is Some <==> (Grid { width: width as nat, height: height as nat, cells: cells@ }).wf(),
            r matches Some(u) ==> u@ == (Grid {
                width: width as nat,
                height: height as nat,
                cells: cells@,
            }),
    {
        proof {
            assert(width as u64 * height as u64 <= u64::MAX) by (nonlinear_arith)
                requires
                    width <= u32::MAX,
                    height <= u32::MAX,
            ;
        }
        if width == 0 || height == 0 || width as u64 * height as u64 > u32::MAX as u64 {
            return None;
        }
        if cells.len() != (width * height) as usize {
            return None;
        }
        let mut i: usize = 0;
        while i < cells.len()
            invariant
                i <= cells@.len(),
                forall|k: int| 0 <= k < i ==> #[trigger] is_cell_value(cells@[k]),
            decreases cells@.len() - i,
        {
            if cells[i] != DEAD && cells[i] != ALIVE {
                assert(!is_cell_value(cells@[i as int]));
                return None;
            }
            i += 1;
        }
        Some(D2caUniverse { width, height, cells })
    }

    /// The index in the buffer of the cell at `(row, col)`.
    fn get_index(&self, row: u32, col: u32) -> (r: usize)
        requires
            self.wf(),
            row < self@.height,
            col < self@.width,
        ensures
            r == row * self@.width + col,
            r < self@.cells.len(),
    {
        proof {
            lemma_index_in_grid(row as int, col as int, self.width as int, self.height as int);
        }
        (row * self.width + col) as usize
    }

    /// The number of live cells among the eight toroidal neighbours of
    /// `(row, col)`.
    fn live_neighbor_count(&self, row: u32, col: u32) -> (r: u8)
        requires
            self.wf(),
            row < self@.height,
            col < self@.width,
        ensures
            r as int == neighbor_count(
                self@.cells,
                self@.width as int,
                self@.height as int,
                row as int,
                col as int,
            ),
    {
        let ghost cells = self@.cells;
        let ghost w = self@.width as int;
        let ghost h = self@.height as int;
        let mut count: u8 = 0;
        let mut i: usize = 0;
        while i < 3
            invariant
                self.wf(),
                cells == self@.cells,
                w == self@.width,
                h == self@.height,
                row < h,
                col < w,
                i <= 3,
                count as int == partial_count(cells, w, h, row as int, col as int, (3 * i) as nat),
                count <= 3 * i,
            decreases 3 - i,
        {
            let delta_row = delta_at(self.height, i);
            let mut j: usize = 0;
            while j < 3
                invariant
                    self.wf(),
                    cells == self@.cells,
                    w == self@.width,
                    h == self@.height,
                    row < h,
                    col < w,
                    i < 3,
                    j <= 3,
                    delta_row as int == delta(h, i as int),
                    count as int == partial_count(
                        cells,
                        w,
                        h,
                        row as int,
                        col as int,
                        (3 * i + j) as nat,
                    ),
                    count <= 3 * i + j,
                decreases 3 - j,
            {
                let delta_col = delta_at(self.width, j);
                let ghost p = (3 * i + j) as int;
                assert(p / 3 == i && p % 3 == j);
                if !(delta_row == 0 && delta_col == 0) {
                    let neighbor_row = ((row as u64 + delta_row as u64) % self.height as u64) as u32;
                    let neighbor_col = ((col as u64 + delta_col as u64) % self.width as u64) as u32;
                    let idx = self.get_index(neighbor_row, neighbor_col);
                    assert(is_cell_value(cells[idx as int]));
                    count = count + self.cells[idx];
                }
                assert(count as int == partial_count(
                    cells,
                    w,
                    h,
                    row as int,
                    col as int,
                    (p + 1) as nat,
                ));
                j += 1;
            }
            i += 1;
        }
        count
    }

    /// Advances the universe by one generation. Every next state is computed
    /// from the current generation before the buffer is replaced.
    pub fn tick(&mut self)
        requires
            old(self).wf(),
        ensures
            final(self)@ == old(self)@.advanced(),
            final(self).wf(),
    {
        let ghost cells = self@.cells;
        let ghost w = self@.width as int;
        let ghost h = self@.height as int;
        let ghost gen = next_generation(cells, w, h);
        let mut next: Vec<u8> = Vec::with_capacity(self.cells.len());
        let mut row: u32 = 0;
        while row < self.height
            invariant
                self.wf(),
                cells == self@.cells,
                w == self@.width,
                h == self@.height,
                gen == next_generation(cells, w, h),
                row <= h,
                next@.len() == row * w,
                forall|k: int| 0 <= k < next@.len() ==> next@[k] == #[trigger] gen[k],
            decreases h - row,
        {
            let mut col: u32 = 0;
            while col < self.width
                invariant
                    self.wf(),
                    cells == self@.cells,
                    w == self@.width,
                    h == self@.height,
                    gen == next_generation(cells, w, h),
                    row < h,
                    col <= w,
                    next@.len() == row * w + col,
                    forall|k: int| 0 <= k < next@.len() ==> next@[k] == #[trigger] gen[k],
                decreases w - col,
            {
                let idx = self.get_index(row, col);
                let cell = self.cells[idx];
                let live_neighbors = self.live_neighbor_count(row, col);
                let next_cell = next_state(cell, live_neighbors);
                proof {
                    vstd::arithmetic::div_mod::lemma_fundamental_div_mod_converse(
                        idx as int,
                        w,
                        row as int,
                        col as int,
                    );
                }
                next.push(next_cell);
                assert(next@[idx as int] == gen[idx as int]);
                col += 1;
            }
            proof {
                assert((row + 1) * w == row * w + w) by (nonlinear_arith);
            }
            row += 1;
        }
        assert(next@.len() == gen.len()) by (nonlinear_arith)
            requires
                next@.len() == h * w,
                gen.len() == w * h,
        ;
        assert(next@ =~= gen);
        proof {
            lemma_advance_keeps_wf(self@);
        }
        self.cells = next;
    }

    /// The picture of the universe: one line per row, `□` for a dead cell
    /// and `■` for an alive one, each line ended by a newline.
    pub fn render(&self) -> (r: String)
        requires
            self.wf(),
        ensures
            r@ == self@.text(),
    {
        let ghost cells = self@.cells;
        let ghost w = self@.width as int;
        let mut text = String::new();
        let mut row: u32 = 0;
        while row < self.height
            invariant
                self.wf(),
                cells == self@.cells,
                w == self@.width,
                row <= self@.height,
                text@ == rows_text(cells, w, row as nat),
            decreases self@.height - row,
        {
            let mut col: u32 = 0;
            while col < self.width
                invariant
                    self.wf(),
                    cells == self@.cells,
                    w == self@.width,
                    row < self@.height,
                    col <= w,
                    text@ == rows_text(cells, w, row as nat) + row_text(cells, w, row as int).take(
                        col as int,
                    ),
                decreases w - col,
            {
                let idx = self.get_index(row, col);
                let ghost before = text@;
                if self.cells[idx] == DEAD {
                    text.append("\u{25A1}");
                    proof {
                        reveal_strlit("\u{25A1}");
                    }
                } else {
                    text.append("\u{25A0}");
                    proof {
                        reveal_strlit("\u{25A0}");
                    }
                }
                assert(text@ == before.push(glyph(cells[idx as int])));
                assert(row_text(cells, w, row as int).take(col + 1) =~= row_text(
                    cells,
                    w,
                    row as int,
                ).take(col as int).push(glyph(cells[idx as int])));
                col += 1;
            }
            assert(row_text(cells, w, row as int).take(w) =~= row_text(cells, w, row as int));
            text.append("\n");
            proof {
                reveal_strlit("\n");
            }
            assert(text@ =~= rows_text(cells, w, (row + 1) as nat));
            row += 1;
        }
        text
    }
}

} // verus!
