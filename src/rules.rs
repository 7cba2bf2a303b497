//! The transition rule of one cell, and the neighbourhood it is counted over.
use vstd::prelude::*;

verus! {

/// The byte of a dead cell.
pub const DEAD: u8 = 0;

/// The byte of an alive cell.
pub const ALIVE: u8 = 1;

/// A cell byte produced by the engine: dead or alive, nothing else.
pub open spec fn is_cell_value(v: u8) -> bool {
    v == DEAD || v == ALIVE
}

/// Every byte of the buffer is a cell value.
pub open spec fn all_cell_values(cells: Seq<u8>) -> bool {
    forall|i: int| 0 <= i < cells.len() ==> #[trigger] is_cell_value(cells[i])
}

/// The next state of a cell in state `cell` with `n` live neighbours.
pub open spec fn next_cell(cell: u8, n: int) -> u8 {
    if cell == ALIVE {
        if n == 2 || n == 3 {
            ALIVE
        } else {
            DEAD
        }
    } else if cell == DEAD && n == 3 {
        ALIVE
    } else {
        cell
    }
}

/// Applies the rule: an alive cell survives with two or three live
/// neighbours, a dead cell comes alive with exactly three, and any other
/// byte is left as it is.
pub fn next_state(cell: u8, live_neighbors: u8) -> (r: u8)
    ensures
        r == next_cell(cell, live_neighbors as int),
{
    match (cell, live_neighbors) {
        (1, x) if x < 2 => 0,
        (1, 2) | (1, 3) => 1,
        (1, x) if x > 3 => 0,
        (0, 3) => 1,
        (otherwise, _) => otherwise,
    }
}

/// The offset at position `k` of the list `[n - 1, 0, 1]`: one step back,
/// none, one step forward, on an axis of length `n`.
pub open spec fn delta(n: int, k: int) -> int {
    if k == 0 {
        n - 1
    } else if k == 1 {
        0
    } else {
        1
    }
}

/// The byte of the cell at `(row, col)` of a row-major buffer of rows of
/// `width` cells.
pub open spec fn cell_at(cells: Seq<u8>, width: int, row: int, col: int) -> u8 {
    cells[row * width + col]
}

/// What the `p`-th of the nine offset pairs around `(row, col)` adds to the
/// neighbour count. Pair `p` combines row offset `p / 3` with column offset
/// `p % 3`; a pair whose two offsets are both zero is the cell itself and
/// adds nothing. Offsets wrap around the torus.
pub open spec fn neighbor_term(
    cells: Seq<u8>,
    width: int,
    height: int,
    row: int,
    col: int,
    p: int,
) -> int {
    let dr = delta(height, p / 3);
    let dc = delta(width, p % 3);
    if dr == 0 && dc == 0 {
        0
    } else {
        cell_at(cells, width, (row + dr) % height, (col + dc) % width) as int
    }
}

/// The sum of the first `n` neighbour terms.
pub open spec fn partial_count(
    cells: Seq<u8>,
    width: int,
    height: int,
    row: int,
    col: int,
    n: nat,
) -> int
    decreases n,
{
    if n == 0 {
        0
    } else {
        partial_count(cells, width, height, row, col, (n - 1) as nat) + neighbor_term(
            cells,
            width,
            height,
            row,
            col,
            n - 1,
        )
    }
}

/// The number of live cells among the eight toroidal neighbours of
/// `(row, col)`.
pub open spec fn neighbor_count(cells: Seq<u8>, width: int, height: int, row: int, col: int) -> int {
    partial_count(cells, width, height, row, col, 9)
}

/// The generation that follows `cells`: each cell goes by the rule, with its
/// neighbours counted in `cells` itself.
pub open spec fn next_generation(cells: Seq<u8>, width: int, height: int) -> Seq<u8> {
    Seq::new(
        cells.len(),
        |i: int| next_cell(cells[i], neighbor_count(cells, width, height, i / width, i % width)),
    )
}

} // verus!
