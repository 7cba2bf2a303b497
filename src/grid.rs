//! The mathematical model of a universe: its dimensions and its buffer.
use vstd::prelude::*;

use crate::rules::{all_cell_values, next_generation};
use crate::text::rows_text;

verus! {

/// A grid as a value: `height` rows of `width` cells, stored row by row, the
/// cell at `(row, col)` at index `row * width + col`.
pub struct Grid {
    pub width: nat,
    pub height: nat,
    pub cells: Seq<u8>,
}

impl Grid {
    /// Both dimensions are positive, the cell count fits a `u32`, the buffer
    /// holds one byte per cell, and every byte is dead or alive.
    pub open spec fn wf(self) -> bool {
        &&& self.width > 0
        &&& self.height > 0
        &&& self.width * self.height <= u32::MAX
        &&& self.cells.len() == self.width * self.height
        &&& all_cell_values(self.cells)
    }

    /// The picture of the grid: `height` lines of `width` glyphs, each
    /// ended by a newline.
    pub open spec fn text(self) -> Seq<char> {
        rows_text(self.cells, self.width as int, self.height)
    }

    /// The grid one generation later.
    pub open spec fn advanced(self) -> Grid {
        Grid {
            width: self.width,
            height: self.height,
            cells: next_generation(self.cells, self.width as int, self.height as int),
        }
    }

    /// The grid `n` generations later.
    pub open spec fn after(self, n: nat) -> Grid
        decreases n,
    {
        if n == 0 {
            self
        } else {
            self.after((n - 1) as nat).advanced()
        }
    }
}

} // verus!
