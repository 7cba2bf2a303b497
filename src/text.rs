//! The textual picture of a grid: one line per row, one glyph per cell.
use vstd::prelude::*;

use crate::rules::{ALIVE, DEAD};

verus! {

/// The glyph of a dead cell, `□`.
pub const DEAD_GLYPH: char = '\u{25A1}';

/// The glyph of an alive cell, `■`.
pub const ALIVE_GLYPH: char = '\u{25A0}';

/// The glyph drawn for a cell byte: only a dead byte draws as dead.
pub open spec fn glyph(v: u8) -> char {
    if v == DEAD {
        DEAD_GLYPH
    } else {
        ALIVE_GLYPH
    }
}

/// The cell byte that a glyph stands for.
pub open spec fn glyph_value(c: char) -> u8 {
    if c == ALIVE_GLYPH {
        ALIVE
    } else {
        DEAD
    }
}

/// The glyphs of row `row`, without its line end.
pub open spec fn row_text(cells: Seq<u8>, width: int, row: int) -> Seq<char> {
    Seq::new(width as nat, |c: int| glyph(cells[row * width + c]))
}

/// The first `rows` rows, each ended by a newline.
pub open spec fn rows_text(cells: Seq<u8>, width: int, rows: nat) -> Seq<char>
    decreases rows,
{
    if rows == 0 {
        Seq::empty()
    } else {
        rows_text(cells, width, (rows - 1) as nat) + row_text(cells, width, rows - 1) + seq!['\n']
    }
}

/// The characters of a text with its line ends taken out.
pub open spec fn glyphs_of(text: Seq<char>) -> Seq<char> {
    text.filter(|c: char| c != '\n')
}

/// Where the glyph of `(row, col)` stands in the text of rows of `width`
/// cells: each line holds `width` glyphs and a newline.
pub open spec fn text_pos(width: int, row: int, col: int) -> int {
    row * (width + 1) + col
}

/// The buffer that a text of `height` lines of `width` glyphs stands for:
/// each glyph mapped back to its cell byte, line ends skipped.
pub open spec fn decoded(text: Seq<char>, width: int, height: int) -> Seq<u8> {
    Seq::new(
        (width * height) as nat,
        |i: int| glyph_value(text[text_pos(width, i / width, i % width)]),
    )
}

} // verus!
