//! Properties that relate the operations of the engine.
use vstd::prelude::*;

use crate::grid::Grid;
use crate::rules::is_cell_value;
use crate::text::{
    decoded, glyph, glyph_value, glyphs_of, row_text, rows_text, text_pos, ALIVE_GLYPH, DEAD_GLYPH,
};

verus! {

/// The text of the first `rows` rows has `rows` lines of `width + 1`
/// characters, with the glyph of `(r, c)` at `text_pos(width, r, c)`.
proof fn lemma_rows_text_layout(cells: Seq<u8>, width: int, rows: nat)
    requires
        width > 0,
        rows * width <= cells.len(),
    ensures
        rows_text(cells, width, rows).len() == rows * (width + 1),
        forall|r: int, c: int|
            0 <= r < rows && 0 <= c < width ==> #[trigger] rows_text(cells, width, rows)[text_pos(
                width,
                r,
                c,
            )] == glyph(cells[r * width + c]),
    decreases rows,
{
    if rows > 0 {
        let prev = (rows - 1) as nat;
        assert(prev * width <= rows * width) by (nonlinear_arith)
            requires
                prev + 1 == rows,
                width > 0,
        ;
        lemma_rows_text_layout(cells, width, prev);
        let a = rows_text(cells, width, prev);
        let t = rows_text(cells, width, rows);
        assert(rows * (width + 1) == prev * (width + 1) + width + 1) by (nonlinear_arith)
            requires
                prev + 1 == rows,
        ;
        assert forall|r: int, c: int| 0 <= r < rows && 0 <= c < width implies #[trigger] t[text_pos(
            width,
            r,
            c,
        )] == glyph(cells[r * width + c]) by {
            if r < prev {
                assert(text_pos(width, r, c) < prev * (width + 1)) by (nonlinear_arith)
                    requires
                        0 <= r < prev,
                        0 <= c < width,
                ;
                assert(t[text_pos(width, r, c)] == a[text_pos(width, r, c)]);
            } else {
                assert(text_pos(width, r, c) == a.len() + c);
                assert(r * width + c < cells.len()) by (nonlinear_arith)
                    requires
                        r == prev,
                        0 <= c < width,
                        rows * width <= cells.len(),
                        prev + 1 == rows,
                ;
            }
        }
    }
}

/// Rendering loses nothing: mapping each glyph of a grid's text back to its
/// cell byte, and skipping the line ends, gives back the buffer itself.
pub proof fn lemma_render_round_trip(g: Grid)
    requires
        g.wf(),
    ensures
        decoded(g.text(), g.width as int, g.height as int) == g.cells,
{
    let w = g.width as int;
    let h = g.height as int;
    assert(h * w == w * h) by (nonlinear_arith);
    lemma_rows_text_layout(g.cells, w, g.height);
    let d = decoded(g.text(), w, h);
    assert forall|i: int| 0 <= i < d.len() implies d[i] == g.cells[i] by {
        let r = i / w;
        let c = i % w;
        vstd::arithmetic::div_mod::lemma_fundamental_div_mod(i, w);
        assert(0 <= r < h) by (nonlinear_arith)
            requires
                i == w * r + c,
                0 <= c < w,
                0 <= i < w * h,
        ;
        assert(r * w + c == i) by (nonlinear_arith)
            requires
                i == w * r + c,
        ;
        assert(is_cell_value(g.cells[i]));
        assert(g.text()[text_pos(w, r, c)] == glyph(g.cells[r * w + c]));
    }
    assert(d =~= g.cells);
}

/// Taking the line ends out of a text that has none leaves it as it is.
proof fn lemma_glyphs_of_no_newline(s: Seq<char>)
    requires
        forall|i: int| 0 <= i < s.len() ==> s[i] != '\n',
    ensures
        glyphs_of(s) == s,
    decreases s.len(),
{
    if s.len() == 0 {
        reveal(Seq::filter);
    } else {
        lemma_glyphs_of_no_newline(s.drop_last());
        s.drop_last().lemma_filter_push(s.last(), |c: char| c != '\n');
        assert(s.drop_last().push(s.last()) =~= s);
    }
}

/// A line end alone has nothing left once line ends are taken out.
proof fn lemma_glyphs_of_newline()
    ensures
        glyphs_of(seq!['\n']).len() == 0,
{
    lemma_glyphs_of_no_newline(Seq::<char>::empty());
    Seq::<char>::empty().lemma_filter_push('\n', |c: char| c != '\n');
    assert(seq!['\n'] =~= Seq::<char>::empty().push('\n'));
}

/// The glyphs of the first `row` rows' cells, followed by row `row`, are the
/// glyphs of the first `row + 1` rows' cells.
proof fn lemma_glyphs_append_row(cells: Seq<u8>, width: int, row: nat)
    requires
        width > 0,
        (row + 1) * width <= cells.len(),
    ensures
        Seq::new((row * width) as nat, |i: int| glyph(cells[i])) + row_text(cells, width, row as int)
            == Seq::new(((row + 1) * width) as nat, |i: int| glyph(cells[i])),
{
    let k = row * width;
    assert((row + 1) * width == k + width) by (nonlinear_arith)
        requires
            k == row * width,
    ;
    assert(0 <= k) by (nonlinear_arith)
        requires
            k == row * width,
            width > 0,
    ;
    let front = Seq::new(k as nat, |i: int| glyph(cells[i]));
    let whole = Seq::new(((row + 1) * width) as nat, |i: int| glyph(cells[i]));
    let b = row_text(cells, width, row as int);
    assert forall|i: int| 0 <= i < whole.len() implies (front + b)[i] == whole[i] by {
        if i >= k {
            assert(b[i - k] == glyph(cells[k + (i - k)]));
        }
    }
    assert(front + b =~= whole);
}

/// The text of the first `rows` rows, line ends taken out, is the glyph of
/// each of the first `rows * width` cells in order.
proof fn lemma_glyphs_of_rows_text(cells: Seq<u8>, width: int, rows: nat)
    requires
        width > 0,
        rows * width <= cells.len(),
    ensures
        glyphs_of(rows_text(cells, width, rows)) == Seq::new(
            (rows * width) as nat,
            |i: int| glyph(cells[i]),
        ),
    decreases rows,
{
    let whole = Seq::new((rows * width) as nat, |i: int| glyph(cells[i]));
    if rows == 0 {
        lemma_glyphs_of_no_newline(Seq::<char>::empty());
        assert(whole =~= Seq::<char>::empty());
    } else {
        let prev = (rows - 1) as nat;
        let k = prev * width;
        assert(rows * width == k + width) by (nonlinear_arith)
            requires
                prev + 1 == rows,
                k == prev * width,
        ;
        lemma_glyphs_of_rows_text(cells, width, prev);
        let a = rows_text(cells, width, prev);
        let b = row_text(cells, width, prev as int);
        let nl = seq!['\n'];
        let front = Seq::new(k as nat, |i: int| glyph(cells[i]));
        assert(glyphs_of(a) == front);
        lemma_glyphs_of_no_newline(b);
        lemma_glyphs_of_newline();
        Seq::filter_distributes_over_add(a + b, nl, |c: char| c != '\n');
        Seq::filter_distributes_over_add(a, b, |c: char| c != '\n');
        assert(rows_text(cells, width, rows) == a + b + nl);
        assert(glyphs_of(rows_text(cells, width, rows)) =~= front + b);
        lemma_glyphs_append_row(cells, width, prev);
    }
}

/// Rendering loses nothing, read line by line: with the line ends taken out,
/// the text holds one glyph per cell, each dead or alive, and mapping each
/// glyph back to its cell byte gives back the buffer itself.
pub proof fn lemma_render_glyphs_round_trip(g: Grid)
    requires
        g.wf(),
    ensures
        glyphs_of(g.text()).len() == g.cells.len(),
        forall|i: int|
            0 <= i < glyphs_of(g.text()).len() ==> #[trigger] glyphs_of(g.text())[i] == DEAD_GLYPH
                || glyphs_of(g.text())[i] == ALIVE_GLYPH,
        glyphs_of(g.text()).map_values(|c: char| glyph_value(c)) == g.cells,
{
    let w = g.width as int;
    assert(g.height * w == g.cells.len()) by (nonlinear_arith)
        requires
            g.cells.len() == g.width * g.height,
            w == g.width,
    ;
    lemma_glyphs_of_rows_text(g.cells, w, g.height);
    let t = glyphs_of(g.text());
    assert forall|i: int| 0 <= i < t.len() implies t[i] == glyph(g.cells[i]) && is_cell_value(
        g.cells[i],
    ) by {
        assert(is_cell_value(g.cells[i]));
    }
    assert(t.map_values(|c: char| glyph_value(c)) =~= g.cells);
}

/// Advancing depends on the grid alone: two grids with the same dimensions
/// and the same buffer advance to the same grid, byte for byte.
pub proof fn lemma_advance_deterministic(a: Grid, b: Grid)
    requires
        a.width == b.width,
        a.height == b.height,
        a.cells == b.cells,
    ensures
        a.advanced() == b.advanced(),
{
}

/// Advancing keeps a grid well formed: the dimensions stay, the buffer keeps
/// one byte per cell, and every byte stays dead or alive.
pub proof fn lemma_advance_keeps_wf(g: Grid)
    requires
        g.wf(),
    ensures
        g.advanced().wf(),
        g.advanced().width == g.width,
        g.advanced().height == g.height,
{
    let n = g.advanced();
    assert forall|i: int| 0 <= i < n.cells.len() implies #[trigger] is_cell_value(n.cells[i]) by {
        assert(is_cell_value(g.cells[i]));
    }
}

/// Any number of generations keeps a grid well formed.
pub proof fn lemma_generations_keep_wf(g: Grid, n: nat)
    requires
        g.wf(),
    ensures
        g.after(n).wf(),
        g.after(n).width == g.width,
        g.after(n).height == g.height,
    decreases n,
{
    if n > 0 {
        lemma_generations_keep_wf(g, (n - 1) as nat);
        lemma_advance_keeps_wf(g.after((n - 1) as nat));
    }
}

} // verus!
