//! Properties of the model that relate several operations of a board.

use crate::grid::{glyph, lemma_same_cells, lemma_wrap, wrap, Grid};
use vstd::prelude::*;

verus! {

/// Whether the live cells of `g` are exactly the two-by-two block whose
/// upper left corner is `(row, col)`.
pub open spec fn is_block(g: Grid, row: int, col: int) -> bool {
    forall|r: int, c: int|
        g.in_range(r, c) ==> (#[trigger] g.alive(r, c) <==> (r == row || r == wrap(
            row,
            1,
            g.height() as int,
        )) && (c == col || c == wrap(col, 1, g.width() as int)))
}

/// Whether the live cells of `g` are exactly the row of three centred on
/// `(row, col)`.
pub open spec fn is_horizontal_blinker(g: Grid, row: int, col: int) -> bool {
    forall|r: int, c: int|
        g.in_range(r, c) ==> (#[trigger] g.alive(r, c) <==> r == row && (c == wrap(
            col,
            -1,
            g.width() as int,
        ) || c == col || c == wrap(col, 1, g.width() as int)))
}

/// Whether the live cells of `g` are exactly the column of three centred on
/// `(row, col)`.
pub open spec fn is_vertical_blinker(g: Grid, row: int, col: int) -> bool {
    forall|r: int, c: int|
        g.in_range(r, c) ==> (#[trigger] g.alive(r, c) <==> c == col && (r == wrap(
            row,
            -1,
            g.height() as int,
        ) || r == row || r == wrap(row, 1, g.height() as int)))
}

/// A generation keeps the size of the board and its shape.
pub proof fn lemma_step_wf(g: Grid)
    requires
        g.wf(),
    ensures
        g.step().wf(),
        g.step().height() == g.height(),
        g.step().width() == g.width(),
{
}

/// The next generation depends on nothing but the cells: two boards of the
/// same size that agree on every cell have the same next generation.
pub proof fn lemma_step_deterministic(a: Grid, b: Grid)
    requires
        a.wf(),
        b.wf(),
        a.height() == b.height(),
        a.width() == b.width(),
        forall|r: int, c: int| a.in_range(r, c) ==> a.alive(r, c) == b.alive(r, c),
    ensures
        a.step() == b.step(),
{
    lemma_same_cells(a, b);
}

/// The board is a torus: the upper left cell has the lower right cell as its
/// diagonal neighbour, and counts it when it is alive.
pub proof fn lemma_corner_wraps(g: Grid)
    requires
        g.wf(),
    ensures
        g.neighbour(0, 0, -1, -1) == g.alive(g.height() - 1, g.width() - 1),
        g.alive(g.height() - 1, g.width() - 1) ==> g.live_neighbours(0, 0) >= 1,
{
    lemma_wrap(0, -1, g.height() as int);
    lemma_wrap(0, -1, g.width() as int);
}

/// A two-by-two block on a board of at least three rows and columns is a
/// still life: the next generation is the same board.
pub proof fn lemma_block_is_still(g: Grid, row: int, col: int)
    requires
        g.wf(),
        g.height() >= 3,
        g.width() >= 3,
        g.in_range(row, col),
        is_block(g, row, col),
    ensures
        g.step() == g,
{
    let h = g.height() as int;
    let w = g.width() as int;
    lemma_step_wf(g);
    lemma_wrap(row, 1, h);
    lemma_wrap(col, 1, w);
    assert forall|r: int, c: int| g.in_range(r, c) implies g.step().alive(r, c) == g.alive(
        r,
        c,
    ) by {
        lemma_wrap(r, -1, h);
        lemma_wrap(r, 0, h);
        lemma_wrap(r, 1, h);
        lemma_wrap(c, -1, w);
        lemma_wrap(c, 0, w);
        lemma_wrap(c, 1, w);
    }
    lemma_same_cells(g.step(), g);
}

/// A two-by-two block on a board of at least three rows and columns stays as
/// it is through any number of generations.
pub proof fn lemma_block_stays(g: Grid, row: int, col: int, n: nat)
    requires
        g.wf(),
        g.height() >= 3,
        g.width() >= 3,
        g.in_range(row, col),
        is_block(g, row, col),
    ensures
        g.step_n(n) == g,
    decreases n,
{
    if n > 0 {
        lemma_block_is_still(g, row, col);
        lemma_block_stays(g, row, col, (n - 1) as nat);
    }
}

/// A row of three on a board of at least five rows and columns becomes the
/// column of three through the same centre.
pub proof fn lemma_blinker_turns_upright(g: Grid, row: int, col: int)
    requires
        g.wf(),
        g.height() >= 5,
        g.width() >= 5,
        g.in_range(row, col),
        is_horizontal_blinker(g, row, col),
    ensures
        is_vertical_blinker(g.step(), row, col),
{
    let h = g.height() as int;
    let w = g.width() as int;
    lemma_step_wf(g);
    lemma_wrap(row, 1, h);
    lemma_wrap(row, -1, h);
    lemma_wrap(col, 1, w);
    lemma_wrap(col, -1, w);
    assert forall|r: int, c: int| g.step().in_range(r, c) implies (#[trigger] g.step().alive(r, c)
        <==> c == col && (r == wrap(row, -1, h) || r == row || r == wrap(row, 1, h))) by {
        lemma_wrap(r, -1, h);
        lemma_wrap(r, 0, h);
        lemma_wrap(r, 1, h);
        lemma_wrap(c, -1, w);
        lemma_wrap(c, 0, w);
        lemma_wrap(c, 1, w);
    }
}

/// A column of three on a board of at least five rows and columns becomes
/// the row of three through the same centre.
pub proof fn lemma_blinker_turns_flat(g: Grid, row: int, col: int)
    requires
        g.wf(),
        g.height() >= 5,
        g.width() >= 5,
        g.in_range(row, col),
        is_vertical_blinker(g, row, col),
    ensures
        is_horizontal_blinker(g.step(), row, col),
{
    let h = g.height() as int;
    let w = g.width() as int;
    lemma_step_wf(g);
    lemma_wrap(row, 1, h);
    lemma_wrap(row, -1, h);
    lemma_wrap(col, 1, w);
    lemma_wrap(col, -1, w);
    assert forall|r: int, c: int| g.step().in_range(r, c) implies (#[trigger] g.step().alive(r, c)
        <==> r == row && (c == wrap(col, -1, w) || c == col || c == wrap(col, 1, w))) by {
        lemma_wrap(r, -1, h);
        lemma_wrap(r, 0, h);
        lemma_wrap(r, 1, h);
        lemma_wrap(c, -1, w);
        lemma_wrap(c, 0, w);
        lemma_wrap(c, 1, w);
    }
}

/// A row of three on a board of at least five rows and columns is an
/// oscillator of period two: it is upright after one generation, so not
/// what it was, and itself again after two.
pub proof fn lemma_blinker_period_two(g: Grid, row: int, col: int)
    requires
        g.wf(),
        g.height() >= 5,
        g.width() >= 5,
        g.in_range(row, col),
        is_horizontal_blinker(g, row, col),
    ensures
        is_vertical_blinker(g.step_n(1), row, col),
        g.step_n(1) != g,
        g.step_n(2) == g,
{
    let h = g.height() as int;
    let w = g.width() as int;
    let once = g.step();
    let twice = once.step();
    lemma_step_wf(g);
    lemma_step_wf(once);
    lemma_blinker_turns_upright(g, row, col);
    lemma_blinker_turns_flat(once, row, col);
    reveal_with_fuel(Grid::step_n, 3);
    lemma_wrap(row, 1, h);
    lemma_wrap(col, 1, w);
    assert(once.alive(wrap(row, 1, h), col));
    assert(!g.alive(wrap(row, 1, h), col));
    assert forall|r: int, c: int| g.in_range(r, c) implies twice.alive(r, c) == g.alive(r, c) by {
        assert(twice.in_range(r, c));
    }
    lemma_same_cells(twice, g);
}

/// Flipping a cell keeps the size of the board and changes that cell only.
pub proof fn lemma_toggled(g: Grid, row: int, col: int)
    requires
        g.wf(),
        g.in_range(row, col),
    ensures
        g.toggled(row, col).wf(),
        g.toggled(row, col).height() == g.height(),
        g.toggled(row, col).width() == g.width(),
        forall|r: int, c: int|
            g.in_range(r, c) ==> #[trigger] g.toggled(row, col).alive(r, c) == (if r == row && c
                == col {
                !g.alive(r, c)
            } else {
                g.alive(r, c)
            }),
{
}

/// Flipping the same cell twice gives the board back.
pub proof fn lemma_toggle_twice(g: Grid, row: int, col: int)
    requires
        g.wf(),
        g.in_range(row, col),
    ensures
        g.toggled(row, col).toggled(row, col) == g,
{
    lemma_toggled(g, row, col);
    lemma_toggled(g.toggled(row, col), row, col);
    lemma_same_cells(g.toggled(row, col).toggled(row, col), g);
}

/// The length of the text of the first `n` rows: every row takes its cells
/// and two terminators, the last row one terminator less.
pub proof fn lemma_lines_len(g: Grid, n: nat)
    requires
        g.wf(),
        n <= g.height(),
    ensures
        g.lines(n).len() == n * (g.width() + 2) - (if n == g.height() { 1int } else { 0int }),
    decreases n,
{
    if n > 0 {
        lemma_lines_len(g, (n - 1) as nat);
        assert(n * (g.width() + 2) == (n - 1) * (g.width() + 2) + (g.width() + 2))
            by (nonlinear_arith);
    }
}

/// A longer prefix of the text starts with each shorter one.
pub proof fn lemma_lines_prefix(g: Grid, m: nat, n: nat)
    requires
        m <= n,
    ensures
        g.lines(m).len() <= g.lines(n).len(),
        g.lines(n).subrange(0, g.lines(m).len() as int) == g.lines(m),
    decreases n,
{
    if m < n {
        lemma_lines_prefix(g, m, (n - 1) as nat);
        assert(g.lines(n).subrange(0, g.lines(m).len() as int) =~= g.lines((n - 1) as nat).subrange(
            0,
            g.lines(m).len() as int,
        ));
    } else {
        assert(g.lines(n).subrange(0, g.lines(m).len() as int) =~= g.lines(m));
    }
}

/// The rendered text holds exactly `height` rows of exactly `width` glyphs:
/// row `row` starts at `row * (width + 2)`, shows the glyph of each of its
/// cells in order, and ends in a carriage return, which a line feed follows
/// on every row but the last. Nothing else is in the text.
pub proof fn lemma_render_layout(g: Grid, row: int)
    requires
        g.wf(),
        0 <= row < g.height(),
    ensures
        g.render().len() == g.height() * (g.width() + 2) - 1,
        0 <= row * (g.width() + 2),
        row * (g.width() + 2) + g.width() < g.render().len(),
        forall|c: int|
            0 <= c < g.width() ==> g.render()[row * (g.width() + 2) + c] == glyph(
                #[trigger] g.alive(row, c),
            ),
        g.render()[row * (g.width() + 2) + g.width()] == '\r',
        row + 1 < g.height() ==> g.render()[row * (g.width() + 2) + g.width() + 1] == '\n',
{
    let w = g.width() as int;
    let start = row * (w + 2);
    lemma_lines_len(g, g.height());
    lemma_lines_len(g, row as nat);
    lemma_lines_len(g, (row + 1) as nat);
    lemma_lines_prefix(g, (row + 1) as nat, g.height());
    assert((row + 1) * (w + 2) == row * (w + 2) + (w + 2)) by (nonlinear_arith);
    assert(0 <= row * (w + 2)) by (nonlinear_arith)
        requires
            0 <= row,
            0 <= w,
    ;
    let upto = g.lines((row + 1) as nat);
    assert(upto == g.lines(row as nat) + g.line(row));
    assert(g.lines(row as nat).len() == start);
    assert forall|k: int| 0 <= k < upto.len() implies g.render()[k] == upto[k] by {
        assert(g.render().subrange(0, upto.len() as int)[k] == g.render()[k]);
    }
    assert forall|k: int| 0 <= k < g.line(row).len() implies upto[start + k] == g.line(row)[k] by {
        assert(upto[start + k] == (g.lines(row as nat) + g.line(row))[start + k]);
    }
    assert forall|c: int| 0 <= c < w implies g.render()[start + c] == glyph(
        #[trigger] g.alive(row, c),
    ) by {
        assert(g.line(row)[c] == glyph(g.alive(row, c)));
    }
    assert(g.line(row)[w] == '\r');
    if row + 1 < g.height() {
        assert(g.line(row)[w + 1] == '\n');
    }
}

} // verus!
