//! The mathematical model of a board: a rectangle of cells on a torus.

use vstd::prelude::*;

verus! {

/// The glyph that stands for a live cell in rendered text.
pub const ALIVE_GLYPH: char = '\u{2B1C}';

/// The glyph that stands for a dead cell in rendered text.
pub const DEAD_GLYPH: char = '\u{2B1B}';

/// A board as a sequence of rows, each a sequence of cells; `true` is alive.
pub struct Grid {
    pub rows: Seq<Seq<bool>>,
}

/// The coordinate reached from `coord` by `delta` on a ring of `dim` places.
#[verifier::opaque]
pub open spec fn wrap(coord: int, delta: int, dim: int) -> int {
    (coord + delta + dim) % dim
}

/// One for a live cell, zero for a dead one.
pub open spec fn count(alive: bool) -> nat {
    if alive { 1 } else { 0 }
}

/// The transition rule: survival on two or three live neighbours, birth on
/// exactly three.
pub open spec fn next_state(alive: bool, neighbours: nat) -> bool {
    if alive {
        neighbours == 2 || neighbours == 3
    } else {
        neighbours == 3
    }
}

/// The glyph of a cell.
pub open spec fn glyph(alive: bool) -> char {
    if alive { ALIVE_GLYPH } else { DEAD_GLYPH }
}

impl Grid {
    pub open spec fn height(self) -> nat {
        self.rows.len()
    }

    pub open spec fn width(self) -> nat {
        if self.rows.len() == 0 { 0 } else { self.rows[0].len() }
    }

    /// At least one row and one column, and every row of the same width.
    pub open spec fn wf(self) -> bool {
        &&& self.height() >= 1
        &&& self.width() >= 1
        &&& forall|r: int| 0 <= r < self.height() ==> (#[trigger] self.rows[r]).len() == self.width()
    }

    pub open spec fn in_range(self, row: int, col: int) -> bool {
        0 <= row < self.height() && 0 <= col < self.width()
    }

    pub open spec fn alive(self, row: int, col: int) -> bool {
        self.rows[row][col]
    }

    /// The board of the given size on which `cell` decides each position.
    pub open spec fn from_fn(height: nat, width: nat, cell: spec_fn(int, int) -> bool) -> Grid {
        Grid { rows: Seq::new(height, |r: int| Seq::new(width, |c: int| cell(r, c))) }
    }

    /// The board of the given size with every cell in the same state.
    pub open spec fn uniform(height: nat, width: nat, alive: bool) -> Grid {
        Grid::from_fn(height, width, |r: int, c: int| alive)
    }

    /// The state of the neighbour of `(row, col)` in direction
    /// `(delta_row, delta_col)`, across the edges where need be.
    pub open spec fn neighbour(self, row: int, col: int, delta_row: int, delta_col: int) -> bool {
        self.alive(wrap(row, delta_row, self.height() as int), wrap(col, delta_col, self.width() as int))
    }

    /// How many of the eight neighbours of `(row, col)` are alive.
    pub open spec fn live_neighbours(self, row: int, col: int) -> nat {
        count(self.neighbour(row, col, -1, -1)) + count(self.neighbour(row, col, -1, 0))
            + count(self.neighbour(row, col, -1, 1)) + count(self.neighbour(row, col, 0, -1))
            + count(self.neighbour(row, col, 0, 1)) + count(self.neighbour(row, col, 1, -1))
            + count(self.neighbour(row, col, 1, 0)) + count(self.neighbour(row, col, 1, 1))
    }

    /// The next generation: every cell decided from this board alone.
    pub open spec fn step(self) -> Grid {
        Grid::from_fn(
            self.height(),
            self.width(),
            |r: int, c: int| next_state(self.alive(r, c), self.live_neighbours(r, c)),
        )
    }

    /// The board after `n` generations.
    pub open spec fn step_n(self, n: nat) -> Grid
        decreases n,
    {
        if n == 0 {
            self
        } else {
            self.step().step_n((n - 1) as nat)
        }
    }

    /// This board with the cell at `(row, col)` flipped.
    pub open spec fn toggled(self, row: int, col: int) -> Grid {
        Grid { rows: self.rows.update(row, self.rows[row].update(col, !self.rows[row][col])) }
    }

    /// The text of one row: a glyph per cell, a carriage return, and a line
    /// feed after every row but the last.
    pub open spec fn line(self, row: int) -> Seq<char> {
        let cells = Seq::new(self.width(), |c: int| glyph(self.alive(row, c))).push('\r');
        if row + 1 == self.height() { cells } else { cells.push('\n') }
    }

    /// The text of the first `n` rows.
    pub open spec fn lines(self, n: nat) -> Seq<char>
        decreases n,
    {
        if n == 0 {
            Seq::empty()
        } else {
            self.lines((n - 1) as nat) + self.line(n - 1)
        }
    }

    /// The text of the whole board.
    pub open spec fn render(self) -> Seq<char> {
        self.lines(self.height())
    }
}

/// On a ring, a step of at most one place either stays inside or lands on the
/// opposite end.
pub proof fn lemma_wrap(coord: int, delta: int, dim: int)
    requires
        0 <= coord < dim,
        -1 <= delta <= 1,
    ensures
        0 <= wrap(coord, delta, dim) < dim,
        wrap(coord, delta, dim) == if coord + delta < 0 {
            dim - 1
        } else if coord + delta >= dim {
            coord + delta - dim
        } else {
            coord + delta
        },
{
    reveal(wrap);
    let x = coord + delta + dim;
    if x < dim {
        vstd::arithmetic::div_mod::lemma_small_mod(x as nat, dim as nat);
    } else if x < 2 * dim {
        vstd::arithmetic::div_mod::lemma_small_mod((x - dim) as nat, dim as nat);
        vstd::arithmetic::div_mod::lemma_mod_add_multiples_vanish(x - dim, dim);
    } else {
        vstd::arithmetic::div_mod::lemma_small_mod(0, dim as nat);
        vstd::arithmetic::div_mod::lemma_mod_add_multiples_vanish(dim, dim);
        vstd::arithmetic::div_mod::lemma_mod_add_multiples_vanish(0, dim);
    }
}

/// Two boards of the same size that agree on every cell are the same board.
pub proof fn lemma_same_cells(a: Grid, b: Grid)
    requires
        a.wf(),
        b.wf(),
        a.height() == b.height(),
        a.width() == b.width(),
        forall|r: int, c: int| a.in_range(r, c) ==> a.alive(r, c) == b.alive(r, c),
    ensures
        a == b,
{
    assert forall|r: int| 0 <= r < a.height() implies a.rows[r] =~= b.rows[r] by {
        assert forall|c: int| 0 <= c < a.rows[r].len() implies a.rows[r][c] == b.rows[r][c] by {
            assert(a.in_range(r, c));
            assert(a.alive(r, c) == b.alive(r, c));
        }
    }
    assert(a.rows =~= b.rows);
}

} // verus!
