//! The executable board.

use crate::foreign::{bit_at, bits, cleared, push_char, random_ratio, set_bit};
use crate::grid::{count, glyph, lemma_wrap, next_state, wrap, Grid, ALIVE_GLYPH, DEAD_GLYPH};
use fixedbitset::FixedBitSet;
use vstd::prelude::*;

verus! {

/// What a board operation can refuse.
#[derive(Clone, Copy, Debug, PartialEq, Eq, Structural)]
pub enum GameError {
    /// A width or height of zero, or more cells than a `u32` can number.
    InvalidDimension,
    /// A density that is no probability: above one, or over a zero denominator.
    InvalidDensity,
    /// A position outside the board.
    OutOfRange,
}

/// The chance of a cell to start alive, as the ratio
/// `numerator / denominator`.
#[derive(Clone, Copy, Debug, PartialEq, Eq, Structural)]
pub struct Density {
    pub numerator: u32,
    pub denominator: u32,
}

impl Density {
    /// A ratio between zero and one.
    pub open spec fn valid(self) -> bool {
        self.denominator != 0 && self.numerator <= self.denominator
    }
}

/// Whether a board of this size can be built: both sides at least one, and
/// the number of cells within `u32`.
pub open spec fn valid_dimensions(width: u32, height: u32) -> bool {
    width >= 1 && height >= 1 && width * height <= u32::MAX
}

/// The cell at `(row, col)` of a board stored row after row.
pub open spec fn cell_at(cells: Seq<bool>, width: int, row: int, col: int) -> bool {
    cells[row * width + col]
}

/// A position of a board of the given size has a place in its flat storage.
pub proof fn lemma_index_bound(width: int, height: int, row: int, col: int)
    requires
        0 <= row < height,
        0 <= col < width,
    ensures
        0 <= row * width + col < width * height,
        row * width + col < (row + 1) * width,
{
    assert(row * width + width <= height * width) by (nonlinear_arith)
        requires
            0 <= row < height,
            0 <= width,
    ;
    assert(0 <= row * width) by (nonlinear_arith)
        requires
            0 <= row,
            0 <= width,
    ;
    assert((row + 1) * width == row * width + width) by (nonlinear_arith);
    assert(height * width == width * height) by (nonlinear_arith);
}

/// Two positions with the same place in the flat storage are the same.
pub proof fn lemma_index_injective(width: int, row: int, col: int, row2: int, col2: int)
    requires
        0 <= col < width,
        0 <= col2 < width,
        row * width + col == row2 * width + col2,
    ensures
        row == row2,
        col == col2,
{
    assert(row == row2) by (nonlinear_arith)
        requires
            0 <= col < width,
            0 <= col2 < width,
            row * width + col == row2 * width + col2,
    ;
}

/// A Game of Life board on a torus.
#[derive(Clone, Debug)]
pub struct Game {
    board: FixedBitSet,
    width: u32,
    height: u32,
}

impl View for Game {
    type V = Grid;

    closed spec fn view(&self) -> Grid {
        Grid::from_fn(
            self.height as nat,
            self.width as nat,
            |r: int, c: int| cell_at(bits(self.board), self.width as int, r, c),
        )
    }
}

impl Game {
    /// The board holds one bit per cell of a valid size.
    pub closed spec fn wf(&self) -> bool {
        &&& valid_dimensions(self.width, self.height)
        &&& bits(self.board).len() == self.width * self.height
    }

    /// A valid board has a well-formed model of a valid size.
    pub proof fn lemma_wf(&self)
        requires
            self.wf(),
        ensures
            self@.wf(),
            self@.width() <= u32::MAX,
            self@.height() <= u32::MAX,
            valid_dimensions(self@.width() as u32, self@.height() as u32),
    {
    }

    /// Checks a size and counts its cells.
    fn cell_count(width: u32, height: u32) -> (n: Option<usize>)
        ensures
            n.is_some() == valid_dimensions(width, height),
            n.is_some() ==> n.unwrap() == width * height,
    {
        if width == 0 || height == 0 {
            return None;
        }
        assert(width * height <= 0xFFFF_FFFF * 0xFFFF_FFFF) by (nonlinear_arith)
            requires
                width <= 0xFFFF_FFFF,
                height <= 0xFFFF_FFFF,
        ;
        let cells: u64 = (width as u64) * (height as u64);
        if cells > u32::MAX as u64 {
            None
        } else {
            Some(cells as usize)
        }
    }

    /// The place of `(row, column)` in the flat storage.
    fn get_index(&self, row: u32, column: u32) -> (index: usize)
        requires
            self.wf(),
            row < self.height,
            column < self.width,
        ensures
            index == row * self.width + column,
            index < bits(self.board).len(),
    {
        proof {
            lemma_index_bound(self.width as int, self.height as int, row as int, column as int);
        }
        ((row as u64) * (self.width as u64) + (column as u64)) as usize
    }

    /// The state of one cell of the board.
    fn cell(&self, row: u32, column: u32) -> (alive: bool)
        requires
            self.wf(),
            row < self.height,
            column < self.width,
        ensures
            alive == self@.alive(row as int, column as int),
    {
        let index: usize = self.get_index(row, column);
        bit_at(&self.board, index)
    }

    /// The number of columns.
    pub fn width(&self) -> (w: u32)
        requires
            self.wf(),
        ensures
            w == self@.width(),
            w >= 1,
    {
        self.width
    }

    /// The number of rows.
    pub fn height(&self) -> (h: u32)
        requires
            self.wf(),
        ensures
            h == self@.height(),
            h >= 1,
    {
        self.height
    }

    /// A board of the given size with every cell dead.
    pub fn blank(width: u32, height: u32) -> (r: Result<Game, GameError>)
        ensures
            valid_dimensions(width, height) ==> r.is_ok(),
            !valid_dimensions(width, height) ==> r == Err::<Game, GameError>(
                GameError::InvalidDimension,
            ),
            r.is_ok() ==> r.unwrap().wf() && r.unwrap()@ == Grid::uniform(
                height as nat,
                width as nat,
                false,
            ),
    {
        match Self::cell_count(width, height) {
            None => Err(GameError::InvalidDimension),
            Some(size) => {
                let game = Game { board: cleared(size), width, height };
                proof {
                    assert forall|r: int, c: int| 0 <= r < height && 0 <= c < width implies cell_at(
                        bits(game.board),
                        width as int,
                        r,
                        c,
                    ) == false by {
                        lemma_index_bound(width as int, height as int, r, c);
                    }
                    assert(game@.rows =~~= Grid::uniform(height as nat, width as nat, false).rows);
                }
                Ok(game)
            },
        }
    }

    /// A board of the given size whose cells are given row after row.
    ///
    /// The size must be valid and `cells` must hold exactly one state per
    /// cell; otherwise the dimensions are refused.
    pub fn from_cells(width: u32, height: u32, cells: &Vec<bool>) -> (r: Result<Game, GameError>)
        ensures
            valid_dimensions(width, height) && cells@.len() == width * height ==> r.is_ok(),
            !(valid_dimensions(width, height) && cells@.len() == width * height) ==> r == Err::<
                Game,
                GameError,
            >(GameError::InvalidDimension),
            r.is_ok() ==> r.unwrap().wf() && r.unwrap()@ == Grid::from_fn(
                height as nat,
                width as nat,
                |row: int, col: int| cell_at(cells@, width as int, row, col),
            ),
    {
        match Self::cell_count(width, height) {
            None => Err(GameError::InvalidDimension),
            Some(size) => {
                if cells.len() != size {
                    return Err(GameError::InvalidDimension);
                }
                let mut board = cleared(size);
                let mut i: usize = 0;
                while i < size
                    invariant
                        i <= size,
                        size == cells@.len(),
                        bits(board).len() == size,
                        forall|k: int| 0 <= k < i ==> bits(board)[k] == cells@[k],
                    decreases size - i,
                {
                    set_bit(&mut board, i, cells[i]);
                    i += 1;
                }
                let game = Game { board, width, height };
                proof {
                    let target = Grid::from_fn(
                        height as nat,
                        width as nat,
                        |row: int, col: int| cell_at(cells@, width as int, row, col),
                    );
                    assert forall|r: int, c: int| 0 <= r < height && 0 <= c < width implies cell_at(
                        bits(game.board),
                        width as int,
                        r,
                        c,
                    ) == cell_at(cells@, width as int, r, c) by {
                        lemma_index_bound(width as int, height as int, r, c);
                    }
                    assert(game@.rows =~~= target.rows);
                }
                Ok(game)
            },
        }
    }

    /// One draw per cell, in the order of the flat storage: each `true` with
    /// the chance `density`.
    fn draw_cells(size: usize, density: Density) -> (cells: Vec<bool>)
        requires
            density.valid(),
        ensures
            cells@.len() == size,
            density.numerator == 0 ==> forall|k: int| 0 <= k < size ==> !cells@[k],
            density.numerator == density.denominator ==> forall|k: int|
                0 <= k < size ==> cells@[k],
    {
        let mut cells: Vec<bool> = Vec::new();
        let mut i: usize = 0;
        while i < size
            invariant
                i <= size,
                density.valid(),
                cells@.len() == i,
                density.numerator == 0 ==> forall|k: int| 0 <= k < i ==> !cells@[k],
                density.numerator == density.denominator ==> forall|k: int|
                    0 <= k < i ==> cells@[k],
            decreases size - i,
        {
            let alive = random_ratio(density.numerator, density.denominator);
            cells.push(alive);
            i += 1;
        }
        cells
    }

    /// A board of the given size on which every cell is alive with the
    /// chance `density`, each decided on its own: one draw per cell, placed
    /// row after row as `from_cells` places them.
    ///
    /// Which cells live is left to chance, except at the two ends: a
    /// density of zero gives a dead board, a density of one a live one.
    pub fn new(width: u32, height: u32, density: Density) -> (r: Result<Game, GameError>)
        ensures
            !valid_dimensions(width, height) ==> r == Err::<Game, GameError>(
                GameError::InvalidDimension,
            ),
            valid_dimensions(width, height) && !density.valid() ==> r == Err::<Game, GameError>(
                GameError::InvalidDensity,
            ),
            valid_dimensions(width, height) && density.valid() ==> r.is_ok(),
            r.is_ok() ==> r.unwrap().wf() && r.unwrap()@.wf() && r.unwrap()@.height() == height
                && r.unwrap()@.width() == width,
            r.is_ok() && density.numerator == 0 ==> r.unwrap()@ == Grid::uniform(
                height as nat,
                width as nat,
                false,
            ),
            r.is_ok() && density.numerator == density.denominator ==> r.unwrap()@ == Grid::uniform(
                height as nat,
                width as nat,
                true,
            ),
    {
        match Self::cell_count(width, height) {
            None => Err(GameError::InvalidDimension),
            Some(size) => {
                if density.denominator == 0 || density.numerator > density.denominator {
                    return Err(GameError::InvalidDensity);
                }
                let cells = Self::draw_cells(size, density);
                let r = Self::from_cells(width, height, &cells);
                proof {
                    let game = r.unwrap();
                    game.lemma_wf();
                    assert forall|row: int, col: int|
                        0 <= row < height && 0 <= col < width implies (density.numerator == 0
                        ==> !cell_at(cells@, width as int, row, col)) && (density.numerator
                        == density.denominator ==> cell_at(cells@, width as int, row, col)) by {
                        lemma_index_bound(width as int, height as int, row, col);
                    }
                    if density.numerator == 0 {
                        assert(game@.rows =~~= Grid::uniform(height as nat, width as nat, false).rows);
                    }
                    if density.numerator == density.denominator {
                        assert(game@.rows =~~= Grid::uniform(height as nat, width as nat, true).rows);
                    }
                }
                r
            },
        }
    }

    /// The state of the cell at `(row, col)`: `true` for alive.
    pub fn get(&self, row: u32, col: u32) -> (r: Result<bool, GameError>)
        requires
            self.wf(),
        ensures
            self@.in_range(row as int, col as int) ==> r == Ok::<bool, GameError>(
                self@.alive(row as int, col as int),
            ),
            !self@.in_range(row as int, col as int) ==> r == Err::<bool, GameError>(
                GameError::OutOfRange,
            ),
    {
        if row >= self.height || col >= self.width {
            return Err(GameError::OutOfRange);
        }
        Ok(self.cell(row, col))
    }

    /// Flips the cell at `(row, col)`. A position outside the board is
    /// reported and changes nothing.
    pub fn toggle(&mut self, row: u32, col: u32) -> (r: Result<(), GameError>)
        requires
            old(self).wf(),
        ensures
            final(self).wf(),
            old(self)@.in_range(row as int, col as int) ==> r.is_ok() && final(self)@ == old(
                self,
            )@.toggled(row as int, col as int),
            !old(self)@.in_range(row as int, col as int) ==> r == Err::<(), GameError>(
                GameError::OutOfRange,
            ) && final(self)@ == old(self)@,
    {
        if row >= self.height || col >= self.width {
            return Err(GameError::OutOfRange);
        }
        let index: usize = self.get_index(row, col);
        let alive = bit_at(&self.board, index);
        let ghost before = bits(self.board);
        set_bit(&mut self.board, index, !alive);
        proof {
            let w = self.width as int;
            assert forall|r: int, c: int| 0 <= r < self.height && 0 <= c < self.width implies cell_at(
                bits(self.board),
                w,
                r,
                c,
            ) == (if r == row && c == col {
                !alive
            } else {
                cell_at(before, w, r, c)
            }) by {
                lemma_index_bound(w, self.height as int, r, c);
                if r * w + c == index {
                    lemma_index_injective(w, r, c, row as int, col as int);
                }
            }
            assert(self@.rows =~~= old(self)@.toggled(row as int, col as int).rows);
        }
        Ok(())
    }

    /// How many of the eight neighbours of `(row, column)` are alive, across
    /// the edges of the board where need be.
    pub fn live_neighbour_count(&self, row: u32, column: u32) -> (n: u8)
        requires
            self.wf(),
            self@.in_range(row as int, column as int),
        ensures
            n == self@.live_neighbours(row as int, column as int),
            n <= 8,
    {
        proof {
            lemma_wrap(row as int, 0, self.height as int);
            lemma_wrap(column as int, 0, self.width as int);
        }
        let up: u32 = ring_before(row, self.height);
        let down: u32 = ring_after(row, self.height);
        let left: u32 = ring_before(column, self.width);
        let right: u32 = ring_after(column, self.width);
        let above: u8 = one_if(self.cell(up, left)) + one_if(self.cell(up, column)) + one_if(
            self.cell(up, right),
        );
        let beside: u8 = one_if(self.cell(row, left)) + one_if(self.cell(row, right));
        let below: u8 = one_if(self.cell(down, left)) + one_if(self.cell(down, column)) + one_if(
            self.cell(down, right),
        );
        above + beside + below
    }

    /// Replaces the board by its next generation. Every cell is decided from
    /// the board as it was before the call:
    ///
    /// - a live cell with fewer than 2 or more than 3 live neighbours dies;
    /// - a dead cell with exactly 3 live neighbours comes to life.
    pub fn tick(&mut self)
        requires
            old(self).wf(),
        ensures
            final(self).wf(),
            final(self)@ == old(self)@.step(),
    {
        let mut next = self.board.clone();
        let ghost w = self.width as int;
        let ghost now = self@;
        let mut row: u32 = 0;
        while row < self.height
            invariant
                *self == *old(self),
                self.wf(),
                now == self@,
                w == self.width,
                row <= self.height,
                bits(next).len() == bits(self.board).len(),
                forall|r: int, c: int|
                    0 <= r < row && 0 <= c < w ==> #[trigger] cell_at(bits(next), w, r, c)
                        == now.step().alive(r, c),
            decreases self.height - row,
        {
            let mut col: u32 = 0;
            while col < self.width
                invariant
                    *self == *old(self),
                    self.wf(),
                    now == self@,
                    w == self.width,
                    row < self.height,
                    col <= self.width,
                    bits(next).len() == bits(self.board).len(),
                    forall|r: int, c: int|
                        (0 <= r < row && 0 <= c < w) || (r == row && 0 <= c < col)
                            ==> #[trigger] cell_at(bits(next), w, r, c) == now.step().alive(r, c),
                decreases self.width - col,
            {
                let index: usize = self.get_index(row, col);
                let cell = bit_at(&self.board, index);
                let live_neighbour_count: u8 = self.live_neighbour_count(row, col);
                let ghost before = bits(next);
                set_bit(&mut next, index, survives(cell, live_neighbour_count));
                proof {
                    assert forall|r: int, c: int|
                        (0 <= r < row && 0 <= c < w) || (r == row && 0 <= c < col + 1)
                    implies #[trigger] cell_at(bits(next), w, r, c) == now.step().alive(r, c) by {
                        lemma_index_bound(w, self.height as int, r, c);
                        if r * w + c == index {
                            lemma_index_injective(w, r, c, row as int, col as int);
                        } else {
                            assert(cell_at(bits(next), w, r, c) == cell_at(before, w, r, c));
                        }
                    }
                }
                col += 1;
            }
            row += 1;
        }
        self.board = next;
        proof {
            assert(self@.rows =~~= now.step().rows);
        }
    }

    /// The board as text: one glyph per cell, `ALIVE_GLYPH` or
    /// `DEAD_GLYPH`, a carriage return at the end of every row, and a line
    /// feed between rows.
    pub fn render(&self) -> (text: String)
        requires
            self.wf(),
        ensures
            text@ == self@.render(),
    {
        let mut text = String::new();
        let mut row: u32 = 0;
        while row < self.height
            invariant
                self.wf(),
                row <= self.height,
                text@ == self@.lines(row as nat),
            decreases self.height - row,
        {
            let ghost before = text@;
            let mut col: u32 = 0;
            while col < self.width
                invariant
                    self.wf(),
                    row < self.height,
                    col <= self.width,
                    text@ == before + Seq::new(
                        col as nat,
                        |c: int| glyph(self@.alive(row as int, c)),
                    ),
                decreases self.width - col,
            {
                let symbol = if self.cell(row, col) {
                    ALIVE_GLYPH
                } else {
                    DEAD_GLYPH
                };
                push_char(&mut text, symbol);
                col += 1;
                assert(text@ =~= before + Seq::new(
                    col as nat,
                    |c: int| glyph(self@.alive(row as int, c)),
                ));
            }
            push_char(&mut text, '\r');
            if row != self.height - 1 {
                push_char(&mut text, '\n');
            }
            assert(text@ =~= before + self@.line(row as int));
            row += 1;
        }
        text
    }
}

/// One for `true`, zero for `false`.
fn one_if(alive: bool) -> (n: u8)
    ensures
        n == count(alive),
{
    if alive {
        1
    } else {
        0
    }
}

/// The transition rule on one cell and the number of its live neighbours.
pub fn survives(alive: bool, live_neighbours: u8) -> (next: bool)
    ensures
        next == next_state(alive, live_neighbours as nat),
{
    if live_neighbours < 2 || live_neighbours > 3 {
        false
    } else if live_neighbours == 3 {
        true
    } else {
        alive
    }
}

/// The place before `coord` on a ring of `dim` places.
fn ring_before(coord: u32, dim: u32) -> (r: u32)
    requires
        coord < dim,
    ensures
        r < dim,
        r == wrap(coord as int, -1, dim as int),
{
    proof {
        reveal(wrap);
        lemma_wrap(coord as int, -1, dim as int);
    }
    (((coord as u64) + ((dim - 1) as u64)) % (dim as u64)) as u32
}

/// The place after `coord` on a ring of `dim` places.
fn ring_after(coord: u32, dim: u32) -> (r: u32)
    requires
        coord < dim,
    ensures
        r < dim,
        r == wrap(coord as int, 1, dim as int),
{
    proof {
        reveal(wrap);
        lemma_wrap(coord as int, 1, dim as int);
        vstd::arithmetic::div_mod::lemma_mod_add_multiples_vanish(coord + 1, dim as int);
    }
    (((coord as u64) + 1) % (dim as u64)) as u32
}

} // verus!
