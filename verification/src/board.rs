//! The mathematical model: a rectangle of cells that wraps at its borders.

use crate::game_of_life::{Cell, Point};
use vstd::prelude::*;

verus! {

/// A generation of the game: `height` rows of `width` cells each, where
/// `rows[y][x]` tells whether the cell in column `x` of row `y` is alive.
#[verifier::ext_equal]
pub struct Board {
    pub width: nat,
    pub height: nat,
    pub rows: Seq<Seq<bool>>,
}

impl Board {
    /// The rows form a `width` by `height` rectangle.
    pub open spec fn wf(self) -> bool {
        &&& self.rows.len() == self.height
        &&& forall|y: int| 0 <= y < self.height ==> (#[trigger] self.rows[y]).len() == self.width
    }

    /// `(x, y)` names a cell of the board.
    pub open spec fn contains(self, x: int, y: int) -> bool {
        0 <= x < self.width && 0 <= y < self.height
    }

    /// The cell at `(x, y)` exists and is alive.
    pub open spec fn alive(self, x: int, y: int) -> bool {
        self.contains(x, y) && self.rows[y][x]
    }

    /// The board of the given size on which every cell is dead.
    pub open spec fn dead(width: nat, height: nat) -> Board {
        Board { width, height, rows: Seq::new(height, |y: int| Seq::new(width, |x: int| false)) }
    }

    /// No cell of the board is alive.
    pub open spec fn all_dead(self) -> bool {
        forall|x: int, y: int| !self.alive(x, y)
    }

    /// The board with the cell at `(x, y)` made alive. A coordinate outside
    /// the board changes nothing.
    pub open spec fn with_alive(self, x: int, y: int) -> Board {
        if self.contains(x, y) {
            Board { rows: self.rows.update(y, self.rows[y].update(x, true)), ..self }
        } else {
            self
        }
    }

    /// The board after making the cells at `points` alive, first to last.
    pub open spec fn seeded(self, points: Seq<Point>) -> Board
        decreases points.len(),
    {
        if points.len() == 0 {
            self
        } else {
            self.seeded(points.drop_last()).with_alive(
                points.last().x as int,
                points.last().y as int,
            )
        }
    }

    /// The column that `x` wraps to: the first column follows the last.
    pub open spec fn wrap_x(self, x: int) -> int {
        x % (self.width as int)
    }

    /// The row that `y` wraps to: the first row follows the last.
    pub open spec fn wrap_y(self, y: int) -> int {
        y % (self.height as int)
    }

    /// 1 if the cell that `(x, y)` wraps to is alive, otherwise 0.
    pub open spec fn lit(self, x: int, y: int) -> nat {
        if self.alive(self.wrap_x(x), self.wrap_y(y)) {
            1
        } else {
            0
        }
    }

    /// How many of the eight cells around `(x, y)` are alive. The board has
    /// no edge: each of the eight positions wraps to a cell of the board.
    pub open spec fn neighbors(self, x: int, y: int) -> nat {
        self.lit(x - 1, y - 1) + self.lit(x - 1, y) + self.lit(x - 1, y + 1)
            + self.lit(x, y - 1) + self.lit(x, y + 1)
            + self.lit(x + 1, y - 1) + self.lit(x + 1, y) + self.lit(x + 1, y + 1)
    }

    /// Whether the cell at `(x, y)` is alive in the next generation: it has
    /// exactly three live neighbors, or it is alive and has exactly two.
    pub open spec fn next_alive(self, x: int, y: int) -> bool {
        self.neighbors(x, y) == 3 || (self.alive(x, y) && self.neighbors(x, y) == 2)
    }

    /// The next generation, every cell of it decided on this board.
    pub open spec fn step(self) -> Board {
        Board {
            rows: Seq::new(
                self.height,
                |y: int| Seq::new(self.width, |x: int| self.next_alive(x, y)),
            ),
            ..self
        }
    }

    /// The `i`-th cell in row-major order, with its state.
    pub open spec fn cell_at(self, i: int) -> Cell {
        Cell {
            x: (i % (self.width as int)) as usize,
            y: (i / (self.width as int)) as usize,
            alive: self.alive(i % (self.width as int), i / (self.width as int)),
        }
    }

    /// Every cell of the board in row-major order: along each row from the
    /// first column to the last, the rows from first to last.
    pub open spec fn cell_views(self) -> Seq<Cell> {
        Seq::new(self.width * self.height, |i: int| self.cell_at(i))
    }
}

} // verus!
