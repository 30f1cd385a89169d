//! The executable grid and the traversal of its cells.

use crate::board::Board;
use crate::theorems::lemma_with_alive_idempotent;
use vstd::arithmetic::div_mod::{
    lemma_fundamental_div_mod_converse, lemma_mod_add_multiples_vanish, lemma_mod_self_0,
    lemma_small_mod,
};
use vstd::prelude::*;

verus! {

/// One cell as a traversal reports it: its column, its row, and whether it
/// was alive when it was read.
#[derive(Debug, Clone, Copy, PartialEq, Eq, Structural)]
pub struct Cell {
    pub x: usize,
    pub y: usize,
    pub alive: bool,
}

/// A seed coordinate: column `x` of row `y`.
#[derive(Debug, Clone, Copy, PartialEq, Eq, Structural)]
pub struct Point {
    pub x: usize,
    pub y: usize,
}

/// The stored rows as sequences of cells.
pub open spec fn rows_of(cells: Seq<Vec<bool>>) -> Seq<Seq<bool>> {
    Seq::new(cells.len(), |y: int| cells[y]@)
}

/// The board that `max_y` stored rows of `max_x` cells stand for.
pub open spec fn board_of(cells: Seq<Vec<bool>>, max_x: usize, max_y: usize) -> Board {
    Board { width: max_x as nat, height: max_y as nat, rows: rows_of(cells) }
}

/// Stored rows for a grid of the given size on which every cell is dead.
fn dead_cells(max_x: usize, max_y: usize) -> (cells: Vec<Vec<bool>>)
    ensures
        board_of(cells@, max_x, max_y) == Board::dead(max_x as nat, max_y as nat),
{
    let row: Vec<bool> = vec![false; max_x];
    let cells: Vec<Vec<bool>> = vec![row; max_y];
    proof {
        assert forall|y: int| 0 <= y < max_y implies (#[trigger] cells@[y])@ =~= Seq::new(
            max_x as nat,
            |x: int| false,
        ) by {
            assert(cloned(row, cells@[y]));
        }
        assert(board_of(cells@, max_x, max_y) =~~= Board::dead(max_x as nat, max_y as nat));
    }
    cells
}

/// Writes `value` to the cell in column `x` of the stored row `y`.
fn set_cell(cells: &mut Vec<Vec<bool>>, x: usize, y: usize, value: bool)
    requires
        y < old(cells)@.len(),
        x < old(cells)@[y as int]@.len(),
    ensures
        rows_of(final(cells)@) == rows_of(old(cells)@).update(
            y as int,
            rows_of(old(cells)@)[y as int].update(x as int, value),
        ),
    no_unwind
{
    cells[y][x] = value;
    proof {
        assert(rows_of(cells@) =~~= rows_of(old(cells)@).update(
            y as int,
            rows_of(old(cells)@)[y as int].update(x as int, value),
        ));
    }
}

/// The place before `i` on a ring of `n` places.
fn ring_prev(i: usize, n: usize) -> (r: usize)
    requires
        i < n,
    ensures
        r < n,
        r == (i - 1) % (n as int),
{
    proof {
        if i == 0 {
            lemma_mod_add_multiples_vanish(-1, n as int);
            lemma_small_mod((n - 1) as nat, n as nat);
        } else {
            lemma_small_mod((i - 1) as nat, n as nat);
        }
    }
    if i == 0 {
        n - 1
    } else {
        i - 1
    }
}

/// The place after `i` on a ring of `n` places.
fn ring_next(i: usize, n: usize) -> (r: usize)
    requires
        i < n,
    ensures
        r < n,
        r == (i + 1) % (n as int),
{
    proof {
        if i + 1 == n {
            lemma_mod_self_0(n as int);
        } else {
            lemma_small_mod((i + 1) as nat, n as nat);
        }
    }
    if i + 1 == n {
        0
    } else {
        i + 1
    }
}

/// A grid of cells, each alive or dead, that wraps at its borders. Its size
/// is fixed when it is made.
#[derive(Debug)]
pub struct GameOfLife {
    max_x: usize,
    max_y: usize,
    cells: Vec<Vec<bool>>,
}

impl View for GameOfLife {
    type V = Board;

    closed spec fn view(&self) -> Board {
        board_of(self.cells@, self.max_x, self.max_y)
    }
}

impl GameOfLife {
    #[verifier::type_invariant]
    spec fn inv(&self) -> bool {
        self@.wf()
    }

    /// Makes a grid of `max_x` columns and `max_y` rows on which every cell
    /// is dead. A grid with no column or no row has no cell.
    pub fn new(max_x: usize, max_y: usize) -> (grid: Self)
        ensures
            grid@ == Board::dead(max_x as nat, max_y as nat),
            grid@.wf(),
    {
        GameOfLife { max_x, max_y, cells: dead_cells(max_x, max_y) }
    }

    /// Makes every cell dead, and after that the cells at `points` alive,
    /// first to last. A point outside the grid is passed over.
    pub fn load(&mut self, points: &[Point])
        ensures
            final(self)@ == Board::dead(old(self)@.width, old(self)@.height).seeded(points@),
            final(self)@.wf(),
    {
        self.cells = dead_cells(self.max_x, self.max_y);
        let ghost dead = self@;
        let mut i: usize = 0;
        while i < points.len()
            invariant
                i <= points.len(),
                self@ == dead.seeded(points@.take(i as int)),
            decreases points.len() - i,
        {
            proof {
                assert(points@.take(i + 1).drop_last() =~= points@.take(i as int));
            }
            self.set_alive(points[i].x, points[i].y);
            i += 1;
        }
        proof {
            assert(points@.take(i as int) =~= points@);
            use_type_invariant(&*self);
        }
    }

    /// Makes the cell at `(x, y)` alive. A coordinate outside the grid
    /// changes nothing.
    pub fn set_alive(&mut self, x: usize, y: usize)
        ensures
            final(self)@ == old(self)@.with_alive(x as int, y as int),
            !old(self)@.contains(x as int, y as int) ==> final(self)@ == old(self)@,
            old(self)@.alive(x as int, y as int) ==> final(self)@ == old(self)@,
            final(self)@.wf(),
    {
        proof {
            use_type_invariant(&*self);
            lemma_with_alive_idempotent(self@, x as int, y as int);
        }
        if x < self.max_x && y < self.max_y {
            proof {
                assert(self@.rows[y as int].len() == self.max_x);
            }
            set_cell(&mut self.cells, x, y, true);
            proof {
                assert(self@ =~~= old(self)@.with_alive(x as int, y as int));
            }
        }
    }

    /// Starts a traversal of the cells in row-major order.
    pub fn cells(&self) -> (iter: CellsIterator<'_>)
        ensures
            iter@ == self@.cell_views(),
            iter@.len() == self@.width * self@.height,
    {
        proof {
            use_type_invariant(self);
        }
        CellsIterator::new(self.cells.as_slice(), self.max_x, self.max_y)
    }

    /// Replaces the grid by its next generation. Every cell is decided on
    /// the generation before the call.
    pub fn step(&mut self)
        ensures
            final(self)@ == old(self)@.step(),
            final(self)@.wf(),
    {
        proof {
            use_type_invariant(&*self);
        }
        let mut next_gen: Vec<Vec<bool>> = dead_cells(self.max_x, self.max_y);
        let mut y: usize = 0;
        while y < self.max_y
            invariant
                y <= self.max_y,
                self@.wf(),
                board_of(next_gen@, self.max_x, self.max_y).wf(),
                forall|i: int, j: int|
                    0 <= i < self.max_x && 0 <= j < y ==> #[trigger] rows_of(next_gen@)[j][i]
                        == self@.next_alive(i, j),
            decreases self.max_y - y,
        {
            let mut x: usize = 0;
            while x < self.max_x
                invariant
                    x <= self.max_x,
                    y < self.max_y,
                    self@.wf(),
                    board_of(next_gen@, self.max_x, self.max_y).wf(),
                    forall|i: int, j: int|
                        0 <= i < self.max_x && 0 <= j < y ==> #[trigger] rows_of(next_gen@)[j][i]
                            == self@.next_alive(i, j),
                    forall|i: int|
                        0 <= i < x ==> #[trigger] rows_of(next_gen@)[y as int][i] == self@.next_alive(
                            i,
                            y as int,
                        ),
                decreases self.max_x - x,
            {
                let adjacent_cells: u8 = self.get_adjacent_cells(x, y);
                let is_alive: bool = self.lives(x, y);
                proof {
                    assert(board_of(next_gen@, self.max_x, self.max_y).rows[y as int].len()
                        == self.max_x);
                }
                set_cell(
                    &mut next_gen,
                    x,
                    y,
                    adjacent_cells == 3 || (is_alive && adjacent_cells == 2),
                );
                x += 1;
            }
            y += 1;
        }
        proof {
            assert(board_of(next_gen@, self.max_x, self.max_y) =~~= self@.step());
        }
        self.cells = next_gen;
    }

    /// Whether the cell at `(x, y)` is alive.
    fn lives(&self, x: usize, y: usize) -> (alive: bool)
        requires
            self@.contains(x as int, y as int),
        ensures
            alive == self@.alive(x as int, y as int),
    {
        proof {
            use_type_invariant(self);
            assert(self@.rows[y as int].len() == self.max_x);
        }
        self.cells[y][x]
    }

    /// Counts the live cells among the eight around `(x, y)`, wrapping at
    /// the borders.
    pub fn get_adjacent_cells(&self, x: usize, y: usize) -> (adjacents: u8)
        requires
            self@.contains(x as int, y as int),
        ensures
            adjacents == self@.neighbors(x as int, y as int),
    {
        proof {
            lemma_small_mod(x as nat, self.max_x as nat);
            lemma_small_mod(y as nat, self.max_y as nat);
        }
        let left: usize = ring_prev(x, self.max_x);
        let right: usize = ring_next(x, self.max_x);
        let up: usize = ring_prev(y, self.max_y);
        let down: usize = ring_next(y, self.max_y);

        let mut adjacents: u8 = 0;
        if self.lives(left, up) {
            adjacents += 1;
        }
        if self.lives(left, y) {
            adjacents += 1;
        }
        if self.lives(left, down) {
            adjacents += 1;
        }
        if self.lives(x, up) {
            adjacents += 1;
        }
        if self.lives(x, down) {
            adjacents += 1;
        }
        if self.lives(right, up) {
            adjacents += 1;
        }
        if self.lives(right, y) {
            adjacents += 1;
        }
        if self.lives(right, down) {
            adjacents += 1;
        }
        adjacents
    }
}

/// A traversal of the cells of a grid in row-major order: along each row
/// from the first column to the last, the rows from first to last. It reads
/// each cell when it hands it out.
pub struct CellsIterator<'a> {
    max_x: usize,
    max_y: usize,
    cells: &'a [Vec<bool>],
    x: usize,
    y: usize,
}

impl<'a> View for CellsIterator<'a> {
    type V = Seq<Cell>;

    /// The cells that are still to come, in the order in which they come.
    closed spec fn view(&self) -> Seq<Cell> {
        board_of(self.cells@, self.max_x, self.max_y).cell_views().skip(
            self.y * self.max_x + self.x,
        )
    }
}

impl<'a> CellsIterator<'a> {
    #[verifier::type_invariant]
    spec fn inv(&self) -> bool {
        &&& board_of(self.cells@, self.max_x, self.max_y).wf()
        &&& self.y <= self.max_y
        &&& self.y < self.max_y ==> self.x < self.max_x
        &&& self.y == self.max_y ==> self.x == 0
    }

    /// Starts a traversal of `max_y` rows of `max_x` cells each.
    pub fn new(cells: &'a [Vec<bool>], max_x: usize, max_y: usize) -> (iter: Self)
        requires
            board_of(cells@, max_x, max_y).wf(),
        ensures
            iter@ == board_of(cells@, max_x, max_y).cell_views(),
    {
        let y: usize = if max_x == 0 {
            max_y
        } else {
            0
        };
        let iter = CellsIterator { max_x, max_y, cells, x: 0, y };
        proof {
            assert(y * max_x + 0 == 0) by (nonlinear_arith)
                requires
                    y == 0 || max_x == 0,
            ;
            assert(iter@ =~= board_of(cells@, max_x, max_y).cell_views());
        }
        iter
    }

    /// Hands out the next cell of the traversal, or `None` once every cell
    /// has been handed out.
    pub fn next(&mut self) -> (item: Option<Cell>)
        ensures
            old(self)@.len() == 0 ==> item.is_none() && final(self)@ == old(self)@,
            old(self)@.len() > 0 ==> item == Some(old(self)@[0]) && final(self)@ == old(
                self,
            )@.skip(1),
    {
        proof {
            use_type_invariant(&*self);
        }
        let ghost board = board_of(self.cells@, self.max_x, self.max_y);
        let ghost w = self.max_x as int;
        let ghost h = self.max_y as int;
        let ghost i = self.y * self.max_x + self.x;
        if self.y == self.max_y {
            proof {
                assert(h * w == w * h) by (nonlinear_arith);
            }
            return None;
        }
        proof {
            assert(0 <= i < w * h) by (nonlinear_arith)
                requires
                    i == self.y * w + self.x,
                    0 <= self.y < h,
                    0 <= self.x < w,
            ;
            lemma_fundamental_div_mod_converse(i, w, self.y as int, self.x as int);
            assert(board.rows[self.y as int].len() == w);
            assert((self.y + 1) * w == self.y * w + w) by (nonlinear_arith);
        }
        let cell = Cell { x: self.x, y: self.y, alive: self.cells[self.y][self.x] };
        if self.x + 1 == self.max_x {
            self.x = 0;
            self.y = self.y + 1;
        } else {
            self.x = self.x + 1;
        }
        proof {
            assert(self.y * self.max_x + self.x == i + 1);
            assert(self@ =~= old(self)@.skip(1));
        }
        Some(cell)
    }
}

} // verus!
