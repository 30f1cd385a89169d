//! What holds of every board: the shape is kept, the rule of the game, the
//! wrapping at the borders, and what painting and seeding do.

use crate::board::Board;
use crate::game_of_life::{Cell, Point};
use vstd::arithmetic::div_mod::{
    lemma_fundamental_div_mod_converse, lemma_mod_add_multiples_vanish, lemma_small_mod,
};
use vstd::prelude::*;

verus! {

/// One of `points` names the cell at `(x, y)`.
pub open spec fn names(points: Seq<Point>, x: int, y: int) -> bool {
    exists|i: int| 0 <= i < points.len() && (#[trigger] points[i]).x == x && points[i].y == y
}

/// The all-dead board is a rectangle on which no cell is alive, and it is
/// the only such rectangle of its size.
pub proof fn lemma_dead_board(width: nat, height: nat)
    ensures
        Board::dead(width, height).wf(),
        Board::dead(width, height).all_dead(),
        forall|b: Board|
            b.wf() && b.all_dead() && b.width == width && b.height == height ==> b == Board::dead(
                width,
                height,
            ),
{
    let dead = Board::dead(width, height);
    assert forall|b: Board|
        b.wf() && b.all_dead() && b.width == width && b.height == height implies b == dead by {
        assert forall|y: int| 0 <= y < height implies #[trigger] b.rows[y] =~= dead.rows[y] by {
            assert forall|x: int| 0 <= x < width implies b.rows[y][x] == false by {
                assert(!b.alive(x, y));
            }
        }
        assert(b =~~= dead);
    }
}

/// Making a cell alive keeps the shape of the board. Afterwards exactly the
/// cells that were alive before and the cell that was named are alive.
pub proof fn lemma_with_alive(b: Board, px: int, py: int, x: int, y: int)
    requires
        b.wf(),
    ensures
        b.with_alive(px, py).wf(),
        b.with_alive(px, py).width == b.width,
        b.with_alive(px, py).height == b.height,
        b.with_alive(px, py).alive(x, y) <==> b.alive(x, y) || (b.contains(x, y) && x == px && y
            == py),
{
    let after = b.with_alive(px, py);
    if b.contains(px, py) {
        assert forall|j: int| 0 <= j < after.height implies (#[trigger] after.rows[j]).len()
            == after.width by {
            assert(b.rows[j].len() == b.width);
        }
        assert(b.rows[py].len() == b.width);
        if b.contains(x, y) {
            assert(b.rows[y].len() == b.width);
        }
    }
}

/// A coordinate outside the board paints nothing: the board stays as it is.
pub proof fn lemma_with_alive_outside(b: Board, x: int, y: int)
    requires
        !b.contains(x, y),
    ensures
        b.with_alive(x, y) == b,
{
}

/// Making a live cell alive changes nothing, so painting a cell twice is
/// the same as painting it once.
pub proof fn lemma_with_alive_idempotent(b: Board, x: int, y: int)
    requires
        b.wf(),
    ensures
        b.alive(x, y) ==> b.with_alive(x, y) == b,
        b.with_alive(x, y).with_alive(x, y) == b.with_alive(x, y),
{
    let once = b.with_alive(x, y);
    if b.contains(x, y) {
        assert(b.rows[y].len() == b.width);
        if b.alive(x, y) {
            assert(b.rows[y].update(x, true) =~= b.rows[y]);
            assert(once =~~= b);
        }
        assert(once.rows[y].update(x, true) =~= once.rows[y]);
        assert(once.with_alive(x, y) =~~= once);
    }
}

/// Seeding keeps the shape of the board. Afterwards exactly the cells that
/// were alive before and the cells of the board that a point names are
/// alive: points outside the board and repeated points do no harm.
pub proof fn lemma_seeded(b: Board, points: Seq<Point>, x: int, y: int)
    requires
        b.wf(),
    ensures
        b.seeded(points).wf(),
        b.seeded(points).width == b.width,
        b.seeded(points).height == b.height,
        b.seeded(points).alive(x, y) <==> b.alive(x, y) || (b.contains(x, y) && names(
            points,
            x,
            y,
        )),
    decreases points.len(),
{
    if points.len() > 0 {
        let front = points.drop_last();
        let last = points.last();
        lemma_seeded(b, front, x, y);
        lemma_with_alive(b.seeded(front), last.x as int, last.y as int, x, y);
        if names(front, x, y) {
            let i = choose|i: int| 0 <= i < front.len() && (#[trigger] front[i]).x == x && front[i].y == y;
            assert(points[i] == front[i]);
        }
        if last.x == x && last.y == y {
            assert(points[points.len() - 1] == last);
        }
        if names(points, x, y) {
            let i = choose|i: int|
                0 <= i < points.len() && (#[trigger] points[i]).x == x && points[i].y == y;
            if i < front.len() {
                assert(front[i] == points[i]);
            }
        }
    }
}

/// After seeding the all-dead board, a cell is alive exactly if it lies on
/// the board and a point names it.
pub proof fn lemma_seeded_dead(width: nat, height: nat, points: Seq<Point>, x: int, y: int)
    ensures
        Board::dead(width, height).seeded(points).alive(x, y) <==> 0 <= x < width && 0 <= y
            < height && names(points, x, y),
{
    lemma_dead_board(width, height);
    lemma_seeded(Board::dead(width, height), points, x, y);
}

/// A step keeps the shape of the board, and a cell of the next generation
/// is alive exactly if it has three live neighbors, or is alive and has two.
pub proof fn lemma_step(b: Board, x: int, y: int)
    ensures
        b.step().width == b.width,
        b.step().height == b.height,
        b.step().wf(),
        b.step().alive(x, y) <==> b.contains(x, y) && (b.neighbors(x, y) == 3 || (b.alive(x, y)
            && b.neighbors(x, y) == 2)),
{
}

/// Nothing is born from nothing: the next generation of a board on which
/// every cell is dead is that same board.
pub proof fn lemma_step_all_dead(b: Board)
    requires
        b.wf(),
        b.all_dead(),
    ensures
        b.step().all_dead(),
        b.step() == b,
{
    assert forall|x: int, y: int| !b.step().alive(x, y) by {
        assert(b.neighbors(x, y) == 0);
    }
    lemma_dead_board(b.width, b.height);
    lemma_step(b, 0, 0);
}

/// Birth: a dead cell with exactly three live neighbors is alive in the
/// next generation.
pub proof fn lemma_birth(b: Board, x: int, y: int)
    requires
        b.contains(x, y),
        !b.alive(x, y),
        b.neighbors(x, y) == 3,
    ensures
        b.step().alive(x, y),
{
}

/// Survival and death: a live cell lives on with two or three live
/// neighbors, and dies with fewer than two or more than three.
pub proof fn lemma_survival(b: Board, x: int, y: int)
    requires
        b.alive(x, y),
    ensures
        b.neighbors(x, y) == 2 || b.neighbors(x, y) == 3 ==> b.step().alive(x, y),
        b.neighbors(x, y) < 2 || b.neighbors(x, y) > 3 ==> !b.step().alive(x, y),
{
}

/// A dead cell stays dead unless it has exactly three live neighbors.
pub proof fn lemma_stays_dead(b: Board, x: int, y: int)
    requires
        !b.alive(x, y),
        b.neighbors(x, y) != 3,
    ensures
        !b.step().alive(x, y),
{
}

/// Every cell has eight neighbors, so it never counts more than eight.
pub proof fn lemma_neighbors_bound(b: Board, x: int, y: int)
    ensures
        b.neighbors(x, y) <= 8,
{
}

/// The board wraps at its corners: the first cell of the first row counts
/// the last cell of the last row among its neighbors.
pub proof fn lemma_corner_wraps(b: Board)
    requires
        b.alive(b.width - 1, b.height - 1),
    ensures
        b.lit(-1, -1) == 1,
        b.neighbors(0, 0) >= 1,
{
    lemma_wraps(b, -1, -1);
}

/// The board has no edge: a position one step outside it stands for the
/// cell on the opposite border.
pub proof fn lemma_wraps(b: Board, x: int, y: int)
    requires
        b.width > 0,
        b.height > 0,
        -1 <= x <= b.width,
        -1 <= y <= b.height,
    ensures
        b.wrap_x(x) == if x == -1 {
            b.width - 1
        } else if x == b.width {
            0
        } else {
            x
        },
        b.wrap_y(y) == if y == -1 {
            b.height - 1
        } else if y == b.height {
            0
        } else {
            y
        },
{
    let w = b.width as int;
    let h = b.height as int;
    lemma_mod_add_multiples_vanish(x, w);
    lemma_mod_add_multiples_vanish(x - w, w);
    lemma_mod_add_multiples_vanish(y, h);
    lemma_mod_add_multiples_vanish(y - h, h);
    if x == -1 {
        lemma_small_mod((w - 1) as nat, w as nat);
    } else if x == w {
        lemma_small_mod(0, w as nat);
    } else {
        lemma_small_mod(x as nat, w as nat);
    }
    if y == -1 {
        lemma_small_mod((h - 1) as nat, h as nat);
    } else if y == h {
        lemma_small_mod(0, h as nat);
    } else {
        lemma_small_mod(y as nat, h as nat);
    }
}

/// The traversal is in row-major order and complete: it has one item for
/// each cell, and the cell in column `x` of row `y` is item `y * width + x`.
pub proof fn lemma_cell_views_row_major(b: Board, x: int, y: int)
    requires
        b.contains(x, y),
    ensures
        b.cell_views().len() == b.width * b.height,
        0 <= y * b.width + x < b.cell_views().len(),
        b.cell_views()[y * b.width + x] == (Cell {
            x: x as usize,
            y: y as usize,
            alive: b.alive(x, y),
        }),
{
    let w = b.width as int;
    let h = b.height as int;
    let i = y * w + x;
    assert(0 <= i < w * h) by (nonlinear_arith)
        requires
            i == y * w + x,
            0 <= y < h,
            0 <= x < w,
    ;
    lemma_fundamental_div_mod_converse(i, w, y, x);
}

} // verus!
