//! A grid together with the state of an interactive front end: how many
//! pixels a cell takes, whether the simulation runs, and whether the pointer
//! is painting.

use crate::board::Board;
use crate::game_of_life::{CellsIterator, GameOfLife, Point};
use vstd::prelude::*;

verus! {

/// What a [`Controller`] holds at one moment.
#[verifier::ext_equal]
pub struct ControllerState {
    /// Side of a cell in pixels.
    pub cell_size: nat,
    /// The simulation advances on `update`.
    pub active: bool,
    /// Pointer movement paints cells.
    pub dragging: bool,
    /// The current generation.
    pub grid: Board,
}

/// A positive number of pixels. It is a type of its own so that the
/// controller can lend out its grid for mutation while the number stays
/// known to be positive.
struct Pixels {
    count: usize,
}

impl Pixels {
    #[verifier::type_invariant]
    spec fn inv(&self) -> bool {
        self.count > 0
    }
}

/// Owns a grid and decides when it advances and where the pointer paints.
pub struct Controller {
    cell_size: Pixels,
    active: bool,
    dragging: bool,
    game_of_life: GameOfLife,
}

impl View for Controller {
    type V = ControllerState;

    closed spec fn view(&self) -> ControllerState {
        ControllerState {
            cell_size: self.cell_size.count as nat,
            active: self.active,
            dragging: self.dragging,
            grid: self.game_of_life@,
        }
    }
}

impl Controller {
    /// Makes a controller that runs, does not paint, and owns a grid of
    /// `max_x` columns and `max_y` rows on which every cell is dead.
    pub fn new(max_x: usize, max_y: usize, cell_size: usize) -> (controller: Self)
        requires
            cell_size > 0,
        ensures
            controller@ == (ControllerState {
                cell_size: cell_size as nat,
                active: true,
                dragging: false,
                grid: Board::dead(max_x as nat, max_y as nat),
            }),
    {
        Controller {
            cell_size: Pixels { count: cell_size },
            active: true,
            dragging: false,
            game_of_life: GameOfLife::new(max_x, max_y),
        }
    }

    /// Replaces the grid's cells by the seed `points`: every cell dead, and
    /// after that each point alive that lies on the grid.
    pub fn load(&mut self, points: &[Point])
        ensures
            final(self)@ == (ControllerState {
                grid: Board::dead(old(self)@.grid.width, old(self)@.grid.height).seeded(points@),
                ..old(self)@
            }),
    {
        self.game_of_life.load(points);
    }

    /// Hands the renderer what it draws from: the side of a cell in pixels
    /// and a traversal of the cells in row-major order.
    pub fn render(&self) -> (frame: (usize, CellsIterator<'_>))
        ensures
            frame.0 == self@.cell_size,
            frame.1@ == self@.grid.cell_views(),
    {
        (self.cell_size.count, self.game_of_life.cells())
    }

    /// Advances the grid by one generation if the simulation runs; does
    /// nothing while it is paused.
    pub fn update(&mut self)
        ensures
            final(self)@ == if old(self)@.active {
                ControllerState { grid: old(self)@.grid.step(), ..old(self)@ }
            } else {
                old(self)@
            },
            !old(self)@.active ==> final(self)@ == old(self)@,
    {
        if self.active {
            self.game_of_life.step();
        }
    }

    /// While the pointer paints, makes the cell under pixel `(x, y)` alive:
    /// the cell whose column is `x / cell_size` and whose row is
    /// `y / cell_size`. A pixel outside the grid, or a pointer that does not
    /// paint, changes nothing.
    pub fn mouse_move(&mut self, x: usize, y: usize)
        ensures
            final(self)@ == if old(self)@.dragging {
                ControllerState {
                    grid: old(self)@.grid.with_alive(
                        x as int / old(self)@.cell_size as int,
                        y as int / old(self)@.cell_size as int,
                    ),
                    ..old(self)@
                }
            } else {
                old(self)@
            },
            !old(self)@.dragging ==> final(self)@ == old(self)@,
    {
        if !self.dragging {
            return ;
        }
        proof {
            use_type_invariant(&self.cell_size);
        }
        let cell_x: usize = x / self.cell_size.count;
        let cell_y: usize = y / self.cell_size.count;
        self.game_of_life.set_alive(cell_x, cell_y);
    }

    /// Whether the simulation runs.
    pub fn active(&self) -> (active: bool)
        ensures
            active == self@.active,
    {
        self.active
    }

    /// Whether the pointer paints.
    pub fn dragging(&self) -> (dragging: bool)
        ensures
            dragging == self@.dragging,
    {
        self.dragging
    }

    /// Side of a cell in pixels.
    pub fn cell_size(&self) -> (cell_size: usize)
        ensures
            cell_size == self@.cell_size,
            cell_size > 0,
    {
        proof {
            use_type_invariant(&self.cell_size);
        }
        self.cell_size.count
    }

    /// Runs or pauses the simulation.
    pub fn set_active(&mut self, active: bool)
        ensures
            final(self)@ == (ControllerState { active, ..old(self)@ }),
    {
        self.active = active;
    }

    /// Starts or stops painting with the pointer.
    pub fn set_dragging(&mut self, dragging: bool)
        ensures
            final(self)@ == (ControllerState { dragging, ..old(self)@ }),
    {
        self.dragging = dragging;
    }
}

} // verus!
