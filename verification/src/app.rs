//! The part of the game state that is not a number: the walls, seen through
//! the spatial index, and whether the ball may jump.
//!
//! The ball may jump once in the air. A jump spends that right, and any
//! contact with a wall gives it back. Positions, speeds and timers are kept by
//! the caller, which moves the ball, asks here for the walls near it, tests
//! them, and reports whether one was hit.

use crate::grid::CellRange;
use crate::spatial_hashing::gather;
use crate::spatial_hashing::grid_index;
use crate::spatial_hashing::Buckets;
use crate::spatial_hashing::SpatialHashing;
use vstd::prelude::*;

verus! {

/// The walls of a level and the jump state of the ball.
pub struct App {
    walls: SpatialHashing,
    air_jump: bool,
}

impl App {
    /// The entries of the index of the walls.
    pub closed spec fn walls(&self) -> Buckets {
        self.walls@
    }

    /// Whether a jump is available.
    pub closed spec fn air_jump(&self) -> bool {
        self.air_jump
    }

    /// Starts a game on the level whose walls occupy the given blocks: the
    /// walls are indexed and a jump is available.
    pub fn new(walls: &Vec<CellRange>) -> (app: App)
        ensures
            app.walls() == grid_index(walls@),
            app.air_jump(),
    {
        App { walls: SpatialHashing::new(walls), air_jump: true }
    }

    /// Whether a jump is available.
    pub fn can_jump(&self) -> (available: bool)
        ensures
            available == self.air_jump(),
    {
        self.air_jump
    }

    /// The ids of the walls that share a cell with `block`, each once, in the
    /// order in which a walk of the block meets them.
    pub fn walls_near(&self, block: &CellRange) -> (near: Vec<usize>)
        ensures
            near@ == gather(self.walls(), block.spec_cells()),
    {
        self.walls.get_on_body(block)
    }

    /// Ends a tick. `collided` says whether the ball, at its new position,
    /// overlapped any wall: if so a jump is available again, else the jump
    /// state stays as it was.
    pub fn update(&mut self, collided: bool)
        ensures
            final(self).air_jump() == (old(self).air_jump() || collided),
            final(self).walls() == old(self).walls(),
    {
        if collided {
            self.air_jump = true;
        }
    }

    /// Asks for a jump. It is granted exactly when one is available, and
    /// after the call none is.
    pub fn do_jump(&mut self) -> (jumped: bool)
        ensures
            jumped == old(self).air_jump(),
            !final(self).air_jump(),
            final(self).walls() == old(self).walls(),
    {
        let jumped = self.air_jump;
        self.air_jump = false;
        jumped
    }
}

} // verus!
