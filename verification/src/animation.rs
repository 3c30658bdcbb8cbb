//! The state of a running animation and its steps.
//!
//! The animation shows the seed as generation 0 and then, frame by frame,
//! each generation after it. What is shown and what comes next are decided
//! here; showing it and waiting between two frames is left to the caller.

use vstd::prelude::*;
use crate::grid::{well_formed, Grid};
use crate::life::{next_generation, successor};
use crate::render::{frame_text, render_frame};

verus! {

/// The time between two frames, in milliseconds.
pub const FRAME_INTERVAL_MS: u64 = 700;

/// An animation at one moment: the grid that is shown and its number in
/// the sequence of generations.
pub struct Animation {
    /// The number of the generation; the seed is generation 0.
    pub generation: u64,
    /// The grid of that generation.
    pub grid: Grid,
}

impl Animation {
    /// Whether the grid of the animation is well formed.
    pub open spec fn valid(&self) -> bool {
        well_formed(self.grid.deep_view())
    }

    /// Starts an animation at generation 0 with `seed` as its grid.
    pub fn new(seed: Grid) -> (animation: Animation)
        requires
            well_formed(seed.deep_view()),
        ensures
            animation.valid(),
            animation.generation == 0,
            animation.grid == seed,
    {
        Animation { generation: 0, grid: seed }
    }

    /// The frame that shows the current generation.
    pub fn frame(&self) -> (text: String)
        ensures
            text@ == frame_text(self.generation as nat, self.grid.deep_view()),
    {
        render_frame(self.generation, &self.grid)
    }

    /// Goes on to the next generation: the grid is replaced by its
    /// successor, and the number of the generation grows by one.
    pub fn advance(&mut self)
        requires
            old(self).valid(),
            old(self).generation < u64::MAX,
        ensures
            final(self).valid(),
            final(self).generation == old(self).generation + 1,
            final(self).grid.deep_view() == successor(old(self).grid.deep_view()),
    {
        let next = next_generation(&self.grid);
        self.grid = next;
        self.generation = self.generation + 1;
    }
}

} // verus!
