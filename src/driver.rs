//! The decisions of the simulation loop: when to exit, when to advance a
//! generation and which generations are recorded as animation frames.

use vstd::prelude::*;
use crate::grid::Grid;
use crate::life::update_game;

verus! {

/// Grid width, in cells.
pub const WIDTH: usize = 100;

/// Grid height, in cells.
pub const HEIGHT: usize = 100;

/// Side of the square block of pixels that shows one cell.
pub const CELL_SIZE: usize = 8;

/// Stride at which the grid is sampled for the animation.
pub const GIF_SCALE: usize = 2;

/// Time between two generations, in milliseconds.
pub const TICK_MILLIS: u64 = 100;

/// Every how many generations a frame is recorded.
pub const FRAME_STRIDE: u64 = 3;

/// What the loop does after one poll.
#[derive(Clone, Copy, Debug, PartialEq, Eq, Structural)]
pub enum Action {
    /// Finish the animation, release the window and stop.
    Exit,
    /// Repaint the window; `advanced` tells whether a generation was computed,
    /// `record_frame` whether the new generation goes into the animation.
    Repaint { advanced: bool, record_frame: bool },
}

/// The loop's own state: the generation counter, the frame stride and
/// whether an exit was seen.
pub struct Driver {
    pub frame_count: u64,
    pub stride: u64,
    pub exiting: bool,
}

impl Driver {
    pub open spec fn wf(&self) -> bool {
        self.stride > 0
    }

    /// A running driver that has computed no generation yet.
    pub fn new(stride: u64) -> (r: Driver)
        requires
            stride > 0,
        ensures
            r.wf(),
            r.frame_count == 0,
            r.stride == stride,
            !r.exiting,
    {
        Driver { frame_count: 0, stride, exiting: false }
    }

    /// One pass of the loop. Once the window is closed or the cancel key is
    /// down the driver exits, for good. Otherwise, when the tick interval has
    /// elapsed, `grid` advances one generation, which is recorded when the
    /// number of generations computed before it is a multiple of the stride.
    pub fn poll(
        &mut self,
        grid: &mut Grid,
        window_open: bool,
        cancel_pressed: bool,
        interval_elapsed: bool,
    ) -> (r: Action)
        requires
            old(self).wf(),
            old(grid).wf(),
        ensures
            final(self).wf(),
            final(grid).wf(),
            final(self).stride == old(self).stride,
            old(self).exiting || !window_open || cancel_pressed ==> {
                &&& r == Action::Exit
                &&& final(self).exiting
                &&& final(self).frame_count == old(self).frame_count
                &&& *final(grid) == *old(grid)
            },
            !old(self).exiting && window_open && !cancel_pressed && !interval_elapsed ==> {
                &&& r == (Action::Repaint { advanced: false, record_frame: false })
                &&& *final(self) == *old(self)
                &&& *final(grid) == *old(grid)
            },
            !old(self).exiting && window_open && !cancel_pressed && interval_elapsed ==> {
                &&& r == (Action::Repaint {
                    advanced: true,
                    record_frame: old(self).frame_count % old(self).stride == 0,
                })
                &&& !final(self).exiting
                &&& final(self).frame_count == if old(self).frame_count == u64::MAX {
                    0
                } else {
                    (old(self).frame_count + 1) as u64
                }
                &&& final(grid).width == old(grid).width
                &&& final(grid).height == old(grid).height
                &&& final(grid).cells@ == old(grid).next_cells()
            },
    {
        if self.exiting || !window_open || cancel_pressed {
            self.exiting = true;
            return Action::Exit;
        }
        if !interval_elapsed {
            return Action::Repaint { advanced: false, record_frame: false };
        }
        update_game(grid);
        let record_frame = self.frame_count % self.stride == 0;
        self.frame_count = if self.frame_count == u64::MAX {
            0
        } else {
            self.frame_count + 1
        };
        Action::Repaint { advanced: true, record_frame }
    }
}

} // verus!
