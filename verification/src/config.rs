//! The settings a simulation is built from, and the customary ones.

use vstd::prelude::*;
use crate::engine::Engine;
use crate::grid::Grid;

verus! {

/// The customary number of columns.
pub const DEFAULT_WIDTH: usize = 128;

/// The customary number of rows.
pub const DEFAULT_HEIGHT: usize = 72;

/// The customary interval between two generations: a fifteenth of a
/// second, in whole nanoseconds.
pub const DEFAULT_INTERVAL: u64 = 66_666_666;

/// The settings of a simulation. They are fixed once the simulation is
/// built.
#[derive(Clone, Copy, Debug, PartialEq, Eq, Structural)]
pub struct Config {
    /// The number of columns of the grid.
    pub width: usize,
    /// The number of rows of the grid.
    pub height: usize,
    /// A cell starts alive with a chance of `fill_numerator` in
    /// `fill_denominator`.
    pub fill_numerator: u32,
    pub fill_denominator: u32,
    /// The time between two generations, in the unit in which the engine
    /// is told how much time has passed.
    pub interval: u64,
}

impl Config {
    /// The grid has at least one cell and no more than can be addressed,
    /// and the chance of a cell starting alive lies between zero and one.
    pub open spec fn valid(self) -> bool {
        &&& self.width > 0
        &&& self.height > 0
        &&& self.width * self.height <= usize::MAX
        &&& self.fill_denominator > 0
        &&& self.fill_numerator <= self.fill_denominator
    }

    /// Whether the settings describe a simulation that can be built.
    pub fn is_valid(&self) -> (valid: bool)
        ensures
            valid == self.valid(),
    {
        self.width > 0 && self.height > 0 && self.width.checked_mul(self.height).is_some()
            && self.fill_denominator > 0 && self.fill_numerator <= self.fill_denominator
    }

    /// Builds the engine that the settings describe, its grid seeded at
    /// random and its clock at zero, or nothing if the settings are not
    /// valid.
    pub fn build(&self) -> (engine: Option<Engine>)
        ensures
            engine is Some <==> self.valid(),
            engine matches Some(e) ==> {
                &&& e.wf()
                &&& e@.grid.width == self.width
                &&& e@.grid.height == self.height
                &&& e@.interval == self.interval
                &&& e@.timer == 0
            },
    {
        if !self.is_valid() {
            return None;
        }
        let grid = Grid::new(self.width, self.height, self.fill_numerator, self.fill_denominator);
        Some(Engine::new(grid, self.interval))
    }
}

impl Default for Config {
    /// A grid of 128 by 72 cells, half of them alive at the start, and
    /// fifteen generations in a second.
    fn default() -> (config: Config)
        ensures
            config == (Config {
                width: DEFAULT_WIDTH,
                height: DEFAULT_HEIGHT,
                fill_numerator: 1,
                fill_denominator: 2,
                interval: DEFAULT_INTERVAL,
            }),
            config.valid(),
    {
        Config {
            width: DEFAULT_WIDTH,
            height: DEFAULT_HEIGHT,
            fill_numerator: 1,
            fill_denominator: 2,
            interval: DEFAULT_INTERVAL,
        }
    }
}

} // verus!
