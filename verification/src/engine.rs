//! The generation engine: a grid and a clock. Time is counted in whole
//! units chosen by the caller; whenever more than one interval has
//! gathered, a tick advances the grid by one generation and keeps what is
//! left over.
//!
//! A tick advances the grid by at most one generation, however much time
//! has passed: time beyond one interval stays on the clock and is worked
//! off by the ticks that follow.

use vstd::prelude::*;
use crate::grid::{Grid, GridView};

verus! {

/// What an engine is: the grid, the length of the interval between two
/// generations, and the time gathered since the last one.
#[verifier::ext_equal]
pub struct EngineView {
    pub grid: GridView,
    pub interval: nat,
    pub timer: nat,
}

/// The sum of the given spans of time.
pub open spec fn total(spans: Seq<nat>) -> nat
    decreases spans.len(),
{
    if spans.len() == 0 {
        0
    } else {
        total(spans.drop_last()) + spans.last()
    }
}

impl EngineView {
    /// Whether a generation is due once `elapsed` more time has passed:
    /// the gathered time must exceed the interval, not merely reach it.
    pub open spec fn due(self, elapsed: nat) -> bool {
        self.timer + elapsed > self.interval
    }

    /// The engine after one tick of `elapsed` time.
    pub open spec fn ticked(self, elapsed: nat) -> EngineView {
        if self.due(elapsed) {
            EngineView {
                grid: self.grid.next_generation(),
                interval: self.interval,
                timer: (self.timer + elapsed - self.interval) as nat,
            }
        } else {
            EngineView { grid: self.grid, interval: self.interval, timer: self.timer + elapsed }
        }
    }

    /// The engine with one cell painted alive or dead. The clock is not
    /// touched.
    pub open spec fn painted(self, x: int, y: int, alive: bool) -> EngineView {
        EngineView {
            grid: self.grid.painted(x, y, alive),
            interval: self.interval,
            timer: self.timer,
        }
    }

    /// The engine after one tick for each of `spans`, in order.
    pub open spec fn run(self, spans: Seq<nat>) -> EngineView
        decreases spans.len(),
    {
        if spans.len() == 0 {
            self
        } else {
            self.run(spans.drop_last()).ticked(spans.last())
        }
    }

    /// How many of the ticks of `run` advance the grid.
    pub open spec fn commits(self, spans: Seq<nat>) -> nat
        decreases spans.len(),
    {
        if spans.len() == 0 {
            0
        } else {
            let earlier = self.commits(spans.drop_last());
            if self.run(spans.drop_last()).due(spans.last()) {
                earlier + 1
            } else {
                earlier
            }
        }
    }

    /// No time is lost: after any series of ticks, the time on the clock
    /// and one interval for each generation committed add up to the time
    /// that was on the clock before and all the time that has passed.
    pub proof fn lemma_time_is_conserved(self, spans: Seq<nat>)
        ensures
            self.run(spans).interval == self.interval,
            self.run(spans).timer + self.commits(spans) * self.interval == self.timer + total(
                spans,
            ),
        decreases spans.len(),
    {
        if spans.len() > 0 {
            self.lemma_time_is_conserved(spans.drop_last());
            let earlier = self.commits(spans.drop_last());
            assert((earlier + 1) * self.interval == earlier * self.interval + self.interval)
                by (nonlinear_arith);
        } else {
            assert(self.commits(spans) * self.interval == 0) by (nonlinear_arith)
                requires
                    self.commits(spans) == 0,
            ;
        }
    }

    /// While the gathered time does not exceed the interval, ticks only
    /// gather time: no cell of the grid changes.
    pub proof fn lemma_idle_up_to_interval(self, spans: Seq<nat>)
        requires
            self.timer + total(spans) <= self.interval,
        ensures
            self.run(spans).grid == self.grid,
            self.run(spans).timer == self.timer + total(spans),
            self.commits(spans) == 0,
        decreases spans.len(),
    {
        if spans.len() > 0 {
            self.lemma_idle_up_to_interval(spans.drop_last());
            self.lemma_time_is_conserved(spans.drop_last());
        }
    }

    /// A series of ticks whose last is the first to take the gathered time
    /// beyond the interval commits exactly one generation, on that last
    /// tick, and keeps on the clock what was gathered beyond the interval.
    pub proof fn lemma_one_commit_on_crossing(self, spans: Seq<nat>)
        requires
            spans.len() > 0,
            self.timer + total(spans.drop_last()) <= self.interval,
            self.timer + total(spans) > self.interval,
        ensures
            self.commits(spans) == 1,
            self.run(spans).grid == self.grid.next_generation(),
            self.run(spans).timer == self.timer + total(spans) - self.interval,
    {
        self.lemma_idle_up_to_interval(spans.drop_last());
        self.lemma_time_is_conserved(spans.drop_last());
    }

    /// A cell painted before a tick is part of the grid that the tick
    /// judges: when the tick is due, the grid after it is the next
    /// generation of the painted grid.
    pub proof fn lemma_paint_precedes_tick(self, x: int, y: int, alive: bool, elapsed: nat)
        requires
            self.due(elapsed),
        ensures
            self.painted(x, y, alive).ticked(elapsed).grid == self.grid.painted(
                x,
                y,
                alive,
            ).next_generation(),
    {
    }
}

/// A grid that lives by a clock.
pub struct Engine {
    grid: Grid,
    interval: u64,
    timer: u64,
}

impl View for Engine {
    type V = EngineView;

    closed spec fn view(&self) -> EngineView {
        EngineView {
            grid: self.grid@,
            interval: self.interval as nat,
            timer: self.timer as nat,
        }
    }
}

impl Engine {
    /// The engine's grid is well formed.
    pub closed spec fn wf(&self) -> bool {
        self.grid.wf()
    }

    /// An engine for `grid` that commits a generation whenever more than
    /// `interval` units of time have gathered. Its clock starts at zero.
    pub fn new(grid: Grid, interval: u64) -> (engine: Engine)
        requires
            grid.wf(),
        ensures
            engine.wf(),
            engine@ == (EngineView { grid: grid@, interval: interval as nat, timer: 0 }),
    {
        Engine { grid, interval, timer: 0 }
    }

    /// The grid as it stands.
    pub fn grid(&self) -> (grid: &Grid)
        requires
            self.wf(),
        ensures
            grid.wf(),
            grid@ == self@.grid,
    {
        &self.grid
    }

    /// The interval between two generations.
    pub fn interval(&self) -> (interval: u64)
        ensures
            interval == self@.interval,
    {
        self.interval
    }

    /// The time gathered since the last generation.
    pub fn timer(&self) -> (timer: u64)
        ensures
            timer == self@.timer,
    {
        self.timer
    }

    /// Makes the cell at `(x, y)` alive or dead at once, whatever the clock
    /// says. The next scan sees the cell as painted.
    pub fn paint(&mut self, x: usize, y: usize, alive: bool)
        requires
            old(self).wf(),
            old(self)@.grid.in_bounds(x as int, y as int),
        ensures
            final(self).wf(),
            final(self)@ == old(self)@.painted(x as int, y as int, alive),
    {
        self.grid.paint(x, y, alive);
    }

    /// Lets `elapsed` units of time pass. If the gathered time then exceeds
    /// the interval, the grid advances by one generation and one interval is
    /// taken off the clock; if not, only the clock changes. Returns whether
    /// a generation was committed.
    pub fn tick(&mut self, elapsed: u64) -> (committed: bool)
        requires
            old(self).wf(),
            old(self)@.timer + elapsed <= u64::MAX,
        ensures
            final(self).wf(),
            final(self)@ == old(self)@.ticked(elapsed as nat),
            committed == old(self)@.due(elapsed as nat),
    {
        let gathered = self.timer + elapsed;
        if gathered <= self.interval {
            self.timer = gathered;
            return false;
        }
        self.grid.advance();
        self.timer = gathered - self.interval;
        true
    }
}

} // verus!
