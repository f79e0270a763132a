//! What the user does to a running simulation: painting cells with the
//! pointer and pausing the clock.

use vstd::prelude::*;
use crate::engine::{Engine, EngineView};

verus! {

/// A key or a pointer button.
#[derive(Clone, Copy, Debug, PartialEq, Eq, Structural)]
pub enum Button {
    /// The space bar, which pauses and resumes.
    Space,
    /// The left pointer button, which paints cells alive.
    MouseLeft,
    /// The right pointer button, which paints cells dead.
    MouseRight,
    /// Any other key or button.
    Other,
}

/// Which pointer buttons are held down, and the cell under the pointer.
#[derive(Clone, Copy, Debug, PartialEq, Eq, Structural)]
pub struct InputState {
    pub left_pressed: bool,
    pub right_pressed: bool,
    /// The column of the cell under the pointer.
    pub x: usize,
    /// The row of the cell under the pointer.
    pub y: usize,
}

impl InputState {
    /// The state in which `button` has been pressed.
    pub open spec fn pressed(self, button: Button) -> InputState {
        match button {
            Button::MouseLeft => InputState { left_pressed: true, ..self },
            Button::MouseRight => InputState { right_pressed: true, ..self },
            _ => self,
        }
    }

    /// The state in which `button` has been released.
    pub open spec fn released(self, button: Button) -> InputState {
        match button {
            Button::MouseLeft => InputState { left_pressed: false, ..self },
            Button::MouseRight => InputState { right_pressed: false, ..self },
            _ => self,
        }
    }

    /// What the pointer paints: live cells while the left button is held,
    /// dead cells while only the right one is, nothing otherwise.
    pub open spec fn brush(self) -> Option<bool> {
        if self.left_pressed {
            Some(true)
        } else if self.right_pressed {
            Some(false)
        } else {
            None
        }
    }

    /// No button held, the pointer over the first cell.
    pub fn new() -> (input: InputState)
        ensures
            input == (InputState { left_pressed: false, right_pressed: false, x: 0, y: 0 }),
    {
        InputState { left_pressed: false, right_pressed: false, x: 0, y: 0 }
    }

    /// Records that `button` went down.
    pub fn press(&mut self, button: Button)
        ensures
            *final(self) == old(self).pressed(button),
    {
        match button {
            Button::MouseLeft => {
                self.left_pressed = true;
            },
            Button::MouseRight => {
                self.right_pressed = true;
            },
            _ => {},
        }
    }

    /// Records that `button` came up.
    pub fn release(&mut self, button: Button)
        ensures
            *final(self) == old(self).released(button),
    {
        match button {
            Button::MouseLeft => {
                self.left_pressed = false;
            },
            Button::MouseRight => {
                self.right_pressed = false;
            },
            _ => {},
        }
    }

    /// Records that the pointer is now over the cell `(x, y)`.
    pub fn move_cursor(&mut self, x: usize, y: usize)
        ensures
            *final(self) == (InputState { x, y, ..*old(self) }),
    {
        self.x = x;
        self.y = y;
    }
}

/// What a running simulation is: the engine, and whether its clock is
/// stopped.
#[verifier::ext_equal]
pub struct AppView {
    pub engine: EngineView,
    pub paused: bool,
}

impl AppView {
    /// The engine once the pointer has painted the cell under it.
    pub open spec fn painted(self, input: InputState) -> EngineView {
        match input.brush() {
            Some(alive) => self.engine.painted(input.x as int, input.y as int, alive),
            None => self.engine,
        }
    }

    /// The simulation after one update: the pointer paints first, whether
    /// the clock is stopped or not; then, unless the clock is stopped,
    /// `elapsed` time passes.
    pub open spec fn updated(self, elapsed: nat, input: InputState) -> AppView {
        AppView {
            engine: if self.paused {
                self.painted(input)
            } else {
                self.painted(input).ticked(elapsed)
            },
            paused: self.paused,
        }
    }

    /// The simulation after `button` has been pressed: the space bar stops
    /// a running clock and starts a stopped one.
    pub open spec fn pressed(self, button: Button) -> AppView {
        AppView {
            engine: self.engine,
            paused: if button == Button::Space {
                !self.paused
            } else {
                self.paused
            },
        }
    }

    /// While the clock is stopped, an update changes at most the cell
    /// under the pointer.
    pub proof fn lemma_paused_update_only_paints(self, elapsed: nat, input: InputState)
        requires
            self.paused,
        ensures
            self.updated(elapsed, input).engine.timer == self.engine.timer,
            input.brush() is None ==> self.updated(elapsed, input) == self,
            forall|x: int, y: int|
                (x, y) != (input.x as int, input.y as int) ==> self.updated(
                    elapsed,
                    input,
                ).engine.grid.alive(x, y) == self.engine.grid.alive(x, y),
    {
    }
}

/// A running simulation.
pub struct App {
    engine: Engine,
    paused: bool,
}

impl View for App {
    type V = AppView;

    closed spec fn view(&self) -> AppView {
        AppView { engine: self.engine@, paused: self.paused }
    }
}

impl App {
    /// The simulation's engine is well formed.
    pub closed spec fn wf(&self) -> bool {
        self.engine.wf()
    }

    /// A simulation that runs `engine`, its clock not stopped.
    pub fn new(engine: Engine) -> (app: App)
        requires
            engine.wf(),
        ensures
            app.wf(),
            app@ == (AppView { engine: engine@, paused: false }),
    {
        App { engine, paused: false }
    }

    /// The engine as it stands.
    pub fn engine(&self) -> (engine: &Engine)
        requires
            self.wf(),
        ensures
            engine.wf(),
            engine@ == self@.engine,
    {
        &self.engine
    }

    /// Whether the clock is stopped.
    pub fn paused(&self) -> (paused: bool)
        ensures
            paused == self@.paused,
    {
        self.paused
    }

    /// Reacts to `button` going down: the space bar pauses or resumes.
    pub fn press(&mut self, button: Button)
        requires
            old(self).wf(),
        ensures
            final(self).wf(),
            final(self)@ == old(self)@.pressed(button),
    {
        match button {
            Button::Space => {
                self.paused = !self.paused;
            },
            _ => {},
        }
    }

    /// One update: paints the cell under the pointer if a button is held,
    /// then lets `elapsed` time pass unless the clock is stopped. Returns
    /// whether a generation was committed.
    pub fn update(&mut self, elapsed: u64, input: &InputState) -> (committed: bool)
        requires
            old(self).wf(),
            input.brush() is Some ==> old(self)@.engine.grid.in_bounds(
                input.x as int,
                input.y as int,
            ),
            !old(self)@.paused ==> old(self)@.engine.timer + elapsed <= u64::MAX,
        ensures
            final(self).wf(),
            final(self)@ == old(self)@.updated(elapsed as nat, *input),
            committed == (!old(self)@.paused && old(self)@.engine.due(elapsed as nat)),
    {
        if input.left_pressed {
            self.engine.paint(input.x, input.y, true);
        } else if input.right_pressed {
            self.engine.paint(input.x, input.y, false);
        }
        if self.paused {
            return false;
        }
        self.engine.tick(elapsed)
    }
}

} // verus!
