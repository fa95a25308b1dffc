//! Directional control of a single body: four movement flags toggled by
//! start/stop actions, and the inertia that the flags command.

use vstd::prelude::*;

verus! {

/// Displacement per tick contributed by each active direction.
pub const SPEED: i32 = 10;

/// An abstract input action, already decoded from whatever device produced it.
#[derive(Clone, Copy, Debug, PartialEq, Eq, Structural)]
pub enum Action {
    StartMovingUp,
    StartMovingDown,
    StartMovingLeft,
    StartMovingRight,
    StopMovingUp,
    StopMovingDown,
    StopMovingLeft,
    StopMovingRight,
}

/// Which directions a body is currently being driven in.
#[derive(Clone, Copy, Debug, PartialEq, Eq, Structural)]
pub struct MovingState {
    pub left: bool,
    pub right: bool,
    pub up: bool,
    pub down: bool,
}

pub open spec fn flag(b: bool) -> int {
    if b { 1 } else { 0 }
}

impl MovingState {
    /// No direction active.
    pub open spec fn idle() -> MovingState {
        MovingState { left: false, right: false, up: false, down: false }
    }

    /// Net horizontal direction: right counts +1, left counts -1.
    pub open spec fn horizontal_spec(self) -> int {
        flag(self.right) - flag(self.left)
    }

    /// Net vertical direction: up counts +1, down counts -1.
    pub open spec fn vertical_spec(self) -> int {
        flag(self.up) - flag(self.down)
    }

    /// The inertia commanded by these flags; no diagonal normalisation.
    pub open spec fn inertia_spec(self) -> (int, int) {
        (self.horizontal_spec() * SPEED, self.vertical_spec() * SPEED)
    }

    /// The flags after one action: a start sets its direction, a stop clears it.
    pub open spec fn after(self, action: Action) -> MovingState {
        match action {
            Action::StartMovingUp => MovingState { up: true, ..self },
            Action::StartMovingDown => MovingState { down: true, ..self },
            Action::StartMovingLeft => MovingState { left: true, ..self },
            Action::StartMovingRight => MovingState { right: true, ..self },
            Action::StopMovingUp => MovingState { up: false, ..self },
            Action::StopMovingDown => MovingState { down: false, ..self },
            Action::StopMovingLeft => MovingState { left: false, ..self },
            Action::StopMovingRight => MovingState { right: false, ..self },
        }
    }

    pub fn new() -> (r: MovingState)
        ensures
            r == MovingState::idle(),
    {
        MovingState { left: false, right: false, up: false, down: false }
    }

    pub fn horizontal(&self) -> (r: i32)
        ensures
            r as int == self.horizontal_spec(),
    {
        (if self.left { -1i32 } else { 0i32 }) + (if self.right { 1i32 } else { 0i32 })
    }

    pub fn vertical(&self) -> (r: i32)
        ensures
            r as int == self.vertical_spec(),
    {
        (if self.down { -1i32 } else { 0i32 }) + (if self.up { 1i32 } else { 0i32 })
    }

    /// The inertia vector that the current flags command.
    pub fn inertia(&self) -> (r: [i32; 2])
        ensures
            r[0] as int == self.inertia_spec().0,
            r[1] as int == self.inertia_spec().1,
    {
        [self.horizontal() * SPEED, self.vertical() * SPEED]
    }

    /// Toggles the flag that `action` addresses.
    pub fn apply(&mut self, action: Action)
        ensures
            *final(self) == old(self).after(action),
    {
        match action {
            Action::StartMovingUp => self.up = true,
            Action::StartMovingDown => self.down = true,
            Action::StartMovingLeft => self.left = true,
            Action::StartMovingRight => self.right = true,
            Action::StopMovingUp => self.up = false,
            Action::StopMovingDown => self.down = false,
            Action::StopMovingLeft => self.left = false,
            Action::StopMovingRight => self.right = false,
        }
    }
}

/// Opposing horizontal directions cancel, and a single vertical start commands
/// exactly one unit of speed upward with no horizontal component.
pub proof fn lemma_directional_cancellation(m: MovingState)
    ensures
        m.after(Action::StartMovingLeft).after(Action::StartMovingRight).horizontal_spec() == 0,
        m.after(Action::StartMovingRight).after(Action::StartMovingLeft).horizontal_spec() == 0,
        MovingState::idle().after(Action::StartMovingUp).inertia_spec() == (0int, SPEED as int),
{
}

} // verus!
