use vstd::prelude::*;
use crate::config::GameType;

verus! {

/// Length units of the simulation in one pixel.
pub const UNITS_PER_PIXEL: i64 = 2;

/// Radius of a bird.
pub const RADIUS: i64 = 60;

/// Fixed horizontal position of the centre of every bird.
pub const X: i64 = 90;

/// Vertical position of a bird when it is created.
pub const START_Y: i64 = 800;

/// Velocity lost to gravity on every tick.
pub const GRAVITY: i64 = 1;

/// Velocity that a jump sets under [`GameType::SetVelocity`].
pub const JUMP_VELOCITY: i64 = 20;

/// Velocity that a jump adds under [`GameType::AddImpulse`].
pub const JUMP_IMPULSE: i64 = 2;

/// Largest width or height of a playfield.
pub const MAX_DIMENSION: i64 = 16777216;

/// Largest speed, in either direction, that a bird can have between ticks.
pub const MAX_VELOCITY: i64 = MAX_DIMENSION + 1;

/// One simulated actor. The vertical axis points down: a positive velocity
/// moves the bird up.
#[derive(Clone, Copy, Debug, PartialEq, Eq, Structural)]
pub struct Bird {
    /// Identity in the population, and slot in the score table.
    pub index: usize,
    pub y: i64,
    pub velocity: i64,
}

impl Bird {
    pub open spec fn fresh(index: usize) -> Bird {
        Bird { index, y: START_Y, velocity: 0 }
    }

    /// A member of the population, at the start position and at rest.
    pub fn new(index: usize) -> (r: Bird)
        ensures
            r == Bird::fresh(index),
    {
        Bird { index, y: START_Y, velocity: 0 }
    }

    /// The bird of a human player, who has no slot in the score table.
    pub fn new_without_handler() -> (r: Bird)
        ensures
            r == Bird::fresh(usize::MAX),
    {
        Bird { index: usize::MAX, y: START_Y, velocity: 0 }
    }

    /// Whether the bird moves within the range that a live bird keeps
    /// between two ticks.
    pub open spec fn in_range(self) -> bool {
        &&& 0 <= self.y <= MAX_DIMENSION
        &&& -MAX_VELOCITY <= self.velocity <= MAX_VELOCITY
    }

    /// Whether position and velocity stay within `lim` of zero.
    pub open spec fn within(self, lim: int) -> bool {
        &&& -lim <= self.y <= lim
        &&& -lim <= self.velocity <= lim
    }

    pub open spec fn fallen(self) -> Bird {
        Bird {
            y: (self.y - self.velocity) as i64,
            velocity: (self.velocity - GRAVITY) as i64,
            ..self
        }
    }

    /// Whether a tick of gravity keeps position and velocity in `i64`.
    pub open spec fn can_fall(self) -> bool {
        &&& i64::MIN <= self.y - self.velocity <= i64::MAX
        &&& i64::MIN <= self.velocity - GRAVITY
    }

    /// Whether a jump by the rule of `game_type` keeps the velocity in `i64`.
    pub open spec fn can_jump(self, game_type: GameType) -> bool {
        game_type == GameType::AddImpulse ==> self.velocity + JUMP_IMPULSE <= i64::MAX
    }

    /// Applies one tick of gravity: the bird moves by its velocity, which
    /// then loses [`GRAVITY`].
    pub fn y_velocity(&mut self)
        requires
            old(self).can_fall(),
        ensures
            *final(self) == old(self).fallen(),
    {
        self.y = self.y - self.velocity;
        self.velocity = self.velocity - GRAVITY;
    }

    pub open spec fn jumped(self, game_type: GameType) -> Bird {
        match game_type {
            GameType::SetVelocity => Bird { velocity: JUMP_VELOCITY, ..self },
            GameType::AddImpulse => Bird {
                velocity: (self.velocity + JUMP_IMPULSE) as i64,
                ..self
            },
        }
    }

    /// Jumps by the rule of `game_type`: a fixed launch velocity, or an
    /// impulse added to the current velocity.
    pub fn jump(&mut self, game_type: GameType)
        requires
            old(self).can_jump(game_type),
        ensures
            *final(self) == old(self).jumped(game_type),
    {
        match game_type {
            GameType::SetVelocity => {
                self.velocity = JUMP_VELOCITY;
            },
            GameType::AddImpulse => {
                self.velocity = self.velocity + JUMP_IMPULSE;
            },
        }
    }

    pub open spec fn decided(self, game_type: GameType, wants_jump: bool) -> Bird {
        if wants_jump {
            self.jumped(game_type)
        } else {
            self
        }
    }

    /// Carries out the decision taken for this tick: a jump when
    /// `wants_jump` holds, nothing otherwise.
    pub fn make_decision(&mut self, game_type: GameType, wants_jump: bool)
        requires
            wants_jump ==> old(self).can_jump(game_type),
        ensures
            *final(self) == old(self).decided(game_type, wants_jump),
    {
        if wants_jump {
            self.jump(game_type);
        }
    }
}

} // verus!
