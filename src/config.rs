use vstd::prelude::*;

verus! {

/// The two rule sets that the simulation supports.
#[derive(Clone, Copy, Debug, PartialEq, Eq, Structural)]
pub enum GameType {
    /// Identifier 0: a jump sets the velocity to a fixed launch value, the
    /// scroll speed may ramp up, and human input is edge-triggered.
    SetVelocity,
    /// Identifier 1: a jump adds a fixed impulse to the velocity, and human
    /// input follows the key as long as it is held.
    AddImpulse,
}

/// A configuration that cannot start a generation.
#[derive(Clone, Copy, Debug, PartialEq, Eq, Structural)]
pub enum ConfigError {
    /// The game type identifier names no supported rule set.
    UnknownGameType(i32),
    /// The gap of the pipes is negative or does not fit in the playfield.
    InvalidHoleSize(i32),
}

/// The settings a trainer chooses: the rule set, the size of the
/// population, how many birds to draw, and the gap of the pipes in pixels.
#[derive(Clone, Copy, Debug, PartialEq, Eq, Structural)]
pub struct GameParams {
    pub game_type: i32,
    pub birds_count: i32,
    pub render_count: i32,
    pub hole_size: i32,
}

impl GameParams {
    pub fn new(game_type: i32, birds_count: i32, render_count: i32, hole_size: i32) -> (r: GameParams)
        ensures
            r == (GameParams { game_type, birds_count, render_count, hole_size }),
    {
        GameParams { game_type, birds_count, render_count, hole_size }
    }
}

impl GameType {
    pub open spec fn spec_id(self) -> i32 {
        match self {
            GameType::SetVelocity => 0,
            GameType::AddImpulse => 1,
        }
    }

    /// Whether `id` identifies a rule set.
    pub open spec fn is_known_id(id: i32) -> bool {
        id == 0 || id == 1
    }

    /// The rule set with the given identifier.
    pub fn from_id(id: i32) -> (r: Result<GameType, ConfigError>)
        ensures
            id == 0 ==> r == Ok::<GameType, ConfigError>(GameType::SetVelocity),
            id == 1 ==> r == Ok::<GameType, ConfigError>(GameType::AddImpulse),
            id != 0 && id != 1 ==> r == Err::<GameType, ConfigError>(ConfigError::UnknownGameType(id)),
            r is Ok ==> r->Ok_0.spec_id() == id,
    {
        if id == 0 {
            Ok(GameType::SetVelocity)
        } else if id == 1 {
            Ok(GameType::AddImpulse)
        } else {
            Err(ConfigError::UnknownGameType(id))
        }
    }

    /// The identifier of this rule set.
    pub fn id(&self) -> (r: i32)
        ensures
            r == self.spec_id(),
    {
        match self {
            GameType::SetVelocity => 0,
            GameType::AddImpulse => 1,
        }
    }

    pub open spec fn spec_output_count(self) -> usize {
        match self {
            GameType::SetVelocity => 1,
            GameType::AddImpulse => 2,
        }
    }

    /// How many outputs a decision function of this rule set produces.
    pub fn output_count(&self) -> (r: usize)
        ensures
            r == self.spec_output_count(),
    {
        match self {
            GameType::SetVelocity => 1,
            GameType::AddImpulse => 2,
        }
    }

    pub open spec fn spec_edge_triggered(self) -> bool {
        self == GameType::SetVelocity
    }

    /// Whether human input is consumed on read, so that one press yields
    /// one jump, or follows the key while it is held.
    pub fn edge_triggered(&self) -> (r: bool)
        ensures
            r == self.spec_edge_triggered(),
    {
        match self {
            GameType::SetVelocity => true,
            GameType::AddImpulse => false,
        }
    }
}

} // verus!
