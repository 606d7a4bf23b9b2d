use vstd::prelude::*;
use crate::config::GameType;

verus! {

/// Key code of the space bar.
pub const SPACEBAR: u32 = 32;

/// The pressed flag of a human player, written by input events and read
/// once per tick.
#[derive(Clone, Copy, Debug, PartialEq, Eq, Structural)]
pub struct PlayerHandler {
    pub pressed: bool,
    pub game_type: GameType,
}

impl PlayerHandler {
    /// The handler after an input event that sets the flag to `down`.
    pub open spec fn set_to(self, down: bool) -> PlayerHandler {
        PlayerHandler { pressed: down, ..self }
    }

    /// What a read returns, and the handler after it.
    pub open spec fn read(self) -> (bool, PlayerHandler) {
        (
            self.pressed,
            PlayerHandler {
                pressed: self.pressed && !self.game_type.spec_edge_triggered(),
                ..self
            },
        )
    }

    /// A handler with the flag released.
    pub fn new(game_type: GameType) -> (r: PlayerHandler)
        ensures
            r == (PlayerHandler { pressed: false, game_type }),
    {
        PlayerHandler { pressed: false, game_type }
    }

    /// A key went down: the space bar presses, other keys do nothing.
    pub fn key_down(&mut self, key_code: u32)
        ensures
            *final(self) == if key_code == SPACEBAR {
                old(self).set_to(true)
            } else {
                *old(self)
            },
    {
        if key_code == SPACEBAR {
            self.pressed = true;
        }
    }

    /// A key went up: the space bar releases, other keys do nothing.
    pub fn key_up(&mut self, key_code: u32)
        ensures
            *final(self) == if key_code == SPACEBAR {
                old(self).set_to(false)
            } else {
                *old(self)
            },
    {
        if key_code == SPACEBAR {
            self.pressed = false;
        }
    }

    /// A pointer button went down.
    pub fn pointer_down(&mut self)
        ensures
            *final(self) == old(self).set_to(true),
    {
        self.pressed = true;
    }

    /// A pointer button went up.
    pub fn pointer_up(&mut self)
        ensures
            *final(self) == old(self).set_to(false),
    {
        self.pressed = false;
    }

    /// Reads the flag. Under edge-triggered input the read consumes it, so
    /// that one press yields one jump however long it is held.
    pub fn is_pressed(&mut self) -> (r: bool)
        ensures
            (r, *final(self)) == old(self).read(),
    {
        let pressed = self.pressed;
        if self.game_type.edge_triggered() {
            self.pressed = false;
        }
        pressed
    }
}

/// Under edge-triggered input, any number of presses before a read is one
/// jump request: the read that follows reports it, and a second read, with
/// no press between the two, reports nothing.
pub proof fn lemma_edge_triggered_press(h: PlayerHandler)
    requires
        h.game_type.spec_edge_triggered(),
    ensures
        ({
            let pressed = h.set_to(true);
            &&& pressed.set_to(true) == pressed
            &&& pressed.read().0
            &&& !pressed.read().1.read().0
        }),
{
}

/// Under held-key input, the flag reads as pressed for as long as the key
/// is down.
pub proof fn lemma_held_key(h: PlayerHandler)
    requires
        !h.game_type.spec_edge_triggered(),
    ensures
        h.set_to(true).read() == (true, h.set_to(true)),
{
}

} // verus!
