use vstd::prelude::*;

verus! {

/// The keys that drive the game.
#[derive(Clone, Copy, Debug, PartialEq, Eq, Structural)]
pub enum Key {
    Left,
    Right,
    Fire,
    Other,
}

/// Latched key state: a flag stays set from key-down to key-up.
#[derive(Clone, Copy, Debug, PartialEq, Eq, Structural)]
pub struct InputState {
    pub left: bool,
    pub right: bool,
    pub fire: bool,
}

impl Default for InputState {
    fn default() -> (r: InputState)
        ensures
            !r.left && !r.right && !r.fire,
    {
        InputState { left: false, right: false, fire: false }
    }
}

/// The latches after `key` changes to `down`.
pub open spec fn latched(s: InputState, key: Key, down: bool) -> InputState {
    match key {
        Key::Left => InputState { left: down, ..s },
        Key::Right => InputState { right: down, ..s },
        Key::Fire => InputState { fire: down, ..s },
        Key::Other => s,
    }
}

impl InputState {
    fn set_key(&mut self, key: Key, down: bool)
        ensures
            *final(self) == latched(*old(self), key, down),
    {
        match key {
            Key::Left => self.left = down,
            Key::Right => self.right = down,
            Key::Fire => self.fire = down,
            Key::Other => {},
        }
    }

    /// Sets the latch of `key`.
    pub fn key_down_event(&mut self, key: Key)
        ensures
            *final(self) == latched(*old(self), key, true),
    {
        self.set_key(key, true);
    }

    /// Clears the latch of `key`.
    pub fn key_up_event(&mut self, key: Key)
        ensures
            *final(self) == latched(*old(self), key, false),
    {
        self.set_key(key, false);
    }
}

} // verus!
