//! The input latch: from the keys held down to the direction a head faces.

use vstd::prelude::*;
use crate::grid::{Direction, PlayerId};

verus! {

/// Which of a player's four direction keys are held down.
#[derive(Clone, Copy, PartialEq, Eq, Debug, Hash, Structural)]
pub struct KeyState {
    pub left: bool,
    pub down: bool,
    pub up: bool,
    pub right: bool,
}

impl KeyState {
    /// The direction the keys ask for: the first held key in the order
    /// left, down, up, right, or `current` when none is held.
    pub open spec fn spec_candidate(self, current: Direction) -> Direction {
        if self.left {
            Direction::Left
        } else if self.down {
            Direction::Down
        } else if self.up {
            Direction::Up
        } else if self.right {
            Direction::Right
        } else {
            current
        }
    }

    /// No key is held.
    pub open spec fn spec_idle(self) -> bool {
        !self.left && !self.down && !self.up && !self.right
    }

    /// A state in which no key is held.
    pub fn released() -> (k: KeyState)
        ensures
            k.spec_idle(),
            k == (KeyState { left: false, down: false, up: false, right: false }),
    {
        KeyState { left: false, down: false, up: false, right: false }
    }

    /// The direction the keys ask for.
    #[verifier::when_used_as_spec(spec_candidate)]
    pub fn candidate(self, current: Direction) -> (d: Direction)
        ensures
            d == self.spec_candidate(current),
    {
        if self.left {
            Direction::Left
        } else if self.down {
            Direction::Down
        } else if self.up {
            Direction::Up
        } else if self.right {
            Direction::Right
        } else {
            current
        }
    }
}

/// The eight keys that the game reads, each held or not: the four arrows
/// and the letters Q, S, Z and D. No other key is looked at.
#[derive(Clone, Copy, PartialEq, Eq, Debug, Hash, Structural)]
pub struct Keyboard {
    pub arrow_left: bool,
    pub arrow_down: bool,
    pub arrow_up: bool,
    pub arrow_right: bool,
    pub q: bool,
    pub s: bool,
    pub z: bool,
    pub d: bool,
}

impl Keyboard {
    /// The state of `player`'s direction keys. The first player steers with
    /// the arrows; the second with Q for left, S for down, Z for up and D for
    /// right.
    pub open spec fn spec_keys_of(self, player: PlayerId) -> KeyState {
        match player {
            PlayerId::P1 => KeyState {
                left: self.arrow_left,
                down: self.arrow_down,
                up: self.arrow_up,
                right: self.arrow_right,
            },
            PlayerId::P2 => KeyState { left: self.q, down: self.s, up: self.z, right: self.d },
        }
    }

    /// The state of `player`'s direction keys.
    #[verifier::when_used_as_spec(spec_keys_of)]
    pub fn keys_of(self, player: PlayerId) -> (keys: KeyState)
        ensures
            keys == self.spec_keys_of(player),
    {
        match player {
            PlayerId::P1 => KeyState {
                left: self.arrow_left,
                down: self.arrow_down,
                up: self.arrow_up,
                right: self.arrow_right,
            },
            PlayerId::P2 => KeyState { left: self.q, down: self.s, up: self.z, right: self.d },
        }
    }
}

/// The direction a head faces after the latch has seen `keys`: the
/// candidate, unless that would turn the head straight back.
pub open spec fn latched(current: Direction, keys: KeyState) -> Direction {
    let wanted = keys.spec_candidate(current);
    if wanted == current.spec_opposite() {
        current
    } else {
        wanted
    }
}

/// Applies the latch to one head direction.
pub fn latch(current: Direction, keys: KeyState) -> (d: Direction)
    ensures
        d == latched(current, keys),
        d != current.spec_opposite(),
        keys.spec_idle() ==> d == current,
{
    let wanted = keys.candidate(current);
    if wanted == current.opposite() {
        current
    } else {
        wanted
    }
}

/// A latched direction never points against the direction it replaces.
pub proof fn lemma_latch_never_reverses(current: Direction, keys: KeyState)
    ensures
        latched(current, keys) != current.spec_opposite(),
{
}

/// Latching twice on the same keys gives what latching once gives.
pub proof fn lemma_latch_idempotent(current: Direction, keys: KeyState)
    ensures
        latched(latched(current, keys), keys) == latched(current, keys),
{
}

/// With no key held the latch keeps the direction.
pub proof fn lemma_latch_idle(current: Direction, keys: KeyState)
    requires
        keys.spec_idle(),
    ensures
        latched(current, keys) == current,
{
}

/// The latch either keeps the direction or takes the candidate, and it
/// keeps it exactly when the candidate points straight back.
pub proof fn lemma_latch_choice(current: Direction, keys: KeyState)
    ensures
        latched(current, keys) == current || latched(current, keys) == keys.spec_candidate(
            current,
        ),
        keys.spec_candidate(current) != current.spec_opposite() ==> latched(current, keys)
            == keys.spec_candidate(current),
{
}

} // verus!
