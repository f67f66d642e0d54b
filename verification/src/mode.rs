//! The four game modes.

use vstd::prelude::*;

verus! {

/// A game mode. The caller supplies it; nothing here guesses it.
#[derive(Clone, Copy, Debug, PartialEq, Eq, Structural)]
pub enum GameMode {
    /// osu!standard
    Osu,
    /// osu!taiko
    Taiko,
    /// osu!catch
    Catch,
    /// osu!mania
    Mania,
}

impl GameMode {
    /// The number by which the wire formats name the mode.
    pub open spec fn spec_index(self) -> u8 {
        match self {
            GameMode::Osu => 0,
            GameMode::Taiko => 1,
            GameMode::Catch => 2,
            GameMode::Mania => 3,
        }
    }

    /// The number by which the wire formats name the mode: 0 to 3.
    #[verifier::when_used_as_spec(spec_index)]
    pub fn index(self) -> (r: u8)
        ensures
            r == self.spec_index(),
            r < 4,
    {
        match self {
            GameMode::Osu => 0,
            GameMode::Taiko => 1,
            GameMode::Catch => 2,
            GameMode::Mania => 3,
        }
    }
}

/// The mode that a number names: 0 to 3, in the order of the variants.
pub open spec fn mode_of_index(index: u32) -> Option<GameMode> {
    if index == 0 {
        Some(GameMode::Osu)
    } else if index == 1 {
        Some(GameMode::Taiko)
    } else if index == 2 {
        Some(GameMode::Catch)
    } else if index == 3 {
        Some(GameMode::Mania)
    } else {
        None
    }
}

impl GameMode {
    /// The mode that `index` names, if it names one.
    pub fn from_index(index: u32) -> (r: Option<GameMode>)
        ensures
            r == mode_of_index(index),
            r matches Some(mode) ==> mode.spec_index() == index,
            r is None <==> index > 3,
    {
        match index {
            0 => Some(GameMode::Osu),
            1 => Some(GameMode::Taiko),
            2 => Some(GameMode::Catch),
            3 => Some(GameMode::Mania),
            _ => None,
        }
    }
}

} // verus!
