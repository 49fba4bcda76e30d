use vstd::prelude::*;

verus! {

/// Active role stance. Entering a stance starts the class minigame; outside a
/// stance the player has no output.
#[derive(Clone, Copy, Debug, PartialEq, Eq, Structural)]
pub enum RoleStance {
    Tank,
    Dps,
    Heal,
}

/// A player's current selection: a mob (identified by its entity bits) or a
/// player (identified by its stable player id).
#[derive(Clone, Copy, Debug, PartialEq, Eq, Structural)]
pub enum SelectedMobOrPlayer {
    Mob(u64),
    Player(u64),
}

} // verus!
