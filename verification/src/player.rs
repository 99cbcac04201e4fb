//! Player-side marker state: the player entity itself and the transient
//! effects that stealth mechanics attach to it. Input mapping and reading the
//! input device live outside the engine; the engine sees only the movement
//! targets that control code derives from input.

use vstd::prelude::*;

verus! {

/// Entity that can be targeted by enemy units.
#[derive(Clone, Copy, Debug)]
pub struct Player;

/// Blocks the player from being seen by vision.
#[derive(Clone, Copy, Debug)]
pub struct Invisibility;

/// Greatly reduces the emission radius of footstep sound waves.
#[derive(Clone, Copy, Debug)]
pub struct QuietFootsteps;

/// Allows the player to control their currently equipped firearm child
/// entity, by its agent index.
#[derive(Clone, Copy, Debug)]
pub struct EquippedFirearm(pub u64);

/// The actions a player can issue.
#[derive(Clone, Copy, Debug, PartialEq, Eq, Hash, Structural)]
pub enum PlayerAction {
    Move,
}

} // verus!
