//! Skill ids.

use vstd::prelude::*;

verus! {

pub const BLEEDING: u32 = 736;

pub const BURNING: u32 = 737;

pub const CONFUSION: u32 = 861;

pub const POISONED: u32 = 723;

pub const TORMENT: u32 = 19426;

pub const CHILLED: u32 = 722;

pub const VULNERABILITY: u32 = 738;

pub const FURY: u32 = 725;

pub const MIGHT: u32 = 740;

pub const KALLAS_FERVOR: u32 = 42883;

pub const BATTLE_SCARS: u32 = 26646;

pub const SEARING_FISSURE: u32 = 28357;

/// The strike of the Superior Rune of Geomancy.
pub const RING_OF_EARTH: u32 = 9433;

/// The marker buff of the Superior Sigil of Doom.
pub const DOOM: u32 = 9441;

} // verus!
