//! Replays a recorded fight between one player and one adversary under
//! hypothetical gear.
//!
//! A combat log is decoded into raw records ([`evtc`]), classified into a
//! sequence of build-independent events ([`extract`]), and that sequence is
//! replayed against a build ([`sim`]) to obtain the damage it would deal.
//! All arithmetic is exact: every bonus and coefficient is an integer count of
//! a fixed unit, and each damage figure is rounded once, at the end.

pub mod conditions;
pub mod damage;
pub mod events;
pub mod evtc;
pub mod explorer;
pub mod extract;
pub mod gamedata;
pub mod ids;
pub mod sim;
pub mod stats;
pub mod table;
pub mod uptimes;

pub use events::{
    BuffTarget, ConditionApplicationSource, DamagingCondition, Food, LifeStealSource,
    PhysicalHitSource, Sigil, SimulationEvent, Stat, StatAmount, Trait, WeaponSet, WeaponType,
};
pub use uptimes::{BuffUptimes, LogBuffUptimes, SimBuffState, SimBuffUptimes};
pub use stats::PlayerStats;
pub use conditions::{ConditionStack, TargetConditions};
pub use damage::DamageDistribution;
