//! Combat participants: the stat-provider capability and its variants.

use vstd::prelude::*;
use crate::stats::{Stats, StatsModel};

verus! {

/// A combat participant: an identity plus the capability to produce a fresh
/// snapshot of its base stats (the stat provider).  The set of variants is
/// open: any type with a name and fixed base stats can take part in a battle.
pub trait Character {
    /// The character's name, as a mathematical value.
    spec fn spec_name(&self) -> Seq<char>;

    /// The character's base stats, as a mathematical value.
    spec fn spec_stats(&self) -> StatsModel;

    /// The character's name.
    fn name(&self) -> (r: &str)
        ensures
            r@ == self.spec_name(),
    ;

    /// A fresh snapshot of the character's base stats.  Pure: a function of
    /// the character's identity alone, with no side effects.
    fn stats(&self) -> (r: Stats)
        ensures
            r@ == self.spec_stats(),
    ;
}

/// The reference monster: health 100, damage 10 per hit, cooldown 10 time
/// units (one full time unit when a unit is split in tenths).
#[derive(Debug)]
pub struct Monster {
    /// The monster's name.
    pub name: String,
}

impl Character for Monster {
    open spec fn spec_name(&self) -> Seq<char> {
        self.name@
    }

    open spec fn spec_stats(&self) -> StatsModel {
        StatsModel { hp: 100, damage: 10, attack_speed: 10 }
    }

    fn name(&self) -> (r: &str) {
        self.name.as_str()
    }

    fn stats(&self) -> (r: Stats) {
        Stats { hp: 100, damage: 10, attack_speed: 10 }
    }
}

/// The reference player: health 150, damage 5 per hit, cooldown 12 time
/// units (1.2 time units when a unit is split in tenths), so it acts less
/// often than the reference monster.
#[derive(Debug)]
pub struct Player {
    /// The player's name.
    pub name: String,
}

impl Character for Player {
    open spec fn spec_name(&self) -> Seq<char> {
        self.name@
    }

    open spec fn spec_stats(&self) -> StatsModel {
        StatsModel { hp: 150, damage: 5, attack_speed: 12 }
    }

    fn name(&self) -> (r: &str) {
        self.name.as_str()
    }

    fn stats(&self) -> (r: Stats) {
        Stats { hp: 150, damage: 5, attack_speed: 12 }
    }
}

/// A combatant with caller-chosen base stats, keeping the set of character
/// variants open beyond the two reference ones.
#[derive(Debug)]
pub struct Combatant {
    /// The combatant's name.
    pub name: String,
    /// The combatant's base stats.
    pub base: Stats,
}

impl Character for Combatant {
    open spec fn spec_name(&self) -> Seq<char> {
        self.name@
    }

    open spec fn spec_stats(&self) -> StatsModel {
        self.base@
    }

    fn name(&self) -> (r: &str) {
        self.name.as_str()
    }

    fn stats(&self) -> (r: Stats) {
        self.base
    }
}

} // verus!
