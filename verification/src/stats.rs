//! Live combat attributes of a character and their mathematical model.

use vstd::prelude::*;

verus! {

/// Mathematical model of a character's combat attributes.
pub struct StatsModel {
    /// Current health.
    pub hp: int,
    /// Fixed amount subtracted from the defender's health by one strike.
    pub damage: int,
    /// Fixed cooldown between two of this character's actions, in time units.
    pub attack_speed: int,
}

/// A snapshot of a character's combat attributes.
///
/// `hp` is the current health and changes over a battle; `damage` and
/// `attack_speed` are fixed.  `attack_speed` is the cooldown between two of
/// the character's actions, in whole time units: a larger value means the
/// character acts less often.
#[derive(Clone, Copy, Debug, PartialEq, Eq)]
pub struct Stats {
    /// Current health.
    pub hp: i64,
    /// Health subtracted from the defender by one strike.
    pub damage: i64,
    /// Cooldown between two actions, in time units.
    pub attack_speed: i64,
}

impl View for Stats {
    type V = StatsModel;

    open spec fn view(&self) -> StatsModel {
        StatsModel {
            hp: self.hp as int,
            damage: self.damage as int,
            attack_speed: self.attack_speed as int,
        }
    }
}

/// A configuration the battle engine accepts: health, damage and cooldown all
/// positive.  A non-positive damage or cooldown would keep a battle from ever
/// concluding; a non-positive health means the side is already defeated.
pub open spec fn valid_stats(s: StatsModel) -> bool {
    s.hp >= 1 && s.damage >= 1 && s.attack_speed >= 1
}

/// The same attributes with the health replaced.
pub open spec fn with_hp(s: StatsModel, hp: int) -> StatsModel {
    StatsModel { hp: hp, damage: s.damage, attack_speed: s.attack_speed }
}

} // verus!
