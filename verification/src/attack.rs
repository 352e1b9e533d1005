//! One resolved strike, and the attack calculator that produces it.

use vstd::prelude::*;
use crate::stats::Stats;

verus! {

/// An immutable record of one resolved strike, as kept in a battle's history.
#[derive(Debug, PartialEq, Eq)]
pub struct Attack {
    /// Name of the character that struck.
    pub attacker_name: String,
    /// Name of the character that was struck.
    pub defender_name: String,
    /// Health subtracted from the defender by this strike.
    pub damage: i64,
    /// The defender's health after the strike; may be negative, there is no
    /// clamping.
    pub hp_left: i64,
}

/// Mathematical view of an [`Attack`].
pub struct AttackView {
    /// Name of the character that struck.
    pub attacker_name: Seq<char>,
    /// Name of the character that was struck.
    pub defender_name: Seq<char>,
    /// Health subtracted from the defender.
    pub damage: int,
    /// The defender's health after the strike.
    pub hp_left: int,
}

impl View for Attack {
    type V = AttackView;

    open spec fn view(&self) -> AttackView {
        AttackView {
            attacker_name: self.attacker_name@,
            defender_name: self.defender_name@,
            damage: self.damage as int,
            hp_left: self.hp_left as int,
        }
    }
}

/// Role-based model of one strike: which of a battle's two parties acted
/// (the party named first when the battle started, or the one named second),
/// the damage dealt, and the defender's remaining health.
pub struct AttackModel {
    /// True when the battle's first-named party (its "attacker") struck.
    pub by_attacker: bool,
    /// Health subtracted from the defender.
    pub damage: int,
    /// The defender's health after the strike.
    pub hp_left: int,
}

/// Resolve one strike of `attacker` against `defender` (the attack
/// calculator).  Pure: neither input is mutated; the caller applies
/// `hp_left` back onto the defender's live stats.  Damage may exceed the
/// remaining health, leaving a negative `hp_left`; that is a valid terminal
/// value, not an error.
pub fn calculate_attack(
    attacker: &Stats,
    defender: &Stats,
    attacker_name: &str,
    defender_name: &str,
) -> (r: Attack)
    requires
        i64::MIN <= defender.hp - attacker.damage <= i64::MAX,
    ensures
        r.attacker_name@ == attacker_name@,
        r.defender_name@ == defender_name@,
        r.damage == attacker.damage,
        r.hp_left == defender.hp - attacker.damage,
{
    Attack {
        attacker_name: attacker_name.to_owned(),
        defender_name: defender_name.to_owned(),
        damage: attacker.damage,
        hp_left: defender.hp - attacker.damage,
    }
}

} // verus!
