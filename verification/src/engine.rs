//! The battle engine: drives the scheduler and the attack calculator in a
//! loop until one side is defeated, accumulating the history.

use vstd::prelude::*;
use crate::attack::{calculate_attack, Attack, AttackModel, AttackView};
use crate::character::Character;
use crate::scheduler::TurnClock;
use crate::stats::{valid_stats, with_hp, StatsModel};

verus! {

/// Why a battle could not be fought.
#[derive(Clone, Copy, Debug, PartialEq, Eq)]
pub enum BattleError {
    /// A character's health, damage or attack cooldown is non-positive; the
    /// battle would either start already decided or never conclude, so it is
    /// rejected at entry and never started.
    InvalidConfiguration,
    /// A scheduler fire-time is not a well-ordered value.  The integer turn
    /// clock cannot compute one, so [`battle`] never returns this variant; it
    /// documents the error taxonomy for schedulers whose priorities may fail
    /// to be comparable.
    InvalidPriority,
}

/// Termination measure of a running battle: the combined health of the two
/// sides, or zero once either side is defeated.
pub open spec fn battle_measure(a: StatsModel, d: StatsModel) -> int {
    if a.hp <= 0 || d.hp <= 0 {
        0
    } else {
        a.hp + d.hp
    }
}

/// The complete log of a battle between a first-named party `a` (the
/// "attacker") and a second-named party `d` (the "defender"), starting at
/// the given clock value — the mathematical description of what [`battle`]
/// records, one element per strike in chronological order.
///
/// Scheduling is the turn-clock model: while the clock is positive the
/// attacker acts and the clock decreases by the attacker's cooldown;
/// otherwise the defender acts and the clock increases by the defender's
/// cooldown.  A battle starts at clock zero, so by the tie-break rule the
/// defender acts first.  The log ends as soon as either side's health is no
/// longer positive; the concluding strike is its last element.
pub open spec fn battle_history(a: StatsModel, d: StatsModel, clock: int) -> Seq<AttackModel>
    decreases battle_measure(a, d),
    when a.damage >= 1 && d.damage >= 1
{
    if a.hp <= 0 || d.hp <= 0 {
        Seq::empty()
    } else if clock > 0 {
        seq![AttackModel { by_attacker: true, damage: a.damage, hp_left: d.hp - a.damage }]
            + battle_history(a, with_hp(d, d.hp - a.damage), clock - a.attack_speed)
    } else {
        seq![AttackModel { by_attacker: false, damage: d.damage, hp_left: a.hp - d.damage }]
            + battle_history(with_hp(a, a.hp - d.damage), d, clock + d.attack_speed)
    }
}

/// The view a role-based strike model takes once the two parties' names are
/// known: `an` is the attacker's name, `dn` the defender's.
pub open spec fn named_attack(m: AttackModel, an: Seq<char>, dn: Seq<char>) -> AttackView {
    AttackView {
        attacker_name: if m.by_attacker {
            an
        } else {
            dn
        },
        defender_name: if m.by_attacker {
            dn
        } else {
            an
        },
        damage: m.damage,
        hp_left: m.hp_left,
    }
}

/// A whole role-based log paired with the two parties' names.
pub open spec fn named_history(ms: Seq<AttackModel>, an: Seq<char>, dn: Seq<char>) -> Seq<
    AttackView,
> {
    ms.map_values(|m: AttackModel| named_attack(m, an, dn))
}

/// The views of every recorded attack, in order.
pub open spec fn history_views(h: Seq<Attack>) -> Seq<AttackView> {
    h.map_values(|at: Attack| at@)
}

/// The outcome of a battle: the two parties' identities and the full
/// chronological history.  Immutable once returned.
#[derive(Debug, PartialEq, Eq)]
pub struct BattleResult {
    /// Name of the first-named party.
    pub attacker_name: String,
    /// Name of the second-named party.
    pub defender_name: String,
    /// Every resolved strike, in chronological order.
    pub history: Vec<Attack>,
}

/// Fight a battle between two characters and return its full log.
///
/// The result is a pure function of the two characters' names and stats:
/// the history equals [`battle_history`] of their stats started at clock
/// zero, so repeated battles between equally-statted, equally-named
/// characters are identical.  A configuration with a non-positive health,
/// damage or cooldown on either side is rejected as
/// [`BattleError::InvalidConfiguration`] — and only such a configuration is;
/// [`BattleError::InvalidPriority`] is never produced, integer fire-times
/// being always well ordered.
pub fn battle<A: Character, B: Character>(attacker: &A, defender: &B) -> (r: Result<
    BattleResult,
    BattleError,
>)
    ensures
        r is Ok <==> (valid_stats(attacker.spec_stats()) && valid_stats(defender.spec_stats())),
        r matches Ok(br) ==> {
            &&& br.attacker_name@ == attacker.spec_name()
            &&& br.defender_name@ == defender.spec_name()
            &&& history_views(br.history@) == named_history(
                battle_history(attacker.spec_stats(), defender.spec_stats(), 0),
                attacker.spec_name(),
                defender.spec_name(),
            )
        },
        r matches Err(e) ==> e == BattleError::InvalidConfiguration,
{
    let a_base = attacker.stats();
    let d_base = defender.stats();
    if !(a_base.hp > 0 && a_base.damage > 0 && a_base.attack_speed > 0 && d_base.hp > 0
        && d_base.damage > 0 && d_base.attack_speed > 0) {
        return Err(BattleError::InvalidConfiguration);
    }
    let attacker_name = attacker.name();
    let defender_name = defender.name();
    let ghost a0 = a_base@;
    let ghost d0 = d_base@;
    let ghost an = attacker.spec_name();
    let ghost dn = defender.spec_name();
    let mut a_cur = a_base;
    let mut d_cur = d_base;
    let mut clock = TurnClock::new();
    let mut history: Vec<Attack> = Vec::new();
    proof {
        assert(history_views(history@) =~= Seq::<AttackView>::empty());
        assert(Seq::<AttackView>::empty() + named_history(battle_history(a0, d0, 0), an, dn)
            =~= named_history(battle_history(a0, d0, 0), an, dn));
    }
    while a_cur.hp > 0 && d_cur.hp > 0
        invariant
            valid_stats(a0),
            valid_stats(d0),
            a_cur@ == with_hp(a0, a_cur.hp as int),
            d_cur@ == with_hp(d0, d_cur.hp as int),
            -a0.attack_speed < clock.time as int <= d0.attack_speed,
            attacker_name@ == an,
            defender_name@ == dn,
            named_history(battle_history(a0, d0, 0), an, dn) == history_views(history@)
                + named_history(battle_history(a_cur@, d_cur@, clock.time as int), an, dn),
        decreases battle_measure(a_cur@, d_cur@),
    {
        let ghost am = a_cur@;
        let ghost dm = d_cur@;
        let ghost t = clock.time as int;
        let ghost pre = history@;
        if clock.attacker_acts_next() {
            let hit = calculate_attack(&a_cur, &d_cur, attacker_name, defender_name);
            d_cur.hp = hit.hp_left;
            clock.spend_attacker(a_cur.attack_speed);
            history.push(hit);
            proof {
                let m = AttackModel { by_attacker: true, damage: am.damage, hp_left: dm.hp - am.damage };
                let rest = battle_history(am, with_hp(dm, dm.hp - am.damage), t - am.attack_speed);
                assert(battle_history(am, dm, t) == seq![m] + rest);
                assert(hit@ == named_attack(m, an, dn));
                assert(named_history(seq![m] + rest, an, dn) =~= seq![named_attack(m, an, dn)]
                    + named_history(rest, an, dn));
                assert(history_views(pre.push(hit)) =~= history_views(pre) + seq![hit@]);
                assert((history_views(pre) + seq![hit@]) + named_history(rest, an, dn)
                    =~= history_views(pre) + (seq![hit@] + named_history(rest, an, dn)));
            }
        } else {
            let hit = calculate_attack(&d_cur, &a_cur, defender_name, attacker_name);
            a_cur.hp = hit.hp_left;
            clock.spend_defender(d_cur.attack_speed);
            history.push(hit);
            proof {
                let m = AttackModel { by_attacker: false, damage: dm.damage, hp_left: am.hp - dm.damage };
                let rest = battle_history(with_hp(am, am.hp - dm.damage), dm, t + dm.attack_speed);
                assert(battle_history(am, dm, t) == seq![m] + rest);
                assert(hit@ == named_attack(m, an, dn));
                assert(named_history(seq![m] + rest, an, dn) =~= seq![named_attack(m, an, dn)]
                    + named_history(rest, an, dn));
                assert(history_views(pre.push(hit)) =~= history_views(pre) + seq![hit@]);
                assert((history_views(pre) + seq![hit@]) + named_history(rest, an, dn)
                    =~= history_views(pre) + (seq![hit@] + named_history(rest, an, dn)));
            }
        }
    }
    proof {
        assert(battle_history(a_cur@, d_cur@, clock.time as int) =~= Seq::<AttackModel>::empty());
        assert(named_history(Seq::<AttackModel>::empty(), an, dn) =~= Seq::<AttackView>::empty());
        assert(history_views(history@) + Seq::<AttackView>::empty() =~= history_views(history@));
    }
    Ok(
        BattleResult {
            attacker_name: attacker_name.to_owned(),
            defender_name: defender_name.to_owned(),
            history,
        },
    )
}

} // verus!
