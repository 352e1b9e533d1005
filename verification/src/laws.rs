//! Laws of the battle engine, proved over the mathematical battle log.

use vstd::prelude::*;
use vstd::arithmetic::div_mod::{lemma_basic_div, lemma_div_plus_one};
use crate::attack::{AttackModel, AttackView};
use crate::engine::{battle_history, battle_measure, named_history};
use crate::stats::{with_hp, StatsModel};

verus! {

/// How many of the logged strikes were delivered by the given party:
/// `by_attacker` true counts the first-named party's strikes, false the
/// second-named party's.
pub open spec fn count_by(s: Seq<AttackModel>, by_attacker: bool) -> int
    decreases s.len(),
{
    if s.len() == 0 {
        0
    } else {
        (if s.first().by_attacker == by_attacker {
            1int
        } else {
            0int
        }) + count_by(s.drop_first(), by_attacker)
    }
}

/// How many strikes of `damage` each conclude a defender with health `hp`:
/// zero for a defender already at or below zero, else the ceiling of
/// `hp / damage` (shown by [`lemma_hits_to_conclude_is_ceil`]).
pub open spec fn hits_to_conclude(hp: int, damage: int) -> int
    decreases
            (if hp <= 0 {
                0int
            } else {
                hp
            }),
    when damage >= 1
{
    if hp <= 0 {
        0
    } else {
        1 + hits_to_conclude(hp - damage, damage)
    }
}

/// Splitting the first strike off a log splits its counts.
proof fn lemma_count_by_cons(m: AttackModel, s: Seq<AttackModel>, by_attacker: bool)
    ensures
        count_by(seq![m] + s, by_attacker) == (if m.by_attacker == by_attacker {
            1int
        } else {
            0int
        }) + count_by(s, by_attacker),
{
    assert((seq![m] + s).first() == m);
    assert((seq![m] + s).drop_first() =~= s);
}

/// A prefix of a log with its first strike split off.
proof fn lemma_take_cons(m: AttackModel, s: Seq<AttackModel>, i: int)
    requires
        0 <= i <= s.len(),
    ensures
        (seq![m] + s).take(i + 1) == seq![m] + s.take(i),
{
    assert((seq![m] + s).take(i + 1) =~= seq![m] + s.take(i));
}

/// The number of concluding strikes is never negative.
pub proof fn lemma_hits_to_conclude_nonneg(hp: int, damage: int)
    requires
        damage >= 1,
    ensures
        hits_to_conclude(hp, damage) >= 0,
    decreases
            (if hp <= 0 {
                0int
            } else {
                hp
            }),
{
    if hp > 0 {
        lemma_hits_to_conclude_nonneg(hp - damage, damage);
    }
}

/// For a defender that still stands, [`hits_to_conclude`] is exactly the
/// ceiling of `hp / damage`.
pub proof fn lemma_hits_to_conclude_is_ceil(hp: int, damage: int)
    requires
        damage >= 1,
        hp >= 0,
    ensures
        hits_to_conclude(hp, damage) == (hp + damage - 1) / damage,
    decreases hp,
{
    if hp == 0 {
        lemma_basic_div(damage - 1, damage);
    } else if hp - damage <= 0 {
        assert(hits_to_conclude(hp - damage, damage) == 0);
        lemma_basic_div(hp - 1, damage);
        lemma_div_plus_one(hp - 1, damage);
    } else {
        lemma_hits_to_conclude_is_ceil(hp - damage, damage);
        lemma_div_plus_one(hp - 1, damage);
    }
}

/// Termination law: a battle concludes within
/// `ceil(attacker_hp / defender_damage) + ceil(defender_hp / attacker_damage)`
/// strikes — each strike spends one of the finitely many hits its target can
/// still absorb, whatever the clock does.
pub proof fn lemma_termination_bound(a: StatsModel, d: StatsModel, clock: int)
    requires
        a.damage >= 1,
        d.damage >= 1,
    ensures
        battle_history(a, d, clock).len() <= hits_to_conclude(a.hp, d.damage) + hits_to_conclude(
            d.hp,
            a.damage,
        ),
    decreases battle_measure(a, d),
{
    if a.hp <= 0 || d.hp <= 0 {
        lemma_hits_to_conclude_nonneg(a.hp, d.damage);
        lemma_hits_to_conclude_nonneg(d.hp, a.damage);
    } else if clock > 0 {
        lemma_termination_bound(a, with_hp(d, d.hp - a.damage), clock - a.attack_speed);
    } else {
        lemma_termination_bound(with_hp(a, a.hp - d.damage), d, clock + d.attack_speed);
    }
}

/// Whether the `i`-th logged strike is fully accounted for: its damage is
/// its striker's fixed damage value, and it leaves its defender with exactly
/// that defender's starting health minus the striker's damage times the
/// number of strikes the striker has landed so far — so each side's recorded
/// `hp_left` values, read in order, decrease by exactly the opponent's
/// damage at every step.
pub open spec fn attack_accounted(a: StatsModel, d: StatsModel, h: Seq<AttackModel>, i: int) -> bool {
    &&& h[i].damage == (if h[i].by_attacker {
        a.damage
    } else {
        d.damage
    })
    &&& h[i].hp_left == (if h[i].by_attacker {
        d.hp - a.damage * count_by(h.take(i + 1), true)
    } else {
        a.hp - d.damage * count_by(h.take(i + 1), false)
    })
}

/// Monotonic-health law: every strike of a battle log is accounted for in
/// the sense of [`attack_accounted`].
pub proof fn lemma_monotonic_health(a: StatsModel, d: StatsModel, clock: int)
    requires
        a.damage >= 1,
        d.damage >= 1,
    ensures
        forall|i: int|
            0 <= i < battle_history(a, d, clock).len() ==> #[trigger] attack_accounted(
                a,
                d,
                battle_history(a, d, clock),
                i,
            ),
    decreases battle_measure(a, d),
{
    let h = battle_history(a, d, clock);
    if a.hp <= 0 || d.hp <= 0 {
    } else if clock > 0 {
        let m = AttackModel { by_attacker: true, damage: a.damage, hp_left: d.hp - a.damage };
        let d2 = with_hp(d, d.hp - a.damage);
        let rest = battle_history(a, d2, clock - a.attack_speed);
        lemma_monotonic_health(a, d2, clock - a.attack_speed);
        assert(h == seq![m] + rest);
        assert forall|i: int| 0 <= i < h.len() implies #[trigger] attack_accounted(a, d, h, i) by {
            lemma_take_cons(m, rest, i);
            lemma_count_by_cons(m, rest.take(i), true);
            lemma_count_by_cons(m, rest.take(i), false);
            if i == 0 {
                assert(rest.take(0) =~= Seq::<AttackModel>::empty());
                assert(count_by(h.take(1), true) == 1);
            } else {
                assert(attack_accounted(a, d2, rest, i - 1));
                assert(h[i] == rest[i - 1]);
                let ct = count_by(rest.take(i), true);
                let cd = count_by(rest.take(i), false);
                assert(a.damage * (1 + ct) == a.damage + a.damage * ct) by (nonlinear_arith);
                assert(count_by(h.take(i + 1), true) == 1 + ct);
                assert(count_by(h.take(i + 1), false) == cd);
            }
        }
    } else {
        let m = AttackModel { by_attacker: false, damage: d.damage, hp_left: a.hp - d.damage };
        let a2 = with_hp(a, a.hp - d.damage);
        let rest = battle_history(a2, d, clock + d.attack_speed);
        lemma_monotonic_health(a2, d, clock + d.attack_speed);
        assert(h == seq![m] + rest);
        assert forall|i: int| 0 <= i < h.len() implies #[trigger] attack_accounted(a, d, h, i) by {
            lemma_take_cons(m, rest, i);
            lemma_count_by_cons(m, rest.take(i), true);
            lemma_count_by_cons(m, rest.take(i), false);
            if i == 0 {
                assert(rest.take(0) =~= Seq::<AttackModel>::empty());
                assert(count_by(h.take(1), false) == 1);
            } else {
                assert(attack_accounted(a2, d, rest, i - 1));
                assert(h[i] == rest[i - 1]);
                let ct = count_by(rest.take(i), true);
                let cd = count_by(rest.take(i), false);
                assert(d.damage * (1 + cd) == d.damage + d.damage * cd) by (nonlinear_arith);
                assert(count_by(h.take(i + 1), false) == 1 + cd);
                assert(count_by(h.take(i + 1), true) == ct);
            }
        }
    }
}

/// Appending a strike to a log adds its contribution to the counts.
proof fn lemma_count_by_push(s: Seq<AttackModel>, x: AttackModel, by_attacker: bool)
    ensures
        count_by(s.push(x), by_attacker) == count_by(s, by_attacker) + (if x.by_attacker
            == by_attacker {
            1int
        } else {
            0int
        }),
    decreases s.len(),
{
    if s.len() == 0 {
        assert(s.push(x).drop_first() =~= s);
        assert(s.push(x).first() == x);
        assert(count_by(s, by_attacker) == 0);
    } else {
        lemma_count_by_push(s.drop_first(), x, by_attacker);
        assert(s.push(x).drop_first() =~= s.drop_first().push(x));
        assert(s.push(x).first() == s.first());
    }
}

/// Extending a prefix by one strike adds that strike's contribution.
proof fn lemma_count_by_take_succ(h: Seq<AttackModel>, by_attacker: bool, k: int)
    requires
        0 <= k < h.len(),
    ensures
        count_by(h.take(k + 1), by_attacker) == count_by(h.take(k), by_attacker) + (
        if h[k].by_attacker == by_attacker {
            1int
        } else {
            0int
        }),
{
    assert(h.take(k + 1) =~= h.take(k).push(h[k]));
    lemma_count_by_push(h.take(k), h[k], by_attacker);
}

/// A side's count is unchanged over a stretch in which it lands no strike.
proof fn lemma_count_by_constant(h: Seq<AttackModel>, by_attacker: bool, i: int, j: int)
    requires
        0 <= i <= j <= h.len(),
        forall|k: int| i <= k < j ==> (#[trigger] h[k]).by_attacker != by_attacker,
    ensures
        count_by(h.take(j), by_attacker) == count_by(h.take(i), by_attacker),
    decreases j - i,
{
    if j > i {
        lemma_count_by_constant(h, by_attacker, i, j - 1);
        lemma_count_by_take_succ(h, by_attacker, j - 1);
    }
}

/// Strict-decrease corollary of the monotonic-health law: between one strike
/// of a side and that same side's next strike, the defender's recorded
/// remaining health drops by exactly the striker's damage.
pub proof fn lemma_health_strictly_decreasing(
    a: StatsModel,
    d: StatsModel,
    clock: int,
    i: int,
    j: int,
)
    requires
        a.damage >= 1,
        d.damage >= 1,
        0 <= i < j < battle_history(a, d, clock).len(),
        battle_history(a, d, clock)[i].by_attacker == battle_history(a, d, clock)[j].by_attacker,
        forall|k: int|
            i < k < j ==> (#[trigger] battle_history(a, d, clock)[k]).by_attacker
                != battle_history(a, d, clock)[i].by_attacker,
    ensures
        battle_history(a, d, clock)[j].hp_left == battle_history(a, d, clock)[i].hp_left
            - battle_history(a, d, clock)[j].damage,
{
    let h = battle_history(a, d, clock);
    let b = h[i].by_attacker;
    lemma_monotonic_health(a, d, clock);
    assert(attack_accounted(a, d, h, i));
    assert(attack_accounted(a, d, h, j));
    lemma_count_by_constant(h, b, i + 1, j);
    lemma_count_by_take_succ(h, b, j);
    let ci = count_by(h.take(i + 1), b);
    assert(count_by(h.take(j + 1), b) == ci + 1);
    if b {
        assert(a.damage * (ci + 1) == a.damage * ci + a.damage) by (nonlinear_arith);
    } else {
        assert(d.damage * (ci + 1) == d.damage * ci + d.damage) by (nonlinear_arith);
    }
}

/// Cadence law: after any prefix of the log the virtual clock equals the
/// starting clock plus the defender's cooldown for each defender strike
/// minus the attacker's cooldown for each attacker strike, and that value
/// stays within one cooldown of zero.  Each side's strike count is therefore
/// inversely proportional to its own cooldown, up to a single action's
/// slack, which is the finite form of the cadence-ratio property.
pub proof fn lemma_cadence(a: StatsModel, d: StatsModel, clock: int)
    requires
        a.damage >= 1,
        d.damage >= 1,
        a.attack_speed >= 1,
        d.attack_speed >= 1,
        -a.attack_speed < clock <= d.attack_speed,
    ensures
        forall|k: int|
            0 <= k <= battle_history(a, d, clock).len() ==> {
                let p = #[trigger] battle_history(a, d, clock).take(k);
                -a.attack_speed < clock + d.attack_speed * count_by(p, false) - a.attack_speed
                    * count_by(p, true) <= d.attack_speed
            },
    decreases battle_measure(a, d),
{
    let h = battle_history(a, d, clock);
    if a.hp <= 0 || d.hp <= 0 {
        assert forall|k: int| 0 <= k <= h.len() implies {
            let p = #[trigger] h.take(k);
            -a.attack_speed < clock + d.attack_speed * count_by(p, false) - a.attack_speed
                * count_by(p, true) <= d.attack_speed
        } by {
            assert(h.take(k) =~= Seq::<AttackModel>::empty());
        }
    } else if clock > 0 {
        let m = AttackModel { by_attacker: true, damage: a.damage, hp_left: d.hp - a.damage };
        let d2 = with_hp(d, d.hp - a.damage);
        let clock2 = clock - a.attack_speed;
        let rest = battle_history(a, d2, clock2);
        lemma_cadence(a, d2, clock2);
        assert(h == seq![m] + rest);
        assert forall|k: int| 0 <= k <= h.len() implies {
            let p = #[trigger] h.take(k);
            -a.attack_speed < clock + d.attack_speed * count_by(p, false) - a.attack_speed
                * count_by(p, true) <= d.attack_speed
        } by {
            if k == 0 {
                assert(h.take(0) =~= Seq::<AttackModel>::empty());
            } else {
                lemma_take_cons(m, rest, k - 1);
                lemma_count_by_cons(m, rest.take(k - 1), true);
                lemma_count_by_cons(m, rest.take(k - 1), false);
                let p2 = rest.take(k - 1);
                assert(rest.take(k - 1) == battle_history(a, d2, clock2).take(k - 1));
                let ct = count_by(p2, true);
                let cd = count_by(p2, false);
                assert(a.attack_speed * (1 + ct) == a.attack_speed + a.attack_speed * ct)
                    by (nonlinear_arith);
            }
        }
    } else {
        let m = AttackModel { by_attacker: false, damage: d.damage, hp_left: a.hp - d.damage };
        let a2 = with_hp(a, a.hp - d.damage);
        let clock2 = clock + d.attack_speed;
        let rest = battle_history(a2, d, clock2);
        lemma_cadence(a2, d, clock2);
        assert(h == seq![m] + rest);
        assert forall|k: int| 0 <= k <= h.len() implies {
            let p = #[trigger] h.take(k);
            -a.attack_speed < clock + d.attack_speed * count_by(p, false) - a.attack_speed
                * count_by(p, true) <= d.attack_speed
        } by {
            if k == 0 {
                assert(h.take(0) =~= Seq::<AttackModel>::empty());
            } else {
                lemma_take_cons(m, rest, k - 1);
                lemma_count_by_cons(m, rest.take(k - 1), true);
                lemma_count_by_cons(m, rest.take(k - 1), false);
                let p2 = rest.take(k - 1);
                assert(rest.take(k - 1) == battle_history(a2, d, clock2).take(k - 1));
                let ct = count_by(p2, true);
                let cd = count_by(p2, false);
                assert(d.attack_speed * (1 + cd) == d.attack_speed + d.attack_speed * cd)
                    by (nonlinear_arith);
            }
        }
    }
}

/// Conclusion law: a battle between two valid configurations records at
/// least one strike; its last strike — and only its last — leaves its
/// defender at or below zero health.
pub proof fn lemma_battle_concludes(a: StatsModel, d: StatsModel, clock: int)
    requires
        a.hp >= 1,
        d.hp >= 1,
        a.damage >= 1,
        d.damage >= 1,
    ensures
        battle_history(a, d, clock).len() >= 1,
        battle_history(a, d, clock).last().hp_left <= 0,
        forall|i: int|
            0 <= i < battle_history(a, d, clock).len() - 1 ==> #[trigger] battle_history(
                a,
                d,
                clock,
            )[i].hp_left > 0,
    decreases battle_measure(a, d),
{
    let h = battle_history(a, d, clock);
    if clock > 0 {
        let m = AttackModel { by_attacker: true, damage: a.damage, hp_left: d.hp - a.damage };
        let d2 = with_hp(d, d.hp - a.damage);
        let rest = battle_history(a, d2, clock - a.attack_speed);
        assert(h == seq![m] + rest);
        if d.hp - a.damage <= 0 {
            assert(rest =~= Seq::<AttackModel>::empty());
            assert(h =~= seq![m]);
        } else {
            lemma_battle_concludes(a, d2, clock - a.attack_speed);
            assert(h.last() == rest.last());
        }
    } else {
        let m = AttackModel { by_attacker: false, damage: d.damage, hp_left: a.hp - d.damage };
        let a2 = with_hp(a, a.hp - d.damage);
        let rest = battle_history(a2, d, clock + d.attack_speed);
        assert(h == seq![m] + rest);
        if a.hp - d.damage <= 0 {
            assert(rest =~= Seq::<AttackModel>::empty());
            assert(h =~= seq![m]);
        } else {
            lemma_battle_concludes(a2, d, clock + d.attack_speed);
            assert(h.last() == rest.last());
        }
    }
}

/// Determinism law: the named battle log is a function of the two parties'
/// stats and names alone, so any two results that satisfy [`crate::engine::battle`]'s
/// contract for the same characters record identical histories.
pub proof fn lemma_battle_deterministic(
    h1: Seq<AttackView>,
    h2: Seq<AttackView>,
    a: StatsModel,
    d: StatsModel,
    an: Seq<char>,
    dn: Seq<char>,
)
    requires
        h1 == named_history(battle_history(a, d, 0), an, dn),
        h2 == named_history(battle_history(a, d, 0), an, dn),
    ensures
        h1 == h2,
{
}

} // verus!

