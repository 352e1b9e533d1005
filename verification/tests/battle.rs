use battle_sim::attack::calculate_attack;
use battle_sim::character::{Character, Combatant, Monster, Player};
use battle_sim::engine::{battle, BattleError};
use battle_sim::scheduler::TurnClock;
use battle_sim::stats::Stats;

fn monster() -> Monster {
    Monster { name: String::from("monster") }
}

fn player() -> Player {
    Player { name: String::from("player") }
}

fn combatant(name: &str, hp: i64, damage: i64, attack_speed: i64) -> Combatant {
    Combatant { name: String::from(name), base: Stats { hp, damage, attack_speed } }
}

#[test]
fn monster_stats_snapshot() {
    let m = monster();
    assert_eq!(m.name(), "monster");
    assert_eq!(m.stats(), Stats { hp: 100, damage: 10, attack_speed: 10 });
}

#[test]
fn player_stats_snapshot() {
    let p = player();
    assert_eq!(p.name(), "player");
    assert_eq!(p.stats(), Stats { hp: 150, damage: 5, attack_speed: 12 });
}

#[test]
fn calculate_attack_exact_record() {
    let striker = Stats { hp: 100, damage: 10, attack_speed: 10 };
    let target = Stats { hp: 150, damage: 5, attack_speed: 12 };
    let hit = calculate_attack(&striker, &target, "monster", "player");
    assert_eq!(hit.attacker_name, "monster");
    assert_eq!(hit.defender_name, "player");
    assert_eq!(hit.damage, 10);
    assert_eq!(hit.hp_left, 140);
}

#[test]
fn calculate_attack_may_leave_negative_health() {
    let striker = Stats { hp: 50, damage: 40, attack_speed: 10 };
    let target = Stats { hp: 25, damage: 1, attack_speed: 10 };
    let hit = calculate_attack(&striker, &target, "a", "b");
    assert_eq!(hit.hp_left, -15);
}

#[test]
fn battle_ok_on_valid_configuration() {
    let r = battle(&monster(), &player()).unwrap();
    assert_eq!(r.attacker_name, "monster");
    assert_eq!(r.defender_name, "player");
    assert!(!r.history.is_empty());
}

#[test]
fn battle_is_deterministic() {
    let first = battle(&monster(), &player()).unwrap();
    let second = battle(&monster(), &player()).unwrap();
    assert_eq!(first, second);
}

#[test]
fn monster_vs_player_battle_log() {
    let r = battle(&monster(), &player()).unwrap();
    // The defender acts first at the tie-broken start of the clock.
    assert_eq!(r.history.len(), 27);
    assert_eq!(r.history[0].attacker_name, "player");
    assert_eq!(r.history[0].defender_name, "monster");
    assert_eq!(r.history[0].damage, 5);
    assert_eq!(r.history[0].hp_left, 95);
    // The monster's greater damage-per-cooldown prevails: the player falls.
    let last = r.history.last().unwrap();
    assert_eq!(last.attacker_name, "monster");
    assert_eq!(last.defender_name, "player");
    assert_eq!(last.damage, 10);
    assert_eq!(last.hp_left, 0);
    // Only the concluding strike leaves a side at or below zero.
    for hit in &r.history[..r.history.len() - 1] {
        assert!(hit.hp_left > 0);
    }
}

#[test]
fn identical_stats_first_scheduled_wins() {
    let first = combatant("first", 100, 10, 10);
    let second = combatant("second", 100, 10, 10);
    let r = battle(&first, &second).unwrap();
    // Equal cooldowns alternate strictly; the tie-break schedules the
    // defender first, so it strikes first in every cycle and wins.
    assert_eq!(r.history.len(), 19);
    for (i, hit) in r.history.iter().enumerate() {
        let striker = if i % 2 == 0 { "second" } else { "first" };
        assert_eq!(hit.attacker_name, striker);
    }
    let last = r.history.last().unwrap();
    assert_eq!(last.attacker_name, "second");
    assert_eq!(last.defender_name, "first");
    assert_eq!(last.hp_left, 0);
}

#[test]
fn battle_length_within_termination_bound() {
    let r = battle(&monster(), &player()).unwrap();
    // ceil(monster_hp / player_damage) + ceil(player_hp / monster_damage)
    let bound = (100 + 5 - 1) / 5 + (150 + 10 - 1) / 10;
    assert!(r.history.len() as i64 <= bound);
    assert_eq!(bound, 35);
}

#[test]
fn health_decreases_by_opponent_damage() {
    let r = battle(&monster(), &player()).unwrap();
    let mut monster_hp: i64 = 100;
    let mut player_hp: i64 = 150;
    for hit in &r.history {
        if hit.defender_name == "monster" {
            assert_eq!(hit.damage, 5);
            assert_eq!(hit.hp_left, monster_hp - 5);
            monster_hp = hit.hp_left;
        } else {
            assert_eq!(hit.defender_name, "player");
            assert_eq!(hit.damage, 10);
            assert_eq!(hit.hp_left, player_hp - 10);
            player_hp = hit.hp_left;
        }
    }
}

#[test]
fn cadence_counts_stay_within_one_cooldown() {
    let r = battle(&monster(), &player()).unwrap();
    let monster_cooldown: i64 = 10;
    let player_cooldown: i64 = 12;
    let mut monster_hits: i64 = 0;
    let mut player_hits: i64 = 0;
    for hit in &r.history {
        if hit.attacker_name == "monster" {
            monster_hits += 1;
        } else {
            player_hits += 1;
        }
        // The virtual clock after any prefix stays within one cooldown of
        // zero, so each side's hit count is inversely proportional to its
        // own cooldown up to a single action's slack.
        let clock = player_hits * player_cooldown - monster_hits * monster_cooldown;
        assert!(-monster_cooldown < clock && clock <= player_cooldown);
    }
    assert_eq!(monster_hits, 15);
    assert_eq!(player_hits, 12);
}

#[test]
fn zero_attack_speed_is_rejected() {
    let slow = combatant("slow", 100, 10, 0);
    let m = monster();
    assert_eq!(battle(&slow, &m), Err(BattleError::InvalidConfiguration));
    assert_eq!(battle(&m, &slow), Err(BattleError::InvalidConfiguration));
}

#[test]
fn zero_damage_is_rejected() {
    let harmless = combatant("harmless", 100, 0, 10);
    let m = monster();
    assert_eq!(battle(&harmless, &m), Err(BattleError::InvalidConfiguration));
    assert_eq!(battle(&m, &harmless), Err(BattleError::InvalidConfiguration));
}

#[test]
fn nonpositive_health_is_rejected() {
    let fallen = combatant("fallen", 0, 10, 10);
    let m = monster();
    assert_eq!(battle(&fallen, &m), Err(BattleError::InvalidConfiguration));
    assert_eq!(battle(&m, &fallen), Err(BattleError::InvalidConfiguration));
}

#[test]
fn negative_stats_are_rejected() {
    let broken = combatant("broken", -5, -1, -3);
    assert_eq!(battle(&broken, &monster()), Err(BattleError::InvalidConfiguration));
}

#[test]
fn turn_clock_tie_breaks_for_defender() {
    let mut clock = TurnClock::new();
    assert_eq!(clock.time, 0);
    // At zero the defender is due; its resolved action credits its cooldown.
    assert!(!clock.attacker_acts_next());
    clock.spend_defender(12);
    assert_eq!(clock.time, 12);
    assert!(clock.attacker_acts_next());
    clock.spend_attacker(10);
    assert_eq!(clock.time, 2);
}

#[test]
fn extreme_stats_conclude_without_overflow() {
    let a = combatant("colossus", i64::MAX, i64::MAX, i64::MAX);
    let b = combatant("titan", i64::MAX, i64::MAX, i64::MAX);
    let r = battle(&a, &b).unwrap();
    // The defender strikes first and fells the attacker in one blow.
    assert_eq!(r.history.len(), 1);
    assert_eq!(r.history[0].attacker_name, "titan");
    assert_eq!(r.history[0].defender_name, "colossus");
    assert_eq!(r.history[0].hp_left, 0);
}
