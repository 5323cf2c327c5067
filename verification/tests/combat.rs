use druum::character::{ActiveEffect, DerivedStats, PartyRow, StatusEffectType, StatusEffects};
use druum::combat::actions::{CombatActionKind, QueuedAction, Side};
use druum::combat::ai::{enemy_ai_action_select, AiEnemy, EnemyAi};
use druum::combat::combat_log::{CombatLog, COMBAT_LOG_CAPACITY};
use druum::combat::damage::{compute_raw_damage, damage_calc, resolve_attack, Combatant};
use druum::combat::round::{
    execute_combat_actions, flee_outcome, resolve_action, resolve_flee, RoundCombatant, RoundState,
};
use druum::combat::spell_cast::{check_mp, deduct_mp, spell_damage_calc, SpellCombatant};
use druum::combat::status_effects::{apply_status_handler, POTENCY_HALF};
use druum::combat::targeting::{resolve_target_with_fallback, TargetSelection};
use druum::combat::turn_manager::{
    begin_combat, check_victory_defeat_flee, collect_player_actions, compute_xp_from_enemies, conclude_round, end_combat,
    sort_queue_by_speed, start_next_round, FleeAttempted, PartyMemberView, PlayerInputState,
    RoundOutcome, Standing, TurnActionQueue,
};
use druum::data::items::{EquipSlot, ItemAsset, ItemDb, ItemKind};
use druum::combat::missing_spells::{note_missing_spells, WarnedMissingSpells};
use druum::data::spells::{SpellDb, SpellAsset, SpellEffect, SpellSchool, SpellTarget, MAX_SPELL_DAMAGE};
use rand::rngs::SmallRng;
use rand::SeedableRng;

fn rng(seed: u64) -> SmallRng {
    SmallRng::seed_from_u64(seed)
}

/// The single-precision variance and critical scaling the game applies.
fn scale(raw: u32, variance: u32, critical: bool) -> u32 {
    let damage = (raw as f32 * (variance as f32 / 100.0)) as u32;
    if critical { (damage as f32 * 1.5) as u32 } else { damage }
}

fn stats(attack: u32, defense: u32, accuracy: u32, evasion: u32) -> DerivedStats {
    let mut d = DerivedStats::zero();
    d.attack = attack;
    d.defense = defense;
    d.accuracy = accuracy;
    d.evasion = evasion;
    d.current_hp = 100;
    d.max_hp = 100;
    d
}

fn mk_combatant(name: &str, attack: u32, defense: u32, accuracy: u32, evasion: u32, row: PartyRow) -> Combatant {
    Combatant { name: name.to_string(), stats: stats(attack, defense, accuracy, evasion), row, status: StatusEffects::new() }
}

fn mk_action(speed: u32, side: Side, slot: u32) -> QueuedAction {
    QueuedAction {
        actor: 0,
        kind: CombatActionKind::Defend,
        target: TargetSelection::Self_,
        speed_at_queue_time: speed,
        actor_side: side,
        slot_index: slot,
    }
}

// ── Damage ──────────────────────────────────────────────────────────────────

#[test]
fn damage_calc_defense_greater_than_attack_floors_at_one() {
    let mut r = rng(42);
    let a = mk_combatant("A", 5, 100, 100, 0, PartyRow::Front);
    let d = mk_combatant("D", 5, 100, 0, 0, PartyRow::Front);
    let res = damage_calc(&a, &d, None, &CombatActionKind::Attack, &mut r, scale);
    assert!(res.hit);
    assert!(res.damage >= 1, "Damage floor should be at least 1");
}

#[test]
fn damage_calc_zero_attack_floors_at_one() {
    let mut r = rng(42);
    let a = mk_combatant("A", 0, 100, 100, 0, PartyRow::Front);
    let d = mk_combatant("D", 0, 0, 0, 0, PartyRow::Front);
    let res = damage_calc(&a, &d, None, &CombatActionKind::Attack, &mut r, scale);
    assert!(res.hit);
    assert!(res.damage >= 1);
}

#[test]
fn damage_calc_misses_when_evasion_high() {
    let mut r = rng(42);
    let a = mk_combatant("A", 20, 0, 0, 0, PartyRow::Front);
    let d = mk_combatant("D", 0, 0, 0, 100, PartyRow::Front);
    let res = damage_calc(&a, &d, None, &CombatActionKind::Attack, &mut r, scale);
    assert!(!res.hit);
    assert_eq!(res.damage, 0);
    assert_eq!(res.message, "A misses D.");
}

#[test]
fn damage_calc_hits_when_accuracy_high() {
    let mut r = rng(42);
    let a = mk_combatant("A", 20, 0, 100, 0, PartyRow::Front);
    let d = mk_combatant("D", 0, 0, 0, 0, PartyRow::Front);
    let res = damage_calc(&a, &d, None, &CombatActionKind::Attack, &mut r, scale);
    assert!(res.hit);
}

#[test]
fn damage_calc_deterministic_with_same_seed() {
    let a = mk_combatant("A", 20, 0, 100, 0, PartyRow::Front);
    let d = mk_combatant("D", 0, 10, 0, 0, PartyRow::Front);
    let mut ra = rng(42);
    let mut rb = rng(42);
    let r1 = damage_calc(&a, &d, None, &CombatActionKind::Attack, &mut ra, scale);
    let r2 = damage_calc(&a, &d, None, &CombatActionKind::Attack, &mut rb, scale);
    assert_eq!(r1.damage, r2.damage);
    assert_eq!(r1.hit, r2.hit);
    assert_eq!(r1.critical, r2.critical);
    assert_eq!(r1.message, r2.message);
}

#[test]
fn front_attack_back_with_melee_blocks() {
    let mut r = rng(42);
    let weapon = ItemAsset { id: "test_sword".into(), display_name: "Test Sword".into(), ..Default::default() };
    let a = mk_combatant("A", 20, 0, 100, 0, PartyRow::Front);
    let d = mk_combatant("D", 0, 0, 0, 0, PartyRow::Back);
    let res = damage_calc(&a, &d, Some(&weapon), &CombatActionKind::Attack, &mut r, scale);
    assert_eq!(res.damage, 0);
    assert!(res.message.contains("can't reach"));
    assert_eq!(res.message, "A's attack can't reach D in the back row.");
}

#[test]
fn damage_calc_variance_bounded() {
    let a = mk_combatant("A", 20, 0, 100, 0, PartyRow::Front);
    let d = mk_combatant("D", 0, 10, 0, 0, PartyRow::Front);
    let mut min_dmg = u32::MAX;
    let mut max_dmg = 0u32;
    for seed in 0..100u64 {
        let mut r = rng(seed);
        let res = damage_calc(&a, &d, None, &CombatActionKind::Attack, &mut r, scale);
        if res.hit && !res.critical {
            min_dmg = min_dmg.min(res.damage);
            max_dmg = max_dmg.max(res.damage);
        }
    }
    if min_dmg != u32::MAX {
        assert!(min_dmg >= 13, "min damage {} below variance floor", min_dmg);
        assert!(max_dmg <= 19, "max damage {} above variance ceiling", max_dmg);
    }
}

#[test]
fn damage_calc_non_attack_returns_no_damage() {
    let mut r = rng(0);
    let a = mk_combatant("A", 20, 0, 100, 0, PartyRow::Front);
    let d = mk_combatant("D", 0, 0, 0, 0, PartyRow::Front);
    let res = damage_calc(&a, &d, None, &CombatActionKind::Defend, &mut r, scale);
    assert_eq!(res.damage, 0);
    assert!(!res.hit);
    assert_eq!(res.message, "A performs a non-damaging action.");
}

#[test]
fn raw_damage_formula_values() {
    // (20 * (100 - 10 / 2)) / 100 = 19
    assert_eq!(compute_raw_damage(20, 10), 19);
    // defense capped at 180: (100 * (100 - 90)) / 100 = 10
    assert_eq!(compute_raw_damage(100, 1000), 10);
    // floor of 1
    assert_eq!(compute_raw_damage(0, 0), 1);
    assert_eq!(compute_raw_damage(u32::MAX, 0), u32::MAX);
}

#[test]
fn resolve_attack_exact_messages() {
    let a = mk_combatant("Aldo", 20, 0, 100, 0, PartyRow::Front);
    let d = mk_combatant("Goblin", 0, 0, 0, 0, PartyRow::Front);
    let hit = resolve_attack(&a, &d, false, 5, 99, 17);
    assert_eq!((hit.damage, hit.hit, hit.critical), (17, true, false));
    assert_eq!(hit.message, "Aldo attacks Goblin for 17 damage.");
    // accuracy 100 → crit chance 20; roll 3 crits.
    let crit = resolve_attack(&a, &d, false, 5, 3, 0);
    assert_eq!((crit.damage, crit.critical), (1, true));
    assert_eq!(crit.message, "Aldo critically strikes Goblin for 1 damage (CRITICAL).");
    // hit roll at the chance misses.
    let miss = resolve_attack(&a, &d, false, 100, 0, 50);
    assert!(!miss.hit);
    assert_eq!(miss.message, "Aldo misses Goblin.");
}

// ── Spells ──────────────────────────────────────────────────────────────────

fn mk_caster(magic_attack: u32, accuracy: u32) -> SpellCombatant {
    let mut s = DerivedStats::zero();
    s.magic_attack = magic_attack;
    s.accuracy = accuracy;
    s.current_mp = 100;
    s.max_mp = 100;
    s.current_hp = 100;
    s.max_hp = 100;
    SpellCombatant { name: "Caster".into(), stats: s, status: StatusEffects::new() }
}

fn mk_target(magic_defense: u32) -> SpellCombatant {
    let mut s = DerivedStats::zero();
    s.magic_defense = magic_defense;
    s.current_hp = 100;
    s.max_hp = 100;
    SpellCombatant { name: "Target".into(), stats: s, status: StatusEffects::new() }
}

fn mk_damage_spell(power: u32) -> SpellAsset {
    SpellAsset {
        id: "test_spell".into(),
        display_name: "Test Spell".into(),
        mp_cost: 5,
        level: 1,
        school: SpellSchool::Mage,
        target: SpellTarget::SingleEnemy,
        effect: SpellEffect::Damage { power },
        description: String::new(),
        icon_path: String::new(),
    }
}

fn mk_heal_spell() -> SpellAsset {
    SpellAsset {
        id: "test_heal".into(),
        display_name: "Test Heal".into(),
        mp_cost: 4,
        level: 1,
        school: SpellSchool::Priest,
        target: SpellTarget::SingleAlly,
        effect: SpellEffect::Heal { amount: 20 },
        description: String::new(),
        icon_path: String::new(),
    }
}

#[test]
fn spell_damage_zero_for_non_damage_variant() {
    let mut r = rng(42);
    let result = spell_damage_calc(&mk_caster(10, 80), &mk_target(5), &mk_heal_spell(), &mut r, scale);
    assert_eq!(result.damage, 0);
    assert!(!result.critical);
    assert_eq!(result.message, "Caster uses Test Heal (non-damage effect).");
}

#[test]
fn spell_damage_seeded_deterministic() {
    let caster = mk_caster(20, 80);
    let target = mk_target(10);
    let spell = mk_damage_spell(15);
    let mut ra = rng(99);
    let mut rb = rng(99);
    let r1 = spell_damage_calc(&caster, &target, &spell, &mut ra, scale);
    let r2 = spell_damage_calc(&caster, &target, &spell, &mut rb, scale);
    assert_eq!((r1.damage, r1.critical, r1.message.clone()), (r2.damage, r2.critical, r2.message));
}

#[test]
fn spell_damage_caps_at_max_spell_damage() {
    let caster = mk_caster(0, 0);
    let target = mk_target(0);
    let spell = mk_damage_spell(MAX_SPELL_DAMAGE * 2);
    let mut r = rng(0);
    let result = spell_damage_calc(&caster, &target, &spell, &mut r, scale);
    assert!(result.damage <= (MAX_SPELL_DAMAGE as f32 * 1.5) as u32 + 1);
    // accuracy 0: never critical; variance keeps the damage within [699, 999].
    assert!(!result.critical);
    assert!(result.damage >= 699 && result.damage <= 999);
}

#[test]
fn check_mp_returns_false_when_insufficient() {
    let mut derived = DerivedStats::zero();
    derived.current_mp = 1;
    derived.max_mp = 100;
    let spell = SpellAsset { mp_cost: 5, ..mk_damage_spell(10) };
    assert!(!check_mp(&derived, &spell));
    derived.current_mp = 5;
    assert!(check_mp(&derived, &spell));
}

#[test]
fn deduct_mp_saturates_at_zero() {
    let mut derived = DerivedStats::zero();
    derived.current_mp = 2;
    derived.max_mp = 100;
    let spell = SpellAsset { mp_cost: 10, ..mk_damage_spell(5) };
    deduct_mp(&mut derived, &spell);
    assert_eq!(derived.current_mp, 0, "saturating_sub should stop at zero");
}

#[test]
fn mp_cost_is_capped() {
    let mut derived = DerivedStats::zero();
    derived.current_mp = 1000;
    let spell = SpellAsset { mp_cost: u32::MAX, ..mk_damage_spell(5) };
    assert!(check_mp(&derived, &spell));
    deduct_mp(&mut derived, &spell);
    assert_eq!(derived.current_mp, 1);
}

// ── Targeting ───────────────────────────────────────────────────────────────

#[test]
fn single_target_alive_returns_target() {
    let mut r = rng(0);
    let party = vec![1u64, 2];
    let enemies = vec![5u64, 6];
    let result = resolve_target_with_fallback(
        &TargetSelection::Single(5), 1, Side::Party, true,
        &party, &vec![true, true], &enemies, &vec![true, true], true, &mut r,
    );
    assert_eq!(result, vec![5]);
}

#[test]
fn single_target_dead_re_targets_same_side() {
    let mut r = rng(0);
    let party = vec![1u64];
    let enemies = vec![5u64, 6];
    let result = resolve_target_with_fallback(
        &TargetSelection::Single(5), 1, Side::Party, true,
        &party, &vec![true], &enemies, &vec![false, true], false, &mut r,
    );
    assert_eq!(result, vec![6]);
}

#[test]
fn single_target_dead_no_alive_on_side_returns_empty() {
    let mut r = rng(0);
    let party = vec![1u64];
    let enemies = vec![5u64];
    let result = resolve_target_with_fallback(
        &TargetSelection::Single(5), 1, Side::Party, true,
        &party, &vec![true], &enemies, &vec![false], false, &mut r,
    );
    assert!(result.is_empty());
}

#[test]
fn all_enemies_and_self_targets() {
    let mut r = rng(0);
    let party = vec![1u64, 2];
    let enemies = vec![5u64, 6, 7];
    let all = resolve_target_with_fallback(
        &TargetSelection::AllEnemies, 1, Side::Party, true,
        &party, &vec![true, false], &enemies, &vec![true, false, true], false, &mut r,
    );
    assert_eq!(all, vec![5, 7]);
    let allies = resolve_target_with_fallback(
        &TargetSelection::AllAllies, 5, Side::Enemy, true,
        &party, &vec![true, false], &enemies, &vec![true, false, true], false, &mut r,
    );
    assert_eq!(allies, vec![5, 7]);
    let me = resolve_target_with_fallback(
        &TargetSelection::Self_, 2, Side::Party, false,
        &party, &vec![true, false], &enemies, &vec![true, false, true], false, &mut r,
    );
    assert!(me.is_empty());
}

// ── Log and ordering ────────────────────────────────────────────────────────

#[test]
fn combat_log_caps_at_50() {
    let mut log = CombatLog::default();
    for i in 0..60u32 {
        log.push(format!("entry {}", i), i);
    }
    assert_eq!(log.entries.len(), 50);
    assert_eq!(log.entries.front().unwrap().message, "entry 10");
    assert_eq!(log.entries.back().unwrap().message, "entry 59");
    assert_eq!(COMBAT_LOG_CAPACITY, 50);
}

#[test]
fn combat_log_clear_empties() {
    let mut log = CombatLog::default();
    log.push("test".into(), 0);
    log.clear();
    assert!(log.entries.is_empty());
}

#[test]
fn side_orders_party_before_enemy() {
    assert!(Side::Party < Side::Enemy);
}

#[test]
fn speed_sort_descending() {
    let mut q = TurnActionQueue { queue: vec![mk_action(10, Side::Party, 0), mk_action(20, Side::Party, 1), mk_action(15, Side::Enemy, 0)] };
    sort_queue_by_speed(&mut q);
    assert_eq!(q.queue[0].speed_at_queue_time, 20);
    assert_eq!(q.queue[1].speed_at_queue_time, 15);
    assert_eq!(q.queue[2].speed_at_queue_time, 10);
}

#[test]
fn speed_tie_party_before_enemy() {
    let mut q = TurnActionQueue { queue: vec![mk_action(10, Side::Enemy, 0), mk_action(10, Side::Party, 0)] };
    sort_queue_by_speed(&mut q);
    assert_eq!(q.queue[0].actor_side, Side::Party);
}

#[test]
fn speed_tie_lower_slot_first() {
    let mut q = TurnActionQueue { queue: vec![mk_action(10, Side::Party, 2), mk_action(10, Side::Party, 0)] };
    sort_queue_by_speed(&mut q);
    assert_eq!(q.queue[0].slot_index, 0);
}

// ── End of round ────────────────────────────────────────────────────────────

fn standing(current_hp: u32, max_hp: u32, dead: bool) -> Standing {
    Standing { current_hp, max_hp, dead }
}

#[test]
fn compute_xp_from_enemies_sums_half_max_hp() {
    let enemies = vec![standing(0, 30, true), standing(0, 30, true), standing(0, 60, true)];
    assert_eq!(compute_xp_from_enemies(&enemies), 60, "15 + 15 + 30 = 60 XP from 3 enemies");
    let zero = vec![standing(0, 0, true), standing(0, 0, true), standing(0, 0, true)];
    assert_eq!(compute_xp_from_enemies(&zero), 0);
    let large = vec![standing(0, u32::MAX, true)];
    assert_eq!(compute_xp_from_enemies(&large), 1_000_000, "per-enemy cap at 1_000_000");
    let two_large = vec![standing(0, u32::MAX, true), standing(0, u32::MAX, true)];
    assert_eq!(compute_xp_from_enemies(&two_large), 1_000_000, "total cap at 1_000_000");
}

#[test]
fn victory_when_all_enemies_dead() {
    let party = vec![standing(100, 100, false)];
    let enemies = vec![standing(0, 30, false), standing(10, 60, true)];
    let r = check_victory_defeat_flee(&party, &enemies, &FleeAttempted::default());
    assert_eq!(r, RoundOutcome::Victory { total_xp: 45 });
}

#[test]
fn defeat_when_all_party_dead() {
    let party = vec![standing(0, 100, false), standing(5, 100, true)];
    let enemies = vec![standing(0, 30, true)];
    let flee = FleeAttempted { success: true, attempted_this_round: true };
    assert_eq!(check_victory_defeat_flee(&party, &enemies, &flee), RoundOutcome::Defeat);
}

#[test]
fn flee_and_next_round_outcomes() {
    let party = vec![standing(10, 100, false)];
    let enemies = vec![standing(10, 30, false)];
    let fled = FleeAttempted { success: true, attempted_this_round: true };
    assert_eq!(check_victory_defeat_flee(&party, &enemies, &fled), RoundOutcome::Fled);
    assert_eq!(check_victory_defeat_flee(&party, &enemies, &FleeAttempted::default()), RoundOutcome::NextRound);
    // An empty party is no defeat, empty enemies no victory.
    assert_eq!(check_victory_defeat_flee(&vec![], &vec![], &FleeAttempted::default()), RoundOutcome::NextRound);
}

#[test]
fn next_round_resets_input() {
    let mut input = PlayerInputState::for_new_combat();
    input.committed.push(mk_action(1, Side::Party, 0));
    input.active_slot = Some(2);
    input.current_turn = 4;
    start_next_round(&mut input);
    assert!(input.committed.is_empty());
    assert_eq!(input.current_turn, 5);
    assert_eq!(input.active_slot, None);
    assert_eq!(input.menu_stack.len(), 1);
    input.current_turn = u32::MAX;
    start_next_round(&mut input);
    assert_eq!(input.current_turn, u32::MAX);
}

#[test]
fn conclude_round_logs_and_prepares_next_round() {
    let alive = vec![standing(10, 100, false)];
    let down = vec![standing(0, 30, true)];
    let still = vec![standing(10, 30, false)];
    let no_flee = FleeAttempted::default();

    let mut log = CombatLog::default();
    let mut input = PlayerInputState::for_new_combat();
    input.current_turn = 3;
    assert_eq!(conclude_round(&down, &still, &no_flee, &mut log, &mut input), RoundOutcome::Defeat);
    assert_eq!(log.entries.back().unwrap().message, "The party falls...");
    assert_eq!(log.entries.back().unwrap().turn_number, 3);
    assert_eq!(input.current_turn, 3);

    assert_eq!(conclude_round(&alive, &down, &no_flee, &mut log, &mut input), RoundOutcome::Victory { total_xp: 15 });
    assert_eq!(log.entries.back().unwrap().message, "Victory!");
    assert_eq!(log.entries.len(), 2);

    let fled = FleeAttempted { success: true, attempted_this_round: true };
    assert_eq!(conclude_round(&alive, &still, &fled, &mut log, &mut input), RoundOutcome::Fled);
    assert_eq!(log.entries.len(), 2, "flight logs nothing more");

    input.committed.push(mk_action(1, Side::Party, 0));
    assert_eq!(conclude_round(&alive, &still, &no_flee, &mut log, &mut input), RoundOutcome::NextRound);
    assert_eq!(log.entries.len(), 2);
    assert!(input.committed.is_empty());
    assert_eq!(input.current_turn, 4);
}

#[test]
fn begin_and_end_combat_reset_round_state() {
    let mut queue = TurnActionQueue { queue: vec![mk_action(1, Side::Party, 0)] };
    let mut input = PlayerInputState::for_new_combat();
    input.current_turn = 9;
    input.main_cursor = 3;
    let mut flee = FleeAttempted { success: true, attempted_this_round: true };
    let mut log = CombatLog::default();
    log.push("earlier".to_string(), 7);
    begin_combat(&mut queue, &mut input, &mut flee, &mut log);
    assert!(queue.queue.is_empty());
    assert_eq!(input.current_turn, 0);
    assert_eq!(input.main_cursor, 0);
    assert_eq!(input.menu_stack.len(), 1);
    assert!(!flee.success && !flee.attempted_this_round);
    assert_eq!(log.entries.len(), 2, "the log is kept across combats");
    assert_eq!(log.entries.back().unwrap().message, "--- Combat begins ---");
    assert_eq!(log.entries.back().unwrap().turn_number, 0);

    queue.queue.push(mk_action(1, Side::Party, 0));
    flee.success = true;
    end_combat(&mut queue, &mut input, &mut flee);
    assert!(queue.queue.is_empty());
    assert!(input.menu_stack.is_empty());
    assert!(!flee.success);
}

// ── Player input ────────────────────────────────────────────────────────────

fn member_view(id: u64, slot: usize, hp: u32, effects: Vec<StatusEffectType>) -> PartyMemberView {
    let mut s = DerivedStats::zero();
    s.current_hp = hp;
    s.max_hp = 100;
    s.speed = 10 + slot as u32;
    let status = StatusEffects {
        effects: effects
            .into_iter()
            .map(|t| ActiveEffect { effect_type: t, remaining_turns: Some(3), magnitude: 0 })
            .collect(),
    };
    PartyMemberView { id, slot, stats: s, status }
}

#[test]
fn sleep_skips_action_emission() {
    let mut input = PlayerInputState::for_new_combat();
    let mut log = CombatLog::default();
    let party = vec![
        member_view(11, 1, 100, vec![]),
        member_view(10, 0, 100, vec![StatusEffectType::Sleep]),
    ];
    let ready = collect_player_actions(&mut input, &mut log, &party);
    assert!(!ready);
    assert_eq!(input.committed.len(), 1);
    assert_eq!(input.committed[0].actor, 10);
    assert!(matches!(input.committed[0].kind, CombatActionKind::Defend));
    assert_eq!(input.committed[0].speed_at_queue_time, 10);
    assert_eq!(input.active_slot, Some(1));
    assert_eq!(log.entries.back().unwrap().message, "Party slot 0 is incapacitated.");
}

#[test]
fn all_committed_moves_to_execution() {
    let mut input = PlayerInputState::for_new_combat();
    let mut log = CombatLog::default();
    let party = vec![member_view(10, 0, 0, vec![]), member_view(11, 1, 100, vec![StatusEffectType::Paralysis])];
    assert!(collect_player_actions(&mut input, &mut log, &party));
    assert_eq!(input.active_slot, None);
    assert_eq!(input.committed.len(), 1);
    // No party at all: the phase waits.
    let mut empty_input = PlayerInputState::for_new_combat();
    assert!(!collect_player_actions(&mut empty_input, &mut log, &vec![]));
}

// ── Round resolution ────────────────────────────────────────────────────────

fn fighter(id: u64, name: &str, side: Side, hp: u32, speed: u32) -> RoundCombatant {
    let mut s = DerivedStats::zero();
    s.current_hp = hp;
    s.max_hp = 100;
    s.attack = 20;
    s.accuracy = 100;
    s.speed = speed;
    RoundCombatant {
        id,
        name: name.to_string(),
        side,
        stats: s,
        status: StatusEffects::new(),
        row: PartyRow::Front,
        weapon: None,
        inventory: Vec::new(),
    }
}

fn round_state(combatants: Vec<RoundCombatant>) -> RoundState {
    RoundState { combatants, log: CombatLog::default(), flee: FleeAttempted::default(), events: Vec::new() }
}

fn queued(actor: u64, kind: CombatActionKind, target: TargetSelection, side: Side) -> QueuedAction {
    QueuedAction { actor, kind, target, speed_at_queue_time: 10, actor_side: side, slot_index: 0 }
}

fn last_line(state: &RoundState) -> String {
    state.log.entries.back().unwrap().message.clone()
}

#[test]
fn dead_actor_skips_action_in_resolve() {
    let mut state = round_state(vec![fighter(1, "Aldo", Side::Party, 0, 10), fighter(2, "Goblin", Side::Enemy, 30, 5)]);
    let db = ItemDb { items: vec![] };
    let mut r = rng(1);
    resolve_action(&mut state, &queued(1, CombatActionKind::Attack, TargetSelection::Single(2), Side::Party), &db, 0, &mut r, scale);
    assert_eq!(last_line(&state), "Aldo is unable to act.");
    assert_eq!(state.combatants[1].stats.current_hp, 30);
}

#[test]
fn unknown_actor_is_named_as_the_engine_writes_it() {
    let mut state = round_state(vec![fighter(1, "Aldo", Side::Party, 50, 10)]);
    let db = ItemDb { items: vec![] };
    let mut r = rng(1);
    resolve_action(&mut state, &queued(77, CombatActionKind::Defend, TargetSelection::Self_, Side::Party), &db, 0, &mut r, scale);
    let engine = bevy::ecs::entity::Entity::try_from_bits(77).unwrap();
    assert_eq!(last_line(&state), format!("Entity({:?}) is unable to act.", engine));
    assert_ne!(last_line(&state), "Entity(77) is unable to act.");
    // Index stored inverted in the low half, generation in the high half.
    assert_eq!(last_line(&state), "Entity(4294967218v0) is unable to act.");
    let with_generation = (3u64 << 32) | (u32::MAX - 5) as u64;
    resolve_action(&mut state, &queued(with_generation, CombatActionKind::Defend, TargetSelection::Self_, Side::Party), &db, 0, &mut r, scale);
    assert_eq!(last_line(&state), "Entity(5v3) is unable to act.");
    let mut other = round_state(vec![fighter(9, "Aldo", Side::Party, 50, 10)]);
    resolve_action(&mut other, &queued(1, CombatActionKind::Defend, TargetSelection::Self_, Side::Party), &db, 0, &mut r, scale);
    assert_eq!(last_line(&other), "Entity(PLACEHOLDER) is unable to act.");
    // Low half 0 forms no entity: the bits are written in decimal.
    resolve_action(&mut other, &queued(1u64 << 32, CombatActionKind::Defend, TargetSelection::Self_, Side::Party), &db, 0, &mut r, scale);
    assert_eq!(last_line(&other), "Entity(4294967296) is unable to act.");
}

#[test]
fn flee_outcome_succeeds_below_fifty() {
    assert!(flee_outcome(0, false));
    assert!(flee_outcome(49, false));
    assert!(!flee_outcome(50, false));
    assert!(!flee_outcome(99, false));
    assert!(flee_outcome(99, true), "a success already won stands");
}

#[test]
fn resolve_flee_logs_by_roll() {
    let mut state = round_state(vec![fighter(1, "Aldo", Side::Party, 50, 10)]);
    let a = queued(1, CombatActionKind::Flee, TargetSelection::Nobody, Side::Party);
    resolve_flee(&mut state, &a, 2, 70);
    assert!(state.flee.attempted_this_round);
    assert!(!state.flee.success);
    assert_eq!(last_line(&state), "Aldo tried to flee but failed!");
    resolve_flee(&mut state, &a, 2, 12);
    assert!(state.flee.success);
    assert_eq!(last_line(&state), "Aldo flees! Escape successful.");
    assert_eq!(state.log.entries.back().unwrap().turn_number, 2);
}

#[test]
fn speed_sort_keeps_full_ties_in_order() {
    let mut first = mk_action(10, Side::Party, 1);
    first.actor = 100;
    let mut second = mk_action(10, Side::Party, 1);
    second.actor = 200;
    let mut queue = TurnActionQueue { queue: vec![first, mk_action(20, Side::Enemy, 0), second] };
    sort_queue_by_speed(&mut queue);
    let actors: Vec<u64> = queue.queue.iter().filter(|a| a.speed_at_queue_time == 10).map(|a| a.actor).collect();
    assert_eq!(actors, vec![100, 200]);
    assert_eq!(queue.queue[0].speed_at_queue_time, 20);
}

#[test]
fn cast_spell_logs_stub_message() {
    let mut state = round_state(vec![fighter(1, "Mira", Side::Party, 50, 10)]);
    let db = ItemDb { items: vec![] };
    let mut r = rng(1);
    resolve_action(&mut state, &queued(1, CombatActionKind::CastSpell { spell_id: "halito".into() }, TargetSelection::Nobody, Side::Party), &db, 3, &mut r, scale);
    assert_eq!(last_line(&state), "Mira casts halito: not yet implemented.");
    assert_eq!(state.log.entries.back().unwrap().turn_number, 3);
}

#[test]
fn defend_writes_defense_up_via_apply_status_event() {
    let mut state = round_state(vec![fighter(1, "Aldo", Side::Party, 50, 10)]);
    let db = ItemDb { items: vec![] };
    let mut r = rng(1);
    resolve_action(&mut state, &queued(1, CombatActionKind::Defend, TargetSelection::Self_, Side::Party), &db, 0, &mut r, scale);
    assert_eq!(state.events.len(), 1);
    assert_eq!(state.events[0].effect, StatusEffectType::DefenseUp);
    assert_eq!(state.events[0].potency, POTENCY_HALF);
    assert_eq!(state.events[0].duration, Some(1));
    assert_eq!(last_line(&state), "Aldo defends!");
}

#[test]
fn defend_no_ops_when_higher_defense_up_active() {
    let mut status = StatusEffects::new();
    status.effects.push(ActiveEffect { effect_type: StatusEffectType::DefenseUp, remaining_turns: Some(3), magnitude: 1.0f32.to_bits() });
    let mut state = round_state(vec![fighter(1, "Aldo", Side::Party, 50, 10)]);
    let db = ItemDb { items: vec![] };
    let mut r = rng(1);
    resolve_action(&mut state, &queued(1, CombatActionKind::Defend, TargetSelection::Self_, Side::Party), &db, 0, &mut r, scale);
    apply_status_handler(&mut status, &state.events[0]);
    assert_eq!(status.effects.len(), 1);
    assert_eq!(f32::from_bits(status.effects[0].magnitude), 1.0, "the higher DefenseUp stays");
    assert_eq!(status.effects[0].remaining_turns, Some(1));
}

#[test]
fn use_item_rejects_key_items() {
    let mut actor = fighter(1, "Aldo", Side::Party, 50, 10);
    actor.inventory.push("rusty_key".into());
    let mut state = round_state(vec![actor]);
    let db = ItemDb { items: vec![ItemAsset { id: "rusty_key".into(), display_name: "Rusty Key".into(), kind: ItemKind::KeyItem, slot: EquipSlot::NoSlot, key_id: Some("door_1".into()), ..Default::default() }] };
    let mut r = rng(1);
    resolve_action(&mut state, &queued(1, CombatActionKind::UseItem { item: "rusty_key".into() }, TargetSelection::Self_, Side::Party), &db, 0, &mut r, scale);
    assert_eq!(last_line(&state), "Aldo cannot use Rusty Key in combat.");
    assert_eq!(state.combatants[0].inventory.len(), 1, "key not consumed");
}

#[test]
fn use_item_heals_and_consumes_potion() {
    let mut actor = fighter(1, "Aldo", Side::Party, 50, 10);
    actor.inventory = vec!["herb".into(), "potion".into(), "potion".into()];
    let mut state = round_state(vec![actor]);
    let db = ItemDb { items: vec![ItemAsset { id: "potion".into(), display_name: "Potion".into(), kind: ItemKind::Consumable, ..Default::default() }] };
    let mut r = rng(1);
    resolve_action(&mut state, &queued(1, CombatActionKind::UseItem { item: "potion".into() }, TargetSelection::Self_, Side::Party), &db, 0, &mut r, scale);
    assert_eq!(state.combatants[0].stats.current_hp, 75, "max_hp / 4 = 25 healed");
    assert_eq!(state.combatants[0].inventory, vec!["herb".to_string(), "potion".to_string()]);
    assert_eq!(last_line(&state), "Aldo drinks Potion!");
    // Unknown item: fumbles.
    resolve_action(&mut state, &queued(1, CombatActionKind::UseItem { item: "elixir".into() }, TargetSelection::Self_, Side::Party), &db, 0, &mut r, scale);
    assert_eq!(last_line(&state), "Aldo fumbles an item.");
}

#[test]
fn attack_damages_and_kills() {
    let mut target = fighter(2, "Goblin", Side::Enemy, 1, 5);
    target.stats.evasion = 0;
    let mut state = round_state(vec![fighter(1, "Aldo", Side::Party, 50, 10), target]);
    let db = ItemDb { items: vec![] };
    let mut r = rng(7);
    resolve_action(&mut state, &queued(1, CombatActionKind::Attack, TargetSelection::Single(2), Side::Party), &db, 0, &mut r, scale);
    // accuracy 100 against evasion 0 always hits; at least 1 damage kills a 1-HP goblin.
    assert_eq!(state.combatants[1].stats.current_hp, 0);
    assert_eq!(state.events.len(), 1);
    assert_eq!(state.events[0].effect, StatusEffectType::Dead);
    assert_eq!(state.events[0].target, 2);
    assert!(last_line(&state).starts_with("Aldo "));
    // A second attack on the fallen goblin finds no other enemy.
    resolve_action(&mut state, &queued(1, CombatActionKind::Attack, TargetSelection::Single(2), Side::Party), &db, 0, &mut r, scale);
    assert_eq!(last_line(&state), "Aldo's attack has no target.");
}

#[test]
fn flee_sets_attempted_and_logs() {
    let mut state = round_state(vec![fighter(1, "Aldo", Side::Party, 50, 10)]);
    let db = ItemDb { items: vec![] };
    let mut r = rng(3);
    resolve_action(&mut state, &queued(1, CombatActionKind::Flee, TargetSelection::Self_, Side::Party), &db, 0, &mut r, scale);
    assert!(state.flee.attempted_this_round);
    let line = last_line(&state);
    if state.flee.success {
        assert_eq!(line, "Aldo flees! Escape successful.");
    } else {
        assert_eq!(line, "Aldo tried to flee but failed!");
    }
}

fn run_flee_round(seed: u64) -> FleeAttempted {
    let mut state = round_state(vec![fighter(1, "Aldo", Side::Party, 100, 10), fighter(2, "Goblin", Side::Enemy, 50, 5)]);
    let db = ItemDb { items: vec![] };
    let mut queue = TurnActionQueue {
        queue: vec![QueuedAction {
            actor: 1,
            kind: CombatActionKind::Flee,
            target: TargetSelection::Nobody,
            speed_at_queue_time: 10,
            actor_side: Side::Party,
            slot_index: 0,
        }],
    };
    let mut r = rng(seed);
    execute_combat_actions(&mut queue, &mut state, &db, 0, &mut r, scale);
    state.flee
}

#[test]
fn flee_succeeds_with_seed_42() {
    let flee = run_flee_round(42);
    assert!(flee.attempted_this_round);
    let fled = flee.success;
    let flee2 = run_flee_round(42);
    assert_eq!(flee2.success, fled, "Flee result must be deterministic with same seed");
}

#[test]
fn flee_fails_with_seed_99() {
    let flee = run_flee_round(99);
    assert!(flee.attempted_this_round);
    let flee3 = run_flee_round(12345);
    assert!(flee3.attempted_this_round);
}

#[test]
fn combat_log_caps_at_50_under_resolver_load() {
    let mut state = round_state(vec![fighter(1, "Aldo", Side::Party, 50, 10)]);
    let db = ItemDb { items: vec![] };
    let mut queue = TurnActionQueue { queue: (0..60).map(|_| queued(1, CombatActionKind::Defend, TargetSelection::Self_, Side::Party)).collect() };
    let mut r = rng(1);
    execute_combat_actions(&mut queue, &mut state, &db, 0, &mut r, scale);
    assert!(queue.queue.is_empty());
    assert_eq!(state.log.entries.len(), 50);
    assert_eq!(state.events.len(), 60);
}

// ── Enemy AI ────────────────────────────────────────────────────────────────

fn ai_enemy(id: u64, hp: u32, index: u32, ai: EnemyAi) -> AiEnemy {
    let mut s = DerivedStats::zero();
    s.current_hp = hp;
    s.max_hp = 50;
    s.speed = 5;
    AiEnemy { id, ai, index, stats: s, status: StatusEffects::new() }
}

#[test]
fn random_attack_picks_alive_party_member() {
    let party = vec![member_view(10, 0, 100, vec![]), member_view(11, 1, 0, vec![])];
    let mut enemies = vec![ai_enemy(20, 50, 0, EnemyAi::RandomAttack)];
    let mut queue = TurnActionQueue { queue: vec![] };
    let mut r = rng(42);
    enemy_ai_action_select(&mut enemies, &party, &mut queue, &mut r);
    assert_eq!(queue.queue.len(), 1);
    assert_eq!(queue.queue[0].target, TargetSelection::Single(10));
    assert_eq!(queue.queue[0].actor_side, Side::Enemy);
    assert_eq!(queue.queue[0].speed_at_queue_time, 5);
}

#[test]
fn random_attack_skips_dead_enemies() {
    let party = vec![member_view(10, 0, 100, vec![])];
    let mut dead = ai_enemy(21, 50, 1, EnemyAi::RandomAttack);
    dead.status.effects.push(ActiveEffect { effect_type: StatusEffectType::Dead, remaining_turns: None, magnitude: 0 });
    let mut enemies = vec![ai_enemy(20, 0, 0, EnemyAi::RandomAttack), dead];
    let mut queue = TurnActionQueue { queue: vec![] };
    let mut r = rng(42);
    enemy_ai_action_select(&mut enemies, &party, &mut queue, &mut r);
    assert!(queue.queue.is_empty());
}

#[test]
fn boss_attack_defend_attack_cycles_correctly() {
    let party = vec![member_view(10, 0, 100, vec![])];
    let mut enemies = vec![ai_enemy(20, 100, 0, EnemyAi::BossAttackDefendAttack { turn: 0 })];
    let mut kinds = Vec::new();
    let mut r = rng(42);
    for _ in 0..3 {
        let mut queue = TurnActionQueue { queue: vec![] };
        enemy_ai_action_select(&mut enemies, &party, &mut queue, &mut r);
        kinds.push(queue.queue[0].kind.clone());
    }
    assert_eq!(enemies[0].ai, EnemyAi::BossAttackDefendAttack { turn: 3 }, "turn must be 3 after 3 rounds");
    assert!(matches!(kinds[0], CombatActionKind::Attack));
    assert!(matches!(kinds[1], CombatActionKind::Defend));
    assert!(matches!(kinds[2], CombatActionKind::Attack));
}

#[test]
fn boss_focus_weakest_picks_lowest_hp_party() {
    let party = vec![member_view(1, 0, 90, vec![]), member_view(2, 1, 10, vec![]), member_view(3, 2, 10, vec![])];
    let mut enemies = vec![ai_enemy(20, 100, 0, EnemyAi::BossFocusWeakest)];
    let mut queue = TurnActionQueue { queue: vec![] };
    let mut r = rng(42);
    enemy_ai_action_select(&mut enemies, &party, &mut queue, &mut r);
    assert_eq!(queue.queue[0].target, TargetSelection::Single(2), "lowest HP, then lowest slot");
}

#[test]
fn missing_spell_reported_once_per_actor() {
    let db = SpellDb { spells: vec![mk_damage_spell(10), mk_heal_spell()] };
    let known: Vec<String> =
        vec!["test_spell".into(), "zap".into(), "zap".into(), "test_heal".into(), "void".into()];
    let mut warned = WarnedMissingSpells::new();
    // First scan reports each missing identifier once, in order.
    assert_eq!(note_missing_spells(&mut warned, &known, &db, 7), vec!["zap".to_string(), "void".to_string()]);
    assert!(warned.contains(&"zap".to_string(), 7));
    assert!(warned.contains(&"void".to_string(), 7));
    assert!(!warned.contains(&"test_spell".to_string(), 7));
    assert_eq!(warned.set.len(), 2);
    // A second scan for the same actor reports nothing and records nothing new.
    assert!(note_missing_spells(&mut warned, &known, &db, 7).is_empty());
    assert_eq!(warned.set.len(), 2);
    // Another actor with the same list is reported separately.
    assert_eq!(note_missing_spells(&mut warned, &known, &db, 8), vec!["zap".to_string(), "void".to_string()]);
    assert!(!warned.contains(&"zap".to_string(), 9));
}
