use druum::character::{ActiveEffect, DerivedStats, StatusEffectType, StatusEffects};
use druum::combat::actions::{CombatActionKind, Side};
use druum::combat::combat_log::CombatLog;
use druum::combat::encounter::{
    fleeable_for, handle_encounter_request, plan_encounter, EncounterState, FoeProximity,
    DEFAULT_COLOR_CHANNEL, MAX_ENEMIES_PER_ENCOUNTER,
};
use druum::combat::enemy_visual::{
    advance_frame, detect_enemy_damage, on_enemy_visual_event, AnimState, AnimStateFrames,
    EnemyAnimation, EnemyBundle, EnemyVisualEventKind,
};
use druum::combat::menu::{
    format_status_effects, handle_combat_input, spell_menu_view, MenuEnemy, MenuMember,
    MenuPresses, SpellMenuView,
};
use druum::combat::targeting::TargetSelection;
use druum::combat::turn_manager::{MenuFrame, PlayerInputState, TurnActionQueue};
use druum::combat::ai::EnemyAi;
use druum::data::encounters::{EncounterEntry, EncounterTable, EnemyGroup, EnemySpec};
use druum::data::enemies::{EnemyDb, EnemyDefinition};
use druum::data::spells::{SpellAsset, SpellDb, SpellEffect, SpellTarget};
use druum::dungeon::features::{EncounterRequested, EncounterSource};
use druum::game::{
    apply_logical_key_bindings, bgm_for_state, default_combat_bindings, default_dungeon_bindings,
    default_menu_bindings, BgmTrack, CombatAction, DungeonAction, GameState, MenuAction, PhysicalKey,
};
use druum::character::BaseStats;
use rand::rngs::SmallRng;
use rand::SeedableRng;

fn no_press() -> MenuPresses {
    MenuPresses { up: false, down: false, left: false, right: false, confirm: false, cancel: false }
}

fn menu_member(slot: usize, status: Vec<StatusEffectType>, known: Option<Vec<&str>>) -> MenuMember {
    let mut s = DerivedStats::zero();
    s.current_hp = 100;
    s.max_hp = 100;
    s.speed = 10;
    s.current_mp = 20;
    MenuMember {
        id: 100 + slot as u64,
        name: format!("Hero{}", slot),
        slot,
        stats: s,
        status: StatusEffects {
            effects: status.into_iter().map(|t| ActiveEffect { effect_type: t, remaining_turns: Some(3), magnitude: 0 }).collect(),
        },
        known_spells: known.map(|k| k.into_iter().map(|s| s.to_string()).collect()),
    }
}

fn enemies(n: u64) -> Vec<MenuEnemy> {
    (0..n).map(|i| MenuEnemy { id: 500 + i, current_hp: 10 }).collect()
}

fn input_at(slot: usize, stack: Vec<MenuFrame>) -> PlayerInputState {
    let mut s = PlayerInputState::for_new_combat();
    s.active_slot = Some(slot);
    s.menu_stack = stack;
    s
}

#[test]
fn handle_combat_input_no_panic_with_no_enemies_or_party() {
    let mut input = PlayerInputState::for_new_combat();
    let mut queue = TurnActionQueue { queue: vec![] };
    let mut log = CombatLog::default();
    handle_combat_input(&MenuPresses { confirm: true, ..no_press() }, true, &mut input, &mut queue, &mut log, &vec![], &vec![], None);
    assert!(queue.queue.is_empty());
    assert!(log.entries.is_empty());
}

#[test]
fn target_cursor_clamps_at_enemy_count() {
    let mut input = input_at(0, vec![MenuFrame::TargetSelect { kind: CombatActionKind::Attack }]);
    input.target_cursor = Some(1);
    let mut queue = TurnActionQueue { queue: vec![] };
    let mut log = CombatLog::default();
    let party = vec![menu_member(0, vec![], None)];
    for _ in 0..3 {
        handle_combat_input(&MenuPresses { down: true, ..no_press() }, true, &mut input, &mut queue, &mut log, &party, &enemies(2), None);
    }
    assert_eq!(input.target_cursor, Some(1));
}

#[test]
fn cancel_pops_submenu() {
    let mut input = input_at(0, vec![MenuFrame::Main, MenuFrame::TargetSelect { kind: CombatActionKind::Attack }]);
    input.target_cursor = Some(0);
    let mut queue = TurnActionQueue { queue: vec![] };
    let mut log = CombatLog::default();
    let party = vec![menu_member(0, vec![], None)];
    handle_combat_input(&MenuPresses { cancel: true, ..no_press() }, true, &mut input, &mut queue, &mut log, &party, &enemies(1), None);
    assert_eq!(input.menu_stack.len(), 1);
    assert!(input.target_cursor.is_none());
    // Cancel on Main alone does nothing.
    handle_combat_input(&MenuPresses { cancel: true, ..no_press() }, true, &mut input, &mut queue, &mut log, &party, &enemies(1), None);
    assert_eq!(input.menu_stack.len(), 1);
}

#[test]
fn attack_then_target_commits_action() {
    let mut input = input_at(0, vec![MenuFrame::Main]);
    let mut queue = TurnActionQueue { queue: vec![] };
    let mut log = CombatLog::default();
    let party = vec![menu_member(0, vec![], None)];
    let foes = enemies(3);
    handle_combat_input(&MenuPresses { confirm: true, ..no_press() }, true, &mut input, &mut queue, &mut log, &party, &foes, None);
    assert_eq!(input.menu_stack.len(), 2);
    assert_eq!(input.target_cursor, Some(0));
    handle_combat_input(&MenuPresses { down: true, ..no_press() }, true, &mut input, &mut queue, &mut log, &party, &foes, None);
    handle_combat_input(&MenuPresses { confirm: true, ..no_press() }, true, &mut input, &mut queue, &mut log, &party, &foes, None);
    assert_eq!(queue.queue.len(), 1);
    assert_eq!(queue.queue[0].target, TargetSelection::Single(501));
    assert_eq!(queue.queue[0].actor, 100);
    assert_eq!(queue.queue[0].actor_side, Side::Party);
    assert_eq!(input.committed.len(), 1);
    assert_eq!(input.active_slot, None);
    assert_eq!(input.menu_stack.len(), 1);
}

#[test]
fn main_cursor_moves_and_defend_commits() {
    let mut input = input_at(0, vec![MenuFrame::Main]);
    let mut queue = TurnActionQueue { queue: vec![] };
    let mut log = CombatLog::default();
    let party = vec![menu_member(0, vec![], None)];
    for _ in 0..7 {
        handle_combat_input(&MenuPresses { right: true, ..no_press() }, true, &mut input, &mut queue, &mut log, &party, &enemies(1), None);
    }
    assert_eq!(input.main_cursor, 4, "cursor stops at Flee");
    for _ in 0..3 {
        handle_combat_input(&MenuPresses { up: true, ..no_press() }, true, &mut input, &mut queue, &mut log, &party, &enemies(1), None);
    }
    assert_eq!(input.main_cursor, 1);
    handle_combat_input(&MenuPresses { confirm: true, ..no_press() }, true, &mut input, &mut queue, &mut log, &party, &enemies(1), None);
    assert!(matches!(queue.queue[0].kind, CombatActionKind::Defend));
    assert_eq!(queue.queue[0].target, TargetSelection::Self_);
}

#[test]
fn item_menu_is_a_stub() {
    let mut input = input_at(0, vec![MenuFrame::Main, MenuFrame::ItemMenu]);
    let mut queue = TurnActionQueue { queue: vec![] };
    let mut log = CombatLog::default();
    let party = vec![menu_member(0, vec![], None)];
    handle_combat_input(&no_press(), true, &mut input, &mut queue, &mut log, &party, &enemies(1), None);
    assert_eq!(log.entries.back().unwrap().message, "Item menu: not yet implemented.");
    assert!(matches!(input.menu_stack[..], [MenuFrame::Main]));
}

#[test]
fn silence_blocks_spell_menu() {
    let mut input = input_at(0, vec![MenuFrame::Main, MenuFrame::SpellMenu]);
    let mut queue = TurnActionQueue { queue: vec![] };
    let mut log = CombatLog::default();
    let party = vec![menu_member(0, vec![StatusEffectType::Silence], None)];
    handle_combat_input(&no_press(), true, &mut input, &mut queue, &mut log, &party, &enemies(1), None);
    assert_eq!(input.menu_stack.len(), 1, "SpellMenu should be popped when actor is silenced");
    assert!(matches!(input.menu_stack.last(), Some(MenuFrame::Main)));
    assert_eq!(log.entries.back().unwrap().message, "You are silenced; cannot cast.");
}

fn spell(id: &str, cost: u32, target: SpellTarget) -> SpellAsset {
    SpellAsset { id: id.into(), display_name: id.to_uppercase(), mp_cost: cost, target, effect: SpellEffect::Damage { power: 8 }, ..Default::default() }
}

#[test]
fn silence_blocks_real_spell_menu() {
    let db = SpellDb { spells: vec![spell("halito", 2, SpellTarget::SingleEnemy)] };
    let mut input = input_at(0, vec![MenuFrame::Main, MenuFrame::SpellMenu]);
    let mut queue = TurnActionQueue { queue: vec![] };
    let mut log = CombatLog::default();
    let party = vec![menu_member(0, vec![StatusEffectType::Silence], Some(vec!["halito"]))];
    handle_combat_input(&MenuPresses { confirm: true, ..no_press() }, true, &mut input, &mut queue, &mut log, &party, &enemies(1), Some(&db));
    assert_eq!(input.menu_stack.len(), 1);
    assert!(queue.queue.is_empty());
}

#[test]
fn spell_menu_lists_castable_and_commits_group_spell() {
    let db = SpellDb {
        spells: vec![
            spell("halito", 2, SpellTarget::SingleEnemy),
            spell("mahalito", 50, SpellTarget::AllEnemies),
            spell("katino", 3, SpellTarget::AllEnemies),
        ],
    };
    let party = vec![menu_member(0, vec![], Some(vec!["halito", "ghost", "mahalito", "katino"]))];
    let mut input = input_at(0, vec![MenuFrame::Main, MenuFrame::SpellMenu]);
    match spell_menu_view(&input, &party, Some(&db)) {
        SpellMenuView::Castable { spells, cursor } => {
            assert_eq!(spells, vec![0, 2], "unknown and unaffordable spells are left out");
            assert_eq!(cursor, 0);
        }
        other => panic!("unexpected view {:?}", other),
    }
    let mut queue = TurnActionQueue { queue: vec![] };
    let mut log = CombatLog::default();
    handle_combat_input(&MenuPresses { down: true, ..no_press() }, true, &mut input, &mut queue, &mut log, &party, &enemies(2), Some(&db));
    handle_combat_input(&MenuPresses { down: true, ..no_press() }, true, &mut input, &mut queue, &mut log, &party, &enemies(2), Some(&db));
    assert_eq!(input.spell_cursor, 1, "cursor stays within the castable list");
    handle_combat_input(&MenuPresses { confirm: true, ..no_press() }, true, &mut input, &mut queue, &mut log, &party, &enemies(2), Some(&db));
    assert_eq!(queue.queue.len(), 1);
    assert!(matches!(&queue.queue[0].kind, CombatActionKind::CastSpell { spell_id } if spell_id == "katino"));
    assert_eq!(queue.queue[0].target, TargetSelection::AllEnemies);
    assert_eq!(input.active_slot, None);
    assert_eq!(input.spell_cursor, 0);
}

#[test]
fn single_enemy_spell_without_targets_logs() {
    let db = SpellDb { spells: vec![spell("halito", 2, SpellTarget::SingleEnemy)] };
    let party = vec![menu_member(0, vec![], Some(vec!["halito"]))];
    let mut input = input_at(0, vec![MenuFrame::Main, MenuFrame::SpellMenu]);
    let mut queue = TurnActionQueue { queue: vec![] };
    let mut log = CombatLog::default();
    let fallen = vec![MenuEnemy { id: 9, current_hp: 0 }];
    handle_combat_input(&MenuPresses { confirm: true, ..no_press() }, true, &mut input, &mut queue, &mut log, &party, &fallen, Some(&db));
    assert_eq!(log.entries.back().unwrap().message, "Hero0: no valid targets for HALITO");
    assert_eq!(input.menu_stack.len(), 2, "stays in the spell menu");
}

#[test]
fn spell_menu_view_states() {
    let party = vec![menu_member(0, vec![], Some(vec![])), menu_member(1, vec![], None)];
    let db = SpellDb { spells: vec![] };
    assert!(matches!(spell_menu_view(&PlayerInputState::for_new_combat(), &party, Some(&db)), SpellMenuView::NoActor));
    let at0 = input_at(0, vec![MenuFrame::SpellMenu]);
    assert!(matches!(spell_menu_view(&at0, &party, None), SpellMenuView::Loading));
    assert!(matches!(spell_menu_view(&at0, &party, Some(&db)), SpellMenuView::Empty));
    let at1 = input_at(1, vec![MenuFrame::SpellMenu]);
    assert!(matches!(spell_menu_view(&at1, &party, Some(&db)), SpellMenuView::Empty));
    let poor = vec![menu_member(0, vec![], Some(vec!["x"]))];
    assert!(matches!(spell_menu_view(&at0, &poor, Some(&db)), SpellMenuView::NoCastable));
}

#[test]
fn status_line_format() {
    let status = StatusEffects {
        effects: vec![
            ActiveEffect { effect_type: StatusEffectType::Stone, remaining_turns: None, magnitude: 0 },
            ActiveEffect { effect_type: StatusEffectType::Sleep, remaining_turns: Some(2), magnitude: 0 },
            ActiveEffect { effect_type: StatusEffectType::DefenseUp, remaining_turns: Some(2), magnitude: 0.5f32.to_bits() },
            ActiveEffect { effect_type: StatusEffectType::AttackUp, remaining_turns: None, magnitude: 1.0f32.to_bits() },
        ],
    };
    let mags: Vec<String> = status.effects.iter().map(|e| format!("{:.1}", f32::from_bits(e.magnitude))).collect();
    assert_eq!(format_status_effects(&status, &mags), "Stone, Sleep(2t), DefenseUp(2t ×0.5), AttackUp(×1.0)");
    assert_eq!(format_status_effects(&StatusEffects::new(), &vec![]), "");
    // A negative-zero magnitude is zero: not shown.
    let neg = StatusEffects {
        effects: vec![ActiveEffect { effect_type: StatusEffectType::Regen, remaining_turns: None, magnitude: (-0.0f32).to_bits() }],
    };
    assert_eq!(format_status_effects(&neg, &vec!["-0.0".to_string()]), "Regen");
}

// ── Enemy visuals ───────────────────────────────────────────────────────────

#[test]
fn animation_attacking_returns_to_idle() {
    let mut anim = EnemyAnimation {
        state: AnimState::Attacking,
        frame_index: 0,
        frames: AnimStateFrames { idle_count: 1, attack_count: 4, damage_count: 1, dying_count: 1 },
    };
    for _ in 0..4 {
        advance_frame(&mut anim);
    }
    assert_eq!(anim.state, AnimState::Idle, "Attacking returns to Idle after attack_count frames");
    assert_eq!(anim.frame_index, 0);
}

#[test]
fn animation_dying_holds_last_frame() {
    let mut anim = EnemyAnimation {
        state: AnimState::Dying,
        frame_index: 0,
        frames: AnimStateFrames { idle_count: 1, attack_count: 1, damage_count: 1, dying_count: 3 },
    };
    for _ in 0..10 {
        advance_frame(&mut anim);
    }
    assert_eq!(anim.state, AnimState::Dying, "Dying must not transition out");
    assert_eq!(anim.frame_index, 2, "Dying holds last frame (count - 1)");
}

#[test]
fn visual_event_restarts_animation() {
    let mut anim = EnemyAnimation::default();
    anim.frame_index = 0;
    on_enemy_visual_event(&mut anim, EnemyVisualEventKind::DamageTaken);
    assert_eq!(anim.state, AnimState::TakingDamage);
    on_enemy_visual_event(&mut anim, EnemyVisualEventKind::Died);
    assert_eq!((anim.state, anim.frame_index), (AnimState::Dying, 0));
}

#[test]
fn hp_delta_emits_damage_taken_event() {
    let mut prev = None;
    assert!(!detect_enemy_damage(&mut prev, 0), "seeding frame is no damage");
    assert!(!detect_enemy_damage(&mut prev, 30), "a rise is no damage");
    assert!(detect_enemy_damage(&mut prev, 25), "a drop is damage");
    assert!(!detect_enemy_damage(&mut prev, 25));
}

#[test]
fn enemy_bundle_default_is_alive_marker() {
    let b = EnemyBundle::default();
    assert_eq!(b.derived_stats.current_hp, 0);
    assert_eq!(b.index.0, 0);
}

// ── Encounters ──────────────────────────────────────────────────────────────

#[test]
fn foe_proximity_default_does_not_suppress() {
    assert!(!FoeProximity { nearby_foe_entities: vec![] }.suppresses_random_rolls());
}

#[test]
fn foe_proximity_with_entities_suppresses() {
    assert!(FoeProximity { nearby_foe_entities: vec![3] }.suppresses_random_rolls());
}

#[test]
fn encounter_state_default_is_zero() {
    assert_eq!(EncounterState::default().steps_since_last, 0);
}

#[test]
fn steps_reset_on_dungeon_entry() {
    let mut s = EncounterState::default();
    for _ in 0..5 {
        s.record_step();
    }
    assert_eq!(s.steps_since_last, 5);
    s.reset();
    assert_eq!(s.steps_since_last, 0);
    let mut full = EncounterState { steps_since_last: u32::MAX };
    full.record_step();
    assert_eq!(full.steps_since_last, u32::MAX);
}

fn spec(name: &str) -> EnemySpec {
    EnemySpec { id: name.to_lowercase(), name: name.into(), base_stats: BaseStats::zero(), derived_stats: DerivedStats::zero(), ai: EnemyAi::RandomAttack }
}

#[test]
fn max_enemies_per_encounter_truncation() {
    let group = EnemyGroup { enemies: (0..12).map(|i| spec(&format!("G{i}"))).collect() };
    let spawns = plan_encounter(&group, None);
    assert_eq!(spawns.len(), MAX_ENEMIES_PER_ENCOUNTER);
    assert_eq!(spawns[7].index, 7);
    assert_eq!(spawns[7].name, "G7");
    let small = EnemyGroup { enemies: (0..3).map(|i| spec(&format!("S{i}"))).collect() };
    assert_eq!(plan_encounter(&small, None).len(), 3);
}

#[test]
fn encounter_plan_uses_roster_colours() {
    let db = EnemyDb {
        enemies: vec![EnemyDefinition {
            id: "goblin".into(),
            display_name: "Goblin".into(),
            base_stats: BaseStats::zero(),
            derived_stats: DerivedStats::zero(),
            ai: EnemyAi::RandomAttack,
            placeholder_color: [0.4f32.to_bits(), 0.6f32.to_bits(), 0.3f32.to_bits()],
            sprite_path: None,
        }],
    };
    let group = EnemyGroup { enemies: vec![spec("Goblin"), spec("Kobold")] };
    let spawns = plan_encounter(&group, Some(&db));
    assert_eq!(f32::from_bits(spawns[0].placeholder_color[1]), 0.6);
    assert_eq!(spawns[1].placeholder_color, [DEFAULT_COLOR_CHANNEL; 3]);
    assert_eq!(f32::from_bits(DEFAULT_COLOR_CHANNEL), 0.5);
}

#[test]
fn encounter_request_bails_safely_without_table() {
    let mut rng = SmallRng::seed_from_u64(3);
    let req = Some(EncounterRequested { source: EncounterSource::Random });
    assert!(handle_encounter_request(req, None, None, &mut rng).is_none());
    assert!(handle_encounter_request(None, None, None, &mut rng).is_none());
    let table = EncounterTable { id: "t".into(), entries: vec![EncounterEntry { weight: 5, group: EnemyGroup { enemies: vec![spec("Bat")] } }] };
    let plan = handle_encounter_request(req, Some(&table), None, &mut rng).expect("a group is drawn");
    assert!(plan.fleeable);
    assert_eq!(plan.spawns.len(), 1);
    assert!(fleeable_for(EncounterSource::AlarmTrap));
}

// ── Game state and input ────────────────────────────────────────────────────

#[test]
fn state_change_to_town_spawns_bgm_entity() {
    assert_eq!(bgm_for_state(GameState::Town), Some(BgmTrack::Town));
    assert_eq!(bgm_for_state(GameState::Loading), None);
    assert_eq!(bgm_for_state(GameState::Combat), Some(BgmTrack::Combat));
}

#[test]
fn dungeon_w_press_triggers_move_forward() {
    let b = default_dungeon_bindings();
    assert!(b.contains(&(DungeonAction::MoveForward, PhysicalKey::KeyW)));
}

#[test]
fn dungeon_arrow_up_also_triggers_move_forward() {
    let b = default_dungeon_bindings();
    assert!(b.contains(&(DungeonAction::MoveForward, PhysicalKey::ArrowUp)));
}

#[test]
fn menu_escape_triggers_cancel() {
    assert!(default_menu_bindings().contains(&(MenuAction::Cancel, PhysicalKey::Escape)));
}

#[test]
fn combat_enter_triggers_confirm() {
    assert!(default_combat_bindings().contains(&(CombatAction::Confirm, PhysicalKey::Enter)));
}

#[test]
fn logical_letters_press_actions() {
    let (d, m) = apply_logical_key_bindings("W");
    assert_eq!(d, vec![DungeonAction::MoveForward]);
    assert_eq!(m, vec![MenuAction::Up]);
    let (d, m) = apply_logical_key_bindings("f");
    assert_eq!(d, vec![DungeonAction::Interact]);
    assert_eq!(m, vec![MenuAction::RowSwap]);
    let (d, m) = apply_logical_key_bindings("]");
    assert!(d.is_empty());
    assert_eq!(m, vec![MenuAction::NextTarget]);
    let (d, m) = apply_logical_key_bindings("wa");
    assert!(d.is_empty() && m.is_empty());
    let (d, m) = apply_logical_key_bindings("z");
    assert!(d.is_empty() && m.is_empty());
}
