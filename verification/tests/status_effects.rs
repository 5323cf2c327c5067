use druum::character::{ActiveEffect, DerivedStats, StatusEffectType, StatusEffects};
use druum::combat::status_effects::{
    apply_poison_damage, apply_regen, apply_status_handler, check_dead_and_apply, clamp_potency,
    is_asleep, is_paralyzed, is_silenced, poison_tick_base, tick_status_durations,
    ApplyStatusEvent, POTENCY_HALF, POTENCY_MAX, POTENCY_ONE,
};

fn member(current_hp: u32) -> DerivedStats {
    let mut d = DerivedStats::zero();
    d.current_hp = current_hp;
    d.max_hp = 100;
    d.max_mp = 50;
    d
}

fn apply(status: &mut StatusEffects, effect: StatusEffectType, potency: f32, duration: Option<u32>) {
    apply_status_handler(
        status,
        &ApplyStatusEvent { target: 1, effect, potency: potency.to_bits(), duration },
    );
}

/// The tick scaling the game applies: base times the magnitude, in single precision.
fn scaled_tick(derived: &DerivedStats, magnitude_bits: u32) -> u32 {
    (poison_tick_base(derived) as f32 * f32::from_bits(magnitude_bits)) as u32
}

/// One status tick: poison damage and regeneration first, then the durations.
fn status_tick(status: &mut StatusEffects, derived: &mut DerivedStats) {
    if let Some(p) = status.effects.iter().find(|e| e.effect_type == StatusEffectType::Poison) {
        let scaled = scaled_tick(derived, p.magnitude);
        apply_poison_damage(status, derived, scaled);
    }
    if let Some(r) = status.effects.iter().find(|e| e.effect_type == StatusEffectType::Regen) {
        let scaled = scaled_tick(derived, r.magnitude);
        apply_regen(status, derived, scaled);
    }
    tick_status_durations(status);
}

#[test]
fn is_paralyzed_returns_true_when_present() {
    let mut status = StatusEffects::new();
    status.effects.push(ActiveEffect {
        effect_type: StatusEffectType::Paralysis,
        remaining_turns: Some(3),
        magnitude: 0,
    });
    assert!(is_paralyzed(&status));
    assert!(!is_asleep(&status));
    assert!(!is_silenced(&status));
}

#[test]
fn is_silenced_returns_false_when_absent() {
    let status = StatusEffects::new();
    assert!(!is_silenced(&status));
}

#[test]
fn apply_status_handler_pushes_new_effect() {
    let mut status = StatusEffects::new();
    apply(&mut status, StatusEffectType::Poison, 1.0, Some(5));
    assert_eq!(status.effects.len(), 1);
    assert_eq!(status.effects[0].effect_type, StatusEffectType::Poison);
    assert_eq!(f32::from_bits(status.effects[0].magnitude), 1.0);
}

#[test]
fn apply_status_handler_refreshes_duration() {
    let mut status = StatusEffects::new();
    apply(&mut status, StatusEffectType::Poison, 0.5, Some(3));
    apply(&mut status, StatusEffectType::Poison, 1.0, Some(5));
    assert_eq!(status.effects.len(), 1, "stacking does not duplicate");
    assert_eq!(status.effects[0].remaining_turns, Some(5), "duration refreshed");
    assert_eq!(f32::from_bits(status.effects[0].magnitude), 1.0, "max magnitude wins");
}

#[test]
fn apply_status_handler_takes_higher_magnitude() {
    let mut status = StatusEffects::new();
    apply(&mut status, StatusEffectType::Poison, 1.0, Some(5));
    apply(&mut status, StatusEffectType::Poison, 0.3, Some(5));
    assert_eq!(f32::from_bits(status.effects[0].magnitude), 1.0, "higher magnitude wins");
}

#[test]
fn apply_status_handler_stone_reapply_is_noop() {
    let mut status = StatusEffects::new();
    apply(&mut status, StatusEffectType::Stone, 1.0, None);
    let len_after_first = status.effects.len();
    let rederive = apply_status_handler(
        &mut status,
        &ApplyStatusEvent { target: 1, effect: StatusEffectType::Stone, potency: POTENCY_ONE, duration: None },
    );
    assert_eq!(status.effects.len(), len_after_first, "Stone re-apply no-op");
    assert!(!rederive);
}

#[test]
fn apply_status_handler_clamps_nan_to_zero() {
    let mut status = StatusEffects::new();
    apply(&mut status, StatusEffectType::Poison, f32::NAN, Some(5));
    assert_eq!(f32::from_bits(status.effects[0].magnitude), 0.0, "NaN clamps to 0");
}

#[test]
fn tick_decrements_duration() {
    let mut status = StatusEffects::new();
    let mut derived = member(100);
    apply(&mut status, StatusEffectType::Poison, 0.0, Some(3));
    status_tick(&mut status, &mut derived);
    assert_eq!(status.effects[0].remaining_turns, Some(2));
}

#[test]
fn tick_removes_expired() {
    let mut status = StatusEffects::new();
    let mut derived = member(100);
    apply(&mut status, StatusEffectType::Poison, 0.0, Some(1));
    status_tick(&mut status, &mut derived);
    assert!(status.effects.is_empty(), "duration-1 expires after tick");
}

#[test]
fn tick_skips_permanent_effects() {
    let mut status = StatusEffects::new();
    let mut derived = member(100);
    apply(&mut status, StatusEffectType::Stone, 1.0, None);
    for _ in 0..5 {
        status_tick(&mut status, &mut derived);
    }
    assert_eq!(status.effects.len(), 1);
    assert!(status.has(StatusEffectType::Stone));
}

#[test]
fn poison_damages_on_tick() {
    let mut status = StatusEffects::new();
    let mut derived = member(100);
    apply(&mut status, StatusEffectType::Poison, 1.0, Some(5));
    status_tick(&mut status, &mut derived);
    assert_eq!(derived.current_hp, 95, "5% of max_hp=100 = 5 damage");
}

#[test]
fn regen_heals_on_tick_capped_at_max() {
    let mut status = StatusEffects::new();
    let mut derived = member(1);
    apply(&mut status, StatusEffectType::Regen, 1.0, Some(100));
    status_tick(&mut status, &mut derived);
    assert_eq!(derived.current_hp, 6, "5% of max_hp=100 = 5 heal; 1+5=6");
    for _ in 0..50 {
        status_tick(&mut status, &mut derived);
    }
    assert_eq!(derived.current_hp, 100, "regen caps at max_hp");
}

#[test]
fn duration_one_poison_damages_then_expires_same_frame() {
    let mut status = StatusEffects::new();
    let mut derived = member(100);
    apply(&mut status, StatusEffectType::Poison, 1.0, Some(1));
    status_tick(&mut status, &mut derived);
    assert_eq!(derived.current_hp, 95, "duration-1 poison damaged on its final tick");
    assert!(status.effects.is_empty(), "...and was removed after");
}

#[test]
fn check_dead_and_apply_writes_when_hp_zero() {
    let derived = member(0);
    let ev = check_dead_and_apply(7, &derived).expect("Dead requested at 0 HP");
    let mut status = StatusEffects::new();
    apply_status_handler(&mut status, &ev);
    assert!(status.has(StatusEffectType::Dead), "Dead applied when hp == 0");
    assert_eq!(ev.target, 7);
    assert_eq!(ev.potency, POTENCY_ONE);
    assert_eq!(ev.duration, None);
}

#[test]
fn check_dead_and_apply_no_op_when_hp_positive() {
    let derived = member(50);
    assert!(check_dead_and_apply(7, &derived).is_none(), "no Dead applied when hp > 0");
}

#[test]
fn potency_clamp_cases() {
    assert_eq!(clamp_potency(f32::INFINITY.to_bits()), 0);
    assert_eq!(clamp_potency((-2.0f32).to_bits()), 0);
    assert_eq!(clamp_potency((-0.0f32).to_bits()), 0);
    assert_eq!(clamp_potency(25.0f32.to_bits()), POTENCY_MAX);
    assert_eq!(f32::from_bits(POTENCY_MAX), 10.0);
    assert_eq!(clamp_potency(0.5f32.to_bits()), POTENCY_HALF);
    assert_eq!(f32::from_bits(POTENCY_HALF), 0.5);
    assert_eq!(f32::from_bits(POTENCY_ONE), 1.0);
}

#[test]
fn stat_buff_requests_rederive_once() {
    let mut status = StatusEffects::new();
    let first = apply_status_handler(
        &mut status,
        &ApplyStatusEvent { target: 1, effect: StatusEffectType::DefenseUp, potency: POTENCY_HALF, duration: Some(1) },
    );
    assert!(first);
    let poison = apply_status_handler(
        &mut status,
        &ApplyStatusEvent { target: 1, effect: StatusEffectType::Poison, potency: POTENCY_HALF, duration: Some(1) },
    );
    assert!(!poison);
}

#[test]
fn tick_reports_expired_modifier() {
    let mut status = StatusEffects::new();
    apply(&mut status, StatusEffectType::AttackUp, 1.0, Some(1));
    apply(&mut status, StatusEffectType::Poison, 1.0, Some(4));
    assert!(tick_status_durations(&mut status));
    assert_eq!(status.effects.len(), 1);
    assert_eq!(status.effects[0].remaining_turns, Some(3));
    assert!(!tick_status_durations(&mut status));
}
