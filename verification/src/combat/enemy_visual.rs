//! The enemies' animation state machine and the hit-point watcher that
//! triggers the damage animation.

use crate::character::{BaseStats, DerivedStats, PartyRow, StatusEffects};
use crate::combat::ai::EnemyAi;
use vstd::prelude::*;

verus! {

/// Marks an enemy combatant.
#[derive(Clone, Copy, Debug, PartialEq, Eq, Structural)]
pub struct Enemy;

/// An enemy's display name.
#[derive(Clone, Debug)]
pub struct EnemyName(pub String);

/// An enemy's position in its group.
#[derive(Clone, Copy, Debug, PartialEq, Eq, Structural)]
pub struct EnemyIndex(pub u32);

/// What an enemy's sprite is doing.
#[derive(Clone, Copy, Debug, PartialEq, Eq, Structural)]
pub enum AnimState {
    Idle,
    Attacking,
    TakingDamage,
    Dying,
}

impl Default for AnimState {
    fn default() -> (r: Self)
        ensures
            r == AnimState::Idle,
    {
        AnimState::Idle
    }
}

/// Frames per animation state.
#[derive(Clone, Copy, Debug, PartialEq, Eq, Structural)]
pub struct AnimStateFrames {
    pub idle_count: usize,
    pub attack_count: usize,
    pub damage_count: usize,
    pub dying_count: usize,
}

impl Default for AnimStateFrames {
    /// One frame per state (solid-colour placeholder sprites).
    fn default() -> (r: Self)
        ensures
            r.idle_count == 1 && r.attack_count == 1 && r.damage_count == 1 && r.dying_count == 1,
    {
        AnimStateFrames { idle_count: 1, attack_count: 1, damage_count: 1, dying_count: 1 }
    }
}

/// An enemy's animation: state and frame (the frame clock is kept by the
/// renderer, which calls `advance_frame` each time it ticks over).
#[derive(Clone, Copy, Debug, PartialEq, Eq, Structural)]
pub struct EnemyAnimation {
    pub state: AnimState,
    pub frame_index: usize,
    pub frames: AnimStateFrames,
}

impl Default for EnemyAnimation {
    fn default() -> (r: Self)
        ensures
            r.state == AnimState::Idle && r.frame_index == 0,
            r.frames.idle_count == 1 && r.frames.attack_count == 1,
            r.frames.damage_count == 1 && r.frames.dying_count == 1,
    {
        EnemyAnimation { state: AnimState::Idle, frame_index: 0, frames: AnimStateFrames::default() }
    }
}

pub open spec fn frame_count(a: EnemyAnimation) -> usize {
    match a.state {
        AnimState::Idle => a.frames.idle_count,
        AnimState::Attacking => a.frames.attack_count,
        AnimState::TakingDamage => a.frames.damage_count,
        AnimState::Dying => a.frames.dying_count,
    }
}


/// A frame tick keeps the frame counts; before the last frame it moves on
/// by one in the same state; from the last frame an
/// attack or a hit returns to the first Idle frame, Idle loops to its first
/// frame, and Dying stays on its last frame (a dying enemy never comes back).
pub proof fn lemma_frame_rules(a: EnemyAnimation)
    ensures
        ({
            let n = frame_count(a);
            let b = advanced_frame(a);
            &&& b.frames == a.frames
            &&& (n > 0 && a.frame_index + 1 < n) ==> b.state == a.state && b.frame_index == a.frame_index + 1
            &&& (n > 0 && a.frame_index + 1 >= n && (a.state == AnimState::Attacking || a.state
                == AnimState::TakingDamage)) ==> b.state == AnimState::Idle && b.frame_index == 0
            &&& (n > 0 && a.frame_index + 1 >= n && a.state == AnimState::Idle) ==> b.state
                == AnimState::Idle && b.frame_index == 0
            &&& a.state == AnimState::Dying ==> b.state == AnimState::Dying
            &&& (n > 0 && a.frame_index + 1 >= n && a.state == AnimState::Dying) ==> b.frame_index + 1 == n
            &&& n == 0 ==> b == a
        }),
{
}

/// The animation after one frame tick: the next frame; past the last one,
/// Idle loops to its first frame, Attacking and TakingDamage return to Idle,
/// and Dying holds its last frame. A state without frames does not move.
pub open spec fn advanced_frame(a: EnemyAnimation) -> EnemyAnimation {
    let n = frame_count(a);
    if n == 0 {
        a
    } else if a.frame_index + 1 < n {
        EnemyAnimation { frame_index: (a.frame_index + 1) as usize, ..a }
    } else {
        match a.state {
            AnimState::Attacking | AnimState::TakingDamage => EnemyAnimation {
                state: AnimState::Idle,
                frame_index: 0,
                ..a
            },
            AnimState::Dying => EnemyAnimation { frame_index: (n - 1) as usize, ..a },
            AnimState::Idle => EnemyAnimation { frame_index: 0, ..a },
        }
    }
}

/// Advances the animation by one frame (see `advanced_frame`).
pub fn advance_frame(anim: &mut EnemyAnimation)
    requires
        old(anim).frame_index < usize::MAX,
    ensures
        *final(anim) == advanced_frame(*old(anim)),
{
    let n = match anim.state {
        AnimState::Idle => anim.frames.idle_count,
        AnimState::Attacking => anim.frames.attack_count,
        AnimState::TakingDamage => anim.frames.damage_count,
        AnimState::Dying => anim.frames.dying_count,
    };
    if n == 0 {
        return;
    }
    anim.frame_index = anim.frame_index + 1;
    if anim.frame_index >= n {
        match anim.state {
            AnimState::Attacking | AnimState::TakingDamage => {
                anim.state = AnimState::Idle;
                anim.frame_index = 0;
            },
            AnimState::Dying => {
                anim.frame_index = n - 1;
            },
            AnimState::Idle => {
                anim.frame_index = 0;
            },
        }
    }
}

/// A request for visual feedback on an enemy.
#[derive(Clone, Copy, Debug, PartialEq, Eq, Structural)]
pub enum EnemyVisualEventKind {
    AttackStart,
    DamageTaken,
    Died,
}

/// Starts the animation for an event from its first frame.
pub fn on_enemy_visual_event(anim: &mut EnemyAnimation, kind: EnemyVisualEventKind)
    ensures
        final(anim).state == match kind {
            EnemyVisualEventKind::AttackStart => AnimState::Attacking,
            EnemyVisualEventKind::DamageTaken => AnimState::TakingDamage,
            EnemyVisualEventKind::Died => AnimState::Dying,
        },
        final(anim).frame_index == 0,
        final(anim).frames == old(anim).frames,
{
    anim.state = match kind {
        EnemyVisualEventKind::AttackStart => AnimState::Attacking,
        EnemyVisualEventKind::DamageTaken => AnimState::TakingDamage,
        EnemyVisualEventKind::Died => AnimState::Dying,
    };
    anim.frame_index = 0;
}

/// The hit points last seen on an enemy.
#[derive(Clone, Copy, Debug, PartialEq, Eq, Structural)]
pub struct PreviousHp(pub u32);

/// Watches an enemy's hit points: the first look only records them; later,
/// a drop below the recorded value signals damage. The record becomes the
/// current value. Returns whether damage was taken.
pub fn detect_enemy_damage(previous: &mut Option<PreviousHp>, current_hp: u32) -> (damaged: bool)
    ensures
        damaged == match *old(previous) {
            Some(p) => current_hp < p.0,
            None => false,
        },
        *final(previous) == Some(PreviousHp(current_hp)),
{
    let damaged = match *previous {
        Some(p) => current_hp < p.0,
        None => false,
    };
    *previous = Some(PreviousHp(current_hp));
    damaged
}

/// A new enemy's components.
#[derive(Clone, Debug)]
pub struct EnemyBundle {
    pub marker: Enemy,
    pub name: EnemyName,
    pub index: EnemyIndex,
    pub base_stats: BaseStats,
    pub derived_stats: DerivedStats,
    pub status_effects: StatusEffects,
    pub party_row: PartyRow,
    pub ai: EnemyAi,
    pub animation: EnemyAnimation,
}

impl Default for EnemyBundle {
    fn default() -> (r: Self)
        ensures
            r.name.0@.len() == 0,
            r.index.0 == 0,
            r.derived_stats == DerivedStats::zero_spec(),
            r.status_effects.effects@.len() == 0,
            r.party_row == PartyRow::Front,
            r.ai == EnemyAi::RandomAttack,
            r.animation.state == AnimState::Idle && r.animation.frame_index == 0,
    {
        EnemyBundle {
            marker: Enemy,
            name: EnemyName(String::new()),
            index: EnemyIndex(0),
            base_stats: BaseStats::zero(),
            derived_stats: DerivedStats::zero(),
            status_effects: StatusEffects::new(),
            party_row: PartyRow::Front,
            ai: EnemyAi::RandomAttack,
            animation: EnemyAnimation::default(),
        }
    }
}

} // verus!
