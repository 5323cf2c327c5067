//! The combat menu: how the player's button presses move through the menus
//! and commit the active party member's action.
//!
//! Frames: Main (Attack, Defend, Spell, Item, Flee), a target list, the
//! spell list and the item list. Cancel pops back one frame; committing an
//! action returns to Main and hands over to the next member.

use crate::character::{holds, ActiveEffect, DerivedStats, EntityId, StatusEffectType, StatusEffects};
use crate::text::{decimal, push_decimal};
use crate::combat::actions::{CombatActionKind, QueuedAction, Side};
use crate::combat::combat_log::{keep_last, lines, CombatLog};
use crate::combat::round::logged;
use crate::combat::status_effects::is_silenced;
use crate::combat::targeting::TargetSelection;
use crate::combat::turn_manager::{MenuFrame, PendingAction, PlayerInputState, TurnActionQueue};
use crate::data::lookup::{first_with_key, has_key, position_of_key};
use crate::data::spells::{SpellAsset, SpellDb, SpellTarget, MAX_SPELL_MP_COST};
use vstd::prelude::*;
use vstd::string::*;

verus! {

/// The menu buttons pressed this frame.
#[derive(Clone, Copy, Debug, PartialEq, Eq, Structural)]
pub struct MenuPresses {
    pub up: bool,
    pub down: bool,
    pub left: bool,
    pub right: bool,
    pub confirm: bool,
    pub cancel: bool,
}

/// A party member as the menu sees it.
#[derive(Debug)]
pub struct MenuMember {
    pub id: EntityId,
    pub name: String,
    pub slot: usize,
    pub stats: DerivedStats,
    pub status: StatusEffects,
    /// The spells the member knows, when they are known at all.
    pub known_spells: Option<Vec<String>>,
}

/// An enemy as the menu sees it.
#[derive(Clone, Copy, Debug, PartialEq, Eq, Structural)]
pub struct MenuEnemy {
    pub id: EntityId,
    pub current_hp: u32,
}

/// Number of entries of the Main frame.
pub const MAIN_ACTION_COUNT: usize = 5;

/// The input state as values: active slot, menu stack, committed actions,
/// pending action, target cursor, main cursor, spell cursor, turn.
pub type InputView = (
    Option<usize>,
    Seq<MenuFrame>,
    Seq<QueuedAction>,
    Option<PendingAction>,
    Option<usize>,
    usize,
    usize,
    u32,
);

pub open spec fn input_view(s: PlayerInputState) -> InputView {
    (
        s.active_slot,
        s.menu_stack@,
        s.committed@,
        s.pending_action,
        s.target_cursor,
        s.main_cursor,
        s.spell_cursor,
        s.current_turn,
    )
}

/// The index of the first member in `slot`, or `ms.len()`.
pub open spec fn member_in_slot(ms: Seq<MenuMember>, slot: usize) -> int
    decreases ms.len(),
{
    if ms.len() == 0 {
        0
    } else if ms[0].slot == slot {
        0
    } else {
        1 + member_in_slot(ms.drop_first(), slot)
    }
}

/// The spell's MP cost (capped) is within `mp`.
pub open spec fn affordable(sp: SpellAsset, mp: u32) -> bool {
    (if sp.mp_cost <= MAX_SPELL_MP_COST { sp.mp_cost } else { MAX_SPELL_MP_COST }) <= mp
}

/// The positions in `db` of the known spells that exist and are affordable,
/// in the order they are known.
pub open spec fn castable(db: Seq<SpellAsset>, known: Seq<String>, mp: u32) -> Seq<int>
    decreases known.len(),
{
    if known.len() == 0 {
        Seq::empty()
    } else {
        let rest = castable(db, known.drop_last(), mp);
        let k = known.last()@;
        if has_key(db, k) && affordable(db[first_with_key(db, k)], mp) {
            rest.push(first_with_key(db, k))
        } else {
            rest
        }
    }
}


/// The spell list holds, in the order the spells are known, the table
/// position of each known spell that the table has and whose cost (capped
/// at `MAX_SPELL_MP_COST`) is within the MP: every entry is such a spell,
/// and every such known spell is listed.
pub proof fn lemma_castable_rules(db: Seq<SpellAsset>, known: Seq<String>, mp: u32)
    ensures
        castable(db, known, mp).len() <= known.len(),
        forall|k: int|
            0 <= k < castable(db, known, mp).len() ==> {
                let j = #[trigger] castable(db, known, mp)[k];
                &&& 0 <= j < db.len()
                &&& (if db[j].mp_cost <= MAX_SPELL_MP_COST { db[j].mp_cost } else { MAX_SPELL_MP_COST }) <= mp
                &&& exists|i: int| 0 <= i < known.len() && (#[trigger] known[i])@ == db[j].id@ && j
                    == first_with_key(db, known[i]@)
            },
        forall|i: int|
            0 <= i < known.len() && has_key(db, (#[trigger] known[i])@) && affordable(
                db[first_with_key(db, known[i]@)],
                mp,
            ) ==> castable(db, known, mp).contains(first_with_key(db, known[i]@)),
    decreases known.len(),
{
    if known.len() > 0 {
        let q = known.drop_last();
        lemma_castable_rules(db, q, mp);
        let r = castable(db, known, mp);
        let rq = castable(db, q, mp);
        let k_last = known.last()@;
        crate::data::lookup::lemma_first_with_key(db, k_last);
        assert forall|k: int| 0 <= k < r.len() implies {
            let j = #[trigger] r[k];
            &&& 0 <= j < db.len()
            &&& (if db[j].mp_cost <= MAX_SPELL_MP_COST { db[j].mp_cost } else { MAX_SPELL_MP_COST }) <= mp
            &&& exists|i: int| 0 <= i < known.len() && (#[trigger] known[i])@ == db[j].id@ && j
                == first_with_key(db, known[i]@)
        } by {
            if k < rq.len() {
                assert(r[k] == rq[k]);
                let j = rq[k];
                let i = choose|i: int| 0 <= i < q.len() && (#[trigger] q[i])@ == db[j].id@ && j
                    == first_with_key(db, q[i]@);
                assert(known[i] == q[i]);
            } else {
                assert(r[k] == first_with_key(db, k_last));
                assert(known[known.len() - 1] == known.last());
                assert(db[first_with_key(db, k_last)].id@ == k_last);
            }
        }
        assert forall|i: int|
            0 <= i < known.len() && has_key(db, (#[trigger] known[i])@) && affordable(
                db[first_with_key(db, known[i]@)],
                mp,
            ) implies r.contains(first_with_key(db, known[i]@)) by {
            if i < q.len() {
                assert(q[i] == known[i]);
                assert(rq.contains(first_with_key(db, q[i]@)));
                let k = choose|k: int| 0 <= k < rq.len() && rq[k] == first_with_key(db, q[i]@);
                if has_key(db, k_last) && affordable(db[first_with_key(db, k_last)], mp) {
                    assert(r[k] == rq[k]);
                } else {
                    assert(r == rq);
                }
            } else {
                assert(known[i] == known.last());
                assert(r[r.len() - 1] == first_with_key(db, k_last));
            }
        }
    }
}

pub open spec fn sat_dec(x: usize) -> usize {
    if x > 0 { (x - 1) as usize } else { 0 }
}

pub open spec fn inc_capped(x: usize, max: usize) -> usize {
    if x + 1 <= max { (x + 1) as usize } else { max }
}

/// The action committed by the member in slot `slot`.
pub open spec fn party_action(
    m: MenuMember,
    slot: usize,
    kind: CombatActionKind,
    target: TargetSelection,
) -> QueuedAction {
    QueuedAction {
        actor: m.id,
        kind,
        target,
        speed_at_queue_time: m.stats.speed,
        actor_side: Side::Party,
        slot_index: slot as u32,
    }
}

/// The outcome of one frame of menu input: the new input state, the actions
/// appended to the round's queue, and the log line written, if any.
pub open spec fn menu_step(
    v: InputView,
    p: MenuPresses,
    in_player_input: bool,
    ms: Seq<MenuMember>,
    enemies: Seq<MenuEnemy>,
    db: Option<Seq<SpellAsset>>,
) -> (InputView, Seq<QueuedAction>, Option<Seq<char>>) {
    let (active, stack, committed, pending, tcur, mcur, scur, turn) = v;
    let nothing = (v, Seq::<QueuedAction>::empty(), None::<Seq<char>>);
    if !in_player_input || active is None || member_in_slot(ms, active->0) >= ms.len() {
        nothing
    } else {
        let slot = active->0;
        let m = ms[member_in_slot(ms, slot)];
        let frame = if stack.len() > 0 { stack.last() } else { MenuFrame::Main };
        if p.cancel {
            if stack.len() > 1 {
                ((active, stack.drop_last(), committed, None, None, mcur, scur, turn), Seq::empty(), None)
            } else {
                nothing
            }
        } else {
            match frame {
                MenuFrame::Main => if p.up || p.left {
                    ((active, stack, committed, pending, tcur, sat_dec(mcur), scur, turn), Seq::empty(), None)
                } else if p.down || p.right {
                    (
                        (active, stack, committed, pending, tcur, inc_capped(mcur, (MAIN_ACTION_COUNT - 1) as usize), scur, turn),
                        Seq::empty(),
                        None,
                    )
                } else if !p.confirm {
                    nothing
                } else if mcur == 0 {
                    if enemies.len() > 0 {
                        (
                            (
                                active,
                                stack.push(MenuFrame::TargetSelect { kind: CombatActionKind::Attack }),
                                committed,
                                Some(PendingAction { kind: CombatActionKind::Attack, actor: m.id }),
                                Some(0usize),
                                mcur,
                                scur,
                                turn,
                            ),
                            Seq::empty(),
                            None,
                        )
                    } else {
                        nothing
                    }
                } else if mcur == 1 || mcur == 4 {
                    let qa = party_action(
                        m,
                        slot,
                        if mcur == 1 { CombatActionKind::Defend } else { CombatActionKind::Flee },
                        TargetSelection::Self_,
                    );
                    ((None, stack, committed.push(qa), pending, tcur, mcur, scur, turn), seq![qa], None)
                } else if mcur == 2 {
                    ((active, stack.push(MenuFrame::SpellMenu), committed, pending, tcur, mcur, 0usize, turn), Seq::empty(), None)
                } else if mcur == 3 {
                    ((active, stack.push(MenuFrame::ItemMenu), committed, pending, tcur, mcur, scur, turn), Seq::empty(), None)
                } else {
                    nothing
                },
                MenuFrame::TargetSelect { kind } => {
                    let t1 = if (p.up || p.left) && tcur is Some { Some(sat_dec(tcur->0)) } else { tcur };
                    let emax: usize = if enemies.len() > 0 { (enemies.len() - 1) as usize } else { 0 };
                    let t2 = if (p.down || p.right) && t1 is Some { Some(inc_capped(t1->0, emax)) } else { t1 };
                    let cursor: usize = if t2 is Some { t2->0 } else { 0 };
                    if p.confirm && cursor < enemies.len() {
                        let qa = party_action(m, slot, kind, TargetSelection::Single(enemies[cursor as int].id));
                        (
                            (None, seq![MenuFrame::Main], committed.push(qa), None, None, mcur, scur, turn),
                            seq![qa],
                            None,
                        )
                    } else {
                        ((active, stack, committed, pending, t2, mcur, scur, turn), Seq::empty(), None)
                    }
                },
                MenuFrame::SpellMenu => if holds(m.status.effects@, StatusEffectType::Silence) {
                    (
                        (active, seq![MenuFrame::Main], committed, pending, tcur, mcur, scur, turn),
                        Seq::empty(),
                        Some("You are silenced; cannot cast."@),
                    )
                } else if db is None || m.known_spells is None {
                    nothing
                } else {
                    let dbs = db->0;
                    let c = castable(dbs, m.known_spells->0@, m.stats.current_mp);
                    if p.up {
                        ((active, stack, committed, pending, tcur, mcur, sat_dec(scur), turn), Seq::empty(), None)
                    } else if p.down {
                        let cmax: usize = if c.len() > 0 { (c.len() - 1) as usize } else { 0 };
                        ((active, stack, committed, pending, tcur, mcur, inc_capped(scur, cmax), turn), Seq::empty(), None)
                    } else if !p.confirm || c.len() == 0 {
                        nothing
                    } else {
                        let cursor = if scur < c.len() { scur as int } else { c.len() - 1 };
                        let sp = dbs[c[cursor]];
                        let kind = CombatActionKind::CastSpell { spell_id: sp.id };
                        match sp.target {
                            SpellTarget::SingleEnemy => if exists|k: int| 0 <= k < enemies.len() && #[trigger] enemies[k].current_hp > 0 {
                                ((active, stack.push(MenuFrame::TargetSelect { kind }), committed, pending, Some(0usize), mcur, scur, turn), Seq::empty(), None)
                            } else {
                                (v, Seq::empty(), Some(m.name@ + ": no valid targets for "@ + sp.display_name@))
                            },
                            SpellTarget::SingleAlly => ((active, stack.push(MenuFrame::TargetSelect { kind }), committed, pending, Some(0usize), mcur, scur, turn), Seq::empty(), None),
                            _ => {
                                let target = match sp.target {
                                    SpellTarget::AllEnemies => TargetSelection::AllEnemies,
                                    SpellTarget::AllAllies => TargetSelection::AllAllies,
                                    _ => TargetSelection::Self_,
                                };
                                let qa = party_action(m, slot, kind, target);
                                ((None, seq![MenuFrame::Main], committed.push(qa), pending, tcur, mcur, 0usize, turn), seq![qa], None)
                            },
                        }
                    }
                },
                MenuFrame::ItemMenu => (
                    (active, seq![MenuFrame::Main], committed, pending, tcur, mcur, scur, turn),
                    Seq::empty(),
                    Some("Item menu: not yet implemented."@),
                ),
            }
        }
    }
}


/// The action the member `m` in `slot` commits: `kind` against `target`,
/// at the member's speed, on the party's side.
pub open spec fn commits(
    r: (InputView, Seq<QueuedAction>, Option<Seq<char>>),
    v: InputView,
    m: MenuMember,
    slot: usize,
    kind: CombatActionKind,
    target: TargetSelection,
) -> bool {
    &&& r.1.len() == 1
    &&& r.1[0].actor == m.id
    &&& r.1[0].kind == kind
    &&& r.1[0].target == target
    &&& r.1[0].speed_at_queue_time == m.stats.speed
    &&& r.1[0].actor_side == Side::Party
    &&& r.1[0].slot_index == slot as u32
    &&& r.0.0 is None
    &&& r.0.2 == v.2.push(r.1[0])
    &&& r.2 is None
}

/// Confirming on the main menu (no cancel, no cursor key): entry 0 opens
/// the target list for an attack when there are enemies, entry 1 commits
/// Defend on the member itself, entry 2 opens the spell list at its top,
/// entry 3 opens the item list, entry 4 commits Flee on the member itself.
/// Committing hands the turn on (nobody is choosing); nothing else commits
/// an action, and any other entry does nothing.
pub proof fn lemma_main_menu_confirm(
    v: InputView,
    p: MenuPresses,
    ms: Seq<MenuMember>,
    enemies: Seq<MenuEnemy>,
    db: Option<Seq<SpellAsset>>,
    slot: usize,
)
    requires
        v.0 == Some(slot),
        member_in_slot(ms, slot) < ms.len(),
        v.1.len() == 0 || v.1.last() == MenuFrame::Main,
        p.confirm && !p.cancel && !p.up && !p.left && !p.down && !p.right,
    ensures
        ({
            let m = ms[member_in_slot(ms, slot)];
            let r = menu_step(v, p, true, ms, enemies, db);
            &&& v.5 == 1 ==> commits(r, v, m, slot, CombatActionKind::Defend, TargetSelection::Self_)
            &&& v.5 == 4 ==> commits(r, v, m, slot, CombatActionKind::Flee, TargetSelection::Self_)
            &&& v.5 != 1 && v.5 != 4 ==> r.1.len() == 0 && r.0.2 == v.2 && r.0.0 == v.0
            &&& (v.5 == 0 && enemies.len() > 0) ==> {
                &&& r.0.1 == v.1.push(MenuFrame::TargetSelect { kind: CombatActionKind::Attack })
                &&& r.0.3 == Some(PendingAction { kind: CombatActionKind::Attack, actor: m.id })
                &&& r.0.4 == Some(0usize)
            }
            &&& v.5 == 2 ==> r.0.1 == v.1.push(MenuFrame::SpellMenu) && r.0.6 == 0
            &&& v.5 == 3 ==> r.0.1 == v.1.push(MenuFrame::ItemMenu)
            &&& (v.5 >= 5 || (v.5 == 0 && enemies.len() == 0)) ==> r == (v, Seq::<QueuedAction>::empty(), None::<Seq<char>>)
        }),
{
}

/// Moving on the main menu: up or left moves the cursor one entry up,
/// stopping at the first; otherwise down or right moves it one entry down,
/// stopping at the last (entry 4). Nothing is committed.
pub proof fn lemma_main_menu_moves(
    v: InputView,
    p: MenuPresses,
    ms: Seq<MenuMember>,
    enemies: Seq<MenuEnemy>,
    db: Option<Seq<SpellAsset>>,
    slot: usize,
)
    requires
        v.0 == Some(slot),
        member_in_slot(ms, slot) < ms.len(),
        v.1.len() == 0 || v.1.last() == MenuFrame::Main,
        !p.cancel,
        p.up || p.left || p.down || p.right,
        v.5 <= 4,
    ensures
        ({
            let r = menu_step(v, p, true, ms, enemies, db);
            &&& r.1.len() == 0 && r.0.2 == v.2 && r.0.1 == v.1 && r.0.0 == v.0
            &&& (p.up || p.left) ==> r.0.5 + 1 == v.5 || (v.5 == 0 && r.0.5 == 0)
            &&& !(p.up || p.left) ==> r.0.5 == v.5 + 1 || (v.5 == 4 && r.0.5 == 4)
            &&& r.0.5 <= 4
        }),
{
}

/// Confirming a target: the pending kind of action is committed against the
/// enemy under the cursor, and the menu returns to the main menu with the
/// turn handed on.
pub proof fn lemma_target_confirm(
    v: InputView,
    p: MenuPresses,
    ms: Seq<MenuMember>,
    enemies: Seq<MenuEnemy>,
    db: Option<Seq<SpellAsset>>,
    slot: usize,
    kind: CombatActionKind,
    c: usize,
)
    requires
        v.0 == Some(slot),
        member_in_slot(ms, slot) < ms.len(),
        v.1.len() > 0 && v.1.last() == (MenuFrame::TargetSelect { kind }),
        p.confirm && !p.cancel && !p.up && !p.left && !p.down && !p.right,
        v.4 == Some(c),
        c < enemies.len(),
    ensures
        ({
            let r = menu_step(v, p, true, ms, enemies, db);
            &&& commits(r, v, ms[member_in_slot(ms, slot)], slot, kind, TargetSelection::Single(enemies[c as int].id))
            &&& r.0.1 == seq![MenuFrame::Main]
            &&& r.0.3 is None
        }),
{
}


/// Cancel goes back one menu (dropping a pending action and its target
/// cursor) when there is one to go back to, and otherwise does nothing;
/// it never commits an action. A silenced member who is in the spell menu
/// is sent back to the main menu with the line "You are silenced; cannot
/// cast." and commits nothing.
pub proof fn lemma_cancel_and_silence(
    v: InputView,
    p: MenuPresses,
    ms: Seq<MenuMember>,
    enemies: Seq<MenuEnemy>,
    db: Option<Seq<SpellAsset>>,
    slot: usize,
)
    requires
        v.0 == Some(slot),
        member_in_slot(ms, slot) < ms.len(),
    ensures
        ({
            let r = menu_step(v, p, true, ms, enemies, db);
            let m = ms[member_in_slot(ms, slot)];
            &&& p.cancel ==> r.1.len() == 0 && r.2 is None && r.0.2 == v.2 && r.0.0 == v.0
            &&& (p.cancel && v.1.len() > 1) ==> r.0.1 == v.1.drop_last() && r.0.3 is None
                && r.0.4 is None
            &&& (p.cancel && v.1.len() <= 1) ==> r.0 == v
            &&& (!p.cancel && v.1.len() > 0 && v.1.last() == MenuFrame::SpellMenu && holds(
                m.status.effects@,
                StatusEffectType::Silence,
            )) ==> r.1.len() == 0 && r.0.1 == seq![MenuFrame::Main] && r.2 == Some(
                "You are silenced; cannot cast."@,
            )
        }),
{
}

pub open spec fn db_view(db: Option<&SpellDb>) -> Option<Seq<SpellAsset>> {
    match db {
        Some(d) => Some(d.spells@),
        None => None,
    }
}

fn member_in_slot_exec(ms: &Vec<MenuMember>, slot: usize) -> (r: usize)
    ensures
        r == member_in_slot(ms@, slot),
        r <= ms@.len(),
        r < ms@.len() ==> ms@[r as int].slot == slot,
{
    let mut i: usize = 0;
    assert(ms@.skip(0) == ms@);
    while i < ms.len()
        invariant
            0 <= i <= ms@.len(),
            member_in_slot(ms@, slot) == i + member_in_slot(ms@.skip(i as int), slot),
        decreases ms@.len() - i,
    {
        assert(ms@.skip(i as int).drop_first() == ms@.skip(i + 1));
        if ms[i].slot == slot {
            return i;
        }
        i = i + 1;
    }
    i
}

fn castable_exec(db: &SpellDb, known: &Vec<String>, mp: u32) -> (r: Vec<usize>)
    ensures
        r@.len() == castable(db.spells@, known@, mp).len(),
        forall|i: int| 0 <= i < r@.len() ==> r@[i] as int == castable(db.spells@, known@, mp)[i],
        forall|i: int| 0 <= i < r@.len() ==> r@[i] < db.spells@.len(),
{
    let mut out: Vec<usize> = Vec::new();
    let mut i: usize = 0;
    while i < known.len()
        invariant
            0 <= i <= known@.len(),
            out@.len() == castable(db.spells@, known@.take(i as int), mp).len(),
            forall|j: int| 0 <= j < out@.len() ==> out@[j] as int == castable(db.spells@, known@.take(i as int), mp)[j],
            forall|j: int| 0 <= j < out@.len() ==> out@[j] < db.spells@.len(),
        decreases known@.len() - i,
    {
        proof {
            assert(known@.take(i + 1).drop_last() == known@.take(i as int));
            crate::data::lookup::lemma_first_with_key(db.spells@, known@[i as int]@);
        }
        match position_of_key(&db.spells, known[i].as_str()) {
            Some(j) => {
                let sp = &db.spells[j];
                let cost = if sp.mp_cost <= MAX_SPELL_MP_COST { sp.mp_cost } else { MAX_SPELL_MP_COST };
                if cost <= mp {
                    out.push(j);
                }
            },
            None => {},
        }
        i = i + 1;
    }
    assert(known@.take(known@.len() as int) == known@);
    out
}

fn any_enemy_up(enemies: &Vec<MenuEnemy>) -> (r: bool)
    ensures
        r == exists|k: int| 0 <= k < enemies@.len() && #[trigger] enemies@[k].current_hp > 0,
{
    let mut i: usize = 0;
    while i < enemies.len()
        invariant
            0 <= i <= enemies@.len(),
            forall|k: int| 0 <= k < i ==> (#[trigger] enemies@[k]).current_hp == 0,
        decreases enemies@.len() - i,
    {
        if enemies[i].current_hp > 0 {
            return true;
        }
        i = i + 1;
    }
    false
}

fn main_stack() -> (r: Vec<MenuFrame>)
    ensures
        r@ == seq![MenuFrame::Main],
{
    let mut v = Vec::new();
    v.push(MenuFrame::Main);
    v
}

/// Handles one frame of menu input for the member whose turn it is to
/// choose (see `menu_step` for every case). Nothing happens outside the
/// player-input phase, when nobody is choosing, or when no member holds the
/// active slot.
pub fn handle_combat_input(
    presses: &MenuPresses,
    in_player_input: bool,
    input: &mut PlayerInputState,
    queue: &mut TurnActionQueue,
    log: &mut CombatLog,
    party: &Vec<MenuMember>,
    enemies: &Vec<MenuEnemy>,
    db: Option<&SpellDb>,
)
    ensures
        ({
            let r = menu_step(input_view(*old(input)), *presses, in_player_input, party@, enemies@, db_view(db));
            &&& input_view(*final(input)) == r.0
            &&& final(queue).queue@ == old(queue).queue@ + r.1
            &&& r.2 is None ==> final(log).capacity == old(log).capacity && lines(final(log).entries@) == lines(old(log).entries@)
            &&& r.2 matches Some(l) ==> logged(*old(log), *final(log), l, old(input).current_turn)
        }),
{
    if !in_player_input {
        return;
    }
    let slot = match input.active_slot {
        Some(s) => s,
        None => return,
    };
    let mi = member_in_slot_exec(party, slot);
    if mi >= party.len() {
        return;
    }
    let m = &party[mi];
    let top = input.menu_stack.len();
    let frame = if top > 0 { input.menu_stack[top - 1].clone() } else { MenuFrame::Main };
    if presses.cancel {
        if input.menu_stack.len() > 1 {
            let _ = input.menu_stack.pop();
            input.pending_action = None;
            input.target_cursor = None;
        }
        return;
    }
    match frame {
        MenuFrame::Main => {
            if presses.up || presses.left {
                input.main_cursor = if input.main_cursor > 0 { input.main_cursor - 1 } else { 0 };
                return;
            }
            if presses.down || presses.right {
                input.main_cursor = if input.main_cursor < MAIN_ACTION_COUNT - 1 {
                    input.main_cursor + 1
                } else {
                    MAIN_ACTION_COUNT - 1
                };
                return;
            }
            if !presses.confirm {
                return;
            }
            let speed = m.stats.speed;
            if input.main_cursor == 0 {
                if enemies.len() > 0 {
                    input.pending_action = Some(PendingAction { kind: CombatActionKind::Attack, actor: m.id });
                    input.menu_stack.push(MenuFrame::TargetSelect { kind: CombatActionKind::Attack });
                    input.target_cursor = Some(0);
                }
            } else if input.main_cursor == 1 || input.main_cursor == 4 {
                let kind = if input.main_cursor == 1 { CombatActionKind::Defend } else { CombatActionKind::Flee };
                let qa = QueuedAction {
                    actor: m.id,
                    kind,
                    target: TargetSelection::Self_,
                    speed_at_queue_time: speed,
                    actor_side: Side::Party,
                    slot_index: slot as u32,
                };
                queue.queue.push(qa.clone());
                input.committed.push(qa);
                input.active_slot = None;
            } else if input.main_cursor == 2 {
                input.spell_cursor = 0;
                input.menu_stack.push(MenuFrame::SpellMenu);
            } else if input.main_cursor == 3 {
                input.menu_stack.push(MenuFrame::ItemMenu);
            }
        },
        MenuFrame::TargetSelect { kind } => {
            if presses.up || presses.left {
                match input.target_cursor {
                    Some(c) => {
                        input.target_cursor = Some(if c > 0 { c - 1 } else { 0 });
                    },
                    None => {},
                }
            }
            if presses.down || presses.right {
                match input.target_cursor {
                    Some(c) => {
                        let emax = if enemies.len() > 0 { enemies.len() - 1 } else { 0 };
                        input.target_cursor = Some(if c < emax { c + 1 } else { emax });
                    },
                    None => {},
                }
            }
            if presses.confirm {
                let cursor = match input.target_cursor {
                    Some(c) => c,
                    None => 0,
                };
                if cursor < enemies.len() {
                    let qa = QueuedAction {
                        actor: m.id,
                        kind,
                        target: TargetSelection::Single(enemies[cursor].id),
                        speed_at_queue_time: m.stats.speed,
                        actor_side: Side::Party,
                        slot_index: slot as u32,
                    };
                    queue.queue.push(qa.clone());
                    input.committed.push(qa);
                    input.menu_stack = main_stack();
                    input.pending_action = None;
                    input.target_cursor = None;
                    input.active_slot = None;
                }
            }
        },
        MenuFrame::SpellMenu => {
            if is_silenced(&m.status) {
                let mut msg = String::new();
                msg.append("You are silenced; cannot cast.");
                log.push(msg, input.current_turn);
                input.menu_stack = main_stack();
                return;
            }
            let spell_db = match db {
                Some(d) => d,
                None => return,
            };
            let known = match &m.known_spells {
                Some(k) => k,
                None => return,
            };
            let c = castable_exec(spell_db, known, m.stats.current_mp);
            if presses.up {
                input.spell_cursor = if input.spell_cursor > 0 { input.spell_cursor - 1 } else { 0 };
                return;
            }
            if presses.down {
                let cmax = if c.len() > 0 { c.len() - 1 } else { 0 };
                input.spell_cursor = if input.spell_cursor < cmax { input.spell_cursor + 1 } else { cmax };
                return;
            }
            if !presses.confirm || c.len() == 0 {
                return;
            }
            let cursor = if input.spell_cursor < c.len() { input.spell_cursor } else { c.len() - 1 };
            let sp = &spell_db.spells[c[cursor]];
            let kind = CombatActionKind::CastSpell { spell_id: sp.id.clone() };
            match sp.target {
                SpellTarget::SingleEnemy => {
                    if any_enemy_up(enemies) {
                        input.menu_stack.push(MenuFrame::TargetSelect { kind });
                        input.target_cursor = Some(0);
                    } else {
                        let mut msg = m.name.clone();
                        msg.append(": no valid targets for ");
                        msg.append(sp.display_name.as_str());
                        log.push(msg, input.current_turn);
                    }
                },
                SpellTarget::SingleAlly => {
                    input.menu_stack.push(MenuFrame::TargetSelect { kind });
                    input.target_cursor = Some(0);
                },
                _ => {
                    let target = match sp.target {
                        SpellTarget::AllEnemies => TargetSelection::AllEnemies,
                        SpellTarget::AllAllies => TargetSelection::AllAllies,
                        _ => TargetSelection::Self_,
                    };
                    let qa = QueuedAction {
                        actor: m.id,
                        kind,
                        target,
                        speed_at_queue_time: m.stats.speed,
                        actor_side: Side::Party,
                        slot_index: slot as u32,
                    };
                    queue.queue.push(qa.clone());
                    input.committed.push(qa);
                    input.menu_stack = main_stack();
                    input.spell_cursor = 0;
                    input.active_slot = None;
                },
            }
        },
        MenuFrame::ItemMenu => {
            let mut msg = String::new();
            msg.append("Item menu: not yet implemented.");
            log.push(msg, input.current_turn);
            input.menu_stack = main_stack();
        },
    }
}


/// What the spell list shows for the member choosing.
#[derive(Debug)]
pub enum SpellMenuView {
    /// Nobody is choosing (or no member holds the active slot).
    NoActor,
    /// The spell table is not loaded yet.
    Loading,
    /// The member knows no spells.
    Empty,
    /// The member knows spells but can cast none of them.
    NoCastable,
    /// The castable spells (positions in the spell table) and the cursor.
    Castable { spells: Vec<usize>, cursor: usize },
}

/// The contents of the spell list for the member in the active slot: the
/// spells they know that exist and whose MP cost they can pay, in the order
/// known, with the cursor kept within the list.
pub fn spell_menu_view(input: &PlayerInputState, party: &Vec<MenuMember>, db: Option<&SpellDb>) -> (r:
    SpellMenuView)
    ensures
        ({
            let mi = match input.active_slot {
                Some(slot) => member_in_slot(party@, slot),
                None => party@.len() as int,
            };
            if mi >= party@.len() {
                r is NoActor
            } else if db is None {
                r is Loading
            } else {
                let m = party@[mi];
                match m.known_spells {
                    None => r is Empty,
                    Some(k) => if k@.len() == 0 {
                        r is Empty
                    } else {
                        let c = castable(db->0.spells@, k@, m.stats.current_mp);
                        if c.len() == 0 {
                            r is NoCastable
                        } else {
                            &&& r is Castable
                            &&& r->spells@.len() == c.len()
                            &&& forall|i: int| 0 <= i < c.len() ==> r->spells@[i] as int == c[i]
                            &&& r->cursor == if input.spell_cursor < c.len() {
                                input.spell_cursor as int
                            } else {
                                c.len() - 1
                            }
                        }
                    },
                }
            }
        }),
{
    let slot = match input.active_slot {
        Some(s) => s,
        None => return SpellMenuView::NoActor,
    };
    let mi = member_in_slot_exec(party, slot);
    if mi >= party.len() {
        return SpellMenuView::NoActor;
    }
    let spell_db = match db {
        Some(d) => d,
        None => return SpellMenuView::Loading,
    };
    let m = &party[mi];
    let known = match &m.known_spells {
        Some(k) => k,
        None => return SpellMenuView::Empty,
    };
    if known.len() == 0 {
        return SpellMenuView::Empty;
    }
    let c = castable_exec(spell_db, known, m.stats.current_mp);
    if c.len() == 0 {
        return SpellMenuView::NoCastable;
    }
    let cursor = if input.spell_cursor < c.len() { input.spell_cursor } else { c.len() - 1 };
    SpellMenuView::Castable { spells: c, cursor }
}

/// The name of an effect type as shown in the status lists.
pub open spec fn effect_name(t: StatusEffectType) -> Seq<char> {
    match t {
        StatusEffectType::Poison => "Poison"@,
        StatusEffectType::Sleep => "Sleep"@,
        StatusEffectType::Paralysis => "Paralysis"@,
        StatusEffectType::Stone => "Stone"@,
        StatusEffectType::Dead => "Dead"@,
        StatusEffectType::AttackUp => "AttackUp"@,
        StatusEffectType::DefenseUp => "DefenseUp"@,
        StatusEffectType::SpeedUp => "SpeedUp"@,
        StatusEffectType::Regen => "Regen"@,
        StatusEffectType::Silence => "Silence"@,
    }
}

fn effect_name_str(t: StatusEffectType) -> (r: &'static str)
    ensures
        r@ == effect_name(t),
{
    match t {
        StatusEffectType::Poison => "Poison",
        StatusEffectType::Sleep => "Sleep",
        StatusEffectType::Paralysis => "Paralysis",
        StatusEffectType::Stone => "Stone",
        StatusEffectType::Dead => "Dead",
        StatusEffectType::AttackUp => "AttackUp",
        StatusEffectType::DefenseUp => "DefenseUp",
        StatusEffectType::SpeedUp => "SpeedUp",
        StatusEffectType::Regen => "Regen",
        StatusEffectType::Silence => "Silence",
    }
}

/// The magnitude (a single-precision bit pattern) is shown: it is not zero,
/// positive or negative.
pub open spec fn magnitude_shown(bits: u32) -> bool {
    bits != 0 && bits != 0x8000_0000
}

/// One effect: its name, then in brackets the remaining turns (`Nt`) and,
/// for a non-zero magnitude, `×` and the magnitude's text, separated by a
/// space; no brackets when there is neither.
pub open spec fn effect_text(e: ActiveEffect, magnitude_text: Seq<char>) -> Seq<char> {
    let turns = match e.remaining_turns {
        Some(n) => decimal(n as nat) + "t"@,
        None => Seq::empty(),
    };
    let mag = if magnitude_shown(e.magnitude) { "×"@ + magnitude_text } else { Seq::empty() };
    if e.remaining_turns is None && !magnitude_shown(e.magnitude) {
        effect_name(e.effect_type)
    } else if e.remaining_turns is Some && magnitude_shown(e.magnitude) {
        effect_name(e.effect_type) + "("@ + turns + " "@ + mag + ")"@
    } else {
        effect_name(e.effect_type) + "("@ + turns + mag + ")"@
    }
}

fn push_effect_text(out: &mut String, e: ActiveEffect, magnitude_text: &String)
    ensures
        final(out)@ == old(out)@ + effect_text(e, magnitude_text@),
{
    out.append(effect_name_str(e.effect_type));
    let has_turns = e.remaining_turns.is_some();
    let has_mag = e.magnitude != 0 && e.magnitude != 0x8000_0000;
    if has_turns || has_mag {
        out.append("(");
        match e.remaining_turns {
            Some(n) => {
                push_decimal(out, n as u64);
                out.append("t");
            },
            None => {},
        }
        if has_turns && has_mag {
            out.append(" ");
        }
        if has_mag {
            out.append("×");
            out.append(magnitude_text.as_str());
        }
        out.append(")");
    }
}

/// The effects' texts joined with `, `.
pub open spec fn status_text(es: Seq<ActiveEffect>, mags: Seq<String>) -> Seq<char>
    decreases es.len(),
{
    if es.len() == 0 {
        Seq::empty()
    } else if es.len() == 1 {
        effect_text(es[0], mags[0]@)
    } else {
        status_text(es.drop_last(), mags.drop_last()) + ", "@ + effect_text(es.last(), mags.last()@)
    }
}

/// The status line of a combatant, such as `Poison(3t), DefenseUp(2t ×0.5)`.
/// `magnitude_texts[i]` is the text of the magnitude of effect `i` (one
/// decimal place); it is used only when that magnitude is not zero.
pub fn format_status_effects(status: &StatusEffects, magnitude_texts: &Vec<String>) -> (r: String)
    requires
        magnitude_texts@.len() == status.effects@.len(),
    ensures
        r@ == status_text(status.effects@, magnitude_texts@),
{
    let mut out = String::new();
    let mut i: usize = 0;
    while i < status.effects.len()
        invariant
            0 <= i <= status.effects@.len(),
            magnitude_texts@.len() == status.effects@.len(),
            out@ == status_text(status.effects@.take(i as int), magnitude_texts@.take(i as int)),
        decreases status.effects@.len() - i,
    {
        let e = status.effects[i];
        proof {
            assert(status.effects@.take(i + 1).drop_last() == status.effects@.take(i as int));
            assert(magnitude_texts@.take(i + 1).drop_last() == magnitude_texts@.take(i as int));
        }
        if i > 0 {
            out.append(", ");
        }
        push_effect_text(&mut out, e, &magnitude_texts[i]);
        i = i + 1;
    }
    proof {
        assert(status.effects@.take(status.effects@.len() as int) == status.effects@);
        assert(magnitude_texts@.take(magnitude_texts@.len() as int) == magnitude_texts@);
    }
    out
}

} // verus!
