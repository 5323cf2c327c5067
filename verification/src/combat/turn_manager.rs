//! The round structure of combat: the action queue and its speed order, the
//! player-input state, the end-of-round decision (defeat, flight, victory or
//! another round), and the experience awarded for a victory.

use crate::character::{holds, DerivedStats, EntityId, StatusEffectType, StatusEffects};
use crate::combat::actions::{side_order, side_rank, CombatActionKind, QueuedAction, Side};
use crate::combat::combat_log::{keep_last, lines, CombatLog};
use crate::combat::status_effects::{is_asleep, is_paralyzed};
use crate::combat::targeting::TargetSelection;
use crate::text::{decimal, push_decimal};
use vstd::prelude::*;
use vstd::string::*;

verus! {

/// The actions queued for the current round.
#[derive(Clone, Debug)]
pub struct TurnActionQueue {
    pub queue: Vec<QueuedAction>,
}

/// One frame of the combat menu stack.
#[derive(Debug)]
pub enum MenuFrame {
    Main,
    SpellMenu,
    ItemMenu,
    TargetSelect { kind: CombatActionKind },
}

impl Clone for MenuFrame {
    fn clone(&self) -> (r: Self)
        ensures
            r == *self,
    {
        match self {
            MenuFrame::Main => MenuFrame::Main,
            MenuFrame::SpellMenu => MenuFrame::SpellMenu,
            MenuFrame::ItemMenu => MenuFrame::ItemMenu,
            MenuFrame::TargetSelect { kind } => MenuFrame::TargetSelect { kind: kind.clone() },
        }
    }
}

/// A partly chosen action awaiting its target.
#[derive(Clone, Debug)]
pub struct PendingAction {
    pub kind: CombatActionKind,
    pub actor: EntityId,
}

/// The player-input state of a combat round.
#[derive(Debug)]
pub struct PlayerInputState {
    /// Party slot of the member currently choosing, if any.
    pub active_slot: Option<usize>,
    /// The menu stack; the last frame is the visible menu.
    pub menu_stack: Vec<MenuFrame>,
    /// Actions committed this round.
    pub committed: Vec<QueuedAction>,
    /// The action awaiting a target.
    pub pending_action: Option<PendingAction>,
    /// Cursor over the possible targets.
    pub target_cursor: Option<usize>,
    /// Cursor over the main actions: 0 Attack, 1 Defend, 2 Spell, 3 Item, 4 Flee.
    pub main_cursor: usize,
    /// Cursor over the castable spells.
    pub spell_cursor: usize,
    /// Round counter.
    pub current_turn: u32,
}

impl PlayerInputState {
    /// The state at the start of combat: the main menu open, nothing chosen.
    pub fn for_new_combat() -> (r: Self)
        ensures
            r.active_slot is None,
            r.menu_stack@.len() == 1 && r.menu_stack@[0] == MenuFrame::Main,
            r.committed@.len() == 0,
            r.pending_action is None,
            r.target_cursor is None,
            r.main_cursor == 0 && r.spell_cursor == 0 && r.current_turn == 0,
    {
        let mut stack = Vec::new();
        stack.push(MenuFrame::Main);
        PlayerInputState {
            active_slot: None,
            menu_stack: stack,
            committed: Vec::new(),
            pending_action: None,
            target_cursor: None,
            main_cursor: 0,
            spell_cursor: 0,
            current_turn: 0,
        }
    }

    /// The state outside combat: everything empty.
    pub fn cleared() -> (r: Self)
        ensures
            r.active_slot is None,
            r.menu_stack@.len() == 0,
            r.committed@.len() == 0,
            r.pending_action is None,
            r.target_cursor is None,
            r.main_cursor == 0 && r.spell_cursor == 0 && r.current_turn == 0,
    {
        PlayerInputState {
            active_slot: None,
            menu_stack: Vec::new(),
            committed: Vec::new(),
            pending_action: None,
            target_cursor: None,
            main_cursor: 0,
            spell_cursor: 0,
            current_turn: 0,
        }
    }
}

/// Whether a flight was attempted this round and whether it succeeded.
#[derive(Clone, Copy, Debug, PartialEq, Eq, Structural)]
pub struct FleeAttempted {
    pub success: bool,
    pub attempted_this_round: bool,
}

impl Default for FleeAttempted {
    fn default() -> (r: Self)
        ensures
            !r.success && !r.attempted_this_round,
    {
        FleeAttempted { success: false, attempted_this_round: false }
    }
}

// ─── Player input ───────────────────────────────────────────────────────────

/// A party member as the input phase sees it.
#[derive(Debug)]
pub struct PartyMemberView {
    pub id: EntityId,
    pub slot: usize,
    pub stats: DerivedStats,
    pub status: StatusEffects,
}

/// Able to choose an action: HP left, neither Dead nor Stone.
pub open spec fn member_up(m: PartyMemberView) -> bool {
    m.stats.current_hp > 0 && !holds(m.status.effects@, StatusEffectType::Dead) && !holds(
        m.status.effects@,
        StatusEffectType::Stone,
    )
}

/// (index, slot) of the members among the first `n` that are up, in order.
pub open spec fn up_pairs(ms: Seq<PartyMemberView>, n: int) -> Seq<(usize, usize)>
    decreases n,
{
    if n <= 0 {
        Seq::empty()
    } else if member_up(ms[n - 1]) {
        up_pairs(ms, n - 1).push(((n - 1) as usize, ms[n - 1].slot))
    } else {
        up_pairs(ms, n - 1)
    }
}


/// The members in the fight among the first `n`: in member order, each
/// entry is a member with HP left that is neither Dead nor Stone, with its
/// slot; every such member is listed.
pub proof fn lemma_up_pairs_rules(ms: Seq<PartyMemberView>, n: int)
    requires
        0 <= n <= ms.len(),
        n <= usize::MAX,
    ensures
        up_pairs(ms, n).len() <= n,
        forall|k: int|
            0 <= k < up_pairs(ms, n).len() ==> {
                let i = (#[trigger] up_pairs(ms, n)[k]).0 as int;
                &&& 0 <= i < n
                &&& up_pairs(ms, n)[k].1 == ms[i].slot
                &&& ms[i].stats.current_hp > 0
                &&& !holds(ms[i].status.effects@, StatusEffectType::Dead)
                &&& !holds(ms[i].status.effects@, StatusEffectType::Stone)
            },
        forall|k1: int, k2: int|
            0 <= k1 < k2 < up_pairs(ms, n).len() ==> (#[trigger] up_pairs(ms, n)[k1]).0 < (
            #[trigger] up_pairs(ms, n)[k2]).0,
        forall|i: int|
            0 <= i < n && (#[trigger] ms[i]).stats.current_hp > 0 && !holds(
                ms[i].status.effects@,
                StatusEffectType::Dead,
            ) && !holds(ms[i].status.effects@, StatusEffectType::Stone) ==> exists|k: int|
                0 <= k < up_pairs(ms, n).len() && (#[trigger] up_pairs(ms, n)[k]).0 == i,
    decreases n,
{
    if n > 0 {
        lemma_up_pairs_rules(ms, n - 1);
        let r = up_pairs(ms, n);
        let rq = up_pairs(ms, n - 1);
        assert forall|k: int| 0 <= k < rq.len() implies #[trigger] r[k] == rq[k] by {}
        assert forall|i: int|
            0 <= i < n && (#[trigger] ms[i]).stats.current_hp > 0 && !holds(
                ms[i].status.effects@,
                StatusEffectType::Dead,
            ) && !holds(ms[i].status.effects@, StatusEffectType::Stone) implies exists|k: int|
                0 <= k < r.len() && (#[trigger] r[k]).0 == i by {
            if i < n - 1 {
                let k = choose|k: int| 0 <= k < rq.len() && (#[trigger] rq[k]).0 == i;
                assert(r[k] == rq[k]);
            } else {
                assert(member_up(ms[n - 1]));
                assert(r[r.len() - 1].0 == i);
            }
        }
    }
}

/// `x` inserted into `s` after every entry whose slot is not larger.
pub open spec fn insert_by_slot(s: Seq<(usize, usize)>, x: (usize, usize)) -> Seq<(usize, usize)>
    decreases s.len(),
{
    if s.len() == 0 {
        seq![x]
    } else if s.last().1 <= x.1 {
        s.push(x)
    } else {
        insert_by_slot(s.drop_last(), x).push(s.last())
    }
}

/// `s` ordered by slot; entries with equal slots keep their order.
pub open spec fn sorted_by_slot(s: Seq<(usize, usize)>) -> Seq<(usize, usize)>
    decreases s.len(),
{
    if s.len() == 0 {
        s
    } else {
        insert_by_slot(sorted_by_slot(s.drop_last()), s.last())
    }
}


proof fn lemma_insert_by_slot_sorted(s: Seq<(usize, usize)>, x: (usize, usize))
    requires
        forall|a: int, b: int| 0 <= a < b < s.len() ==> (#[trigger] s[a]).1 <= (#[trigger] s[b]).1,
    ensures
        insert_by_slot(s, x).len() == s.len() + 1,
        forall|a: int, b: int|
            0 <= a < b < s.len() + 1 ==> (#[trigger] insert_by_slot(s, x)[a]).1 <= (
            #[trigger] insert_by_slot(s, x)[b]).1,
        insert_by_slot(s, x).to_multiset() == s.to_multiset().insert(x),
    decreases s.len(),
{
    broadcast use vstd::multiset::group_multiset_axioms;
    broadcast use vstd::seq_lib::group_to_multiset_ensures;

    if s.len() == 0 {
        assert(seq![x] == Seq::<(usize, usize)>::empty().push(x));
    } else if s.last().1 <= x.1 {
    } else {
        let q = s.drop_last();
        lemma_insert_by_slot_sorted(q, x);
        let iq = insert_by_slot(q, x);
        let r = iq.push(s.last());
        assert forall|a: int, b: int| 0 <= a < b < s.len() + 1 implies (#[trigger] r[a]).1 <= (
            #[trigger] r[b]).1 by {
            if b == s.len() {
                assert(r[b] == s.last());
                // every entry of iq is an entry of q or x, each at most s.last()'s slot
                assert(iq.to_multiset().count(r[a]) > 0);
                assert(iq.contains(r[a])) by {
                    assert(r[a] == iq[a]);
                }
                if r[a] == x {
                } else {
                    assert(q.to_multiset().insert(x).count(r[a]) > 0);
                    assert(q.to_multiset().count(r[a]) > 0);
                    assert(q.contains(r[a]));
                    let j = choose|j: int| 0 <= j < q.len() && q[j] == r[a];
                    assert(s[j] == q[j]);
                    assert(s[s.len() - 1] == s.last());
                }
            } else {
                assert(r[a] == iq[a] && r[b] == iq[b]);
            }
        }
        assert(s == q.push(s.last()));
        assert(r.to_multiset() == iq.to_multiset().insert(s.last()));
    }
}

/// Ordering by slot keeps every entry (as many times as it occurs) and
/// puts the slots in ascending order.
pub proof fn lemma_sorted_by_slot_rules(s: Seq<(usize, usize)>)
    ensures
        sorted_by_slot(s).len() == s.len(),
        sorted_by_slot(s).to_multiset() == s.to_multiset(),
        forall|a: int, b: int|
            0 <= a < b < s.len() ==> (#[trigger] sorted_by_slot(s)[a]).1 <= (
            #[trigger] sorted_by_slot(s)[b]).1,
    decreases s.len(),
{
    broadcast use vstd::multiset::group_multiset_axioms;
    broadcast use vstd::seq_lib::group_to_multiset_ensures;

    if s.len() > 0 {
        let q = s.drop_last();
        lemma_sorted_by_slot_rules(q);
        lemma_insert_by_slot_sorted(sorted_by_slot(q), s.last());
        assert(s == q.push(s.last()));
    }
}

/// Some committed action belongs to `id`.
pub open spec fn has_committed(committed: Seq<QueuedAction>, id: EntityId) -> bool {
    exists|i: int| 0 <= i < committed.len() && (#[trigger] committed[i]).actor == id
}

/// The Defend placeholder committed for a member who cannot choose.
pub open spec fn skip_action(m: PartyMemberView, slot: usize) -> QueuedAction {
    QueuedAction {
        actor: m.id,
        kind: CombatActionKind::Defend,
        target: TargetSelection::Self_,
        speed_at_queue_time: m.stats.speed,
        actor_side: Side::Party,
        slot_index: slot as u32,
    }
}

/// Asleep or paralysed.
pub open spec fn incapacitated(m: PartyMemberView) -> bool {
    holds(m.status.effects@, StatusEffectType::Sleep) || holds(
        m.status.effects@,
        StatusEffectType::Paralysis,
    )
}

/// Walks the members in `order`: those who have committed are passed over;
/// one who is asleep or paralysed gets the Defend placeholder; the first
/// other member is the one to choose next. Gives the committed actions at
/// the end, the slots of the placeholders' members, and that member's slot.
pub open spec fn input_walk(
    ms: Seq<PartyMemberView>,
    order: Seq<(usize, usize)>,
    committed: Seq<QueuedAction>,
) -> (Seq<QueuedAction>, Seq<usize>, Option<usize>)
    decreases order.len(),
{
    if order.len() == 0 {
        (committed, Seq::empty(), None)
    } else {
        let m = ms[order[0].0 as int];
        let slot = order[0].1;
        if has_committed(committed, m.id) {
            input_walk(ms, order.drop_first(), committed)
        } else if incapacitated(m) {
            let rest = input_walk(ms, order.drop_first(), committed.push(skip_action(m, slot)));
            (rest.0, seq![slot] + rest.1, rest.2)
        } else {
            (committed, Seq::empty(), Some(slot))
        }
    }
}

/// Collecting actions keeps what was committed and only adds to it; when
/// nobody is left to choose, every walked member has an action, and
/// otherwise the member chosen is one who can act and has none yet.
pub proof fn lemma_input_walk(
    ms: Seq<PartyMemberView>,
    order: Seq<(usize, usize)>,
    committed: Seq<QueuedAction>,
)
    requires
        forall|k: int| 0 <= k < order.len() ==> (#[trigger] order[k]).0 < ms.len(),
    ensures
        ({
            let w = input_walk(ms, order, committed);
            &&& committed.len() <= w.0.len()
            &&& forall|i: int| 0 <= i < committed.len() ==> #[trigger] w.0[i] == committed[i]
            &&& w.2 is None ==> forall|k: int|
                0 <= k < order.len() ==> has_committed(w.0, ms[(#[trigger] order[k]).0 as int].id)
            &&& w.2 matches Some(slot) ==> exists|k: int|
                #![trigger order[k]]
                0 <= k < order.len() && order[k].1 == slot && !incapacitated(ms[order[k].0 as int])
                    && !has_committed(w.0, ms[order[k].0 as int].id)
        }),
    decreases order.len(),
{
    if order.len() > 0 {
        let m = ms[order[0].0 as int];
        let tail = order.drop_first();
        assert forall|k: int| 0 <= k < tail.len() implies (#[trigger] tail[k]).0 < ms.len() by {
            assert(tail[k] == order[k + 1]);
        }
        if has_committed(committed, m.id) {
            lemma_input_walk(ms, tail, committed);
            let w = input_walk(ms, order, committed);
            let i0 = choose|i: int| 0 <= i < committed.len() && (#[trigger] committed[i]).actor == m.id;
            assert(w.0[i0] == committed[i0]);
            assert(w.2 is None ==> forall|k: int|
                0 <= k < order.len() ==> has_committed(w.0, ms[(#[trigger] order[k]).0 as int].id)) by {
                if w.2 is None {
                    assert forall|k: int| 0 <= k < order.len() implies has_committed(
                        w.0,
                        ms[(#[trigger] order[k]).0 as int].id,
                    ) by {
                        if k > 0 {
                            assert(order[k] == tail[k - 1]);
                        }
                    }
                }
            }
            if w.2 is Some {
                let k = choose|k: int|
                    #![trigger tail[k]]
                    0 <= k < tail.len() && tail[k].1 == w.2->0 && !incapacitated(ms[tail[k].0 as int])
                        && !has_committed(w.0, ms[tail[k].0 as int].id);
                assert(order[k + 1] == tail[k]);
            }
        } else if incapacitated(m) {
            let c2 = committed.push(skip_action(m, order[0].1));
            lemma_input_walk(ms, tail, c2);
            let w = input_walk(ms, order, committed);
            assert forall|i: int| 0 <= i < committed.len() implies #[trigger] w.0[i] == committed[i] by {
                assert(c2[i] == committed[i]);
            }
            let i0 = committed.len() as int;
            assert(w.0[i0] == c2[i0]);
            assert(w.0[i0].actor == m.id);
            if w.2 is None {
                assert forall|k: int| 0 <= k < order.len() implies has_committed(
                    w.0,
                    ms[(#[trigger] order[k]).0 as int].id,
                ) by {
                    if k > 0 {
                        assert(order[k] == tail[k - 1]);
                    }
                }
            }
            if w.2 is Some {
                let k = choose|k: int|
                    #![trigger tail[k]]
                    0 <= k < tail.len() && tail[k].1 == w.2->0 && !incapacitated(ms[tail[k].0 as int])
                        && !has_committed(w.0, ms[tail[k].0 as int].id);
                assert(order[k + 1] == tail[k]);
            }
        } else {
            assert(!has_committed(committed, ms[order[0].0 as int].id));
        }
    }
}

/// The log line for a member who cannot choose.
pub open spec fn incapacitated_line(slot: usize) -> Seq<char> {
    "Party slot "@ + decimal(slot as nat) + " is incapacitated."@
}

/// The log lines after pushing the lines for `slots`, one by one.
pub open spec fn pushed_lines(
    l: Seq<(Seq<char>, u32)>,
    slots: Seq<usize>,
    turn: u32,
    cap: nat,
) -> Seq<(Seq<char>, u32)>
    decreases slots.len(),
{
    if slots.len() == 0 {
        l
    } else {
        pushed_lines(
            keep_last(l.push((incapacitated_line(slots[0]), turn)), cap),
            slots.drop_first(),
            turn,
            cap,
        )
    }
}

proof fn lemma_insert_by_slot(s: Seq<(usize, usize)>, x: (usize, usize), p: int)
    requires
        0 <= p <= s.len(),
        forall|j: int| p <= j < s.len() ==> (#[trigger] s[j]).1 > x.1,
        p == 0 || s[p - 1].1 <= x.1,
    ensures
        insert_by_slot(s, x) == s.insert(p, x),
    decreases s.len(),
{
    if s.len() == 0 {
        assert(s.insert(p, x) =~= seq![x]);
    } else if s.last().1 <= x.1 {
        assert(p == s.len());
        assert(s.insert(p, x) =~= s.push(x));
    } else {
        lemma_insert_by_slot(s.drop_last(), x, p);
        assert(s.drop_last().insert(p, x).push(s.last()) =~= s.insert(p, x));
    }
}

/// The members who can choose, as (index, slot), ordered by slot.
fn members_by_slot(ms: &Vec<PartyMemberView>) -> (r: Vec<(usize, usize)>)
    ensures
        r@ == sorted_by_slot(up_pairs(ms@, ms@.len() as int)),
        forall|j: int| 0 <= j < r@.len() ==> (#[trigger] r@[j]).0 < ms@.len(),
{
    let mut out: Vec<(usize, usize)> = Vec::new();
    let mut i: usize = 0;
    let ghost mut ups: Seq<(usize, usize)> = Seq::empty();
    while i < ms.len()
        invariant
            0 <= i <= ms@.len(),
            ups == up_pairs(ms@, i as int),
            out@ == sorted_by_slot(ups),
            forall|j: int| 0 <= j < out@.len() ==> (#[trigger] out@[j]).0 < i,
        decreases ms@.len() - i,
    {
        let m = &ms[i];
        if m.stats.current_hp > 0 && !m.status.has(StatusEffectType::Dead) && !m.status.has(
            StatusEffectType::Stone,
        ) {
            let x = (i, m.slot);
            let mut p: usize = out.len();
            while p > 0 && out[p - 1].1 > x.1
                invariant
                    0 <= p <= out@.len(),
                    x.0 == i,
                    forall|j: int| p <= j < out@.len() ==> (#[trigger] out@[j]).1 > x.1,
                decreases p,
            {
                p = p - 1;
            }
            proof {
                lemma_insert_by_slot(out@, x, p as int);
                assert(ups.push(x).drop_last() == ups);
            }
            let ghost before = out@;
            out.insert(p, x);
            proof {
                ups = ups.push(x);
                assert forall|j: int| 0 <= j < out@.len() implies (#[trigger] out@[j]).0 < i + 1 by {
                    if j < p {
                        assert(out@[j] == before[j]);
                    } else if j > p {
                        assert(out@[j] == before[j - 1]);
                    }
                }
            }
        }
        i = i + 1;
    }
    out
}

fn has_committed_exec(committed: &Vec<QueuedAction>, id: EntityId) -> (r: bool)
    ensures
        r == has_committed(committed@, id),
{
    let mut i: usize = 0;
    while i < committed.len()
        invariant
            0 <= i <= committed@.len(),
            forall|k: int| 0 <= k < i ==> (#[trigger] committed@[k]).actor != id,
        decreases committed@.len() - i,
    {
        if committed[i].actor == id {
            return true;
        }
        i = i + 1;
    }
    false
}

/// Advances the player-input phase once.
///
/// With no party members nothing happens. Otherwise the members who can
/// choose (HP left, neither Dead nor Stone) are walked in slot order (see
/// `input_walk`): a member asleep or paralysed who has not committed gets a
/// Defend placeholder and the line "Party slot N is incapacitated."; the
/// first other member who has not committed becomes the one choosing (on a
/// change of member the main menu is reopened with its cursor at the top),
/// and the phase waits. When no such member remains, nobody is choosing and
/// the result is `true`: the round's actions are ready to execute.
pub fn collect_player_actions(
    input: &mut PlayerInputState,
    log: &mut CombatLog,
    party: &Vec<PartyMemberView>,
) -> (ready: bool)
    ensures
        party@.len() == 0 ==> {
            &&& !ready
            &&& final(input).committed@ == old(input).committed@
            &&& final(input).active_slot == old(input).active_slot
            &&& final(input).menu_stack@ == old(input).menu_stack@
            &&& final(input).main_cursor == old(input).main_cursor
            &&& lines(final(log).entries@) == lines(old(log).entries@)
        },
        party@.len() > 0 ==> {
            let w = input_walk(
                party@,
                sorted_by_slot(up_pairs(party@, party@.len() as int)),
                old(input).committed@,
            );
            &&& final(input).committed@ == w.0
            &&& lines(final(log).entries@) == pushed_lines(
                lines(old(log).entries@),
                w.1,
                old(input).current_turn,
                old(log).capacity as nat,
            )
            &&& ready == w.2 is None
            &&& final(input).active_slot == w.2
            &&& (w.2 is None || old(input).active_slot == w.2) ==> {
                &&& final(input).menu_stack@ == old(input).menu_stack@
                &&& final(input).main_cursor == old(input).main_cursor
            }
            &&& (w.2 is Some && old(input).active_slot != w.2) ==> {
                &&& final(input).menu_stack@ == seq![MenuFrame::Main]
                &&& final(input).main_cursor == 0
            }
        },
        final(log).capacity == old(log).capacity,
        final(input).pending_action == old(input).pending_action,
        final(input).target_cursor == old(input).target_cursor,
        final(input).spell_cursor == old(input).spell_cursor,
        final(input).current_turn == old(input).current_turn,
{
    if party.len() == 0 {
        return false;
    }
    let order = members_by_slot(party);
    let ghost all = order@;
    assert(all.skip(0) == all);
    let mut k: usize = 0;
    while k < order.len()
        invariant
            0 <= k <= order@.len(),
            order@ == all,
            all == sorted_by_slot(up_pairs(party@, party@.len() as int)),
            forall|j: int| 0 <= j < all.len() ==> (#[trigger] all[j]).0 < party@.len(),
            input.current_turn == old(input).current_turn,
            input.active_slot == old(input).active_slot,
            input.menu_stack@ == old(input).menu_stack@,
            input.main_cursor == old(input).main_cursor,
            input.pending_action == old(input).pending_action,
            input.target_cursor == old(input).target_cursor,
            input.spell_cursor == old(input).spell_cursor,
            log.capacity == old(log).capacity,
            ({
                let w0 = input_walk(party@, all, old(input).committed@);
                let wk = input_walk(party@, all.skip(k as int), input.committed@);
                &&& w0.0 == wk.0
                &&& w0.2 == wk.2
                &&& pushed_lines(
                    lines(old(log).entries@),
                    w0.1,
                    input.current_turn,
                    log.capacity as nat,
                ) == pushed_lines(lines(log.entries@), wk.1, input.current_turn, log.capacity as nat)
            }),
        decreases order@.len() - k,
    {
        let (idx, slot) = order[k];
        let m = &party[idx];
        proof {
            assert(all.skip(k as int).drop_first() == all.skip(k + 1));
            assert(all.skip(k as int)[0] == all[k as int]);
        }
        if has_committed_exec(&input.committed, m.id) {
            k = k + 1;
            continue;
        }
        if is_asleep(&m.status) || is_paralyzed(&m.status) {
            let mut msg = String::new();
            msg.append("Party slot ");
            push_decimal(&mut msg, slot as u64);
            msg.append(" is incapacitated.");
            proof {
                let rest = input_walk(
                    party@,
                    all.skip(k + 1),
                    input.committed@.push(skip_action(party@[idx as int], slot)),
                );
                assert((seq![slot] + rest.1)[0] == slot);
                assert((seq![slot] + rest.1).drop_first() == rest.1);
                assert(msg@ == incapacitated_line(slot));
            }
            log.push(msg, input.current_turn);
            input.committed.push(
                QueuedAction {
                    actor: m.id,
                    kind: CombatActionKind::Defend,
                    target: TargetSelection::Self_,
                    speed_at_queue_time: m.stats.speed,
                    actor_side: Side::Party,
                    slot_index: slot as u32,
                },
            );
            k = k + 1;
            continue;
        }
        if input.active_slot != Some(slot) {
            input.active_slot = Some(slot);
            let mut stack = Vec::new();
            stack.push(MenuFrame::Main);
            input.menu_stack = stack;
            input.main_cursor = 0;
        }
        return false;
    }
    proof {
        assert(all.skip(k as int).len() == 0);
    }
    input.active_slot = None;
    true
}

// ─── Speed order ─────────────────────────────────────────────────────────────

/// `a` may act before `b`: faster first; on equal speed the party first; on
/// equal side the lower slot first.
pub open spec fn acts_no_later(a: QueuedAction, b: QueuedAction) -> bool {
    ||| a.speed_at_queue_time > b.speed_at_queue_time
    ||| a.speed_at_queue_time == b.speed_at_queue_time && side_rank(a.actor_side) < side_rank(
        b.actor_side,
    )
    ||| a.speed_at_queue_time == b.speed_at_queue_time && side_rank(a.actor_side) == side_rank(
        b.actor_side,
    ) && a.slot_index <= b.slot_index
}

/// The actions are in turn order.
pub open spec fn in_turn_order(s: Seq<QueuedAction>) -> bool {
    forall|i: int, j: int| 0 <= i < j < s.len() ==> acts_no_later(#[trigger] s[i], #[trigger] s[j])
}


/// In turn order, faster actions come first; at equal speed the party acts
/// before the enemies; at equal speed on one side the lower slot acts first.
pub proof fn lemma_turn_order_rules(s: Seq<QueuedAction>)
    requires
        in_turn_order(s),
    ensures
        forall|i: int, j: int|
            0 <= i < j < s.len() ==> {
                &&& (#[trigger] s[i]).speed_at_queue_time >= (#[trigger] s[j]).speed_at_queue_time
                &&& (s[i].speed_at_queue_time == s[j].speed_at_queue_time && s[i].actor_side
                    == Side::Enemy) ==> s[j].actor_side == Side::Enemy
                &&& (s[i].speed_at_queue_time == s[j].speed_at_queue_time && s[i].actor_side
                    == s[j].actor_side) ==> s[i].slot_index <= s[j].slot_index
            },
{
    assert forall|i: int, j: int| 0 <= i < j < s.len() implies {
        &&& (#[trigger] s[i]).speed_at_queue_time >= (#[trigger] s[j]).speed_at_queue_time
        &&& (s[i].speed_at_queue_time == s[j].speed_at_queue_time && s[i].actor_side
            == Side::Enemy) ==> s[j].actor_side == Side::Enemy
        &&& (s[i].speed_at_queue_time == s[j].speed_at_queue_time && s[i].actor_side
            == s[j].actor_side) ==> s[i].slot_index <= s[j].slot_index
    } by {
        assert(acts_no_later(s[i], s[j]));
        match s[i].actor_side {
            Side::Party => {},
            Side::Enemy => {},
        }
        match s[j].actor_side {
            Side::Party => {},
            Side::Enemy => {},
        }
    }
}

/// `a` and `b` have the same place in turn order: same speed, side and slot.
pub open spec fn same_turn_key(a: QueuedAction, b: QueuedAction) -> bool {
    a.speed_at_queue_time == b.speed_at_queue_time && a.actor_side == b.actor_side && a.slot_index
        == b.slot_index
}

/// The actions of `s` with the same place in turn order as `k`, in order.
pub open spec fn ties_of(s: Seq<QueuedAction>, k: QueuedAction) -> Seq<QueuedAction>
    decreases s.len(),
{
    if s.len() == 0 {
        Seq::empty()
    } else if same_turn_key(s.last(), k) {
        ties_of(s.drop_last(), k).push(s.last())
    } else {
        ties_of(s.drop_last(), k)
    }
}

proof fn lemma_ties_add(a: Seq<QueuedAction>, b: Seq<QueuedAction>, k: QueuedAction)
    ensures
        ties_of(a + b, k) == ties_of(a, k) + ties_of(b, k),
    decreases b.len(),
{
    if b.len() == 0 {
        assert(a + b == a);
        assert(ties_of(a, k) + ties_of(b, k) == ties_of(a, k));
    } else {
        lemma_ties_add(a, b.drop_last(), k);
        assert((a + b).drop_last() == a + b.drop_last());
        assert((a + b).last() == b.last());
        if same_turn_key(b.last(), k) {
            assert(ties_of(a, k) + ties_of(b.drop_last(), k).push(b.last()) == (ties_of(a, k)
                + ties_of(b.drop_last(), k)).push(b.last()));
        }
    }
}

proof fn lemma_ties_single(x: QueuedAction, k: QueuedAction)
    ensures
        ties_of(seq![x], k) == if same_turn_key(x, k) { seq![x] } else { Seq::<QueuedAction>::empty() },
{
    assert(seq![x].drop_last().len() == 0);
    assert(ties_of(seq![x].drop_last(), k) =~= Seq::<QueuedAction>::empty());
    assert(seq![x].last() == x);
    assert(Seq::<QueuedAction>::empty().push(x) == seq![x]);
}

proof fn lemma_ties_none(s: Seq<QueuedAction>, k: QueuedAction)
    requires
        forall|j: int| 0 <= j < s.len() ==> !same_turn_key(#[trigger] s[j], k),
    ensures
        ties_of(s, k).len() == 0,
    decreases s.len(),
{
    if s.len() > 0 {
        assert(s.last() == s[s.len() - 1]);
        lemma_ties_none(s.drop_last(), k);
    }
}

fn acts_no_later_exec(a: &QueuedAction, b: &QueuedAction) -> (r: bool)
    ensures
        r == acts_no_later(*a, *b),
{
    if a.speed_at_queue_time != b.speed_at_queue_time {
        a.speed_at_queue_time > b.speed_at_queue_time
    } else {
        let ra = side_order(a.actor_side);
        let rb = side_order(b.actor_side);
        if ra != rb {
            ra < rb
        } else {
            a.slot_index <= b.slot_index
        }
    }
}

/// Sorts the round's actions into turn order: descending speed, then the
/// party before the enemies, then ascending slot. Actions with the same
/// speed, side and slot keep their relative order.
pub fn sort_queue_by_speed(queue: &mut TurnActionQueue)
    ensures
        final(queue).queue@.to_multiset() == old(queue).queue@.to_multiset(),
        in_turn_order(final(queue).queue@),
        forall|k: QueuedAction| #[trigger] ties_of(final(queue).queue@, k) == ties_of(old(queue).queue@, k),
{
    broadcast use vstd::multiset::group_multiset_axioms;

    let ghost orig = queue.queue@;
    let mut out: Vec<QueuedAction> = Vec::new();
    proof {
        vstd::seq_lib::to_multiset_len(out@);
        vstd::multiset::lemma_multiset_empty_len(out@.to_multiset());
        assert(out@.to_multiset().add(queue.queue@.to_multiset()) =~= orig.to_multiset());
        assert forall|k: QueuedAction| #[trigger] ties_of(out@, k) + ties_of(queue.queue@, k) == ties_of(orig, k) by {
            assert(ties_of(out@, k) + ties_of(orig, k) =~= ties_of(orig, k));
        }
    }
    while queue.queue.len() > 0
        invariant
            out@.to_multiset().add(queue.queue@.to_multiset()) == orig.to_multiset(),
            in_turn_order(out@),
            forall|k: QueuedAction| #[trigger] ties_of(out@, k) + ties_of(queue.queue@, k) == ties_of(orig, k),
        decreases queue.queue@.len(),
    {
        let ghost rest = queue.queue@;
        let x = queue.queue.remove(0);
        proof {
            assert(rest.remove(0) == queue.queue@);
        }
        let mut p: usize = 0;
        while p < out.len() && acts_no_later_exec(&out[p], &x)
            invariant
                0 <= p <= out@.len(),
                forall|k: int| 0 <= k < p ==> acts_no_later(#[trigger] out@[k], x),
            decreases out@.len() - p,
        {
            p = p + 1;
        }
        let ghost before = out@;
        out.insert(p, x);
        proof {
            assert(out@ == before.insert(p as int, x));
            assert forall|i: int, j: int| 0 <= i < j < out@.len() implies acts_no_later(
                #[trigger] out@[i],
                #[trigger] out@[j],
            ) by {
                if j < p {
                    assert(out@[i] == before[i] && out@[j] == before[j]);
                } else if j == p {
                    assert(out@[i] == before[i]);
                } else if i == p {
                    assert(out@[j] == before[j - 1]);
                    assert(p < before.len());
                    assert(!acts_no_later(before[p as int], x));
                    if j - 1 > p {
                        assert(acts_no_later(before[p as int], before[j - 1]));
                    }
                } else if i < p {
                    assert(out@[i] == before[i] && out@[j] == before[j - 1]);
                } else {
                    assert(out@[i] == before[i - 1] && out@[j] == before[j - 1]);
                }
            }
            vstd::seq_lib::to_multiset_insert(before, p as int, x);
            vstd::seq_lib::to_multiset_remove(rest, 0);
            assert(rest[0] == x);
            assert(rest.to_multiset().count(x) > 0) by {
                vstd::seq_lib::to_multiset_contains(rest, x);
            }
            assert(out@.to_multiset().add(queue.queue@.to_multiset()) =~= before.to_multiset().add(
                rest.to_multiset(),
            ));
            let tail = queue.queue@;
            assert(rest == seq![x] + tail);
            let front = before.take(p as int);
            let back = before.skip(p as int);
            assert(before == front + back);
            assert(out@ == front + seq![x] + back);
            assert forall|j: int| 0 <= j < back.len() implies !same_turn_key(#[trigger] back[j], x) by {
                assert(back[j] == before[p + j]);
                if same_turn_key(back[j], x) {
                    assert(acts_no_later(before[p + j], x));
                    if j > 0 {
                        assert(acts_no_later(before[p as int], before[p + j]));
                    }
                    assert(acts_no_later(before[p as int], x));
                }
            }
            assert forall|k: QueuedAction| #[trigger] ties_of(out@, k) + ties_of(queue.queue@, k)
                == ties_of(orig, k) by {
                lemma_ties_add(front, seq![x], k);
                lemma_ties_add(front + seq![x], back, k);
                lemma_ties_add(front, back, k);
                lemma_ties_add(seq![x], tail, k);
                lemma_ties_single(x, k);
                assert(ties_of(before, k) + ties_of(rest, k) == ties_of(orig, k));
                if same_turn_key(x, k) {
                    assert forall|j: int| 0 <= j < back.len() implies !same_turn_key(#[trigger] back[j], k) by {
                        assert(!same_turn_key(back[j], x));
                    }
                    lemma_ties_none(back, k);
                    assert(ties_of(back, k) =~= Seq::<QueuedAction>::empty());
                    assert(ties_of(out@, k) + ties_of(tail, k) =~= ties_of(before, k) + ties_of(rest, k));
                } else {
                    assert(ties_of(out@, k) + ties_of(tail, k) =~= ties_of(before, k) + ties_of(rest, k));
                }
            }
        }
    }
    proof {
        vstd::seq_lib::to_multiset_len(queue.queue@);
        vstd::multiset::lemma_multiset_empty_len(queue.queue@.to_multiset());
        assert(out@.to_multiset() =~= out@.to_multiset().add(queue.queue@.to_multiset()));
        assert forall|k: QueuedAction| #[trigger] ties_of(out@, k) == ties_of(orig, k) by {
            assert(ties_of(queue.queue@, k) =~= Seq::<QueuedAction>::empty());
            assert(ties_of(out@, k) + ties_of(queue.queue@, k) =~= ties_of(out@, k));
        }
    }
    queue.queue = out;
}

// ─── End of round ────────────────────────────────────────────────────────────

/// A combatant's state as the end-of-round check sees it.
#[derive(Clone, Copy, Debug, PartialEq, Eq, Structural)]
pub struct Standing {
    pub current_hp: u32,
    pub max_hp: u32,
    pub dead: bool,
}

/// Out of the fight: no HP left, or the Dead effect.
pub open spec fn is_down(s: Standing) -> bool {
    s.current_hp == 0 || s.dead
}

/// Every member of `s` is out of the fight, and there is at least one.
pub open spec fn all_down(s: Seq<Standing>) -> bool {
    s.len() > 0 && forall|i: int| 0 <= i < s.len() ==> is_down(#[trigger] s[i])
}

fn all_down_exec(s: &Vec<Standing>) -> (r: bool)
    ensures
        r == all_down(s@),
{
    if s.len() == 0 {
        return false;
    }
    let mut i: usize = 0;
    while i < s.len()
        invariant
            0 <= i <= s@.len(),
            forall|k: int| 0 <= k < i ==> is_down(#[trigger] s@[k]),
        decreases s@.len() - i,
    {
        if !(s[i].current_hp == 0 || s[i].dead) {
            return false;
        }
        i = i + 1;
    }
    true
}

/// What follows a resolved round.
#[derive(Clone, Copy, Debug, PartialEq, Eq, Structural)]
pub enum RoundOutcome {
    /// The whole party is down: game over.
    Defeat,
    /// The party escaped: back to the dungeon.
    Fled,
    /// Every enemy is down: experience is awarded, back to the dungeon.
    Victory { total_xp: u32 },
    /// Another round of player input.
    NextRound,
}

/// The experience for a victory: half of each enemy's maximum HP (capped at
/// 1 000 000 per enemy), summed and capped at 1 000 000.
pub open spec fn xp_total(s: Seq<Standing>) -> int
    decreases s.len(),
{
    if s.len() == 0 {
        0
    } else {
        xp_total(s.drop_last()) + if s.last().max_hp / 2 <= 1_000_000 {
            s.last().max_hp / 2
        } else {
            1_000_000
        }
    }
}

/// The experience awarded for defeating `enemies`.
pub fn compute_xp_from_enemies(enemies: &Vec<Standing>) -> (r: u32)
    ensures
        r == if xp_total(enemies@) <= 1_000_000 { xp_total(enemies@) } else { 1_000_000 },
{
    // The running total is held at most at 1 000 001: past the cap the result
    // no longer changes, and the sum stays far from overflow.
    let mut total: u64 = 0;
    let mut i: usize = 0;
    while i < enemies.len()
        invariant
            0 <= i <= enemies@.len(),
            total == if xp_total(enemies@.take(i as int)) <= 1_000_001 {
                xp_total(enemies@.take(i as int))
            } else {
                1_000_001
            },
        decreases enemies@.len() - i,
    {
        assert(enemies@.take(i + 1).drop_last() == enemies@.take(i as int));
        let half = enemies[i].max_hp / 2;
        let capped: u64 = if half <= 1_000_000 { half as u64 } else { 1_000_000 };
        total = if total + capped <= 1_000_001 { total + capped } else { 1_000_001 };
        i = i + 1;
    }
    assert(enemies@.take(enemies@.len() as int) == enemies@);
    if total <= 1_000_000 { total as u32 } else { 1_000_000 }
}

/// Decides what follows the round, in this order: defeat (the whole party
/// down), flight (a successful escape), victory (every enemy down, with its
/// experience), else another round. An empty party or empty enemy list is
/// neither a defeat nor a victory.
pub fn check_victory_defeat_flee(
    party: &Vec<Standing>,
    enemies: &Vec<Standing>,
    flee: &FleeAttempted,
) -> (r: RoundOutcome)
    ensures
        all_down(party@) ==> r == RoundOutcome::Defeat,
        !all_down(party@) && flee.success ==> r == RoundOutcome::Fled,
        !all_down(party@) && !flee.success && all_down(enemies@) ==> r == (RoundOutcome::Victory {
            total_xp: if xp_total(enemies@) <= 1_000_000 {
                xp_total(enemies@) as u32
            } else {
                1_000_000
            },
        }),
        !all_down(party@) && !flee.success && !all_down(enemies@) ==> r == RoundOutcome::NextRound,
{
    if all_down_exec(party) {
        return RoundOutcome::Defeat;
    }
    if flee.success {
        return RoundOutcome::Fled;
    }
    if all_down_exec(enemies) {
        let total_xp = compute_xp_from_enemies(enemies);
        return RoundOutcome::Victory { total_xp };
    }
    RoundOutcome::NextRound
}

/// Prepares the input state for another round: nothing committed, the turn
/// counter advanced (saturating), no member choosing, the main menu open.
pub fn start_next_round(input: &mut PlayerInputState)
    ensures
        final(input).committed@.len() == 0,
        final(input).current_turn == if old(input).current_turn < u32::MAX {
            (old(input).current_turn + 1) as u32
        } else {
            u32::MAX
        },
        final(input).active_slot is None,
        final(input).menu_stack@.len() == 1 && final(input).menu_stack@[0] == MenuFrame::Main,
        final(input).pending_action == old(input).pending_action,
        final(input).target_cursor == old(input).target_cursor,
        final(input).main_cursor == old(input).main_cursor,
        final(input).spell_cursor == old(input).spell_cursor,
{
    input.committed = Vec::new();
    input.current_turn = input.current_turn.saturating_add(1);
    input.active_slot = None;
    let mut stack = Vec::new();
    stack.push(MenuFrame::Main);
    input.menu_stack = stack;
}


/// What follows a round (see `check_victory_defeat_flee`).
pub open spec fn round_outcome(party: Seq<Standing>, enemies: Seq<Standing>, flee: FleeAttempted) -> RoundOutcome {
    if all_down(party) {
        RoundOutcome::Defeat
    } else if flee.success {
        RoundOutcome::Fled
    } else if all_down(enemies) {
        RoundOutcome::Victory {
            total_xp: if xp_total(enemies) <= 1_000_000 { xp_total(enemies) as u32 } else { 1_000_000 },
        }
    } else {
        RoundOutcome::NextRound
    }
}

proof fn lemma_xp_nonnegative(s: Seq<Standing>)
    ensures
        xp_total(s) >= 0,
    decreases s.len(),
{
    if s.len() > 0 {
        lemma_xp_nonnegative(s.drop_last());
    }
}

/// Experience adds up over the enemies, each worth half its maximum HP
/// (rounded down, at most 1,000,000).
pub proof fn lemma_xp_rules(a: Seq<Standing>, b: Seq<Standing>, x: Standing)
    ensures
        xp_total(a + b) == xp_total(a) + xp_total(b),
        xp_total(seq![x]) == if x.max_hp <= 2_000_001 { (x.max_hp / 2) as int } else { 1_000_000 },
        xp_total(Seq::<Standing>::empty()) == 0,
    decreases b.len(),
{
    if b.len() > 0 {
        lemma_xp_rules(a, b.drop_last(), x);
        assert((a + b).drop_last() == a + b.drop_last());
        assert((a + b).last() == b.last());
    } else {
        assert(a + b == a);
    }
    assert(xp_total(Seq::<Standing>::empty()) == 0);
    assert(seq![x].drop_last() == Seq::<Standing>::empty());
    assert(seq![x].last() == x);
}

/// What follows a round: a party that is wholly down loses, even if it fled
/// or the enemies are down too; otherwise a successful flight ends the
/// fight, even with every enemy down; otherwise a wholly downed enemy side
/// is a victory worth the enemies' experience (at most 1,000,000); otherwise
/// another round. Sides with no members are never wholly down.
pub proof fn lemma_round_outcome_rules(party: Seq<Standing>, enemies: Seq<Standing>, flee: FleeAttempted)
    ensures
        ({
            let r = round_outcome(party, enemies, flee);
            let party_out = party.len() > 0 && forall|i: int|
                0 <= i < party.len() ==> (#[trigger] party[i]).current_hp == 0 || party[i].dead;
            let enemies_out = enemies.len() > 0 && forall|i: int|
                0 <= i < enemies.len() ==> (#[trigger] enemies[i]).current_hp == 0 || enemies[i].dead;
            &&& (r == RoundOutcome::Defeat) <==> party_out
            &&& (r == RoundOutcome::Fled) <==> (!party_out && flee.success)
            &&& (r is Victory) <==> (!party_out && !flee.success && enemies_out)
            &&& r matches RoundOutcome::Victory { total_xp } ==> total_xp as int == if xp_total(
                enemies,
            ) <= 1_000_000 {
                xp_total(enemies)
            } else {
                1_000_000
            }
            &&& (r == RoundOutcome::NextRound) <==> (!party_out && !flee.success && !enemies_out)
        }),
{
    lemma_xp_nonnegative(enemies);
    assert(all_down(party) <==> (party.len() > 0 && forall|i: int|
        0 <= i < party.len() ==> (#[trigger] party[i]).current_hp == 0 || party[i].dead)) by {
        if party.len() > 0 && forall|i: int|
            0 <= i < party.len() ==> (#[trigger] party[i]).current_hp == 0 || party[i].dead {
            assert forall|i: int| 0 <= i < party.len() implies is_down(#[trigger] party[i]) by {}
        }
    }
    assert(all_down(enemies) <==> (enemies.len() > 0 && forall|i: int|
        0 <= i < enemies.len() ==> (#[trigger] enemies[i]).current_hp == 0 || enemies[i].dead)) by {
        if enemies.len() > 0 && forall|i: int|
            0 <= i < enemies.len() ==> (#[trigger] enemies[i]).current_hp == 0 || enemies[i].dead {
            assert forall|i: int| 0 <= i < enemies.len() implies is_down(#[trigger] enemies[i]) by {}
        }
    }
}

/// Ends a round: decides what follows (see `check_victory_defeat_flee`),
/// logs "The party falls..." on a defeat and "Victory!" on a victory under
/// the current turn, and before another round prepares the input state (see
/// `start_next_round`). The input state is otherwise left as it is.
pub fn conclude_round(
    party: &Vec<Standing>,
    enemies: &Vec<Standing>,
    flee: &FleeAttempted,
    log: &mut CombatLog,
    input: &mut PlayerInputState,
) -> (r: RoundOutcome)
    ensures
        r == round_outcome(party@, enemies@, *flee),
        final(log).capacity == old(log).capacity,
        lines(final(log).entries@) == match r {
            RoundOutcome::Defeat => keep_last(
                lines(old(log).entries@).push(("The party falls..."@, old(input).current_turn)),
                old(log).capacity as nat,
            ),
            RoundOutcome::Victory { .. } => keep_last(
                lines(old(log).entries@).push(("Victory!"@, old(input).current_turn)),
                old(log).capacity as nat,
            ),
            _ => lines(old(log).entries@),
        },
        r == RoundOutcome::NextRound ==> {
            &&& final(input).committed@.len() == 0
            &&& final(input).current_turn == if old(input).current_turn < u32::MAX {
                (old(input).current_turn + 1) as u32
            } else {
                u32::MAX
            }
            &&& final(input).active_slot is None
            &&& final(input).menu_stack@.len() == 1 && final(input).menu_stack@[0] == MenuFrame::Main
            &&& final(input).pending_action == old(input).pending_action
            &&& final(input).target_cursor == old(input).target_cursor
            &&& final(input).main_cursor == old(input).main_cursor
            &&& final(input).spell_cursor == old(input).spell_cursor
        },
        r != RoundOutcome::NextRound ==> *final(input) == *old(input),
{
    let r = check_victory_defeat_flee(party, enemies, flee);
    let turn = input.current_turn;
    match r {
        RoundOutcome::Defeat => {
            let mut msg = String::new();
            msg.append("The party falls...");
            let ghost m = msg;
            log.push(msg, turn);
            proof {
                crate::combat::combat_log::lemma_lines_keep_last(
                    old(log).entries@,
                    crate::combat::combat_log::CombatLogEntry { message: m, turn_number: turn },
                    old(log).capacity as nat,
                );
            }
        },
        RoundOutcome::Victory { .. } => {
            let mut msg = String::new();
            msg.append("Victory!");
            let ghost m = msg;
            log.push(msg, turn);
            proof {
                crate::combat::combat_log::lemma_lines_keep_last(
                    old(log).entries@,
                    crate::combat::combat_log::CombatLogEntry { message: m, turn_number: turn },
                    old(log).capacity as nat,
                );
            }
        },
        RoundOutcome::Fled => {},
        RoundOutcome::NextRound => {
            start_next_round(input);
        },
    }
    r
}

/// Entering combat: an empty queue, fresh input for the first round, no
/// flight attempted, and "--- Combat begins ---" logged under turn 0 (the
/// log is kept across combats).
pub fn begin_combat(
    queue: &mut TurnActionQueue,
    input: &mut PlayerInputState,
    flee: &mut FleeAttempted,
    log: &mut CombatLog,
)
    ensures
        final(queue).queue@.len() == 0,
        final(input).active_slot is None,
        final(input).menu_stack@ == seq![MenuFrame::Main],
        final(input).committed@.len() == 0,
        final(input).pending_action is None,
        final(input).target_cursor is None,
        final(input).main_cursor == 0 && final(input).spell_cursor == 0 && final(input).current_turn == 0,
        !final(flee).success && !final(flee).attempted_this_round,
        final(log).capacity == old(log).capacity,
        lines(final(log).entries@) == keep_last(
            lines(old(log).entries@).push(("--- Combat begins ---"@, 0u32)),
            old(log).capacity as nat,
        ),
{
    queue.queue = Vec::new();
    *input = PlayerInputState::for_new_combat();
    *flee = FleeAttempted { success: false, attempted_this_round: false };
    let mut msg = String::new();
    msg.append("--- Combat begins ---");
    let ghost m = msg;
    log.push(msg, 0);
    proof {
        crate::combat::combat_log::lemma_lines_keep_last(
            old(log).entries@,
            crate::combat::combat_log::CombatLogEntry { message: m, turn_number: 0 },
            old(log).capacity as nat,
        );
    }
}

/// Leaving combat: an empty queue, a cleared input state (no menu open) and
/// no flight attempted.
pub fn end_combat(queue: &mut TurnActionQueue, input: &mut PlayerInputState, flee: &mut FleeAttempted)
    ensures
        final(queue).queue@.len() == 0,
        final(input).active_slot is None,
        final(input).menu_stack@.len() == 0,
        final(input).committed@.len() == 0,
        final(input).pending_action is None,
        final(input).target_cursor is None,
        final(input).main_cursor == 0 && final(input).spell_cursor == 0 && final(input).current_turn == 0,
        !final(flee).success && !final(flee).attempted_this_round,
{
    queue.queue = Vec::new();
    *input = PlayerInputState::cleared();
    *flee = FleeAttempted { success: false, attempted_this_round: false };
}

} // verus!
