//! Known spells that name no authored spell. Building an actor's spell list
//! skips such identifiers; each (identifier, actor) pair is reported once, so
//! that a warning does not repeat every frame.

use crate::character::EntityId;
use crate::data::lookup::has_key;
use crate::data::spells::{SpellAsset, SpellDb};
use vstd::prelude::*;

verus! {

/// The (spell identifier, actor) pairs already reported as missing.
#[derive(Debug)]
pub struct WarnedMissingSpells {
    pub set: Vec<(String, EntityId)>,
}

/// The pairs a record holds.
pub open spec fn warned_pairs(v: Seq<(String, EntityId)>) -> Set<(Seq<char>, EntityId)> {
    Set::new(
        |p: (Seq<char>, EntityId)|
            exists|i: int| 0 <= i < v.len() && (#[trigger] v[i]).0@ == p.0 && v[i].1 == p.1,
    )
}

/// The pairs reported after scanning `known` for `actor`, starting from `w`:
/// every known identifier with no spell of that identifier is added.
pub open spec fn warned_after(
    w: Set<(Seq<char>, EntityId)>,
    known: Seq<String>,
    db: Seq<SpellAsset>,
    actor: EntityId,
) -> Set<(Seq<char>, EntityId)>
    decreases known.len(),
{
    if known.len() == 0 {
        w
    } else {
        let before = warned_after(w, known.drop_last(), db, actor);
        let k = known.last()@;
        if has_key(db, k) {
            before
        } else {
            before.insert((k, actor))
        }
    }
}

/// The identifiers newly reported while scanning `known` for `actor`, in the
/// order met: a missing identifier whose pair was not yet reported.
pub open spec fn newly_missing(
    w: Set<(Seq<char>, EntityId)>,
    known: Seq<String>,
    db: Seq<SpellAsset>,
    actor: EntityId,
) -> Seq<Seq<char>>
    decreases known.len(),
{
    if known.len() == 0 {
        Seq::empty()
    } else {
        let before = newly_missing(w, known.drop_last(), db, actor);
        let k = known.last()@;
        if !has_key(db, k) && !warned_after(w, known.drop_last(), db, actor).contains((k, actor)) {
            before.push(k)
        } else {
            before
        }
    }
}

/// Scanning only adds pairs.
proof fn lemma_warned_grows(
    w: Set<(Seq<char>, EntityId)>,
    known: Seq<String>,
    db: Seq<SpellAsset>,
    actor: EntityId,
)
    ensures
        w.subset_of(warned_after(w, known, db, actor)),
    decreases known.len(),
{
    if known.len() > 0 {
        lemma_warned_grows(w, known.drop_last(), db, actor);
    }
}

/// After a scan, every missing identifier of the scanned list is recorded
/// with the actor.
proof fn lemma_warned_covers(
    w: Set<(Seq<char>, EntityId)>,
    known: Seq<String>,
    db: Seq<SpellAsset>,
    actor: EntityId,
)
    ensures
        forall|j: int|
            0 <= j < known.len() && !has_key(db, (#[trigger] known[j])@) ==> warned_after(
                w,
                known,
                db,
                actor,
            ).contains((known[j]@, actor)),
    decreases known.len(),
{
    if known.len() > 0 {
        let init = known.drop_last();
        lemma_warned_covers(w, init, db, actor);
        assert forall|j: int|
            0 <= j < known.len() && !has_key(db, (#[trigger] known[j])@) implies warned_after(
            w,
            known,
            db,
            actor,
        ).contains((known[j]@, actor)) by {
            if j < known.len() - 1 {
                assert(init[j] == known[j]);
            }
        }
    }
}

/// A record that already holds every missing identifier of `known` with the
/// actor reports nothing new.
proof fn lemma_nothing_new(
    w: Set<(Seq<char>, EntityId)>,
    known: Seq<String>,
    db: Seq<SpellAsset>,
    actor: EntityId,
)
    requires
        forall|j: int|
            0 <= j < known.len() && !has_key(db, (#[trigger] known[j])@) ==> w.contains(
                (known[j]@, actor),
            ),
    ensures
        newly_missing(w, known, db, actor) == Seq::<Seq<char>>::empty(),
    decreases known.len(),
{
    if known.len() > 0 {
        let init = known.drop_last();
        assert forall|j: int|
            0 <= j < init.len() && !has_key(db, (#[trigger] init[j])@) implies w.contains(
            (init[j]@, actor),
        ) by {
            assert(known[j] == init[j]);
        }
        lemma_nothing_new(w, init, db, actor);
        lemma_warned_grows(w, init, db, actor);
        assert(known.last() == known[known.len() - 1]);
    }
}

/// Each missing spell is reported once per actor: scanning the same known
/// spells again, after a scan, reports nothing and records nothing new.
pub proof fn lemma_reported_once(
    w: Set<(Seq<char>, EntityId)>,
    known: Seq<String>,
    db: Seq<SpellAsset>,
    actor: EntityId,
)
    ensures
        newly_missing(warned_after(w, known, db, actor), known, db, actor) == Seq::<
            Seq<char>,
        >::empty(),
        warned_after(warned_after(w, known, db, actor), known, db, actor) == warned_after(
            w,
            known,
            db,
            actor,
        ),
{
    let w1 = warned_after(w, known, db, actor);
    lemma_warned_covers(w, known, db, actor);
    lemma_nothing_new(w1, known, db, actor);
    lemma_after_fixed(w1, known, db, actor);
}

/// Scanning adds nothing to a record that already holds every missing
/// identifier of the list with the actor.
proof fn lemma_after_fixed(
    w: Set<(Seq<char>, EntityId)>,
    known: Seq<String>,
    db: Seq<SpellAsset>,
    actor: EntityId,
)
    requires
        forall|j: int|
            0 <= j < known.len() && !has_key(db, (#[trigger] known[j])@) ==> w.contains(
                (known[j]@, actor),
            ),
    ensures
        warned_after(w, known, db, actor) == w,
    decreases known.len(),
{
    if known.len() > 0 {
        let init = known.drop_last();
        assert forall|j: int|
            0 <= j < init.len() && !has_key(db, (#[trigger] init[j])@) implies w.contains(
            (init[j]@, actor),
        ) by {
            assert(known[j] == init[j]);
        }
        lemma_after_fixed(w, init, db, actor);
        assert(known.last() == known[known.len() - 1]);
        if !has_key(db, known.last()@) {
            assert(w.contains((known[known.len() - 1]@, actor)));
            assert(w.insert((known.last()@, actor)) =~= w);
        }
    }
}

impl WarnedMissingSpells {
    /// A record with nothing reported yet.
    pub fn new() -> (r: Self)
        ensures
            warned_pairs(r.set@) == Set::<(Seq<char>, EntityId)>::empty(),
    {
        let r = WarnedMissingSpells { set: Vec::new() };
        assert(warned_pairs(r.set@) =~= Set::<(Seq<char>, EntityId)>::empty());
        r
    }

    /// Whether `(id, actor)` has been reported.
    pub fn contains(&self, id: &String, actor: EntityId) -> (r: bool)
        ensures
            r == warned_pairs(self.set@).contains((id@, actor)),
    {
        let mut j: usize = 0;
        while j < self.set.len()
            invariant
                0 <= j <= self.set@.len(),
                forall|i: int|
                    0 <= i < j ==> !((#[trigger] self.set@[i]).0@ == id@ && self.set@[i].1 == actor),
            decreases self.set@.len() - j,
        {
            if self.set[j].0 == *id && self.set[j].1 == actor {
                assert(self.set@[j as int].0@ == id@);
                return true;
            }
            j = j + 1;
        }
        false
    }
}

/// Scans `actor`'s known spells against the spell table: every identifier
/// that names no spell is recorded with the actor, and those not recorded
/// before are returned, in order, to be reported.
pub fn note_missing_spells(
    warned: &mut WarnedMissingSpells,
    known: &Vec<String>,
    db: &SpellDb,
    actor: EntityId,
) -> (r: Vec<String>)
    ensures
        warned_pairs(final(warned).set@) == warned_after(
            warned_pairs(old(warned).set@),
            known@,
            db.spells@,
            actor,
        ),
        r@.map_values(|s: String| s@) == newly_missing(
            warned_pairs(old(warned).set@),
            known@,
            db.spells@,
            actor,
        ),
{
    let ghost w0 = warned_pairs(warned.set@);
    let mut out: Vec<String> = Vec::new();
    let mut i: usize = 0;
    while i < known.len()
        invariant
            0 <= i <= known@.len(),
            warned_pairs(warned.set@) == warned_after(w0, known@.take(i as int), db.spells@, actor),
            out@.map_values(|s: String| s@) == newly_missing(
                w0,
                known@.take(i as int),
                db.spells@,
                actor,
            ),
        decreases known@.len() - i,
    {
        proof {
            assert(known@.take(i + 1).drop_last() == known@.take(i as int));
            assert(known@.take(i + 1).last() == known@[i as int]);
        }
        if db.get(known[i].as_str()).is_none() {
            if !warned.contains(&known[i], actor) {
                let id = known[i].clone();
                let ghost before = warned.set@;
                warned.set.push((id, actor));
                proof {
                    assert(warned_pairs(warned.set@) =~= warned_pairs(before).insert(
                        (known@[i as int]@, actor),
                    )) by {
                        assert forall|p: (Seq<char>, EntityId)|
                            warned_pairs(warned.set@).contains(p) implies warned_pairs(
                            before,
                        ).insert((known@[i as int]@, actor)).contains(p) by {
                            let k = choose|k: int|
                                0 <= k < warned.set@.len() && (#[trigger] warned.set@[k]).0@
                                    == p.0 && warned.set@[k].1 == p.1;
                            if k < before.len() {
                                assert(before[k] == warned.set@[k]);
                            }
                        }
                        assert forall|p: (Seq<char>, EntityId)|
                            warned_pairs(before).insert((known@[i as int]@, actor)).contains(
                                p,
                            ) implies warned_pairs(warned.set@).contains(p) by {
                            if p != (known@[i as int]@, actor) {
                                let k = choose|k: int|
                                    0 <= k < before.len() && (#[trigger] before[k]).0@ == p.0
                                        && before[k].1 == p.1;
                                assert(warned.set@[k] == before[k]);
                            } else {
                                assert(warned.set@[before.len() as int].0@ == p.0);
                            }
                        }
                    }
                }
                let ghost out_before = out@;
                out.push(known[i].clone());
                proof {
                    assert(out@.map_values(|s: String| s@) =~= out_before.map_values(
                        |s: String| s@,
                    ).push(known@[i as int]@));
                }
            }
        }
        i = i + 1;
    }
    proof {
        assert(known@.take(known@.len() as int) == known@);
    }
    out
}

} // verus!
