//! The combat log: a bounded buffer of the most recent messages, kept across
//! combats.

use vstd::prelude::*;
use std::collections::VecDeque;

verus! {

/// Capacity of the combat log.
pub const COMBAT_LOG_CAPACITY: usize = 50;

/// One line of the combat log.
#[derive(Debug)]
pub struct CombatLogEntry {
    pub message: String,
    pub turn_number: u32,
}

/// The most recent combat messages, oldest first.
#[derive(Debug)]
pub struct CombatLog {
    pub entries: VecDeque<CombatLogEntry>,
    pub capacity: usize,
}

/// The last `cap` elements of `s` (all of `s` when it is not longer).
pub open spec fn keep_last<A>(s: Seq<A>, cap: nat) -> Seq<A> {
    if s.len() > cap {
        s.subrange(s.len() - cap, s.len() as int)
    } else {
        s
    }
}

/// The lines of a log as (message, turn) pairs.
pub open spec fn lines(s: Seq<CombatLogEntry>) -> Seq<(Seq<char>, u32)> {
    s.map_values(|e: CombatLogEntry| (e.message@, e.turn_number))
}

/// Keeping the last lines of a log is keeping the last of its entries.
pub proof fn lemma_lines_keep_last(s: Seq<CombatLogEntry>, e: CombatLogEntry, cap: nat)
    ensures
        lines(keep_last(s.push(e), cap)) == keep_last(
            lines(s).push((e.message@, e.turn_number)),
            cap,
        ),
{
    assert(lines(s.push(e)) =~= lines(s).push((e.message@, e.turn_number)));
    if s.len() + 1 > cap {
        assert(lines(keep_last(s.push(e), cap)) =~= keep_last(
            lines(s).push((e.message@, e.turn_number)),
            cap,
        ));
    }
}

impl Default for CombatLog {
    fn default() -> (r: Self)
        ensures
            r.entries@.len() == 0,
            r.capacity == COMBAT_LOG_CAPACITY,
    {
        CombatLog { entries: VecDeque::with_capacity(COMBAT_LOG_CAPACITY), capacity: COMBAT_LOG_CAPACITY }
    }
}

impl CombatLog {
    /// Appends a message; the oldest entries are dropped so that at most
    /// `capacity` remain.
    pub fn push(&mut self, message: String, turn_number: u32)
        ensures
            final(self).capacity == old(self).capacity,
            final(self).entries@ == keep_last(
                old(self).entries@.push(CombatLogEntry { message, turn_number }),
                old(self).capacity as nat,
            ),
            lines(final(self).entries@) == keep_last(
                lines(old(self).entries@).push((message@, turn_number)),
                old(self).capacity as nat,
            ),
    {
        let ghost msg = message@;
        proof {
            lemma_lines_keep_last(
                self.entries@,
                CombatLogEntry { message, turn_number },
                self.capacity as nat,
            );
        }
        let ghost s = self.entries@.push(CombatLogEntry { message, turn_number });
        self.entries.push_back(CombatLogEntry { message, turn_number });
        while self.entries.len() > self.capacity
            invariant
                self.capacity == old(self).capacity,
                self.entries@.len() >= self.capacity || self.entries@.len() == s.len(),
                self.entries@.len() <= s.len(),
                self.entries@ == s.subrange(s.len() - self.entries@.len(), s.len() as int),
            decreases self.entries@.len(),
        {
            let _ = self.entries.pop_front();
        }
        proof {
            if s.len() > self.capacity {
                assert(self.entries@.len() == self.capacity);
            } else {
                assert(self.entries@ == s);
            }
        }
    }

    /// Removes every entry.
    pub fn clear(&mut self)
        ensures
            final(self).capacity == old(self).capacity,
            final(self).entries@.len() == 0,
    {
        self.entries.clear();
    }
}

/// The log never holds more than its capacity after a push.
pub proof fn lemma_push_respects_capacity<A>(s: Seq<A>, x: A, cap: nat)
    ensures
        keep_last(s.push(x), cap).len() <= cap || keep_last(s.push(x), cap).len() == s.len() + 1,
        keep_last(s.push(x), cap).len() == if s.len() + 1 > cap { cap } else { s.len() + 1 },
        cap > 0 ==> keep_last(s.push(x), cap).last() == x,
{
}

/// Keeping the last `cap` entries keeps the newest ones, in order: as many
/// as there are, up to `cap`, each equal to the entry at the same distance
/// from the end.
pub proof fn lemma_keep_last_is_suffix<A>(s: Seq<A>, cap: nat)
    ensures
        keep_last(s, cap).len() == if s.len() <= cap { s.len() } else { cap },
        forall|i: int|
            0 <= i < keep_last(s, cap).len() ==> #[trigger] keep_last(s, cap)[i] == s[s.len()
                - keep_last(s, cap).len() + i],
{
}

} // verus!
