//! The race table: per-race stat modifiers.
//!
//! A modifier is stored in an unsigned 16-bit stat field as the two's
//! complement bit pattern of a signed value: 65535 is -1, 65534 is -2.

use crate::character::{BaseStats, Race};
use vstd::prelude::*;

verus! {

/// One race.
#[derive(Clone, Debug)]
pub struct RaceData {
    pub id: Race,
    pub display_name: String,
    /// Signed stat offsets, each as a 16-bit two's complement pattern.
    pub stat_modifiers: BaseStats,
    pub description: String,
}

/// All authored races.
#[derive(Clone, Debug)]
pub struct RaceTable {
    pub races: Vec<RaceData>,
}

/// The index of the first race definition for `r`, or `s.len()`.
pub open spec fn first_race(s: Seq<RaceData>, r: Race) -> int
    decreases s.len(),
{
    if s.len() == 0 {
        0
    } else if s[0].id == r {
        0
    } else {
        1 + first_race(s.drop_first(), r)
    }
}

impl RaceTable {
    /// The first definition of race `race`, or `None` when it has none.
    pub fn get(&self, race: Race) -> (r: Option<&RaceData>)
        ensures
            r is None <==> first_race(self.races@, race) >= self.races@.len(),
            r matches Some(d) ==> *d == self.races@[first_race(self.races@, race)] && d.id == race,
    {
        let mut i: usize = 0;
        assert(self.races@.skip(0) == self.races@);
        while i < self.races.len()
            invariant
                0 <= i <= self.races@.len(),
                first_race(self.races@, race) == i + first_race(self.races@.skip(i as int), race),
            decreases self.races@.len() - i,
        {
            assert(self.races@.skip(i as int).drop_first() == self.races@.skip(i + 1));
            if self.races[i].id == race {
                return Some(&self.races[i]);
            }
            i = i + 1;
        }
        None
    }
}

/// The signed value of a stored modifier.
pub open spec fn modifier_value(m: u16) -> int {
    if m < 0x8000 { m as int } else { m - 0x1_0000 }
}


/// A stored modifier reads as a signed 16-bit number that agrees with the
/// stored bits modulo 65536: the low half as itself, the high half negative.
pub proof fn lemma_modifier_value_rules(m: u16)
    ensures
        -0x8000 <= modifier_value(m) < 0x8000,
        (modifier_value(m) - m) % 0x1_0000 == 0,
        m < 0x8000 ==> modifier_value(m) >= 0,
        m >= 0x8000 ==> modifier_value(m) < 0,
{
}

/// The signed value of a stored modifier (its two's complement reading).
pub fn stat_modifier(m: u16) -> (r: i16)
    ensures
        r == modifier_value(m),
{
    if m < 0x8000 {
        m as i16
    } else {
        let neg: u16 = 0xFFFF - m;
        let v: i16 = neg as i16;
        -v - 1
    }
}

} // verus!
