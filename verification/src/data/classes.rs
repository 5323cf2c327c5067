//! The class table: per-class starting stats, growth, and creation rules.

use crate::character::{BaseStats, Class, Race};
use vstd::prelude::*;

verus! {

/// A prerequisite for changing into another class.
#[derive(Clone, Copy, Debug, PartialEq, Eq, Structural)]
pub struct ClassRequirement {
    pub from_class: Class,
    pub min_level: u32,
}

/// One class.
#[derive(Clone, Debug)]
pub struct ClassDef {
    pub id: Class,
    pub display_name: String,
    pub starting_stats: BaseStats,
    pub growth_per_level: BaseStats,
    pub hp_per_level: u32,
    pub mp_per_level: u32,
    /// Experience needed for level 2.
    pub xp_to_level_2: u64,
    /// Growth factor of the experience curve per level, held as the bit
    /// pattern of a single-precision number.
    pub xp_curve_factor: u32,
    pub min_stats: BaseStats,
    /// Races allowed to take the class; empty for all.
    pub allowed_races: Vec<Race>,
    pub advancement_requirements: Vec<ClassRequirement>,
    pub bonus_pool_min: u32,
    pub bonus_pool_max: u32,
    pub stat_penalty_on_change: BaseStats,
}

/// All authored classes.
#[derive(Clone, Debug)]
pub struct ClassTable {
    pub classes: Vec<ClassDef>,
}

/// The index of the first class definition for `c`, or `s.len()`.
pub open spec fn first_class(s: Seq<ClassDef>, c: Class) -> int
    decreases s.len(),
{
    if s.len() == 0 {
        0
    } else if s[0].id == c {
        0
    } else {
        1 + first_class(s.drop_first(), c)
    }
}

impl ClassTable {
    /// The first definition of class `c`, or `None` when it has none.
    pub fn get(&self, c: Class) -> (r: Option<&ClassDef>)
        ensures
            r is None <==> first_class(self.classes@, c) >= self.classes@.len(),
            r matches Some(d) ==> *d == self.classes@[first_class(self.classes@, c)] && d.id == c,
    {
        let mut i: usize = 0;
        assert(self.classes@.skip(0) == self.classes@);
        while i < self.classes.len()
            invariant
                0 <= i <= self.classes@.len(),
                first_class(self.classes@, c) == i + first_class(self.classes@.skip(i as int), c),
            decreases self.classes@.len() - i,
        {
            assert(self.classes@.skip(i as int).drop_first() == self.classes@.skip(i + 1));
            if self.classes[i].id == c {
                return Some(&self.classes[i]);
            }
            i = i + 1;
        }
        None
    }
}

} // verus!
