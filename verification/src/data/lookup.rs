//! Lookup by string identifier in the authored tables (items, spells,
//! enemies): a linear scan that returns the first entry with the identifier.

use vstd::prelude::*;

verus! {

/// A table entry with a string identifier.
pub trait Keyed {
    /// The entry's identifier.
    spec fn key(&self) -> Seq<char>;

    /// The entry's identifier, as stored.
    fn key_ref(&self) -> (r: &String)
        ensures
            r@ == self.key(),
    ;
}

/// The index of the first entry of `s` whose identifier is `k`, or `s.len()`
/// when there is none.
pub open spec fn first_with_key<T: Keyed>(s: Seq<T>, k: Seq<char>) -> int
    decreases s.len(),
{
    if s.len() == 0 {
        0
    } else if s[0].key() == k {
        0
    } else {
        1 + first_with_key(s.drop_first(), k)
    }
}

/// Some entry of `s` has identifier `k`.
pub open spec fn has_key<T: Keyed>(s: Seq<T>, k: Seq<char>) -> bool {
    exists|j: int| 0 <= j < s.len() && (#[trigger] s[j]).key() == k
}

/// `first_with_key` is the least index with the identifier, and lies within
/// the table exactly when some entry has it.
pub proof fn lemma_first_with_key<T: Keyed>(s: Seq<T>, k: Seq<char>)
    ensures
        0 <= first_with_key(s, k) <= s.len(),
        first_with_key(s, k) < s.len() <==> has_key(s, k),
        first_with_key(s, k) < s.len() ==> s[first_with_key(s, k)].key() == k,
        forall|j: int| 0 <= j < first_with_key(s, k) ==> (#[trigger] s[j]).key() != k,
    decreases s.len(),
{
    if s.len() > 0 && s[0].key() != k {
        let t = s.drop_first();
        lemma_first_with_key(t, k);
        assert forall|j: int| 0 <= j < first_with_key(s, k) implies (#[trigger] s[j]).key()
            != k by {
            if j > 0 {
                assert(s[j] == t[j - 1]);
            }
        }
        if has_key(s, k) {
            let j = choose|j: int| 0 <= j < s.len() && (#[trigger] s[j]).key() == k;
            assert(j > 0);
            assert(t[j - 1] == s[j]);
        }
        if has_key(t, k) {
            let j = choose|j: int| 0 <= j < t.len() && (#[trigger] t[j]).key() == k;
            assert(s[j + 1] == t[j]);
        }
    } else if s.len() > 0 {
        assert(s[0].key() == k);
    }
}

/// The index of the first entry of `v` with identifier `k`, if any.
pub fn position_of_key<T: Keyed>(v: &Vec<T>, k: &str) -> (r: Option<usize>)
    ensures
        r is None <==> !has_key(v@, k@),
        r matches Some(j) ==> j == first_with_key(v@, k@) && j < v@.len() && v@[j as int].key()
            == k@,
{
    proof {
        lemma_first_with_key(v@, k@);
    }
    let key = k.to_owned();
    let mut j: usize = 0;
    while j < v.len()
        invariant
            0 <= j <= v@.len(),
            key@ == k@,
            j <= first_with_key(v@, k@),
            0 <= first_with_key(v@, k@) <= v@.len(),
            first_with_key(v@, k@) < v@.len() <==> has_key(v@, k@),
            first_with_key(v@, k@) < v@.len() ==> v@[first_with_key(v@, k@)].key() == k@,
            forall|i: int| 0 <= i < first_with_key(v@, k@) ==> (#[trigger] v@[i]).key() != k@,
        decreases v@.len() - j,
    {
        if *v[j].key_ref() == key {
            return Some(j);
        }
        j = j + 1;
    }
    None
}

} // verus!
