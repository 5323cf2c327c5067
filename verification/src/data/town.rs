//! Town data: the shop's stock by floor, the guild's recruits, and the
//! inn and temple prices, with the limits that guard against pathological
//! authored values.

use crate::character::{BaseStats, Class, PartyRow, Race, StatusEffectType};
use vstd::prelude::*;

verus! {

/// Most shop entries shown.
pub const MAX_SHOP_ITEMS: usize = 99;

/// Highest price of a rest at the inn.
pub const MAX_INN_COST: u32 = 10_000;

/// Highest price of a temple service.
pub const MAX_TEMPLE_COST: u32 = 100_000;

/// Most recruits shown.
pub const MAX_RECRUIT_POOL: usize = 32;

/// One entry of the shop's catalogue.
#[derive(Clone, Debug)]
pub struct ShopEntry {
    pub item_id: String,
    /// A price of the shop's own; `None` uses the item's value.
    pub buy_price: Option<u32>,
    /// The entry is sold once the party has reached this floor (0: always).
    pub min_floor: u32,
}

/// The shop's catalogue.
#[derive(Clone, Debug)]
pub struct ShopStock {
    pub items: Vec<ShopEntry>,
}

/// The entries of `s` on sale at floor `floor`, in order.
pub open spec fn on_sale(s: Seq<ShopEntry>, floor: u32) -> Seq<ShopEntry>
    decreases s.len(),
{
    if s.len() == 0 {
        s
    } else if s.last().min_floor <= floor {
        on_sale(s.drop_last(), floor).push(s.last())
    } else {
        on_sale(s.drop_last(), floor)
    }
}

/// The items on sale on a floor are exactly the stock's items whose
/// minimum floor is at most that floor, in stock order.
pub proof fn lemma_on_sale_rules(s: Seq<ShopEntry>, floor: u32)
    ensures
        on_sale(s, floor).len() <= s.len(),
        forall|k: int|
            0 <= k < on_sale(s, floor).len() ==> (#[trigger] on_sale(s, floor)[k]).min_floor <= floor
                && s.contains(on_sale(s, floor)[k]),
        forall|i: int| 0 <= i < s.len() && (#[trigger] s[i]).min_floor <= floor ==> on_sale(
            s,
            floor,
        ).contains(s[i]),
    decreases s.len(),
{
    if s.len() > 0 {
        let q = s.drop_last();
        lemma_on_sale_rules(q, floor);
        let r = on_sale(s, floor);
        let rq = on_sale(q, floor);
        assert forall|k: int| 0 <= k < r.len() implies (#[trigger] r[k]).min_floor <= floor
            && s.contains(r[k]) by {
            if k < rq.len() {
                assert(r[k] == rq[k]);
                let j = choose|j: int| 0 <= j < q.len() && q[j] == rq[k];
                assert(s[j] == q[j]);
            } else {
                assert(r[k] == s[s.len() - 1]);
            }
        }
        assert forall|i: int| 0 <= i < s.len() && (#[trigger] s[i]).min_floor <= floor implies r.contains(s[i]) by {
            if i < q.len() {
                assert(q[i] == s[i]);
                assert(rq.contains(q[i]));
                let k = choose|k: int| 0 <= k < rq.len() && rq[k] == q[i];
                if s.last().min_floor <= floor {
                    assert(r[k] == rq[k]);
                } else {
                    assert(r == rq);
                }
            } else {
                assert(r[r.len() - 1] == s[i]);
            }
        }
    }
}


impl ShopStock {
    /// The entries whose minimum floor is at most `floor`, in order.
    pub fn items_for_floor(&self, floor: u32) -> (r: Vec<&ShopEntry>)
        ensures
            r@.len() == on_sale(self.items@, floor).len(),
            forall|i: int| 0 <= i < r@.len() ==> *r@[i] == on_sale(self.items@, floor)[i],
    {
        let mut out: Vec<&ShopEntry> = Vec::new();
        let mut i: usize = 0;
        while i < self.items.len()
            invariant
                0 <= i <= self.items@.len(),
                out@.len() == on_sale(self.items@.take(i as int), floor).len(),
                forall|k: int| 0 <= k < out@.len() ==> *out@[k] == on_sale(self.items@.take(i as int), floor)[k],
            decreases self.items@.len() - i,
        {
            assert(self.items@.take(i + 1).drop_last() == self.items@.take(i as int));
            if self.items[i].min_floor <= floor {
                out.push(&self.items[i]);
            }
            i = i + 1;
        }
        assert(self.items@.take(self.items@.len() as int) == self.items@);
        out
    }
}

/// The first `max_items` entries of the catalogue (all of it when shorter).
pub fn clamp_shop_stock(stock: &ShopStock, max_items: usize) -> (r: &[ShopEntry])
    ensures
        r@ == stock.items@.take(if stock.items@.len() <= max_items { stock.items@.len() as int } else { max_items as int }),
{
    let len = if stock.items.len() <= max_items { stock.items.len() } else { max_items };
    vstd::slice::slice_subrange(stock.items.as_slice(), 0, len)
}

/// A recruit the guild can offer.
#[derive(Clone, Debug)]
pub struct RecruitDef {
    pub name: String,
    pub race: Race,
    pub class: Class,
    pub base_stats: BaseStats,
    pub default_row: PartyRow,
}

/// The guild's recruits.
#[derive(Clone, Debug)]
pub struct RecruitPool {
    pub recruits: Vec<RecruitDef>,
}

/// The first `max_recruits` recruits (all of them when fewer).
pub fn clamp_recruit_pool(pool: &RecruitPool, max_recruits: usize) -> (r: &[RecruitDef])
    ensures
        r@ == pool.recruits@.take(if pool.recruits@.len() <= max_recruits { pool.recruits@.len() as int } else { max_recruits as int }),
{
    let len = if pool.recruits.len() <= max_recruits { pool.recruits.len() } else { max_recruits };
    vstd::slice::slice_subrange(pool.recruits.as_slice(), 0, len)
}

/// Prices and cures of the inn and the temple.
#[derive(Clone, Debug)]
pub struct TownServices {
    pub inn_rest_cost: u32,
    /// Effects a rest at the inn cures.
    pub inn_rest_cures: Vec<StatusEffectType>,
    pub temple_revive_cost_base: u32,
    pub temple_revive_cost_per_level: u32,
    /// Cure prices at the temple, per effect.
    pub temple_cure_costs: Vec<(StatusEffectType, u32)>,
}

} // verus!
