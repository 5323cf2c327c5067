//! Per-class skill trees: a flat list of nodes whose prerequisites name other
//! nodes of the same tree, the load-time validation of that prerequisite
//! graph, and the clamps applied to loaded trees.

use crate::character::{BaseStats, StatusEffectType};
use vstd::prelude::*;

verus! {

/// Maximum nodes kept in one tree.
pub const MAX_SKILL_TREE_NODES: usize = 64;

/// Maximum skill-point cost of a node.
pub const MAX_SKILL_NODE_COST: u32 = 99;

/// Maximum level gate of a node.
pub const MAX_SKILL_NODE_MIN_LEVEL: u32 = 99;

/// Skill points awarded per level-up.
pub const SKILL_POINTS_PER_LEVEL: u32 = 1;

/// What a node grants when unlocked.
#[derive(Clone, Debug)]
pub enum NodeGrant {
    LearnSpell(String),
    StatBoost(BaseStats),
    Resist(StatusEffectType),
}

impl Default for NodeGrant {
    /// The default grant: learning the spell with the empty id.
    fn default() -> (r: Self)
        ensures
            r matches NodeGrant::LearnSpell(s) && s@ == Seq::<char>::empty(),
    {
        NodeGrant::LearnSpell(String::new())
    }
}

/// One node of a skill tree.
#[derive(Clone, Debug)]
pub struct SkillNode {
    /// Unique identifier within the tree.
    pub id: String,
    pub display_name: String,
    /// Skill points required to unlock.
    pub cost: u32,
    /// Minimum character level required.
    pub min_level: u32,
    /// Identifiers of the nodes that must be unlocked first.
    pub prerequisites: Vec<String>,
    pub grant: NodeGrant,
    pub description: String,
}

/// A class's skill tree.
#[derive(Clone, Debug)]
pub struct SkillTree {
    pub class_id: String,
    pub nodes: Vec<SkillNode>,
}

/// Why a skill tree's prerequisite graph is rejected.
#[derive(Clone, Debug)]
pub enum CycleError {
    /// Some nodes can never become unlockable; they are listed in tree order.
    CycleDetected { involved: Vec<String> },
    /// A prerequisite names a node that is not in the tree.
    UnknownPrerequisite { node: String, prereq: String },
}

/// The nodes of `s` that have no prerequisites, in order.
pub open spec fn roots_of(s: Seq<SkillNode>) -> Seq<SkillNode>
    decreases s.len(),
{
    if s.len() == 0 {
        Seq::empty()
    } else if s.last().prerequisites@.len() == 0 {
        roots_of(s.drop_last()).push(s.last())
    } else {
        roots_of(s.drop_last())
    }
}

/// The index of the first node of `s` with identifier `id`, or `s.len()`.
pub open spec fn first_node_with_id(s: Seq<SkillNode>, id: Seq<char>) -> int
    decreases s.len(),
{
    if s.len() == 0 {
        0
    } else if s[0].id@ == id {
        0
    } else {
        1 + first_node_with_id(s.drop_first(), id)
    }
}

/// `s` has a node with identifier `id`.
pub open spec fn has_node(s: Seq<SkillNode>, id: Seq<char>) -> bool {
    exists|j: int| 0 <= j < s.len() && (#[trigger] s[j]).id@ == id
}

pub proof fn lemma_first_node_with_id(s: Seq<SkillNode>, id: Seq<char>)
    ensures
        0 <= first_node_with_id(s, id) <= s.len(),
        first_node_with_id(s, id) < s.len() <==> has_node(s, id),
        first_node_with_id(s, id) < s.len() ==> s[first_node_with_id(s, id)].id@ == id,
        forall|j: int| 0 <= j < first_node_with_id(s, id) ==> (#[trigger] s[j]).id@ != id,
    decreases s.len(),
{
    if s.len() > 0 && s[0].id@ != id {
        let t = s.drop_first();
        lemma_first_node_with_id(t, id);
        assert forall|j: int| 0 <= j < first_node_with_id(s, id) implies (#[trigger] s[j]).id@
            != id by {
            if j > 0 {
                assert(s[j] == t[j - 1]);
            }
        }
        if has_node(s, id) {
            let j = choose|j: int| 0 <= j < s.len() && (#[trigger] s[j]).id@ == id;
            assert(t[j - 1] == s[j]);
        }
        if has_node(t, id) {
            let j = choose|j: int| 0 <= j < t.len() && (#[trigger] t[j]).id@ == id;
            assert(s[j + 1] == t[j]);
        }
    }
}

/// The index of the first node with identifier `id`, if any.
fn index_of_id(nodes: &Vec<SkillNode>, id: &String) -> (r: Option<usize>)
    ensures
        r is None <==> !has_node(nodes@, id@),
        r matches Some(j) ==> j == first_node_with_id(nodes@, id@) && j < nodes@.len()
            && nodes@[j as int].id@ == id@,
{
    proof {
        lemma_first_node_with_id(nodes@, id@);
    }
    let mut j: usize = 0;
    while j < nodes.len()
        invariant
            0 <= j <= nodes@.len(),
            j <= first_node_with_id(nodes@, id@),
            0 <= first_node_with_id(nodes@, id@) <= nodes@.len(),
            first_node_with_id(nodes@, id@) < nodes@.len() <==> has_node(nodes@, id@),
            first_node_with_id(nodes@, id@) < nodes@.len() ==> nodes@[first_node_with_id(
                nodes@,
                id@,
            )].id@ == id@,
            forall|k: int| 0 <= k < first_node_with_id(nodes@, id@) ==> (
            #[trigger] nodes@[k]).id@ != id@,
        decreases nodes@.len() - j,
    {
        if nodes[j].id == *id {
            return Some(j);
        }
        j = j + 1;
    }
    None
}

impl SkillTree {
    /// The first node with the given identifier.
    pub fn get(&self, id: &str) -> (r: Option<&SkillNode>)
        ensures
            r is None <==> !has_node(self.nodes@, id@),
            r matches Some(n) ==> *n == self.nodes@[first_node_with_id(self.nodes@, id@)],
    {
        let key = id.to_owned();
        match index_of_id(&self.nodes, &key) {
            Some(j) => Some(&self.nodes[j]),
            None => None,
        }
    }

    /// The nodes without prerequisites, in tree order.
    pub fn root_nodes(&self) -> (r: Vec<&SkillNode>)
        ensures
            r@.len() == roots_of(self.nodes@).len(),
            forall|k: int| 0 <= k < r@.len() ==> *r@[k] == roots_of(self.nodes@)[k],
    {
        let mut out: Vec<&SkillNode> = Vec::new();
        let mut i: usize = 0;
        while i < self.nodes.len()
            invariant
                0 <= i <= self.nodes@.len(),
                out@.len() == roots_of(self.nodes@.take(i as int)).len(),
                forall|k: int|
                    0 <= k < out@.len() ==> *out@[k] == roots_of(self.nodes@.take(i as int))[k],
            decreases self.nodes@.len() - i,
        {
            let ghost before = self.nodes@.take(i as int);
            assert(self.nodes@.take(i + 1).drop_last() == before);
            if self.nodes[i].prerequisites.len() == 0 {
                out.push(&self.nodes[i]);
            }
            i = i + 1;
        }
        assert(self.nodes@.take(self.nodes@.len() as int) == self.nodes@);
        out
    }
}

/// A node after the load-time clamps.
pub open spec fn clamped_node(n: SkillNode) -> SkillNode {
    SkillNode {
        cost: if n.cost <= MAX_SKILL_NODE_COST { n.cost } else { MAX_SKILL_NODE_COST },
        min_level: if n.min_level <= MAX_SKILL_NODE_MIN_LEVEL {
            n.min_level
        } else {
            MAX_SKILL_NODE_MIN_LEVEL
        },
        ..n
    }
}


/// Clamping a node caps its cost at `MAX_SKILL_NODE_COST` and its level
/// gate at `MAX_SKILL_NODE_MIN_LEVEL`, leaves values within the caps as they
/// are, and changes nothing else; clamping again changes nothing.
pub proof fn lemma_clamped_node_rules(n: SkillNode)
    ensures
        clamped_node(n).cost <= MAX_SKILL_NODE_COST,
        clamped_node(n).min_level <= MAX_SKILL_NODE_MIN_LEVEL,
        n.cost <= MAX_SKILL_NODE_COST ==> clamped_node(n).cost == n.cost,
        n.cost > MAX_SKILL_NODE_COST ==> clamped_node(n).cost == MAX_SKILL_NODE_COST,
        n.min_level <= MAX_SKILL_NODE_MIN_LEVEL ==> clamped_node(n).min_level == n.min_level,
        n.min_level > MAX_SKILL_NODE_MIN_LEVEL ==> clamped_node(n).min_level == MAX_SKILL_NODE_MIN_LEVEL,
        (SkillNode { cost: n.cost, min_level: n.min_level, ..clamped_node(n) }) == n,
        clamped_node(clamped_node(n)) == clamped_node(n),
{
}

/// Applies the load-time clamps: keeps at most `MAX_SKILL_TREE_NODES` nodes
/// and caps each node's cost and level gate.
pub fn clamp_skill_tree(tree: &mut SkillTree)
    ensures
        final(tree).class_id == old(tree).class_id,
        final(tree).nodes@.len() == if old(tree).nodes@.len() <= MAX_SKILL_TREE_NODES {
            old(tree).nodes@.len()
        } else {
            MAX_SKILL_TREE_NODES as nat
        },
        forall|i: int|
            0 <= i < final(tree).nodes@.len() ==> #[trigger] final(tree).nodes@[i] == clamped_node(
                old(tree).nodes@[i],
            ),
{
    let ghost class_id = tree.class_id;
    tree.nodes.truncate(MAX_SKILL_TREE_NODES);
    let ghost kept = tree.nodes@;
    let mut i: usize = 0;
    while i < tree.nodes.len()
        invariant
            0 <= i <= tree.nodes@.len(),
            tree.nodes@.len() == kept.len(),
            tree.class_id == class_id,
            forall|k: int| 0 <= k < i ==> #[trigger] tree.nodes@[k] == clamped_node(kept[k]),
            forall|k: int| i <= k < kept.len() ==> #[trigger] tree.nodes@[k] == kept[k],
        decreases tree.nodes@.len() - i,
    {
        let mut node = tree.nodes.remove(i);
        if node.cost > MAX_SKILL_NODE_COST {
            node.cost = MAX_SKILL_NODE_COST;
        }
        if node.min_level > MAX_SKILL_NODE_MIN_LEVEL {
            node.min_level = MAX_SKILL_NODE_MIN_LEVEL;
        }
        tree.nodes.insert(i, node);
        assert(tree.nodes@[i as int] == clamped_node(kept[i as int]));
        i = i + 1;
    }
}


// ─── Prerequisite-graph validation ───────────────────────────────────────────

/// Node identifiers are unique within the tree.
pub open spec fn ids_unique(s: Seq<SkillNode>) -> bool {
    forall|i: int, j: int|
        0 <= i < s.len() && 0 <= j < s.len() && i != j ==> (#[trigger] s[i]).id@ != (
        #[trigger] s[j]).id@
}

/// Whether no two nodes of the tree share an identifier, the condition under
/// which `validate_no_cycles` may be asked about the tree.
pub fn node_ids_unique(tree: &SkillTree) -> (r: bool)
    ensures
        r == ids_unique(tree.nodes@),
{
    let n = tree.nodes.len();
    let ghost s = tree.nodes@;
    let mut i: usize = 0;
    while i < n
        invariant
            n == s.len(),
            s == tree.nodes@,
            0 <= i <= n,
            forall|a: int, b: int|
                0 <= a < i && 0 <= b < n && a != b ==> (#[trigger] s[a]).id@ != (#[trigger] s[b]).id@,
        decreases n - i,
    {
        let mut j: usize = 0;
        while j < n
            invariant
                n == s.len(),
                s == tree.nodes@,
                0 <= i < n,
                0 <= j <= n,
                forall|a: int, b: int|
                    0 <= a < i && 0 <= b < n && a != b ==> (#[trigger] s[a]).id@ != (
                    #[trigger] s[b]).id@,
                forall|b: int| 0 <= b < j && b != i ==> s[i as int].id@ != (#[trigger] s[b]).id@,
            decreases n - j,
        {
            if j != i && tree.nodes[i].id == tree.nodes[j].id {
                return false;
            }
            j = j + 1;
        }
        i = i + 1;
    }
    true
}

/// The `m`-th prerequisite of node `i` names no node of the tree.
pub open spec fn unknown_at(s: Seq<SkillNode>, i: int, m: int) -> bool {
    &&& 0 <= i < s.len()
    &&& 0 <= m < s[i].prerequisites@.len()
    &&& !has_node(s, s[i].prerequisites@[m]@)
}

/// Every prerequisite names a node of the tree.
pub open spec fn all_known(s: Seq<SkillNode>) -> bool {
    forall|i: int, m: int| !unknown_at(s, i, m)
}

/// `(node, prereq)` is the first unknown prerequisite, scanning nodes in
/// order and each node's prerequisites in order.
pub open spec fn first_unknown_is(s: Seq<SkillNode>, node: Seq<char>, prereq: Seq<char>) -> bool {
    exists|i: int, m: int|
        #![trigger unknown_at(s, i, m)]
        unknown_at(s, i, m) && node == s[i].id@ && prereq == s[i].prerequisites@[m]@ && forall|
            i2: int,
            m2: int,
        |
            #![trigger unknown_at(s, i2, m2)]
            unknown_at(s, i2, m2) ==> (i < i2 || (i == i2 && m <= m2))
}

/// Some node among the first `t` entries of `ord` has identifier `q`.
pub open spec fn listed_before(s: Seq<SkillNode>, ord: Seq<usize>, t: int, q: Seq<char>) -> bool {
    exists|u: int| 0 <= u < t && s[(#[trigger] ord[u]) as int].id@ == q
}

/// `ord` lists nodes in an order in which they can be unlocked one after
/// another: each prerequisite of a listed node (a prerequisite listed twice
/// counts once) names a node listed earlier.
pub open spec fn valid_unlock_order(s: Seq<SkillNode>, ord: Seq<usize>) -> bool {
    forall|t: int|
        #![trigger ord[t]]
        0 <= t < ord.len() ==> {
            &&& ord[t] < s.len()
            &&& forall|m: int|
                #![trigger s[ord[t] as int].prerequisites@[m]]
                0 <= m < s[ord[t] as int].prerequisites@.len() ==> listed_before(
                    s,
                    ord,
                    t,
                    s[ord[t] as int].prerequisites@[m]@,
                )
        }
}

/// Node `i` can eventually be unlocked: some unlock order reaches it.
pub open spec fn settled(s: Seq<SkillNode>, i: int) -> bool {
    exists|ord: Seq<usize>| valid_unlock_order(s, ord) && ord.contains(i as usize)
}

/// `ord` lists node `i`.
pub open spec fn lists(ord: Seq<usize>, i: int) -> bool {
    ord.contains(i as usize)
}

/// `ord` unlocks every node of `s`.
pub open spec fn unlocks_all(s: Seq<SkillNode>, ord: Seq<usize>) -> bool {
    valid_unlock_order(s, ord) && forall|i: int| 0 <= i < s.len() ==> #[trigger] lists(ord, i)
}

/// Two unlock orders one after the other form an unlock order.
pub proof fn lemma_concat_unlock_orders(s: Seq<SkillNode>, o1: Seq<usize>, o2: Seq<usize>)
    requires
        valid_unlock_order(s, o1),
        valid_unlock_order(s, o2),
    ensures
        valid_unlock_order(s, o1 + o2),
{
    let o = o1 + o2;
    assert forall|t: int| #![trigger o[t]] 0 <= t < o.len() implies {
        &&& o[t] < s.len()
        &&& forall|m: int|
            #![trigger s[o[t] as int].prerequisites@[m]]
            0 <= m < s[o[t] as int].prerequisites@.len() ==> listed_before(
                s,
                o,
                t,
                s[o[t] as int].prerequisites@[m]@,
            )
    } by {
        if t < o1.len() {
            assert(o[t] == o1[t]);
            assert forall|m: int|
                #![trigger s[o[t] as int].prerequisites@[m]]
                0 <= m < s[o[t] as int].prerequisites@.len() implies listed_before(
                s,
                o,
                t,
                s[o[t] as int].prerequisites@[m]@,
            ) by {
                let q = s[o[t] as int].prerequisites@[m]@;
                assert(listed_before(s, o1, t, q));
                let u = choose|u: int| 0 <= u < t && s[(#[trigger] o1[u]) as int].id@ == q;
                assert(o[u] == o1[u]);
            }
        } else {
            let t2 = t - o1.len();
            assert(o[t] == o2[t2]);
            assert forall|m: int|
                #![trigger s[o[t] as int].prerequisites@[m]]
                0 <= m < s[o[t] as int].prerequisites@.len() implies listed_before(
                s,
                o,
                t,
                s[o[t] as int].prerequisites@[m]@,
            ) by {
                let q = s[o[t] as int].prerequisites@[m]@;
                assert(listed_before(s, o2, t2, q));
                let u = choose|u: int| 0 <= u < t2 && s[(#[trigger] o2[u]) as int].id@ == q;
                assert(o[u + o1.len()] == o2[u]);
            }
        }
    }
}

proof fn lemma_prefix_order(s: Seq<SkillNode>, k: int)
    requires
        0 <= k <= s.len(),
        forall|i: int| 0 <= i < s.len() ==> #[trigger] settled(s, i),
    ensures
        exists|ord: Seq<usize>|
            valid_unlock_order(s, ord) && forall|i: int| 0 <= i < k ==> #[trigger] lists(ord, i),
    decreases k,
{
    if k == 0 {
        let e: Seq<usize> = Seq::empty();
        assert(valid_unlock_order(s, e));
    } else {
        lemma_prefix_order(s, k - 1);
        let o1 = choose|ord: Seq<usize>|
            valid_unlock_order(s, ord) && forall|i: int| 0 <= i < k - 1 ==> #[trigger] lists(ord, i);
        assert(settled(s, k - 1));
        let o2 = choose|ord: Seq<usize>| valid_unlock_order(s, ord) && ord.contains((k - 1) as usize);
        lemma_concat_unlock_orders(s, o1, o2);
        let o = o1 + o2;
        assert forall|i: int| 0 <= i < k implies #[trigger] lists(o, i) by {
            if i < k - 1 {
                assert(lists(o1, i));
                let j = choose|j: int| 0 <= j < o1.len() && o1[j] == i as usize;
                assert(o[j] == o1[j]);
            } else {
                let j = choose|j: int| 0 <= j < o2.len() && o2[j] == (k - 1) as usize;
                assert(o[j + o1.len()] == o2[j]);
            }
        }
    }
}

/// Every node can be unlocked exactly when one unlock order unlocks them all.
pub proof fn lemma_all_settled_iff_full_order(s: Seq<SkillNode>)
    ensures
        all_settled(s) <==> exists|ord: Seq<usize>| unlocks_all(s, ord),
{
    if all_settled(s) {
        lemma_prefix_order(s, s.len() as int);
        let ord = choose|ord: Seq<usize>|
            valid_unlock_order(s, ord) && forall|i: int| 0 <= i < s.len() ==> #[trigger] lists(ord, i);
        assert(unlocks_all(s, ord));
    }
    if exists|ord: Seq<usize>| unlocks_all(s, ord) {
        let ord = choose|ord: Seq<usize>| unlocks_all(s, ord);
        assert forall|i: int| 0 <= i < s.len() implies #[trigger] settled(s, i) by {
            assert(lists(ord, i));
        }
    }
}

/// Node `a` lists node `b`'s identifier among its prerequisites.
pub open spec fn requires_node(s: Seq<SkillNode>, a: int, b: int) -> bool {
    exists|m: int|
        0 <= m < s[a].prerequisites@.len() && (#[trigger] s[a].prerequisites@[m])@ == s[b].id@
}

/// `c` is a cycle of the prerequisite graph: each listed node requires the
/// next, and the last requires the first.
pub open spec fn is_cycle(s: Seq<SkillNode>, c: Seq<int>) -> bool {
    &&& c.len() > 0
    &&& forall|k: int| 0 <= k < c.len() ==> 0 <= #[trigger] c[k] < s.len()
    &&& forall|k: int|
        0 <= k < c.len() ==> requires_node(s, #[trigger] c[k], c[(k + 1) % (c.len() as int)])
}

proof fn lemma_cycle_not_in_order(s: Seq<SkillNode>, c: Seq<int>, ord: Seq<usize>, t: int)
    requires
        ids_unique(s),
        is_cycle(s, c),
        valid_unlock_order(s, ord),
        0 <= t < ord.len(),
    ensures
        !c.contains(ord[t] as int),
    decreases t,
{
    if c.contains(ord[t] as int) {
        let k = choose|k: int| 0 <= k < c.len() && c[k] == ord[t] as int;
        let k1 = (k + 1) % (c.len() as int);
        assert(0 <= k1 < c.len());
        assert(requires_node(s, c[k], c[k1]));
        let m = choose|m: int|
            0 <= m < s[c[k]].prerequisites@.len() && (#[trigger] s[c[k]].prerequisites@[m])@
                == s[c[k1]].id@;
        assert(ord[t] < s.len());
        assert(listed_before(s, ord, t, s[ord[t] as int].prerequisites@[m]@));
        let u = choose|u: int|
            0 <= u < t && s[(#[trigger] ord[u]) as int].id@ == s[ord[t] as int].prerequisites@[m]@;
        assert(ord[u] < s.len());
        assert(0 <= c[k1] < s.len());
        assert(ord[u] as int == c[k1]);
        lemma_cycle_not_in_order(s, c, ord, u);
    }
}

/// No node on a prerequisite cycle can ever be unlocked; so
/// `validate_no_cycles` rejects a tree with a cycle and names every node on
/// it among those involved.
pub proof fn lemma_cycle_never_settles(s: Seq<SkillNode>, c: Seq<int>)
    requires
        s.len() <= usize::MAX,
        ids_unique(s),
        is_cycle(s, c),
    ensures
        forall|k: int| 0 <= k < c.len() ==> !settled(s, #[trigger] c[k]),
        !all_settled(s),
{
    assert forall|k: int| 0 <= k < c.len() implies !settled(s, #[trigger] c[k]) by {
        if settled(s, c[k]) {
            let ord = choose|ord: Seq<usize>| valid_unlock_order(s, ord) && ord.contains(c[k] as usize);
            let t = choose|t: int| 0 <= t < ord.len() && ord[t] == c[k] as usize;
            lemma_cycle_not_in_order(s, c, ord, t);
            assert(0 <= c[k] < s.len());
            assert(ord[t] as int == c[k]);
        }
    }
    assert(0 <= c[0] < s.len());
    assert(!settled(s, c[0]));
}

/// The unlock orders of the nodes named by the first `m` prerequisites of
/// node `i`, one after another, when those nodes can all be unlocked.
proof fn lemma_prereq_orders(s: Seq<SkillNode>, i: int, m: int) -> (ord: Seq<usize>)
    requires
        s.len() <= usize::MAX,
        all_known(s),
        0 <= i < s.len(),
        0 <= m <= s[i].prerequisites@.len(),
        forall|j: int| 0 <= j < s.len() && requires_node(s, i, j) ==> #[trigger] settled(s, j),
    ensures
        valid_unlock_order(s, ord),
        forall|m2: int|
            0 <= m2 < m ==> listed_before(
                s,
                ord,
                ord.len() as int,
                #[trigger] s[i].prerequisites@[m2]@,
            ),
    decreases m,
{
    if m == 0 {
        let e: Seq<usize> = Seq::empty();
        e
    } else {
        let o1 = lemma_prereq_orders(s, i, m - 1);
        let q = s[i].prerequisites@[m - 1]@;
        assert(!unknown_at(s, i, m - 1));
        let j = choose|j: int| 0 <= j < s.len() && (#[trigger] s[j]).id@ == q;
        assert(requires_node(s, i, j));
        assert(settled(s, j));
        let o2 = choose|ord: Seq<usize>| valid_unlock_order(s, ord) && ord.contains(j as usize);
        lemma_concat_unlock_orders(s, o1, o2);
        let o = o1 + o2;
        assert forall|m2: int|
            0 <= m2 < m implies listed_before(s, o, o.len() as int, #[trigger] s[i].prerequisites@[m2]@) by {
            if m2 < m - 1 {
                let q2 = s[i].prerequisites@[m2]@;
                assert(listed_before(s, o1, o1.len() as int, q2));
                let u = choose|u: int| 0 <= u < o1.len() && s[(#[trigger] o1[u]) as int].id@ == q2;
                assert(o[u] == o1[u]);
            } else {
                let u = choose|u: int| 0 <= u < o2.len() && o2[u] == j as usize;
                assert(o[u + o1.len()] == o2[u]);
                assert((j as usize) as int == j);
                assert(s[o[u + o1.len()] as int].id@ == q);
            }
        }
        o
    }
}

/// A node that cannot be unlocked requires another node that cannot be
/// unlocked.
proof fn lemma_unsettled_step(s: Seq<SkillNode>, i: int) -> (j: int)
    requires
        s.len() <= usize::MAX,
        all_known(s),
        0 <= i < s.len(),
        !settled(s, i),
    ensures
        0 <= j < s.len(),
        requires_node(s, i, j),
        !settled(s, j),
{
    if forall|j: int| 0 <= j < s.len() && requires_node(s, i, j) ==> #[trigger] settled(s, j) {
        let p = s[i].prerequisites@.len() as int;
        let o = lemma_prereq_orders(s, i, p);
        let o2 = o.push(i as usize);
        assert forall|t: int|
            #![trigger o2[t]]
            0 <= t < o2.len() implies {
            &&& o2[t] < s.len()
            &&& forall|m: int|
                #![trigger s[o2[t] as int].prerequisites@[m]]
                0 <= m < s[o2[t] as int].prerequisites@.len() ==> listed_before(
                    s,
                    o2,
                    t,
                    s[o2[t] as int].prerequisites@[m]@,
                )
        } by {
            if t < o.len() {
                assert(o2[t] == o[t]);
                assert forall|m: int|
                    #![trigger s[o2[t] as int].prerequisites@[m]]
                    0 <= m < s[o2[t] as int].prerequisites@.len() implies listed_before(
                    s,
                    o2,
                    t,
                    s[o2[t] as int].prerequisites@[m]@,
                ) by {
                    let q = s[o[t] as int].prerequisites@[m]@;
                    assert(listed_before(s, o, t, q));
                    let u = choose|u: int| 0 <= u < t && s[(#[trigger] o[u]) as int].id@ == q;
                    assert(o2[u] == o[u]);
                }
            } else {
                assert(o2[t] == i as usize);
                assert forall|m: int|
                    #![trigger s[o2[t] as int].prerequisites@[m]]
                    0 <= m < s[o2[t] as int].prerequisites@.len() implies listed_before(
                    s,
                    o2,
                    t,
                    s[o2[t] as int].prerequisites@[m]@,
                ) by {
                    let q = s[i].prerequisites@[m]@;
                    assert(listed_before(s, o, o.len() as int, q));
                    let u = choose|u: int| 0 <= u < o.len() && s[(#[trigger] o[u]) as int].id@ == q;
                    assert(o2[u] == o[u]);
                }
            }
        }
        assert(valid_unlock_order(s, o2));
        assert(o2[o.len() as int] == i as usize);
        assert(o2.contains(i as usize));
        assert(settled(s, i));
        0
    } else {
        choose|j: int| 0 <= j < s.len() && requires_node(s, i, j) && !#[trigger] settled(s, j)
    }
}

/// A walk of `n` steps through nodes that cannot be unlocked, each requiring
/// the next.
proof fn lemma_unsettled_walk(s: Seq<SkillNode>, i: int, n: nat) -> (w: Seq<int>)
    requires
        s.len() <= usize::MAX,
        all_known(s),
        0 <= i < s.len(),
        !settled(s, i),
    ensures
        w.len() == n + 1,
        w[0] == i,
        forall|k: int| 0 <= k < w.len() ==> 0 <= #[trigger] w[k] < s.len() && !settled(s, w[k]),
        forall|k: int| 0 <= k < n ==> requires_node(s, #[trigger] w[k], w[k + 1]),
    decreases n,
{
    if n == 0 {
        seq![i]
    } else {
        let w1 = lemma_unsettled_walk(s, i, (n - 1) as nat);
        let last = w1[n - 1];
        let j = lemma_unsettled_step(s, last);
        let w = w1.push(j);
        assert forall|k: int| 0 <= k < n implies requires_node(s, #[trigger] w[k], w[k + 1]) by {
            if k < n - 1 {
                assert(w[k] == w1[k] && w[k + 1] == w1[k + 1]);
            }
        }
        w
    }
}

/// A sequence of more than `n` values in `[0, n)` repeats one.
proof fn lemma_pigeonhole(w: Seq<int>, n: nat) -> (ab: (int, int))
    requires
        w.len() > n,
        forall|k: int| 0 <= k < w.len() ==> 0 <= #[trigger] w[k] < n,
    ensures
        0 <= ab.0 < ab.1 < w.len(),
        w[ab.0] == w[ab.1],
{
    if w.no_duplicates() {
        w.unique_seq_to_set();
        vstd::set_lib::lemma_int_range(0, n as int);
        assert(w.to_set().subset_of(vstd::set_lib::set_int_range(0, n as int)));
        vstd::set_lib::lemma_len_subset(w.to_set(), vstd::set_lib::set_int_range(0, n as int));
        assert(false);
        (0, 0)
    } else {
        let (a, b) = choose|a: int, b: int| 0 <= a < w.len() && 0 <= b < w.len() && a != b && w[a] == w[b];
        if a < b { (a, b) } else { (b, a) }
    }
}

/// A walk that returns to a node it visited closes a cycle.
proof fn lemma_repeat_closes_cycle(s: Seq<SkillNode>, w: Seq<int>, a: int, b: int)
    requires
        0 <= a < b < w.len(),
        w[a] == w[b],
        forall|k: int| 0 <= k < w.len() ==> 0 <= #[trigger] w[k] < s.len(),
        forall|k: int| 0 <= k < w.len() - 1 ==> requires_node(s, #[trigger] w[k], w[k + 1]),
    ensures
        is_cycle(s, w.subrange(a, b)),
{
    let c = w.subrange(a, b);
    let len = c.len() as int;
    assert forall|k: int| 0 <= k < len implies requires_node(
        s,
        #[trigger] c[k],
        c[(k + 1) % len],
    ) by {
        lemma_next_index(k, len);
        assert(c[k] == w[a + k]);
        assert(requires_node(s, w[a + k], w[a + k + 1]));
        if k + 1 == len {
            assert(c[0] == w[b]);
        } else {
            assert(c[k + 1] == w[a + k + 1]);
        }
    }
    assert forall|k: int| 0 <= k < len implies 0 <= #[trigger] c[k] < s.len() by {
        assert(c[k] == w[a + k]);
    }
}

proof fn lemma_next_index(k: int, len: int)
    by (nonlinear_arith)
    requires
        0 <= k < len,
    ensures
        (k + 1) % len == if k + 1 == len { 0 } else { k + 1 },
{
}

/// With every prerequisite naming a node, the nodes can all be unlocked
/// exactly when the prerequisite graph has no cycle: `validate_no_cycles`
/// accepts such a tree exactly when it is acyclic.
pub proof fn lemma_settled_iff_acyclic(s: Seq<SkillNode>)
    requires
        s.len() <= usize::MAX,
        ids_unique(s),
        all_known(s),
    ensures
        all_settled(s) <==> !exists|c: Seq<int>| is_cycle(s, c),
{
    if exists|c: Seq<int>| is_cycle(s, c) {
        let c = choose|c: Seq<int>| is_cycle(s, c);
        lemma_cycle_never_settles(s, c);
    }
    if !all_settled(s) {
        let i = choose|i: int| 0 <= i < s.len() && !#[trigger] settled(s, i);
        let w = lemma_unsettled_walk(s, i, s.len() as nat);
        let (a, b) = lemma_pigeonhole(w, s.len() as nat);
        lemma_repeat_closes_cycle(s, w, a, b);
    }
}

/// Every node can eventually be unlocked.
pub open spec fn all_settled(s: Seq<SkillNode>) -> bool {
    forall|i: int| 0 <= i < s.len() ==> #[trigger] settled(s, i)
}

/// Identifiers of the first `len` nodes that can never be unlocked, in order.
pub open spec fn unsettled_upto(s: Seq<SkillNode>, len: int) -> Seq<Seq<char>>
    decreases len,
{
    if len <= 0 {
        Seq::empty()
    } else if settled(s, len - 1) {
        unsettled_upto(s, len - 1)
    } else {
        unsettled_upto(s, len - 1).push(s[len - 1].id@)
    }
}

/// Identifiers of the nodes that can never be unlocked, in tree order.
pub open spec fn unsettled_ids(s: Seq<SkillNode>) -> Seq<Seq<char>> {
    unsettled_upto(s, s.len() as int)
}

/// Number of distinct entries of `p` marked in `done`.
pub open spec fn count_done(p: Seq<usize>, done: Seq<bool>) -> nat
    decreases p.len(),
{
    if p.len() == 0 {
        0
    } else {
        count_done(p.drop_last(), done) + if done[p.last() as int] && !p.drop_last().contains(
            p.last(),
        ) {
            1nat
        } else {
            0nat
        }
    }
}

proof fn lemma_count_done_bound(p: Seq<usize>, done: Seq<bool>)
    requires
        forall|k: int| 0 <= k < p.len() ==> (#[trigger] p[k]) < done.len(),
    ensures
        count_done(p, done) <= p.len(),
        count_done(p, done) == p.len() <==> (p.no_duplicates() && forall|k: int|
            0 <= k < p.len() ==> done[#[trigger] p[k] as int]),
    decreases p.len(),
{
    if p.len() > 0 {
        let q = p.drop_last();
        let e = p.last();
        assert forall|k: int| 0 <= k < q.len() implies (#[trigger] q[k]) < done.len() by {
            assert(q[k] == p[k]);
        }
        lemma_count_done_bound(q, done);
        if count_done(p, done) == p.len() {
            assert(count_done(q, done) == q.len());
            assert(done[e as int] && !q.contains(e));
            assert forall|a: int, b: int|
                0 <= a < p.len() && 0 <= b < p.len() && a != b implies p[a] != p[b] by {
                if a < q.len() && b < q.len() {
                    assert(q[a] == p[a] && q[b] == p[b]);
                } else if a < q.len() {
                    assert(q[a] == p[a]);
                    assert(q.contains(p[a]));
                } else {
                    assert(q[b] == p[b]);
                    assert(q.contains(p[b]));
                }
            }
            assert forall|k: int| 0 <= k < p.len() implies done[#[trigger] p[k] as int] by {
                if k < q.len() {
                    assert(q[k] == p[k]);
                }
            }
        }
        if p.no_duplicates() && forall|k: int| 0 <= k < p.len() ==> done[#[trigger] p[k] as int] {
            assert forall|k: int| 0 <= k < q.len() implies done[#[trigger] q[k] as int] by {
                assert(q[k] == p[k]);
            }
            assert(q.no_duplicates()) by {
                assert forall|a: int, b: int|
                    0 <= a < q.len() && 0 <= b < q.len() && a != b implies q[a] != q[b] by {
                    assert(q[a] == p[a] && q[b] == p[b]);
                }
            }
            assert(done[p[p.len() - 1] as int]);
            if q.contains(e) {
                let k = choose|k: int| 0 <= k < q.len() && q[k] == e;
                assert(p[k] == q[k]);
                assert(p[k] == p[p.len() - 1]);
            }
        }
    }
}

proof fn lemma_count_done_mark(p: Seq<usize>, done: Seq<bool>, x: usize)
    requires
        forall|k: int| 0 <= k < p.len() ==> (#[trigger] p[k]) < done.len(),
        x < done.len(),
        !done[x as int],
    ensures
        count_done(p, done.update(x as int, true)) == count_done(p, done) + if p.contains(x) {
            1nat
        } else {
            0nat
        },
    decreases p.len(),
{
    if p.len() > 0 {
        let q = p.drop_last();
        let e = p.last();
        assert forall|k: int| 0 <= k < q.len() implies (#[trigger] q[k]) < done.len() by {
            assert(q[k] == p[k]);
        }
        lemma_count_done_mark(q, done, x);
        if p.contains(x) && !q.contains(x) {
            assert(e == x) by {
                let k = choose|k: int| 0 <= k < p.len() && p[k] == x;
                if k < q.len() {
                    assert(q[k] == p[k]);
                }
            }
        }
        if q.contains(x) {
            let k = choose|k: int| 0 <= k < q.len() && q[k] == x;
            assert(p[k] == q[k]);
        }
    } else {
        assert(!p.contains(x));
    }
}

/// Node `j` carries one of the first `upto` prerequisite identifiers of node `o`.
pub open spec fn names_prereq(s: Seq<SkillNode>, o: int, j: usize, upto: int) -> bool {
    exists|m: int| 0 <= m < upto && s[j as int].id@ == s[o].prerequisites@[m]@
}

/// Some node listed in `row` carries identifier `q`.
pub open spec fn row_has_id(s: Seq<SkillNode>, row: Seq<usize>, q: Seq<char>) -> bool {
    exists|k: int| 0 <= k < row.len() && s[row[k] as int].id@ == q
}

/// The prerequisites of every node, resolved to node indices, each named
/// node once.
pub open spec fn resolves(s: Seq<SkillNode>, pre: Seq<Seq<usize>>) -> bool {
    &&& pre.len() == s.len()
    &&& forall|o: int| 0 <= o < s.len() ==> (#[trigger] pre[o]).no_duplicates()
    &&& forall|o: int, k: int|
        0 <= o < s.len() && 0 <= k < pre[o].len() ==> (#[trigger] pre[o][k]) < s.len() && names_prereq(
            s,
            o,
            pre[o][k],
            s[o].prerequisites@.len() as int,
        )
    &&& forall|o: int, m: int|
        0 <= o < s.len() && 0 <= m < s[o].prerequisites@.len() ==> row_has_id(
            s,
            pre[o],
            #[trigger] s[o].prerequisites@[m]@,
        )
}

/// Once the queue has drained, every node of an unlock order has zero
/// remaining in-degree.
proof fn lemma_order_drained(
    s: Seq<SkillNode>,
    pre: Seq<Seq<usize>>,
    deg: Seq<usize>,
    done: Seq<bool>,
    ord: Seq<usize>,
    t: int,
)
    requires
        ids_unique(s),
        resolves(s, pre),
        deg.len() == s.len(),
        done.len() == s.len(),
        forall|o: int|
            0 <= o < s.len() ==> #[trigger] deg[o] + count_done(pre[o], done) == pre[o].len(),
        forall|j: int| 0 <= j < s.len() ==> (#[trigger] done[j] <==> deg[j] == 0),
        valid_unlock_order(s, ord),
        0 <= t < ord.len(),
    ensures
        deg[ord[t] as int] == 0,
    decreases t,
{
    let x = ord[t] as int;
    let p = pre[x];
    assert forall|k: int| 0 <= k < p.len() implies done[#[trigger] p[k] as int] by {
        assert(p[k] < s.len());
        assert(names_prereq(s, x, p[k], s[x].prerequisites@.len() as int));
        let m = choose|m: int|
            0 <= m < s[x].prerequisites@.len() && s[p[k] as int].id@ == s[x].prerequisites@[m]@;
        assert(s[x].prerequisites@[m] == s[ord[t] as int].prerequisites@[m]);
        assert(listed_before(s, ord, t, s[ord[t] as int].prerequisites@[m]@));
        let u = choose|u: int|
            0 <= u < t && s[(#[trigger] ord[u]) as int].id@ == s[ord[t] as int].prerequisites@[m]@;
        assert(ord[u] < s.len());
        assert(s[ord[u] as int].id@ == s[p[k] as int].id@);
        assert(ord[u] == p[k]);
        lemma_order_drained(s, pre, deg, done, ord, u);
    }
    assert forall|k: int| 0 <= k < p.len() implies (#[trigger] p[k]) < done.len() by {}
    lemma_count_done_bound(p, done);
}

fn contains_index(v: &Vec<usize>, x: usize) -> (r: bool)
    ensures
        r == v@.contains(x),
{
    let mut i: usize = 0;
    while i < v.len()
        invariant
            0 <= i <= v@.len(),
            forall|k: int| 0 <= k < i ==> v@[k] != x,
        decreases v@.len() - i,
    {
        if v[i] == x {
            return true;
        }
        i = i + 1;
    }
    false
}

pub open spec fn sum_of(d: Seq<usize>) -> int
    decreases d.len(),
{
    if d.len() == 0 {
        0
    } else {
        sum_of(d.drop_last()) + d.last()
    }
}

proof fn lemma_sum_update(d: Seq<usize>, o: int, v: usize)
    requires
        0 <= o < d.len(),
    ensures
        sum_of(d.update(o, v)) == sum_of(d) - d[o] + v,
        sum_of(d) >= 0,
    decreases d.len(),
{
    let e = d.update(o, v);
    if o == d.len() - 1 {
        assert(e.drop_last() == d.drop_last());
        lemma_sum_nonneg(d.drop_last());
    } else {
        assert(e.drop_last() == d.drop_last().update(o, v));
        lemma_sum_update(d.drop_last(), o, v);
    }
}

proof fn lemma_sum_nonneg(d: Seq<usize>)
    ensures
        sum_of(d) >= 0,
    decreases d.len(),
{
    if d.len() > 0 {
        lemma_sum_nonneg(d.drop_last());
    }
}


proof fn lemma_count_done_none(p: Seq<usize>, done: Seq<bool>)
    requires
        forall|j: int| 0 <= j < done.len() ==> !(#[trigger] done[j]),
        forall|k: int| 0 <= k < p.len() ==> (#[trigger] p[k]) < done.len(),
    ensures
        count_done(p, done) == 0,
    decreases p.len(),
{
    if p.len() > 0 {
        let q = p.drop_last();
        assert forall|k: int| 0 <= k < q.len() implies (#[trigger] q[k]) < done.len() by {
            assert(q[k] == p[k]);
        }
        lemma_count_done_none(q, done);
        assert(p.last() == p[p.len() - 1]);
    }
}

proof fn lemma_unsettled_empty(s: Seq<SkillNode>, len: int)
    requires
        0 <= len <= s.len(),
    ensures
        unsettled_upto(s, len).len() == 0 <==> forall|i: int| 0 <= i < len ==> #[trigger] settled(s, i),
    decreases len,
{
    if len > 0 {
        lemma_unsettled_empty(s, len - 1);
    }
}

proof fn lemma_push_valid(s: Seq<SkillNode>, ord: Seq<usize>, x: usize)
    requires
        valid_unlock_order(s, ord),
        x < s.len(),
        forall|m: int|
            #![trigger s[x as int].prerequisites@[m]]
            0 <= m < s[x as int].prerequisites@.len() ==> listed_before(
                s,
                ord,
                ord.len() as int,
                s[x as int].prerequisites@[m]@,
            ),
    ensures
        valid_unlock_order(s, ord.push(x)),
{
    let o2 = ord.push(x);
    assert forall|t: int, q: Seq<char>|
        0 <= t <= ord.len() && #[trigger] listed_before(s, ord, t, q) implies listed_before(
        s,
        o2,
        t,
        q,
    ) by {
        let u = choose|u: int| 0 <= u < t && s[(#[trigger] ord[u]) as int].id@ == q;
        assert(o2[u] == ord[u]);
    }
    assert forall|t: int| #![trigger o2[t]] 0 <= t < o2.len() implies {
        &&& o2[t] < s.len()
        &&& forall|m: int|
            #![trigger s[o2[t] as int].prerequisites@[m]]
            0 <= m < s[o2[t] as int].prerequisites@.len() ==> listed_before(
                s,
                o2,
                t,
                s[o2[t] as int].prerequisites@[m]@,
            )
    } by {
        if t < ord.len() {
            assert(o2[t] == ord[t]);
        } else {
            assert(o2[t] == x);
        }
    }
}

/// Checks that the tree's prerequisite graph can be unlocked in full.
///
/// Every prerequisite must name a node of the tree; the first one that does
/// not (scanning nodes, then their prerequisites, in order) is reported as
/// `UnknownPrerequisite`. Otherwise the prerequisite graph is sorted
/// topologically (Kahn's algorithm): nodes with no outstanding prerequisite
/// are released one by one, each release lowering the outstanding count of
/// every node that lists it. The tree is accepted when every node is
/// released; else `CycleDetected` lists, in tree order, the nodes left over
/// (those on a cycle or behind one). A prerequisite listed twice counts once.
pub fn validate_no_cycles(tree: &SkillTree) -> (r: Result<(), CycleError>)
    requires
        ids_unique(tree.nodes@),
    ensures
        !all_known(tree.nodes@) ==> (r matches Err(
            CycleError::UnknownPrerequisite { node, prereq },
        ) && first_unknown_is(tree.nodes@, node@, prereq@)),
        all_known(tree.nodes@) ==> (r is Ok <==> all_settled(tree.nodes@)),
        all_known(tree.nodes@) ==> (r matches Err(e) ==> (e matches CycleError::CycleDetected {
            involved,
        } && involved@.map_values(|v: String| v@) == unsettled_ids(tree.nodes@))),
{
    let n = tree.nodes.len();
    let ghost s = tree.nodes@;
    // Resolve every prerequisite to the index of the node it names; a node
    // named twice is kept once.
    let mut pre: Vec<Vec<usize>> = Vec::new();
    let mut i: usize = 0;
    while i < n
        invariant
            n == s.len(),
            s == tree.nodes@,
            0 <= i <= n,
            pre@.len() == i,
            forall|o: int| 0 <= o < i ==> (#[trigger] pre@[o])@.no_duplicates(),
            forall|o: int, k: int|
                0 <= o < i && 0 <= k < pre@[o]@.len() ==> (#[trigger] pre@[o]@[k]) < n && names_prereq(
                    s,
                    o,
                    pre@[o]@[k],
                    s[o].prerequisites@.len() as int,
                ),
            forall|o: int, m: int|
                0 <= o < i && 0 <= m < s[o].prerequisites@.len() ==> row_has_id(
                    s,
                    pre@[o]@,
                    #[trigger] s[o].prerequisites@[m]@,
                ),
            forall|i2: int, m2: int|
                #![trigger unknown_at(s, i2, m2)]
                0 <= i2 < i ==> !unknown_at(s, i2, m2),
        decreases n - i,
    {
        let node = &tree.nodes[i];
        let mut row: Vec<usize> = Vec::new();
        let mut m: usize = 0;
        while m < node.prerequisites.len()
            invariant
                n == s.len(),
                s == tree.nodes@,
                0 <= i < n,
                *node == s[i as int],
                0 <= m <= node.prerequisites@.len(),
                row@.no_duplicates(),
                forall|k: int|
                    0 <= k < row@.len() ==> (#[trigger] row@[k]) < n && names_prereq(
                        s,
                        i as int,
                        row@[k],
                        m as int,
                    ),
                forall|m2: int|
                    0 <= m2 < m ==> row_has_id(s, row@, #[trigger] s[i as int].prerequisites@[m2]@),
                forall|i2: int, m2: int|
                    #![trigger unknown_at(s, i2, m2)]
                    0 <= i2 < i ==> !unknown_at(s, i2, m2),
                forall|m2: int|
                    #![trigger unknown_at(s, i as int, m2)]
                    0 <= m2 < m ==> !unknown_at(s, i as int, m2),
            decreases node.prerequisites@.len() - m,
        {
            match index_of_id(&tree.nodes, &node.prerequisites[m]) {
                None => {
                    assert(unknown_at(s, i as int, m as int));
                    assert forall|i2: int, m2: int|
                        #![trigger unknown_at(s, i2, m2)]
                        unknown_at(s, i2, m2) implies (i < i2 || (i == i2 && m <= m2)) by {
                        if i2 < i {
                        } else if i2 == i && m2 < m {
                        }
                    }
                    return Err(
                        CycleError::UnknownPrerequisite {
                            node: node.id.clone(),
                            prereq: node.prerequisites[m].clone(),
                        },
                    );
                },
                Some(j) => {
                    let ghost old_row = row@;
                    let ghost q = s[i as int].prerequisites@[m as int]@;
                    assert forall|k: int|
                        0 <= k < old_row.len() implies (#[trigger] old_row[k]) < n && names_prereq(
                        s,
                        i as int,
                        old_row[k],
                        m + 1,
                    ) by {
                        let mm = choose|mm: int|
                            0 <= mm < m && s[old_row[k] as int].id@ == s[i as int].prerequisites@[mm]@;
                    }
                    if contains_index(&row, j) {
                        let ghost k = choose|k: int| 0 <= k < old_row.len() && old_row[k] == j;
                        assert(row_has_id(s, row@, q)) by {
                            assert(s[row@[k] as int].id@ == q);
                        }
                    } else {
                        row.push(j);
                        proof {
                            assert(row@ == old_row.push(j));
                            assert(names_prereq(s, i as int, j, m + 1)) by {
                                assert(s[j as int].id@ == s[i as int].prerequisites@[m as int]@);
                            }
                            assert forall|k: int|
                                0 <= k < row@.len() implies (#[trigger] row@[k]) < n && names_prereq(
                                s,
                                i as int,
                                row@[k],
                                m + 1,
                            ) by {
                                if k < old_row.len() {
                                    assert(row@[k] == old_row[k]);
                                }
                            }
                            assert forall|m2: int|
                                0 <= m2 <= m implies row_has_id(
                                s,
                                row@,
                                #[trigger] s[i as int].prerequisites@[m2]@,
                            ) by {
                                if m2 < m {
                                    let k = choose|k: int|
                                        0 <= k < old_row.len() && s[old_row[k] as int].id@
                                            == s[i as int].prerequisites@[m2]@;
                                    assert(row@[k] == old_row[k]);
                                } else {
                                    assert(row@[old_row.len() as int] == j);
                                }
                            }
                            assert forall|a: int, b: int|
                                0 <= a < row@.len() && 0 <= b < row@.len() && a != b implies row@[a]
                                != row@[b] by {
                                if a < old_row.len() && b < old_row.len() {
                                    assert(row@[a] == old_row[a] && row@[b] == old_row[b]);
                                } else if a < old_row.len() {
                                    assert(row@[a] == old_row[a]);
                                    assert(old_row.contains(row@[a]));
                                } else {
                                    assert(row@[b] == old_row[b]);
                                    assert(old_row.contains(row@[b]));
                                }
                            }
                        }
                    }
                },
            }
            m = m + 1;
        }
        pre.push(row);
        i = i + 1;
    }
    assert(all_known(s));
    let ghost pv = pre@.map_values(|v: Vec<usize>| v@);
    assert(resolves(s, pv));
    // Outstanding prerequisite counts; nodes with none are released first.
    let mut deg: Vec<usize> = Vec::new();
    let mut queue: Vec<usize> = Vec::new();
    let ghost none: Seq<bool> = Seq::new(n as nat, |j: int| false);
    let mut k: usize = 0;
    while k < n
        invariant
            n == s.len(),
            s == tree.nodes@,
            pre@.len() == n,
            resolves(s, pv),
            pv == pre@.map_values(|v: Vec<usize>| v@),
            0 <= k <= n,
            deg@.len() == k,
            none.len() == n,
            forall|j: int| 0 <= j < n ==> !(#[trigger] none[j]),
            forall|o: int|
                0 <= o < k ==> #[trigger] deg@[o] + count_done(pv[o], none) == pv[o].len(),
            forall|t: int| 0 <= t < queue@.len() ==> (#[trigger] queue@[t]) < k,
            queue@.no_duplicates(),
            forall|o: int| 0 <= o < k ==> (#[trigger] deg@[o] == 0 <==> queue@.contains(o as usize)),
            valid_unlock_order(s, queue@),
        decreases n - k,
    {
        let len = pre[k].len();
        proof {
            assert(pv[k as int] == pre@[k as int]@);
            assert forall|t: int| 0 <= t < pv[k as int].len() implies (#[trigger] pv[k as int][t])
                < none.len() by {}
            lemma_count_done_none(pv[k as int], none);
        }
        deg.push(len);
        if len == 0 {
            let ghost old_q = queue@;
            proof {
                assert(s[k as int].prerequisites@.len() == 0) by {
                    if s[k as int].prerequisites@.len() > 0 {
                        assert(row_has_id(s, pv[k as int], s[k as int].prerequisites@[0]@));
                    }
                }
                lemma_push_valid(s, old_q, k);
                assert(!old_q.contains(k));
            }
            queue.push(k);
            proof {
                assert forall|o: int| 0 <= o < k implies (#[trigger] queue@.contains(o as usize)
                    <==> old_q.contains(o as usize)) by {
                    if queue@.contains(o as usize) {
                        let t = choose|t: int| 0 <= t < queue@.len() && queue@[t] == o as usize;
                        if t < old_q.len() {
                            assert(old_q[t] == queue@[t]);
                        }
                    }
                    if old_q.contains(o as usize) {
                        let t = choose|t: int| 0 <= t < old_q.len() && old_q[t] == o as usize;
                        assert(old_q[t] == queue@[t]);
                    }
                }
                assert(queue@[old_q.len() as int] == k);
                assert forall|a: int, b: int|
                    0 <= a < queue@.len() && 0 <= b < queue@.len() && a != b implies queue@[a]
                    != queue@[b] by {
                    if a < old_q.len() && b < old_q.len() {
                        assert(queue@[a] == old_q[a] && queue@[b] == old_q[b]);
                    } else if a < old_q.len() {
                        assert(queue@[a] == old_q[a]);
                    } else {
                        assert(queue@[b] == old_q[b]);
                    }
                }
            }
        } else {
            proof {
                if queue@.contains(k) {
                    let t = choose|t: int| 0 <= t < queue@.len() && queue@[t] == k;
                }
            }
        }
        k = k + 1;
    }
    // Release nodes one by one.
    let ghost mut done: Seq<bool> = none;
    let mut head: usize = 0;
    proof {
        assert forall|j: int| 0 <= j < n implies (#[trigger] done[j] <==> queue@.subrange(
            0,
            head as int,
        ).contains(j as usize)) by {
            assert(queue@.subrange(0, 0).len() == 0);
        }
        lemma_sum_nonneg(deg@);
    }
    while head < queue.len()
        invariant
            n == s.len(),
            s == tree.nodes@,
            ids_unique(s),
            pre@.len() == n,
            resolves(s, pv),
            pv == pre@.map_values(|v: Vec<usize>| v@),
            deg@.len() == n,
            done.len() == n,
            forall|o: int|
                0 <= o < n ==> #[trigger] deg@[o] + count_done(pv[o], done) == pv[o].len(),
            head <= queue@.len(),
            forall|t: int| 0 <= t < queue@.len() ==> (#[trigger] queue@[t]) < n,
            queue@.no_duplicates(),
            forall|j: int|
                0 <= j < n ==> (#[trigger] done[j] <==> queue@.subrange(0, head as int).contains(
                    j as usize,
                )),
            forall|o: int| 0 <= o < n ==> (#[trigger] deg@[o] == 0 <==> queue@.contains(o as usize)),
            valid_unlock_order(s, queue@),
            sum_of(deg@) >= 0,
        decreases 2 * sum_of(deg@) + queue@.len() - head,
    {
        let x = queue[head];
        let ghost old_done = done;
        let ghost m0 = 2 * sum_of(deg@) + queue@.len();
        proof {
            assert(!old_done[x as int]) by {
                if old_done[x as int] {
                    let u = choose|u: int|
                        0 <= u < head && queue@.subrange(0, head as int)[u] == x;
                    assert(queue@[u] == queue@[head as int]);
                }
            }
            done = done.update(x as int, true);
            assert(queue@.subrange(0, head + 1) == queue@.subrange(0, head as int).push(x));
        }
        head = head + 1;
        proof {
            assert forall|j: int| 0 <= j < n implies (#[trigger] done[j] <==> queue@.subrange(
                0,
                head as int,
            ).contains(j as usize)) by {
                let sub = queue@.subrange(0, head as int);
                let prev = queue@.subrange(0, head - 1);
                assert(sub == prev.push(x));
                if j == x as int {
                    assert(sub[head - 1] == x);
                } else {
                    if sub.contains(j as usize) {
                        let u = choose|u: int| 0 <= u < sub.len() && sub[u] == j as usize;
                        assert(prev[u] == sub[u]);
                    }
                    if prev.contains(j as usize) {
                        let u = choose|u: int| 0 <= u < prev.len() && prev[u] == j as usize;
                        assert(prev[u] == sub[u]);
                    }
                }
            }
        }
        let mut o: usize = 0;
        while o < n
            invariant
                n == s.len(),
                s == tree.nodes@,
                ids_unique(s),
                pre@.len() == n,
                resolves(s, pv),
                pv == pre@.map_values(|v: Vec<usize>| v@),
                deg@.len() == n,
                done.len() == n,
                old_done.len() == n,
                x < n,
                !old_done[x as int],
                done == old_done.update(x as int, true),
                0 <= o <= n,
                forall|o2: int|
                    0 <= o2 < o ==> #[trigger] deg@[o2] + count_done(pv[o2], done) == pv[o2].len(),
                forall|o2: int|
                    o <= o2 < n ==> #[trigger] deg@[o2] + count_done(pv[o2], old_done)
                        == pv[o2].len(),
                1 <= head <= queue@.len(),
                forall|t: int| 0 <= t < queue@.len() ==> (#[trigger] queue@[t]) < n,
                queue@.no_duplicates(),
                forall|j: int|
                    0 <= j < n ==> (#[trigger] done[j] <==> queue@.subrange(
                        0,
                        head as int,
                    ).contains(j as usize)),
                forall|o2: int|
                    0 <= o2 < n ==> (#[trigger] deg@[o2] == 0 <==> queue@.contains(o2 as usize)),
                valid_unlock_order(s, queue@),
                sum_of(deg@) >= 0,
                2 * sum_of(deg@) + queue@.len() <= m0,
            decreases n - o,
        {
            let hit = contains_index(&pre[o], x);
            proof {
                assert(pv[o as int] == pre@[o as int]@);
                assert forall|t: int| 0 <= t < pv[o as int].len() implies (#[trigger] pv[
                    o as int
                ][t]) < old_done.len() by {}
                lemma_count_done_mark(pv[o as int], old_done, x);
                lemma_count_done_bound(pv[o as int], old_done);
                lemma_count_done_bound(pv[o as int], done);
            }
            if hit {
                proof {
                    if deg@[o as int] == 0 {
                        let t = choose|t: int| 0 <= t < pv[o as int].len() && pv[o as int][t] == x;
                        assert(!old_done[pv[o as int][t] as int]);
                    }
                }
                let d = deg[o] - 1;
                proof {
                    lemma_sum_update(deg@, o as int, d);
                }
                deg.set(o, d);
                proof {
                    lemma_sum_nonneg(deg@);
                }
                if d == 0 {
                    let ghost old_q = queue@;
                    proof {
                        assert(!old_q.contains(o));
                        let p = pv[o as int];
                        assert(count_done(p, done) == p.len());
                        assert forall|m: int|
                            #![trigger s[o as int].prerequisites@[m]]
                            0 <= m < s[o as int].prerequisites@.len() implies listed_before(
                                s,
                                old_q,
                                old_q.len() as int,
                                s[o as int].prerequisites@[m]@,
                            ) by {
                            assert(row_has_id(s, p, s[o as int].prerequisites@[m]@));
                            let kk = choose|kk: int|
                                0 <= kk < p.len() && s[p[kk] as int].id@ == s[o as int].prerequisites@[m]@;
                            let j = p[kk];
                            assert(done[j as int]);
                            let u = choose|u: int|
                                0 <= u < head && queue@.subrange(0, head as int)[u] == j;
                            assert(old_q[u] == j);
                            assert(s[j as int].id@ == s[o as int].prerequisites@[m]@);
                        }
                        lemma_push_valid(s, old_q, o);
                    }
                    queue.push(o);
                    proof {
                        assert forall|o2: int| 0 <= o2 < n implies (#[trigger] queue@.contains(
                            o2 as usize,
                        ) <==> (old_q.contains(o2 as usize) || o2 == o)) by {
                            if queue@.contains(o2 as usize) {
                                let t = choose|t: int|
                                    0 <= t < queue@.len() && queue@[t] == o2 as usize;
                                if t < old_q.len() {
                                    assert(old_q[t] == queue@[t]);
                                }
                            }
                            if old_q.contains(o2 as usize) {
                                let t = choose|t: int| 0 <= t < old_q.len() && old_q[t] == o2 as usize;
                                assert(old_q[t] == queue@[t]);
                            }
                            if o2 == o {
                                assert(queue@[old_q.len() as int] == o);
                            }
                        }
                        assert(queue@.subrange(0, head as int) == old_q.subrange(0, head as int));
                        let p = pv[o as int];
                        assert(count_done(p, done) == p.len());
                        assert(p.no_duplicates() && forall|kk: int|
                            0 <= kk < p.len() ==> done[#[trigger] p[kk] as int]);
                        assert(queue@ == old_q.push(o));
                        assert forall|a: int, b: int|
                            0 <= a < queue@.len() && 0 <= b < queue@.len() && a != b implies queue@[a]
                            != queue@[b] by {
                            if a < old_q.len() && b < old_q.len() {
                            } else if a < old_q.len() {
                                assert(old_q.contains(queue@[a]));
                            } else {
                                assert(old_q.contains(queue@[b]));
                            }
                        }
                    }
                }
            }
            o = o + 1;
        }
    }
    // Every node is released exactly when it can be unlocked at all.
    proof {
        assert forall|j: int| 0 <= j < n implies (#[trigger] done[j] <==> deg@[j] == 0) by {
            assert(queue@.subrange(0, head as int) == queue@);
        }
        assert forall|o: int| 0 <= o < n implies (#[trigger] deg@[o] == 0 <==> settled(s, o)) by {
            if deg@[o] == 0 {
                assert(queue@.contains(o as usize));
            }
            if settled(s, o) {
                let ord = choose|ord: Seq<usize>| valid_unlock_order(s, ord) && ord.contains(
                    o as usize,
                );
                let t = choose|t: int| 0 <= t < ord.len() && ord[t] == o as usize;
                lemma_order_drained(s, pv, deg@, done, ord, t);
            }
        }
    }
    let mut involved: Vec<String> = Vec::new();
    let mut q: usize = 0;
    while q < n
        invariant
            n == s.len(),
            s == tree.nodes@,
            deg@.len() == n,
            0 <= q <= n,
            forall|o: int| 0 <= o < n ==> (#[trigger] deg@[o] == 0 <==> settled(s, o)),
            involved@.map_values(|v: String| v@) == unsettled_upto(s, q as int),
        decreases n - q,
    {
        if deg[q] > 0 {
            let ghost before = involved@;
            involved.push(tree.nodes[q].id.clone());
            assert(involved@.map_values(|v: String| v@) =~= before.map_values(|v: String| v@).push(
                s[q as int].id@,
            ));
        }
        q = q + 1;
    }
    proof {
        lemma_unsettled_empty(s, n as int);
    }
    if involved.len() == 0 {
        Ok(())
    } else {
        Err(CycleError::CycleDetected { involved })
    }
}

} // verus!
