//! Ordering the nodes of a scene hierarchy so that every parent comes before
//! its children, breadth first from the roots.
use vstd::prelude::*;
use vstd::set_lib::*;
use std::collections::BTreeMap;

verus! {

broadcast use vstd::laws_cmp::group_laws_cmp;

/// The hierarchy as a sequence: entry `i` lists the children of node `i`.
pub open spec fn forest_of(children: &Vec<Vec<usize>>) -> Seq<Seq<usize>> {
    children@.map_values(|c: Vec<usize>| c@)
}

/// Node `c` is listed as the child of some node.
pub open spec fn is_child(g: Seq<Seq<usize>>, c: usize) -> bool {
    exists|p: int, k: int| 0 <= p < g.len() && 0 <= k < g[p].len() && #[trigger] g[p][k] == c
}

/// Every child is a node of the hierarchy, and no node is listed as a child
/// twice: each node has at most one parent.
pub open spec fn is_forest(g: Seq<Seq<usize>>) -> bool {
    &&& forall|p: int, k: int| 0 <= p < g.len() && 0 <= k < g[p].len() ==> #[trigger] g[p][k] < g.len()
    &&& forall|p1: int, k1: int, p2: int, k2: int|
        0 <= p1 < g.len() && 0 <= k1 < g[p1].len() && 0 <= p2 < g.len() && 0 <= k2 < g[p2].len()
            && #[trigger] g[p1][k1] == #[trigger] g[p2][k2] ==> p1 == p2 && k1 == k2
}

/// The nodes below `i` that are nobody's child, in increasing order.
pub open spec fn roots_below(g: Seq<Seq<usize>>, i: int) -> Seq<usize>
    decreases i,
{
    if i <= 0 {
        Seq::empty()
    } else if is_child(g, (i - 1) as usize) {
        roots_below(g, i - 1)
    } else {
        roots_below(g, i - 1).push((i - 1) as usize)
    }
}

/// The nodes that are nobody's child, in increasing order.
pub open spec fn roots(g: Seq<Seq<usize>>) -> Seq<usize> {
    roots_below(g, g.len() as int)
}

/// The children of the nodes of `s`, node after node.
pub open spec fn fan_out(g: Seq<Seq<usize>>, s: Seq<usize>) -> Seq<usize> {
    s.map_values(|x: usize| g[x as int]).flatten()
}

/// What a breadth-first walk has queued once it has taken the first `j`
/// nodes of `order` off its queue: the roots, then the children of those nodes.
pub open spec fn queued(g: Seq<Seq<usize>>, order: Seq<usize>, j: int) -> Seq<usize> {
    roots(g) + fan_out(g, order.take(j))
}

/// Node `c` is listed as a child of a node before position `p` of the
/// hierarchy, or at position `p` before index `k`.
spec fn listed_before(g: Seq<Seq<usize>>, c: usize, p: int, k: int) -> bool {
    ||| exists|q: int, j: int| 0 <= q < p && 0 <= j < g[q].len() && #[trigger] g[q][j] == c
    ||| exists|j: int| 0 <= j < k && #[trigger] g[p][j] == c
}

/// Every entry of `s` past the roots is a child of one of the first `head`
/// entries.
spec fn fed_from(g: Seq<Seq<usize>>, s: Seq<usize>, head: int) -> bool {
    forall|i: int| roots(g).len() <= i < s.len() ==> #[trigger] fed_at(g, s, head, i)
}

/// Entry `i` of `s` is a child of one of the first `head` entries, and of
/// one that comes before it.
spec fn fed_at(g: Seq<Seq<usize>>, s: Seq<usize>, head: int, i: int) -> bool {
    exists|j: int, m: int|
        0 <= j < head && j < i && 0 <= s[j] < g.len() && 0 <= m < g[s[j] as int].len() && s[i]
            == #[trigger] g[s[j] as int][m]
}

/// Entry `i` of `s` is a child of an entry that comes before it.
pub open spec fn follows_its_parent(g: Seq<Seq<usize>>, s: Seq<usize>, i: int) -> bool {
    exists|j: int, m: int|
        0 <= j < i && 0 <= s[j] < g.len() && 0 <= m < g[s[j] as int].len() && s[i]
            == #[trigger] g[s[j] as int][m]
}

/// The first entries of `s`, as many as there are roots, are nobody's child.
spec fn leads_with_free_nodes(g: Seq<Seq<usize>>, s: Seq<usize>) -> bool {
    &&& roots(g).len() <= s.len()
    &&& forall|i: int| 0 <= i < roots(g).len() ==> !is_child(g, #[trigger] s[i])
}

proof fn lemma_roots_below(g: Seq<Seq<usize>>, i: int)
    requires
        0 <= i <= usize::MAX,
    ensures
        forall|a: int| 0 <= a < roots_below(g, i).len() ==> !is_child(g, #[trigger] roots_below(g, i)[a]),
        forall|a: int| 0 <= a < roots_below(g, i).len() ==> #[trigger] roots_below(g, i)[a] < i,
        forall|a: int, b: int|
            0 <= a < b < roots_below(g, i).len() ==> #[trigger] roots_below(g, i)[a]
                < #[trigger] roots_below(g, i)[b],
        forall|c: usize| c < i && !is_child(g, c) ==> roots_below(g, i).contains(c),
    decreases i,
{
    if i > 0 {
        lemma_roots_below(g, i - 1);
        let r = roots_below(g, i - 1);
        if !is_child(g, (i - 1) as usize) {
            assert(roots_below(g, i) == r.push((i - 1) as usize));
            assert forall|a: int, b: int| 0 <= a < b < roots_below(g, i).len() implies #[trigger] roots_below(g, i)[a]
                < #[trigger] roots_below(g, i)[b] by {
                assert(roots_below(g, i)[a] == r[a]);
                if b < r.len() {
                    assert(roots_below(g, i)[b] == r[b]);
                }
            }
            assert forall|c: usize| c < i && !is_child(g, c) implies roots_below(g, i).contains(c) by {
                if c < i - 1 {
                    let a = choose|a: int| 0 <= a < r.len() && r[a] == c;
                    assert(roots_below(g, i)[a] == c);
                } else {
                    assert(roots_below(g, i)[r.len() as int] == c);
                }
            }
        }
    }
}

/// A sequence of distinct numbers below `n` has at most `n` entries.
proof fn lemma_distinct_below(s: Seq<usize>, n: usize)
    requires
        s.no_duplicates(),
        forall|i: int| 0 <= i < s.len() ==> #[trigger] s[i] < n,
    ensures
        s.len() <= n,
{
    let t = s.map_values(|x: usize| x as int);
    assert(t.no_duplicates()) by {
        assert forall|i: int, j: int| 0 <= i < t.len() && 0 <= j < t.len() && i != j implies t[i]
            != t[j] by {
            assert(s[i] != s[j]);
        }
    }
    t.unique_seq_to_set();
    lemma_int_range(0, n as int);
    assert(t.to_set().subset_of(set_int_range(0, n as int))) by {
        assert forall|x: int| t.to_set().contains(x) implies set_int_range(0, n as int).contains(x) by {
            let i = choose|i: int| 0 <= i < t.len() && t[i] == x;
            assert(s[i] < n);
        }
    }
    lemma_len_subset(t.to_set(), set_int_range(0, n as int));
}

/// The queue of a breadth-first walk after the children of `x`, the node at
/// position `head`, were appended to it: the new entry `c` occurs nowhere before.
proof fn lemma_new_child_is_fresh(
    g: Seq<Seq<usize>>,
    before: Seq<usize>,
    head: int,
    x: usize,
    k: int,
)
    requires
        is_forest(g),
        0 <= head < before.len(),
        before[head] == x,
        x < g.len(),
        0 <= k < g[x as int].len(),
        before.no_duplicates(),
        leads_with_free_nodes(g, before),
        fed_from(g, before, head),
    ensures
        !(before + g[x as int].take(k)).contains(g[x as int][k]),
{
    let c = g[x as int][k];
    let q = before + g[x as int].take(k);
    assert forall|i: int| 0 <= i < q.len() implies q[i] != c by {
        if i < before.len() {
            assert(q[i] == before[i]);
            if i < roots(g).len() {
                assert(!is_child(g, before[i]));
                assert(is_child(g, c));
            } else {
                assert(fed_at(g, before, head, i));
                let (j, m) = choose|j: int, m: int|
                    0 <= j < head && j < i && 0 <= before[j] < g.len() && 0 <= m < g[before[j] as int].len()
                        && before[i] == #[trigger] g[before[j] as int][m];
                if before[i] == c {
                    assert(g[before[j] as int][m] == g[x as int][k]);
                    assert(before[j] == x);
                    assert(before[j] == before[head]);
                }
            }
        } else {
            let m = i - before.len();
            assert(q[i] == g[x as int][m]);
            assert(m < k);
        }
    }
}

/// The nodes of a hierarchy in breadth-first order from its roots, together
/// with the parent of every child.
///
/// The order lists the roots (the nodes that are nobody's child) in
/// increasing order, then the children of every listed node in the order in
/// which the nodes were listed: it is everything that a first-in first-out
/// queue seeded with the roots hands out, and the queue never runs dry
/// before the end. Parents therefore come before their children, and no
/// node comes twice.
pub fn node_indices_topological_sort(children: &Vec<Vec<usize>>) -> (result: (
    Vec<usize>,
    BTreeMap<usize, usize>,
))
    requires
        is_forest(forest_of(children)),
    ensures
        result.0@ == queued(forest_of(children), result.0@, result.0@.len() as int),
        forall|j: int|
            0 <= j < result.0@.len() ==> j < #[trigger] queued(
                forest_of(children),
                result.0@,
                j,
            ).len(),
        result.0@.no_duplicates(),
        forall|i: int|
            roots(forest_of(children)).len() <= i < result.0@.len() ==> #[trigger] follows_its_parent(
                forest_of(children),
                result.0@,
                i,
            ),
        forall|c: usize| result.1@.contains_key(c) <==> is_child(forest_of(children), c),
        forall|p: int, k: int|
            0 <= p < forest_of(children).len() && 0 <= k < forest_of(children)[p].len()
                ==> result.1@[#[trigger] forest_of(children)[p][k]] == p,
{
    let ghost g = forest_of(children);
    let n = children.len();

    let mut parents: BTreeMap<usize, usize> = BTreeMap::new();
    for p in 0..n
        invariant
            n == children.len(),
            g == forest_of(children),
            is_forest(g),
            forall|c: usize| parents@.contains_key(c) <==> listed_before(g, c, p as int, 0),
            forall|q: int, j: int|
                0 <= q < p && 0 <= j < g[q].len() ==> parents@.contains_key(#[trigger] g[q][j])
                    && parents@[g[q][j]] == q,
    {
        let kids = &children[p];
        assert(kids@ == g[p as int]);
        for k in 0..kids.len()
            invariant
                n == children.len(),
                p < n,
                g == forest_of(children),
                is_forest(g),
                kids@ == g[p as int],
                forall|c: usize| parents@.contains_key(c) <==> listed_before(g, c, p as int, k as int),
                forall|q: int, j: int|
                    0 <= q < p && 0 <= j < g[q].len() ==> parents@.contains_key(#[trigger] g[q][j])
                        && parents@[g[q][j]] == q,
                forall|j: int|
                    0 <= j < k ==> parents@.contains_key(#[trigger] g[p as int][j])
                        && parents@[g[p as int][j]] == p,
        {
            let ghost c = g[p as int][k as int];
            parents.insert(kids[k], p);
            assert forall|d: usize| parents@.contains_key(d) <==> listed_before(
                g,
                d,
                p as int,
                k + 1,
            ) by {
                if d == c {
                    assert(g[p as int][k as int] == d);
                }
                if listed_before(g, d, p as int, k + 1) && d != c {
                    if exists|j: int| 0 <= j < k + 1 && #[trigger] g[p as int][j] == d {
                        let j = choose|j: int| 0 <= j < k + 1 && #[trigger] g[p as int][j] == d;
                        assert(j < k);
                    }
                }
            }
        }
        assert forall|c: usize| listed_before(g, c, p as int, kids@.len() as int) == listed_before(
            g,
            c,
            p + 1,
            0,
        ) by {
            if listed_before(g, c, p + 1, 0) {
                let (q, j) = choose|q: int, j: int|
                    0 <= q < p + 1 && 0 <= j < g[q].len() && #[trigger] g[q][j] == c;
                if q == p {
                    assert(g[p as int][j] == c);
                }
            }
        }
    }
    assert forall|c: usize| listed_before(g, c, n as int, 0) == is_child(g, c) by {
        if is_child(g, c) {
            let (q, j) = choose|q: int, j: int|
                0 <= q < g.len() && 0 <= j < g[q].len() && #[trigger] g[q][j] == c;
            assert(g[q][j] == c);
        }
    }

    let mut queue: Vec<usize> = Vec::new();
    for i in 0..n
        invariant
            n == children.len(),
            g == forest_of(children),
            forall|c: usize| parents@.contains_key(c) <==> is_child(g, c),
            queue@ == roots_below(g, i as int),
    {
        if !parents.contains_key(&i) {
            queue.push(i);
        }
    }
    proof {
        lemma_roots_below(g, n as int);
        assert(queue@ == roots(g));
        assert(queue@.take(0) =~= Seq::<usize>::empty());
        assert(fan_out(g, queue@.take(0)) =~= Seq::<usize>::empty());
        assert(queue@ =~= roots(g) + fan_out(g, queue@.take(0)));
        assert forall|a: int, b: int| 0 <= a < queue.len() && 0 <= b < queue.len() && a != b implies queue@[a]
            != queue@[b] by {
            if a < b {
                assert(roots_below(g, n as int)[a] < roots_below(g, n as int)[b]);
            } else {
                assert(roots_below(g, n as int)[b] < roots_below(g, n as int)[a]);
            }
        }
        lemma_distinct_below(queue@, n);
    }

    let mut head: usize = 0;
    while head < queue.len()
        invariant
            n == children.len(),
            g == forest_of(children),
            n == g.len(),
            is_forest(g),
            head <= queue.len(),
            queue.len() <= n,
            queue@ == roots(g) + fan_out(g, queue@.take(head as int)),
            forall|j: int| 0 <= j < head ==> j < #[trigger] queued(g, queue@, j).len(),
            queue@.no_duplicates(),
            forall|i: int| 0 <= i < queue.len() ==> #[trigger] queue@[i] < n,
            leads_with_free_nodes(g, queue@),
            fed_from(g, queue@, head as int),
        decreases n - head,
    {
        let x = queue[head];
        let ghost before = queue@;
        assert(head < queued(g, before, head as int).len());
        let kids = &children[x];
        assert(kids@ == g[x as int]);
        for k in 0..kids.len()
            invariant
                n == children.len(),
                g == forest_of(children),
                n == g.len(),
                is_forest(g),
                x < n,
                kids@ == g[x as int],
                head < before.len(),
                before[head as int] == x,
                queue@ == before + g[x as int].take(k as int),
                before.no_duplicates(),
                queue@.no_duplicates(),
                forall|i: int| 0 <= i < before.len() ==> #[trigger] before[i] < n,
                leads_with_free_nodes(g, before),
                fed_from(g, before, head as int),
        {
            proof {
                lemma_new_child_is_fresh(g, before, head as int, x, k as int);
            }
            queue.push(kids[k]);
            assert(queue@ =~= before + g[x as int].take(k + 1));
        }
        proof {
            let kx = g[x as int];
            assert(kx.take(kx.len() as int) =~= kx);
            assert(queue@ == before + kx);
            assert(queue@.take(head + 1) =~= before.take(head as int).push(x));
            assert(queue@.take(head + 1).map_values(|y: usize| g[y as int]) =~= before.take(
                head as int,
            ).map_values(|y: usize| g[y as int]).push(kx));
            before.take(head as int).map_values(|y: usize| g[y as int]).lemma_flatten_push(kx);
            assert(queue@ =~= roots(g) + fan_out(g, queue@.take(head + 1)));
            assert forall|j: int| 0 <= j <= head implies queue@.take(j) =~= before.take(j) by {}
            assert forall|j: int| 0 <= j < head + 1 implies j < #[trigger] queued(g, queue@, j).len() by {
                assert(queue@.take(j) =~= before.take(j));
                assert(queued(g, queue@, j) == queued(g, before, j));
                if j < head {
                    assert(j < queued(g, before, j).len());
                }
            }
            assert forall|i: int| 0 <= i < queue.len() implies #[trigger] queue@[i] < n by {
                if i >= before.len() {
                    assert(queue@[i] == kx[i - before.len()]);
                }
            }
            assert forall|i: int| roots(g).len() <= i < queue.len() implies #[trigger] fed_at(g, queue@, head + 1, i) by {
                if i < before.len() {
                    assert(fed_at(g, before, head as int, i));
                    let (j, m) = choose|j: int, m: int|
                        0 <= j < head && j < i && 0 <= before[j] < g.len() && 0 <= m < g[before[j] as int].len()
                            && before[i] == #[trigger] g[before[j] as int][m];
                    assert(queue@[j] == before[j]);
                    assert(queue@[i] == before[i]);
                    assert(0 <= j < head + 1 && j < i && 0 <= queue@[j] < g.len() && 0 <= m < g[queue@[j] as int].len()
                        && queue@[i] == g[queue@[j] as int][m]);
                } else {
                    let m = i - before.len();
                    assert(queue@[head as int] == x);
                    assert(0 <= head < head + 1 && head < i && 0 <= queue@[head as int] < g.len() && 0 <= m < g[queue@[head as int] as int].len()
                        && queue@[i] == g[queue@[head as int] as int][m]);
                }
            }
            assert(fed_from(g, queue@, head + 1));
            assert forall|i: int| 0 <= i < roots(g).len() implies !is_child(g, #[trigger] queue@[i]) by {
                assert(queue@[i] == before[i]);
            }
            lemma_distinct_below(queue@, n);
        }
        head = head + 1;
    }
    proof {
        assert(queue@.take(queue.len() as int) =~= queue@);
        assert forall|i: int| roots(g).len() <= i < queue@.len() implies #[trigger] follows_its_parent(
            g,
            queue@,
            i,
        ) by {
            assert(fed_at(g, queue@, head as int, i));
        }
    }
    (queue, parents)
}

/// Where a node that is somebody's child is listed: a parent and the
/// position among that parent's children.
pub open spec fn parent_link(g: Seq<Seq<usize>>, c: usize) -> (int, int) {
    choose|p: int, k: int| 0 <= p < g.len() && 0 <= k < g[p].len() && #[trigger] g[p][k] == c
}

/// A parent of a node that is somebody's child.
pub open spec fn parent_of(g: Seq<Seq<usize>>, c: usize) -> int {
    parent_link(g, c).0
}

/// Going up from `c` by parents reaches a root within `d` steps.
pub open spec fn rooted_within(g: Seq<Seq<usize>>, c: usize, d: nat) -> bool
    decreases d,
{
    if !is_child(g, c) {
        true
    } else if d == 0 {
        false
    } else {
        rooted_within(g, parent_of(g, c) as usize, (d - 1) as nat)
    }
}

/// The hierarchy has no cycle: going up from any node reaches a root.
pub open spec fn is_acyclic(g: Seq<Seq<usize>>) -> bool {
    forall|c: usize| c < g.len() ==> #[trigger] rooted_within(g, c, g.len() as nat)
}

proof fn lemma_fan_out_lists_children(g: Seq<Seq<usize>>, s: Seq<usize>, j: int, k: int)
    requires
        0 <= j < s.len(),
        0 <= k < g[s[j] as int].len(),
    ensures
        fan_out(g, s).contains(g[s[j] as int][k]),
    decreases s.len(),
{
    let f = |x: usize| g[x as int];
    let m = s.map_values(f);
    assert(m.flatten() == m.first() + m.drop_first().flatten());
    if j == 0 {
        assert(m.flatten()[k] == g[s[0] as int][k]);
    } else {
        assert(m.drop_first() =~= s.drop_first().map_values(f));
        lemma_fan_out_lists_children(g, s.drop_first(), j - 1, k);
        let w = choose|i: int| 0 <= i < fan_out(g, s.drop_first()).len() && fan_out(g, s.drop_first())[i] == g[s[j] as int][k];
        assert(m.flatten()[m.first().len() + w] == g[s[j] as int][k]);
    }
}

proof fn lemma_rooted_node_is_listed(g: Seq<Seq<usize>>, order: Seq<usize>, c: usize, d: nat)
    requires
        g.len() <= usize::MAX,
        c < g.len(),
        order == queued(g, order, order.len() as int),
        rooted_within(g, c, d),
    ensures
        order.contains(c),
    decreases d,
{
    assert(order.take(order.len() as int) =~= order);
    if !is_child(g, c) {
        lemma_roots_below(g, g.len() as int);
        let a = choose|a: int| 0 <= a < roots(g).len() && roots(g)[a] == c;
        assert(order[a] == c);
    } else {
        let (p, k) = parent_link(g, c);
        assert(0 <= p < g.len() && 0 <= k < g[p].len() && g[p][k] == c);
        lemma_rooted_node_is_listed(g, order, p as usize, (d - 1) as nat);
        let j = choose|j: int| 0 <= j < order.len() && order[j] == p as usize;
        lemma_fan_out_lists_children(g, order, j, k);
        let w = choose|i: int| 0 <= i < fan_out(g, order).len() && fan_out(g, order)[i] == c;
        assert(order[roots(g).len() + w] == c);
    }
}

/// On a hierarchy without cycles, a breadth-first order of the kind that
/// `node_indices_topological_sort` gives lists every node.
pub proof fn lemma_topological_order_is_complete(g: Seq<Seq<usize>>, order: Seq<usize>)
    requires
        g.len() <= usize::MAX,
        is_acyclic(g),
        order == queued(g, order, order.len() as int),
    ensures
        forall|c: usize| c < g.len() ==> #[trigger] order.contains(c),
{
    assert forall|c: usize| c < g.len() implies #[trigger] order.contains(c) by {
        lemma_rooted_node_is_listed(g, order, c, g.len() as nat);
    }
}

} // verus!
