//! What a search finds: the nodes that a chain of wires leads to.

use crate::model::graph::{
    count_from, count_in, expands, is_chain, lemma_push_contains, lemma_unseen_shrinks, linked,
    reaches, search, slot_leads, step_ok, targets, targets_upto, unseen, visit_order, CountNode,
    Walk,
};
use crate::model::{ConnectionId, Node, NodeConnection};
use vstd::prelude::*;

verus! {

/// Slot `k` of `slots` is wired to node `t`.
pub open spec fn wired(slots: Seq<NodeConnection>, k: int, t: usize) -> bool {
    &&& 0 <= k < slots.len()
    &&& slots[k].connected_to matches Some(to) && to.node == t
}

/// The targets of the first `n` slots are the nodes that one of them is wired to.
pub proof fn lemma_targets_upto(slots: Seq<NodeConnection>, n: int, t: usize)
    requires
        0 <= n <= slots.len(),
    ensures
        targets_upto(slots, n).contains(t) <==> exists|k: int| k < n && wired(slots, k, t),
    decreases n,
{
    if n > 0 {
        lemma_targets_upto(slots, n - 1, t);
        let before = targets_upto(slots, n - 1);
        match slots[n - 1].connected_to {
            Some(to) => {
                lemma_push_contains(before, to.node, t);
                if to.node == t {
                    assert(wired(slots, n - 1, t));
                }
            },
            None => {},
        }
        if exists|k: int| k < n && wired(slots, k, t) {
            let k = choose|k: int| k < n && wired(slots, k, t);
            if k < n - 1 {
                assert(k < n - 1 && wired(slots, k, t));
            }
        }
        if targets_upto(slots, n).contains(t) {
            if before.contains(t) {
                let k = choose|k: int| k < n - 1 && wired(slots, k, t);
                assert(k < n && wired(slots, k, t));
            } else {
                assert(wired(slots, n - 1, t));
            }
        }
    } else {
        assert(targets_upto(slots, n) =~= Seq::<usize>::empty());
    }
}

/// The existing targets of a node are the nodes it is linked to.
pub proof fn lemma_targets_are_links(nodes: Seq<Node>, a: usize, t: usize)
    requires
        a < nodes.len(),
        t < nodes.len(),
    ensures
        targets(nodes[a as int]).contains(t) <==> linked(nodes, a, t),
{
    let slots = nodes[a as int].connections@;
    lemma_targets_upto(slots, slots.len() as int, t);
    if targets(nodes[a as int]).contains(t) {
        let k = choose|k: int| k < slots.len() && wired(slots, k, t);
        assert(slot_leads(nodes, a, k, t));
    }
    if linked(nodes, a, t) {
        let k = choose|k: int| slot_leads(nodes, a, k, t);
        assert(k < slots.len() && wired(slots, k, t));
    }
}

/// Every existing node in `s` can be reached from `start`.
pub open spec fn all_reached(nodes: Seq<Node>, walk: Walk, start: usize, s: Seq<usize>) -> bool {
    forall|j: int|
        0 <= j < s.len() && s[j] < nodes.len() ==> reaches(nodes, walk, start, #[trigger] s[j])
}

/// Every entry of `s` is an existing node, and none occurs twice.
pub open spec fn tidy(nodes: Seq<Node>, s: Seq<usize>) -> bool {
    &&& forall|j: int| 0 <= j < s.len() ==> #[trigger] s[j] < nodes.len()
    &&& s.no_duplicates()
}

/// A chain can be extended along a wire that leaves its last node.
pub proof fn lemma_chain_extends(nodes: Seq<Node>, walk: Walk, start: usize, i: usize, t: usize)
    requires
        reaches(nodes, walk, start, i),
        linked(nodes, i, t),
        expands(nodes, walk, start, i),
    ensures
        reaches(nodes, walk, start, t),
{
    let path = choose|path: Seq<usize>| #[trigger]
        is_chain(nodes, walk, path) && path[0] == start && path.last() == i;
    let longer = path.push(t);
    assert forall|k: int| 0 <= k < longer.len() - 1 implies #[trigger] step_ok(
        nodes,
        walk,
        longer,
        k,
    ) by {
        if k < path.len() - 1 {
            assert(step_ok(nodes, walk, path, k));
        }
    }
    assert(longer[0] == path[0]);
    assert(longer.last() == t);
    assert(is_chain(nodes, walk, longer));
}

/// A search meets only existing nodes that can be reached, each once.
pub proof fn lemma_search_sound(
    nodes: Seq<Node>,
    walk: Walk,
    start: usize,
    queue: Seq<usize>,
    seen: Seq<usize>,
)
    requires
        all_reached(nodes, walk, start, queue),
        all_reached(nodes, walk, start, seen),
        tidy(nodes, seen),
    ensures
        all_reached(nodes, walk, start, search(nodes, walk, start, queue, seen)),
        tidy(nodes, search(nodes, walk, start, queue, seen)),
    decreases unseen(nodes.len(), seen).len(), queue.len(),
{
    if queue.len() > 0 {
        let i = queue[0];
        let rest = queue.subrange(1, queue.len() as int);
        assert forall|j: int| 0 <= j < rest.len() && rest[j] < nodes.len() implies reaches(
            nodes,
            walk,
            start,
            #[trigger] rest[j],
        ) by {
            assert(rest[j] == queue[j + 1]);
        }
        if i >= nodes.len() || seen.contains(i) {
            lemma_search_sound(nodes, walk, start, rest, seen);
        } else {
            lemma_unseen_shrinks(nodes.len(), seen, i);
            let seen2 = seen.push(i);
            assert(reaches(nodes, walk, start, queue[0]));
            assert forall|j: int| 0 <= j < seen2.len() && seen2[j] < nodes.len() implies reaches(
                nodes,
                walk,
                start,
                #[trigger] seen2[j],
            ) by {
                if j < seen.len() {
                    assert(seen2[j] == seen[j]);
                }
            }
            assert(tidy(nodes, seen2)) by {
                assert forall|a: int, b: int|
                    0 <= a < seen2.len() && 0 <= b < seen2.len() && a != b implies seen2[a]
                    != seen2[b] by {
                    if a < seen.len() && b < seen.len() {
                    } else if a < seen.len() {
                        assert(seen[a] != i);
                    } else {
                        assert(seen[b] != i);
                    }
                }
            }
            if expands(nodes, walk, start, i) {
                let more = targets(nodes[i as int]);
                let queue2 = rest + more;
                assert forall|j: int|
                    0 <= j < queue2.len() && queue2[j] < nodes.len() implies reaches(
                    nodes,
                    walk,
                    start,
                    #[trigger] queue2[j],
                ) by {
                    if j < rest.len() {
                        assert(queue2[j] == rest[j]);
                    } else {
                        let t = queue2[j];
                        assert(more[j - rest.len()] == t);
                        assert(more.contains(t));
                        lemma_targets_are_links(nodes, i, t);
                        lemma_chain_extends(nodes, walk, start, i, t);
                    }
                }
                lemma_search_sound(nodes, walk, start, queue2, seen2);
            } else {
                lemma_search_sound(nodes, walk, start, rest, seen2);
            }
        }
    }
}

/// Every wire that leaves a node of `seen` from which the search goes on leads
/// to a node that is in `seen` or still in `queue`.
pub open spec fn closed(
    nodes: Seq<Node>,
    walk: Walk,
    start: usize,
    queue: Seq<usize>,
    seen: Seq<usize>,
) -> bool {
    forall|s: usize, t: usize|
        seen.contains(s) && expands(nodes, walk, start, s) && #[trigger] linked(nodes, s, t)
            ==> seen.contains(t) || queue.contains(t)
}

/// A search ends with a set of nodes that no wire leads out of, and that
/// holds every node it had met or still had to look at.
pub proof fn lemma_search_closed(
    nodes: Seq<Node>,
    walk: Walk,
    start: usize,
    queue: Seq<usize>,
    seen: Seq<usize>,
)
    requires
        closed(nodes, walk, start, queue, seen),
    ensures
        closed(nodes, walk, start, Seq::empty(), search(nodes, walk, start, queue, seen)),
        forall|x: usize|
            seen.contains(x) ==> search(nodes, walk, start, queue, seen).contains(x),
        forall|x: usize|
            queue.contains(x) && x < nodes.len() ==> search(
                nodes,
                walk,
                start,
                queue,
                seen,
            ).contains(x),
    decreases unseen(nodes.len(), seen).len(), queue.len(),
{
    let result = search(nodes, walk, start, queue, seen);
    if queue.len() == 0 {
        assert forall|s: usize, t: usize|
            seen.contains(s) && expands(nodes, walk, start, s) && #[trigger] linked(
                nodes,
                s,
                t,
            ) implies seen.contains(t) || Seq::<usize>::empty().contains(t) by {
            assert(!queue.contains(t));
        }
    } else {
        let i = queue[0];
        let rest = queue.subrange(1, queue.len() as int);
        assert forall|x: usize| queue.contains(x) implies x == i || rest.contains(x) by {
            let j = choose|j: int| 0 <= j < queue.len() && queue[j] == x;
            if j > 0 {
                assert(rest[j - 1] == x);
            }
        }
        if i >= nodes.len() || seen.contains(i) {
            assert forall|s: usize, t: usize|
                seen.contains(s) && expands(nodes, walk, start, s) && #[trigger] linked(
                    nodes,
                    s,
                    t,
                ) implies seen.contains(t) || rest.contains(t) by {
                let k = choose|k: int| slot_leads(nodes, s, k, t);
                assert(t < nodes.len());
            }
            lemma_search_closed(nodes, walk, start, rest, seen);
        } else {
            lemma_unseen_shrinks(nodes.len(), seen, i);
            let seen2 = seen.push(i);
            assert forall|x: usize| seen2.contains(x) <==> seen.contains(x) || x == i by {
                lemma_push_contains(seen, i, x);
            }
            if expands(nodes, walk, start, i) {
                let more = targets(nodes[i as int]);
                let queue2 = rest + more;
                assert forall|x: usize| rest.contains(x) implies queue2.contains(x) by {
                    let j = choose|j: int| 0 <= j < rest.len() && rest[j] == x;
                    assert(queue2[j] == x);
                }
                assert forall|x: usize| more.contains(x) implies queue2.contains(x) by {
                    let j = choose|j: int| 0 <= j < more.len() && more[j] == x;
                    assert(queue2[rest.len() + j] == x);
                }
                assert forall|s: usize, t: usize|
                    seen2.contains(s) && expands(nodes, walk, start, s) && #[trigger] linked(
                        nodes,
                        s,
                        t,
                    ) implies seen2.contains(t) || queue2.contains(t) by {
                    let k = choose|k: int| slot_leads(nodes, s, k, t);
                    if s == i {
                        lemma_targets_are_links(nodes, i, t);
                    }
                }
                lemma_search_closed(nodes, walk, start, queue2, seen2);
            } else {
                assert forall|s: usize, t: usize|
                    seen2.contains(s) && expands(nodes, walk, start, s) && #[trigger] linked(
                        nodes,
                        s,
                        t,
                    ) implies seen2.contains(t) || rest.contains(t) by {
                    assert(s != i);
                }
                lemma_search_closed(nodes, walk, start, rest, seen2);
            }
        }
    }
}

/// Every node of a chain from `start` up to position `k` is in a closed set
/// that holds `start`.
proof fn lemma_chain_inside(
    nodes: Seq<Node>,
    walk: Walk,
    start: usize,
    found: Seq<usize>,
    path: Seq<usize>,
    k: int,
)
    requires
        closed(nodes, walk, start, Seq::empty(), found),
        found.contains(start),
        is_chain(nodes, walk, path),
        path[0] == start,
        0 <= k < path.len(),
    ensures
        found.contains(path[k]),
    decreases k,
{
    if k > 0 {
        lemma_chain_inside(nodes, walk, start, found, path, k - 1);
        assert(step_ok(nodes, walk, path, k - 1));
        assert(!Seq::<usize>::empty().contains(path[k]));
    }
}

/// A search from `start` meets exactly the nodes that a chain of wires leads
/// to, each of them once.
pub proof fn lemma_visit_order_is_reach(nodes: Seq<Node>, walk: Walk, start: usize)
    ensures
        forall|t: usize|
            visit_order(nodes, walk, start).contains(t) <==> reaches(nodes, walk, start, t),
        tidy(nodes, visit_order(nodes, walk, start)),
{
    let first = seq![start];
    let none = Seq::<usize>::empty();
    let found = visit_order(nodes, walk, start);
    if start < nodes.len() {
        assert(is_chain(nodes, walk, first) && first[0] == start && first.last() == start);
    }
    assert(all_reached(nodes, walk, start, first));
    lemma_search_sound(nodes, walk, start, first, none);
    lemma_search_closed(nodes, walk, start, first, none);
    assert(first[0] == start);
    assert(first.contains(start));
    assert forall|t: usize| found.contains(t) <==> reaches(nodes, walk, start, t) by {
        if found.contains(t) {
            let j = choose|j: int| 0 <= j < found.len() && found[j] == t;
            assert(found[j] < nodes.len());
        }
        if reaches(nodes, walk, start, t) {
            let path = choose|path: Seq<usize>| #[trigger]
                is_chain(nodes, walk, path) && path[0] == start && path.last() == t;
            lemma_chain_inside(nodes, walk, start, found, path, path.len() - 1);
        }
    }
}

/// Every node that a search meets takes one node out of those not seen yet.
pub proof fn lemma_search_len(
    nodes: Seq<Node>,
    walk: Walk,
    start: usize,
    queue: Seq<usize>,
    seen: Seq<usize>,
)
    ensures
        search(nodes, walk, start, queue, seen).len() + unseen(
            nodes.len(),
            search(nodes, walk, start, queue, seen),
        ).len() == seen.len() + unseen(nodes.len(), seen).len(),
    decreases unseen(nodes.len(), seen).len(), queue.len(),
{
    if queue.len() > 0 {
        let i = queue[0];
        let rest = queue.subrange(1, queue.len() as int);
        if i >= nodes.len() || seen.contains(i) {
            lemma_search_len(nodes, walk, start, rest, seen);
        } else {
            lemma_unseen_shrinks(nodes.len(), seen, i);
            if expands(nodes, walk, start, i) {
                lemma_search_len(
                    nodes,
                    walk,
                    start,
                    rest + targets(nodes[i as int]),
                    seen.push(i),
                );
            } else {
                lemma_search_len(nodes, walk, start, rest, seen.push(i));
            }
        }
    }
}

/// A search meets no more nodes than there are.
pub proof fn lemma_visit_order_len(nodes: Seq<Node>, walk: Walk, start: usize)
    ensures
        visit_order(nodes, walk, start).len() <= nodes.len(),
{
    let none = Seq::<usize>::empty();
    lemma_search_len(nodes, walk, start, seq![start], none);
    let all = vstd::set_lib::set_int_range(0, nodes.len() as int);
    vstd::set_lib::lemma_int_range(0, nodes.len() as int);
    assert(unseen(nodes.len(), none).subset_of(all));
    vstd::set_lib::lemma_len_subset(unseen(nodes.len(), none), all);
}

/// A count over a list is no more than the length of the list.
pub proof fn lemma_count_in_len(nodes: Seq<Node>, order: Seq<usize>, target: CountNode)
    ensures
        count_in(nodes, order, target) <= order.len(),
    decreases order.len(),
{
    if order.len() > 0 {
        lemma_count_in_len(nodes, order.drop_last(), target);
    }
}

/// A count over the graph is no more than the number of its nodes.
pub proof fn lemma_count_from_len(nodes: Seq<Node>, start: usize, target: CountNode)
    ensures
        count_from(nodes, start, target) <= nodes.len(),
{
    lemma_visit_order_len(nodes, target.walk(), start);
    lemma_count_in_len(nodes, visit_order(nodes, target.walk(), start), target);
}

/// If slot `k` of node `a` names another slot, that slot exists and names
/// slot `k` of node `a` back.
pub open spec fn answered(nodes: Seq<Node>, a: int, k: int) -> bool {
    nodes[a].connections@[k].connected_to matches Some(to) ==> {
        &&& to.node < nodes.len()
        &&& to.connection < nodes[to.node as int].connections@.len()
        &&& nodes[to.node as int].connections@[to.connection as int].connected_to == Some(
            ConnectionId { node: a as usize, connection: k as usize },
        )
    }
}

/// Every wire is held at both of its ends.
pub open spec fn wiring_symmetric(nodes: Seq<Node>) -> bool {
    forall|a: int, k: int|
        0 <= a < nodes.len() && 0 <= k < nodes[a].connections@.len() ==> #[trigger] answered(
            nodes,
            a,
            k,
        )
}

/// A link from one node to another is always a link back as well.
pub open spec fn links_symmetric(nodes: Seq<Node>) -> bool {
    forall|a: usize, b: usize| #[trigger] linked(nodes, a, b) ==> linked(nodes, b, a)
}

/// Where every wire is held at both ends, every link goes both ways.
pub proof fn lemma_wiring_gives_links(nodes: Seq<Node>)
    requires
        wiring_symmetric(nodes),
    ensures
        links_symmetric(nodes),
{
    assert forall|a: usize, b: usize| #[trigger] linked(nodes, a, b) implies linked(
        nodes,
        b,
        a,
    ) by {
        let k = choose|k: int| slot_leads(nodes, a, k, b);
        assert(answered(nodes, a as int, k));
        let to = nodes[a as int].connections@[k].connected_to->0;
        assert(slot_leads(nodes, b, to.connection as int, a));
    }
}

/// Where every link goes both ways, whatever can be reached from `a` by
/// following every wire can reach `a` in turn.
pub proof fn lemma_reach_symmetric(nodes: Seq<Node>, a: usize, b: usize)
    requires
        links_symmetric(nodes),
        reaches(nodes, Walk::Everywhere, a, b),
    ensures
        reaches(nodes, Walk::Everywhere, b, a),
{
    let walk = Walk::Everywhere;
    let path = choose|path: Seq<usize>| #[trigger]
        is_chain(nodes, walk, path) && path[0] == a && path.last() == b;
    let back = path.reverse();
    let n = path.len() as int;
    if n > 1 {
        assert(step_ok(nodes, walk, path, n - 2));
        let u = path[n - 2];
        let k = choose|k: int| slot_leads(nodes, u, k, b);
    }
    assert(back[0] == b);
    assert(back[0] < nodes.len());
    assert forall|k: int| 0 <= k < back.len() - 1 implies #[trigger] step_ok(
        nodes,
        walk,
        back,
        k,
    ) by {
        let j = n - 2 - k;
        assert(back[k] == path[j + 1]);
        assert(back[k + 1] == path[j]);
        assert(step_ok(nodes, walk, path, j));
    }
    assert(back.last() == a);
    assert(is_chain(nodes, walk, back));
}

} // verus!
