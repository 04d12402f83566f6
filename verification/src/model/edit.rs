//! Editing the graph: wiring slots together, taking wires off, moving nodes.
//!
//! The wiring of a graph is modelled as a table that gives, for every slot of
//! every node, the slot at the other end of its wire. `unwired` and `wired`
//! define the two edits on that table; both keep a table symmetric.

use crate::geometry::{Aabb2, Vec2};
use crate::model::reach::{answered, wiring_symmetric};
use crate::model::{
    graph_contained, graph_wf, ConnectionId, ConnectionKind, Model, Node, Nodes, Phase,
};
use vstd::prelude::*;

verus! {

/// For every slot of every node, the slot at the other end of its wire.
pub type Wiring = Seq<Seq<Option<ConnectionId>>>;

/// The wiring of a graph.
pub open spec fn wiring(nodes: Seq<Node>) -> Wiring {
    Seq::new(
        nodes.len(),
        |i: int|
            Seq::new(
                nodes[i].connections@.len(),
                |k: int| nodes[i].connections@[k].connected_to,
            ),
    )
}

/// The table has the slot `at`.
pub open spec fn has_slot(w: Wiring, at: ConnectionId) -> bool {
    at.node < w.len() && at.connection < w[at.node as int].len()
}

/// What the slot `at` is wired to; nothing where the table has no such slot.
pub open spec fn link(w: Wiring, at: ConnectionId) -> Option<ConnectionId> {
    if has_slot(w, at) {
        w[at.node as int][at.connection as int]
    } else {
        None
    }
}

/// The table with the slot `at` set to `to`; the same table where it has no
/// such slot.
pub open spec fn with_link(w: Wiring, at: ConnectionId, to: Option<ConnectionId>) -> Wiring {
    if has_slot(w, at) {
        w.update(at.node as int, w[at.node as int].update(at.connection as int, to))
    } else {
        w
    }
}

/// The table after the wire at the slot `at` was taken off: the slot is free,
/// and so is the slot at the other end where that one names `at` back.
pub open spec fn unwired(w: Wiring, at: ConnectionId) -> Wiring {
    match link(w, at) {
        Some(other) => {
            let freed = with_link(w, at, None);
            if link(freed, other) == Some(at) {
                with_link(freed, other, None)
            } else {
                freed
            }
        },
        None => w,
    }
}

/// The table after the slots `a` and `b` were wired together: the wires that
/// they had are taken off first.
pub open spec fn wired(w: Wiring, a: ConnectionId, b: ConnectionId) -> Wiring {
    with_link(with_link(unwired(unwired(w, a), b), a, Some(b)), b, Some(a))
}

/// Every wire of the table is held at both of its ends.
pub open spec fn symmetric(w: Wiring) -> bool {
    forall|at: ConnectionId|
        has_slot(w, at) ==> (#[trigger] link(w, at) matches Some(other) ==> link(w, other) == Some(
            at,
        ))
}

/// `after` is `before` but for what its slots are wired to.
pub open spec fn same_but_wires(before: Seq<Node>, after: Seq<Node>) -> bool {
    &&& after.len() == before.len()
    &&& forall|i: int|
        0 <= i < before.len() ==> {
            &&& (#[trigger] after[i]).is_powered == before[i].is_powered
            &&& after[i].position == before[i].position
            &&& after[i].kind == before[i].kind
            &&& after[i].connections@.len() == before[i].connections@.len()
            &&& forall|k: int|
                0 <= k < before[i].connections@.len() ==> {
                    &&& (#[trigger] after[i].connections@[k]).offset
                        == before[i].connections@[k].offset
                    &&& after[i].connections@[k].kind == before[i].connections@[k].kind
                }
        }
}

/// The slots `a` and `b` can be wired together: both exist, on two nodes, and
/// are of one kind.
pub open spec fn connectable(nodes: Seq<Node>, a: ConnectionId, b: ConnectionId) -> bool {
    &&& has_slot(wiring(nodes), a)
    &&& has_slot(wiring(nodes), b)
    &&& a.node != b.node
    &&& nodes[a.node as int].connections@[a.connection as int].kind
        == nodes[b.node as int].connections@[b.connection as int].kind
}

/// Taking a wire off keeps a symmetric table symmetric.
pub proof fn lemma_unwired_symmetric(w: Wiring, at: ConnectionId)
    requires
        symmetric(w),
    ensures
        symmetric(unwired(w, at)),
{
    let after = unwired(w, at);
    assert forall|s: ConnectionId| has_slot(after, s) implies (#[trigger] link(
        after,
        s,
    ) matches Some(other) ==> link(after, other) == Some(s)) by {
        assert(has_slot(w, s));
        match link(w, s) {
            Some(other) => {
                assert(link(w, other) == Some(s));
            },
            None => {},
        }
        match link(w, at) {
            Some(partner) => {
                assert(has_slot(w, at));
                assert(link(w, partner) == Some(at));
            },
            None => {},
        }
    }
}

/// Setting two free slots to each other keeps a symmetric table symmetric.
proof fn lemma_linked_symmetric(w: Wiring, a: ConnectionId, b: ConnectionId)
    requires
        symmetric(w),
        has_slot(w, a),
        has_slot(w, b),
        a != b,
        link(w, a) is None,
        link(w, b) is None,
    ensures
        symmetric(with_link(with_link(w, a, Some(b)), b, Some(a))),
{
    let after = with_link(with_link(w, a, Some(b)), b, Some(a));
    assert forall|s: ConnectionId| has_slot(after, s) implies (#[trigger] link(
        after,
        s,
    ) matches Some(other) ==> link(after, other) == Some(s)) by {
        assert(has_slot(w, s));
        if s != a && s != b {
            match link(w, s) {
                Some(other) => {
                    assert(link(w, other) == Some(s));
                },
                None => {},
            }
        }
    }
}

/// Taking a wire off leaves the slot free, and leaves free what was free.
proof fn lemma_unwired_frees(w: Wiring, at: ConnectionId, other: ConnectionId)
    requires
        symmetric(w),
    ensures
        link(unwired(w, at), at) is None,
        link(w, other) is None ==> link(unwired(w, at), other) is None,
        has_slot(unwired(w, at), other) == has_slot(w, other),
{
    match link(w, at) {
        Some(partner) => {
            assert(has_slot(w, at));
            assert(link(w, partner) == Some(at));
        },
        None => {},
    }
}

/// Wiring two slots together keeps a symmetric table symmetric.
pub proof fn lemma_wired_symmetric(w: Wiring, a: ConnectionId, b: ConnectionId)
    requires
        symmetric(w),
        has_slot(w, a),
        has_slot(w, b),
        a != b,
    ensures
        symmetric(wired(w, a, b)),
{
    let first = unwired(w, a);
    lemma_unwired_symmetric(w, a);
    lemma_unwired_frees(w, a, b);
    let second = unwired(first, b);
    lemma_unwired_symmetric(first, b);
    lemma_unwired_frees(first, b, a);
    lemma_linked_symmetric(second, a, b);
}

/// The graph is one that fits into memory: its nodes and the slots of each
/// can be counted in a `usize`.
pub open spec fn countable(nodes: Seq<Node>) -> bool {
    &&& nodes.len() <= usize::MAX
    &&& forall|i: int|
        0 <= i < nodes.len() ==> (#[trigger] nodes[i]).connections@.len() <= usize::MAX
}

/// A graph whose table is symmetric holds every wire at both ends, and the
/// other way round.
pub proof fn lemma_symmetric_wiring(nodes: Seq<Node>)
    requires
        countable(nodes),
    ensures
        symmetric(wiring(nodes)) <==> wiring_symmetric(nodes),
{
    let w = wiring(nodes);
    if symmetric(w) {
        assert forall|a: int, k: int|
            0 <= a < nodes.len() && 0 <= k < nodes[a].connections@.len() implies #[trigger] answered(
            nodes,
            a,
            k,
        ) by {
            let at = ConnectionId { node: a as usize, connection: k as usize };
            assert(has_slot(w, at));
            match link(w, at) {
                Some(other) => {
                    assert(link(w, other) == Some(at));
                },
                None => {},
            }
        }
    }
    if wiring_symmetric(nodes) {
        assert forall|at: ConnectionId| has_slot(w, at) implies (#[trigger] link(
            w,
            at,
        ) matches Some(other) ==> link(w, other) == Some(at)) by {
            assert(answered(nodes, at.node as int, at.connection as int));
        }
    }
}

/// Sets what the slot `at` is wired to.
fn set_link(nodes: &mut Vec<Node>, at: ConnectionId, to: Option<ConnectionId>)
    requires
        has_slot(wiring(old(nodes)@), at),
    ensures
        same_but_wires(old(nodes)@, final(nodes)@),
        wiring(final(nodes)@) == with_link(wiring(old(nodes)@), at, to),
{
    nodes[at.node].connections[at.connection].connected_to = to;
    proof {
        let before = old(nodes)@;
        let after = nodes@;
        let w = wiring(after);
        let want = with_link(wiring(before), at, to);
        assert(w.len() == want.len());
        assert forall|i: int| 0 <= i < w.len() implies #[trigger] w[i] =~= want[i] by {}
        assert(w =~= want);
    }
}

/// What the slot `at` is wired to.
fn get_link(nodes: &Vec<Node>, at: ConnectionId) -> (to: Option<ConnectionId>)
    ensures
        to == link(wiring(nodes@), at),
{
    if at.node < nodes.len() && at.connection < nodes[at.node].connections.len() {
        nodes[at.node].connections[at.connection].connected_to
    } else {
        None
    }
}

/// Whether two slots are the same.
fn same_slot(a: ConnectionId, b: ConnectionId) -> (same: bool)
    ensures
        same == (a == b),
{
    a.node == b.node && a.connection == b.connection
}

/// Takes the wire at the slot `at` off.
fn unwire(nodes: &mut Vec<Node>, at: ConnectionId)
    ensures
        same_but_wires(old(nodes)@, final(nodes)@),
        wiring(final(nodes)@) == unwired(wiring(old(nodes)@), at),
{
    match get_link(nodes, at) {
        Some(other) => {
            set_link(nodes, at, None);
            let ghost freed = nodes@;
            let back = get_link(nodes, other);
            let names_back: bool = match back {
                Some(slot) => same_slot(slot, at),
                None => false,
            };
            if names_back {
                set_link(nodes, other, None);
                proof {
                    lemma_same_but_wires_twice(old(nodes)@, freed, nodes@);
                }
            }
        },
        None => {
            proof {
                lemma_same_but_wires_self(nodes@);
            }
        },
    }
}

/// A graph is itself but for its wires.
proof fn lemma_same_but_wires_self(nodes: Seq<Node>)
    ensures
        same_but_wires(nodes, nodes),
{
}

/// Changing wires twice is changing wires.
proof fn lemma_same_but_wires_twice(a: Seq<Node>, b: Seq<Node>, c: Seq<Node>)
    requires
        same_but_wires(a, b),
        same_but_wires(b, c),
    ensures
        same_but_wires(a, c),
{
    assert forall|i: int| 0 <= i < a.len() implies {
        &&& (#[trigger] c[i]).is_powered == a[i].is_powered
        &&& c[i].position == a[i].position
        &&& c[i].kind == a[i].kind
        &&& c[i].connections@.len() == a[i].connections@.len()
        &&& forall|k: int|
            0 <= k < a[i].connections@.len() ==> {
                &&& (#[trigger] c[i].connections@[k]).offset == a[i].connections@[k].offset
                &&& c[i].connections@[k].kind == a[i].connections@[k].kind
            }
    } by {
        assert(b[i].is_powered == a[i].is_powered);
        assert forall|k: int| 0 <= k < a[i].connections@.len() implies {
            &&& (#[trigger] c[i].connections@[k]).offset == a[i].connections@[k].offset
            &&& c[i].connections@[k].kind == a[i].connections@[k].kind
        } by {
            assert(b[i].connections@[k].offset == a[i].connections@[k].offset);
        }
    }
}

/// Changing wires keeps a graph well formed and every node where it is.
pub proof fn lemma_same_but_wires_wf(a: Seq<Node>, b: Seq<Node>, bounds: Aabb2)
    requires
        same_but_wires(a, b),
    ensures
        graph_wf(a, bounds) ==> graph_wf(b, bounds),
        graph_contained(a, bounds) ==> graph_contained(b, bounds),
{
    if graph_wf(a, bounds) {
        assert forall|i: int| 0 <= i < b.len() implies ((#[trigger] b[i]).kind is Power <==> i == 0)
            && b[i].wf(bounds) by {
            assert(a[i].wf(bounds));
            assert(a[i].kind is Power <==> i == 0);
        }
    }
    if graph_contained(a, bounds) {
        assert forall|i: int| 0 <= i < b.len() implies (#[trigger] b[i]).position.within(bounds) by {
            assert(a[i].position.within(bounds));
        }
    }
}

impl Nodes {
    /// Takes the wire at slot `slot` of node `node` off, at both of its ends.
    /// Does nothing where there is no such slot or no wire at it.
    pub fn disconnect(&mut self, node: usize, slot: usize)
        ensures
            same_but_wires(old(self).nodes@, final(self).nodes@),
            wiring(final(self).nodes@) == unwired(
                wiring(old(self).nodes@),
                ConnectionId { node, connection: slot },
            ),
            *final(self) == (Nodes { nodes: final(self).nodes, ..*old(self) }),
            old(self).wf() ==> final(self).wf(),
            old(self).contained() ==> final(self).contained(),
    {
        unwire(&mut self.nodes, ConnectionId { node, connection: slot });
        proof {
            lemma_same_but_wires_wf(old(self).nodes@, self.nodes@, self.bounds);
        }
    }

    /// Wires the slots `a` and `b` together where they can be: both exist,
    /// on two nodes, and are of one kind. The wires that they had are taken off
    /// first. Returns whether the slots were wired; does nothing where they
    /// cannot be.
    pub fn connect(&mut self, a: ConnectionId, b: ConnectionId) -> (done: bool)
        ensures
            done == connectable(old(self).nodes@, a, b),
            done ==> same_but_wires(old(self).nodes@, final(self).nodes@) && wiring(
                final(self).nodes@,
            ) == wired(wiring(old(self).nodes@), a, b),
            !done ==> *final(self) == *old(self),
            *final(self) == (Nodes { nodes: final(self).nodes, ..*old(self) }),
            old(self).wf() ==> final(self).wf(),
            old(self).contained() ==> final(self).contained(),
    {
        if a.node >= self.nodes.len() || b.node >= self.nodes.len() || a.node == b.node {
            return false;
        }
        if a.connection >= self.nodes[a.node].connections.len() || b.connection
            >= self.nodes[b.node].connections.len() {
            return false;
        }
        let kind_a = self.nodes[a.node].connections[a.connection].kind;
        let kind_b = self.nodes[b.node].connections[b.connection].kind;
        if !same_connection_kind(kind_a, kind_b) {
            return false;
        }
        let ghost start = self.nodes@;
        unwire(&mut self.nodes, a);
        let ghost first = self.nodes@;
        unwire(&mut self.nodes, b);
        let ghost second = self.nodes@;
        proof {
            lemma_same_but_wires_twice(start, first, second);
            assert(has_slot(wiring(second), a));
            assert(has_slot(wiring(second), b));
        }
        set_link(&mut self.nodes, a, Some(b));
        let ghost third = self.nodes@;
        proof {
            lemma_same_but_wires_twice(start, second, third);
            assert(has_slot(wiring(third), b));
        }
        set_link(&mut self.nodes, b, Some(a));
        proof {
            lemma_same_but_wires_twice(start, third, self.nodes@);
            lemma_same_but_wires_wf(start, self.nodes@, self.bounds);
        }
        true
    }

    /// Moves node `node` so that its center comes to lie at `center`, as far
    /// as the bounds allow. Does nothing where there is no such node.
    pub fn move_node(&mut self, node: usize, center: Vec2)
        requires
            old(self).wf(),
        ensures
            final(self).wf(),
            old(self).contained() ==> final(self).contained(),
            node < old(self).nodes@.len() ==> final(self).nodes@[node as int].position.within(
                old(self).bounds,
            ),
            final(self).nodes@ == (if node < old(self).nodes@.len() {
                old(self).nodes@.update(
                    node as int,
                    Node {
                        position: old(self).nodes@[node as int].position.centered_into(
                            center,
                            old(self).bounds,
                        ),
                        ..old(self).nodes@[node as int]
                    },
                )
            } else {
                old(self).nodes@
            }),
            *final(self) == (Nodes { nodes: final(self).nodes, ..*old(self) }),
    {
        if node >= self.nodes.len() {
            return ;
        }
        let bounds = self.bounds;
        proof {
            assert(old(self).nodes@[node as int].wf(bounds));
        }
        let placed = self.nodes[node].position.center_into(center, bounds);
        self.nodes[node].position = placed;
        proof {
            let before = old(self).nodes@;
            let after = self.nodes@;
            assert forall|i: int| 0 <= i < after.len() implies ((#[trigger] after[i]).kind is Power
                <==> i == 0) && after[i].wf(bounds) by {
                assert(before[i].wf(bounds));
                assert(before[i].kind is Power <==> i == 0);
            }
            if old(self).contained() {
                assert forall|i: int| 0 <= i < after.len() implies (#[trigger] after[i]).position.within(
                    bounds,
                ) by {
                    assert(before[i].position.within(bounds));
                }
            }
        }
    }
}

impl Nodes {
    /// Gives node `node` the size `size` around its center, as far as the
    /// bounds allow. Does nothing where there is no such node, or where the
    /// size is negative or does not fit into the bounds.
    pub fn resize_node(&mut self, node: usize, size: Vec2)
        requires
            old(self).wf(),
        ensures
            final(self).wf(),
            old(self).contained() ==> final(self).contained(),
            final(self).nodes@ == (if node < old(self).nodes@.len() {
                old(self).nodes@.update(
                    node as int,
                    Node {
                        position: old(self).nodes@[node as int].position.resized_into(
                            size,
                            old(self).bounds,
                        ),
                        ..old(self).nodes@[node as int]
                    },
                )
            } else {
                old(self).nodes@
            }),
            *final(self) == (Nodes { nodes: final(self).nodes, ..*old(self) }),
    {
        if node >= self.nodes.len() {
            return ;
        }
        let bounds = self.bounds;
        proof {
            assert(old(self).nodes@[node as int].wf(bounds));
        }
        let placed = self.nodes[node].position.resize_into(size, bounds);
        self.nodes[node].position = placed;
        proof {
            let before = old(self).nodes@;
            let after = self.nodes@;
            assert forall|i: int| 0 <= i < after.len() implies ((#[trigger] after[i]).kind is Power
                <==> i == 0) && after[i].wf(bounds) by {
                assert(before[i].wf(bounds));
                assert(before[i].kind is Power <==> i == 0);
            }
            if old(self).contained() {
                assert forall|i: int| 0 <= i < after.len() implies (#[trigger] after[i]).position.within(
                    bounds,
                ) by {
                    assert(before[i].position.within(bounds));
                }
            }
        }
    }
}

impl Model {
    /// Wires the slots `a` and `b` together in the setup phase, where they
    /// can be wired. Returns whether they were; does nothing otherwise.
    pub fn connect(&mut self, a: ConnectionId, b: ConnectionId) -> (done: bool)
        ensures
            done == (old(self).phase is Setup && connectable(old(self).nodes.nodes@, a, b)),
            done ==> same_but_wires(old(self).nodes.nodes@, final(self).nodes.nodes@) && wiring(
                final(self).nodes.nodes@,
            ) == wired(wiring(old(self).nodes.nodes@), a, b),
            !done ==> *final(self) == *old(self),
            final(self).nodes == (Nodes { nodes: final(self).nodes.nodes, ..old(self).nodes }),
            *final(self) == (Model { nodes: final(self).nodes, ..*old(self) }),
            old(self).wf() ==> final(self).wf(),
            old(self).nodes.contained() ==> final(self).nodes.contained(),
    {
        match self.phase {
            Phase::Setup => self.nodes.connect(a, b),
            Phase::Drill => false,
        }
    }

    /// Takes the wire at slot `slot` of node `node` off in the setup phase;
    /// does nothing in the drill phase.
    pub fn disconnect(&mut self, node: usize, slot: usize)
        ensures
            old(self).phase is Setup ==> same_but_wires(
                old(self).nodes.nodes@,
                final(self).nodes.nodes@,
            ) && wiring(final(self).nodes.nodes@) == unwired(
                wiring(old(self).nodes.nodes@),
                ConnectionId { node, connection: slot },
            ),
            old(self).phase is Drill ==> *final(self) == *old(self),
            final(self).nodes == (Nodes { nodes: final(self).nodes.nodes, ..old(self).nodes }),
            *final(self) == (Model { nodes: final(self).nodes, ..*old(self) }),
            old(self).wf() ==> final(self).wf(),
            old(self).nodes.contained() ==> final(self).nodes.contained(),
    {
        match self.phase {
            Phase::Setup => {
                self.nodes.disconnect(node, slot);
            },
            Phase::Drill => {},
        }
    }

    /// Moves node `node` so that its center comes to lie at `center`, as far
    /// as the bounds of the graph allow.
    pub fn move_node(&mut self, node: usize, center: Vec2)
        requires
            old(self).wf(),
        ensures
            final(self).wf(),
            old(self).nodes.contained() ==> final(self).nodes.contained(),
            node < old(self).nodes.nodes@.len() ==> final(self).nodes.nodes@[node as int]
                .position.within(old(self).nodes.bounds),
            final(self).nodes.nodes@ == (if node < old(self).nodes.nodes@.len() {
                old(self).nodes.nodes@.update(
                    node as int,
                    Node {
                        position: old(self).nodes.nodes@[node as int].position.centered_into(
                            center,
                            old(self).nodes.bounds,
                        ),
                        ..old(self).nodes.nodes@[node as int]
                    },
                )
            } else {
                old(self).nodes.nodes@
            }),
            final(self).nodes == (Nodes { nodes: final(self).nodes.nodes, ..old(self).nodes }),
            *final(self) == (Model { nodes: final(self).nodes, ..*old(self) }),
    {
        self.nodes.move_node(node, center);
    }
}

/// Whether two kinds of slots are the same.
pub fn same_connection_kind(a: ConnectionKind, b: ConnectionKind) -> (same: bool)
    ensures
        same == (a == b),
{
    match (a, b) {
        (ConnectionKind::Normal, ConnectionKind::Normal) => true,
        (ConnectionKind::Fuel, ConnectionKind::Fuel) => true,
        (ConnectionKind::Upgrade, ConnectionKind::Upgrade) => true,
        (ConnectionKind::Drill, ConnectionKind::Drill) => true,
        _ => false,
    }
}

} // verus!
