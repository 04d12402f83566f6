//! What pointing at the graph and dragging in it mean for the model.
//!
//! The functions here take positions in the coordinates of the graph; turning
//! pointer events into such positions is left to the caller.

use crate::geometry::Vec2;
use crate::model::edit::{connectable, same_but_wires, unwired, wired, wiring};
use crate::model::{ConnectionId, Model, Node, NodeConnection, NodeKind, Phase};
use crate::scalar::{mul_scaled, sat, sat_add, sat_mul, scaled, Coord, Time};
use vstd::prelude::*;

verus! {

/// How near to a slot the pointer has to be to point at it.
pub const SLOT_REACH: Coord = 200;

/// What the pointer points at, or drags.
#[derive(Clone, Copy, Debug, PartialEq, Eq, Structural)]
pub enum DragTarget {
    /// A node, with the center that it had when the drag began.
    Node { index: usize, from_position: Vec2 },
    /// A slot of a node.
    NodeConnection { node: usize, conn: usize },
    /// An item of the shop's offer.
    Shop { item: usize },
}

/// A drag that is under way.
#[derive(Clone, Copy, Debug, PartialEq, Eq, Structural)]
pub struct Drag {
    /// Where the pointer was when the drag began.
    pub from_ui: Vec2,
    pub target: DragTarget,
}

/// What a press led to.
#[derive(Clone, Copy, Debug, PartialEq, Eq, Structural)]
pub enum Pressed {
    /// A drag of the pressed target begins.
    Dragging,
    /// The shop is to be shown or hidden.
    ShopToggled,
    /// The press was dealt with, or came to nothing.
    Nothing,
}

/// The pointer at `cursor` is within reach of the slot.
pub open spec fn slot_near(node: Node, k: int, cursor: Vec2) -> bool {
    let at = node.position.anchor(node.connections@[k].offset);
    let dx = at.x - cursor.x;
    let dy = at.y - cursor.y;
    dx * dx + dy * dy < SLOT_REACH * SLOT_REACH
}

/// The first of the first `m` slots of a node that the pointer is within
/// reach of.
pub open spec fn near_slot_upto(node: Node, cursor: Vec2, m: int) -> Option<usize>
    decreases m,
{
    if m <= 0 {
        None
    } else {
        match near_slot_upto(node, cursor, m - 1) {
            Some(k) => Some(k),
            None => if slot_near(node, m - 1, cursor) {
                Some((m - 1) as usize)
            } else {
                None
            },
        }
    }
}

/// The first slot of a node that the pointer is within reach of.
pub open spec fn near_slot(node: Node, cursor: Vec2) -> Option<usize> {
    near_slot_upto(node, cursor, node.connections@.len() as int)
}

/// The first slot of the first `n` nodes that the pointer is within reach
/// of, node by node.
pub open spec fn pointed_slot_upto(nodes: Seq<Node>, cursor: Vec2, n: int) -> Option<DragTarget>
    decreases n,
{
    if n <= 0 {
        None
    } else {
        match pointed_slot_upto(nodes, cursor, n - 1) {
            Some(target) => Some(target),
            None => match near_slot(nodes[n - 1], cursor) {
                Some(k) => Some(DragTarget::NodeConnection { node: (n - 1) as usize, conn: k }),
                None => None,
            },
        }
    }
}

/// The last of the first `n` nodes that the pointer is over.
pub open spec fn pointed_node_upto(nodes: Seq<Node>, cursor: Vec2, n: int) -> Option<DragTarget>
    decreases n,
{
    if n <= 0 {
        None
    } else if nodes[n - 1].position.holds(cursor) {
        Some(
            DragTarget::Node {
                index: (n - 1) as usize,
                from_position: nodes[n - 1].position.middle(),
            },
        )
    } else {
        pointed_node_upto(nodes, cursor, n - 1)
    }
}

/// What the pointer at `cursor` points at in the graph: the first slot that
/// it is within reach of, else the last node that it is over.
pub open spec fn pointed_at(nodes: Seq<Node>, cursor: Vec2) -> Option<DragTarget> {
    match pointed_slot_upto(nodes, cursor, nodes.len() as int) {
        Some(target) => Some(target),
        None => pointed_node_upto(nodes, cursor, nodes.len() as int),
    }
}

/// The turn that dragging the target asks of the drill: one to the left for
/// a turn-left node while the drill can turn left, one to the right (counted
/// negative) for a turn-right node while it can turn right.
pub open spec fn turn_of(model: Model, target: DragTarget) -> int {
    match target {
        DragTarget::Node { index, from_position } => if index < model.nodes.nodes@.len() {
            match model.nodes.nodes@[index as int].kind {
                NodeKind::TurnLeft => if model.drill.can_turn_left {
                    1
                } else {
                    0
                },
                NodeKind::TurnRight => if model.drill.can_turn_right {
                    -1
                } else {
                    0
                },
                _ => 0,
            }
        } else {
            0
        },
        _ => 0,
    }
}

/// Whether the pointer is within reach of slot `k` of the node.
fn check_slot_near(node: &Node, k: usize, cursor: Vec2) -> (near: bool)
    requires
        k < node.connections@.len(),
    ensures
        near == slot_near(*node, k as int, cursor),
{
    let at = node.position.align_pos(node.connections[k].offset);
    let dx: i128 = at.x as i128 - cursor.x as i128;
    let dy: i128 = at.y as i128 - cursor.y as i128;
    if dx <= -200 || dx >= 200 || dy <= -200 || dy >= 200 {
        proof {
            let reach: int = 200;
            if dx <= -200 || dx >= 200 {
                assert(dx * dx >= reach * reach) by (nonlinear_arith)
                    requires
                        dx <= -reach || dx >= reach,
                        reach >= 0,
                ;
                assert(dy * dy >= 0) by (nonlinear_arith);
            } else {
                assert(dy * dy >= reach * reach) by (nonlinear_arith)
                    requires
                        dy <= -reach || dy >= reach,
                        reach >= 0,
                ;
                assert(dx * dx >= 0) by (nonlinear_arith);
            }
        }
        false
    } else {
        proof {
            assert(0 <= dx * dx <= 200 * 200 && 0 <= dy * dy <= 200 * 200) by (nonlinear_arith)
                requires
                    -200 < dx < 200,
                    -200 < dy < 200,
            ;
        }
        dx * dx + dy * dy < 200 * 200
    }
}

/// The first slot of the node that the pointer is within reach of.
fn find_near_slot(node: &Node, cursor: Vec2) -> (found: Option<usize>)
    ensures
        found == near_slot(*node, cursor),
        found matches Some(k) ==> k < node.connections@.len(),
{
    let mut k: usize = 0;
    while k < node.connections.len()
        invariant
            k <= node.connections.len(),
            near_slot_upto(*node, cursor, k as int) is None,
        decreases node.connections.len() - k,
    {
        if check_slot_near(node, k, cursor) {
            proof {
                lemma_near_slot_found(*node, cursor, k as int, node.connections@.len() as int);
            }
            return Some(k);
        }
        k = k + 1;
    }
    None
}

/// The first slot within reach stays the first one.
proof fn lemma_near_slot_found(node: Node, cursor: Vec2, k: int, m: int)
    requires
        0 <= k < m <= node.connections@.len() <= usize::MAX,
        near_slot_upto(node, cursor, k) is None,
        slot_near(node, k, cursor),
    ensures
        near_slot_upto(node, cursor, m) == Some(k as usize),
    decreases m - k,
{
    if m > k + 1 {
        lemma_near_slot_found(node, cursor, k, m - 1);
    }
}

/// The first node with a slot within reach stays the first one.
proof fn lemma_pointed_slot_found(nodes: Seq<Node>, cursor: Vec2, i: int, n: int)
    requires
        0 <= i < n <= nodes.len() <= usize::MAX,
        pointed_slot_upto(nodes, cursor, i) is None,
        near_slot(nodes[i], cursor) is Some,
    ensures
        pointed_slot_upto(nodes, cursor, n) == Some(
            DragTarget::NodeConnection { node: i as usize, conn: near_slot(nodes[i], cursor)->0 },
        ),
    decreases n - i,
{
    if n > i + 1 {
        lemma_pointed_slot_found(nodes, cursor, i, n - 1);
    }
}

/// What the pointer at `cursor` points at in the graph.
pub fn hover(nodes: &Vec<Node>, cursor: Vec2) -> (target: Option<DragTarget>)
    ensures
        target == pointed_at(nodes@, cursor),
{
    let mut over: Option<DragTarget> = None;
    let mut i: usize = 0;
    while i < nodes.len()
        invariant
            i <= nodes.len(),
            pointed_slot_upto(nodes@, cursor, i as int) is None,
            over == pointed_node_upto(nodes@, cursor, i as int),
        decreases nodes.len() - i,
    {
        match find_near_slot(&nodes[i], cursor) {
            Some(k) => {
                proof {
                    lemma_pointed_slot_found(nodes@, cursor, i as int, nodes@.len() as int);
                }
                return Some(DragTarget::NodeConnection { node: i, conn: k });
            },
            None => {},
        }
        if nodes[i].position.contains(cursor) {
            over = Some(DragTarget::Node { index: i, from_position: nodes[i].position.center() });
        }
        i = i + 1;
    }
    over
}

impl Model {
    /// `post` and `pressed` are what a press on `target` makes of `pre`:
    /// pressing the power node launches the drill, pressing the shop node
    /// toggles the shop, pressing a sprint node starts a sprint and drags the
    /// node, pressing another node drags it; pressing a slot in the setup phase
    /// takes its wire off and drags a new one from it; pressing an item of the
    /// offer buys it.
    pub open spec fn pressed(pre: Model, post: Model, target: DragTarget, pressed: Pressed) -> bool {
        match target {
            DragTarget::Node { index, from_position } => if index >= pre.nodes.nodes@.len() {
                post == pre && pressed is Nothing
            } else {
                match pre.nodes.nodes@[index as int].kind {
                    NodeKind::Power => Model::launched(pre, post) && pressed is Nothing,
                    NodeKind::Shop { level } => post == pre && pressed is ShopToggled,
                    NodeKind::Sprint { cooldown } => Model::sprint_started(pre, post, index)
                        && pressed is Dragging,
                    _ => post == pre && pressed is Dragging,
                }
            },
            DragTarget::NodeConnection { node, conn } => if pre.phase is Setup
                && crate::model::edit::has_slot(
                wiring(pre.nodes.nodes@),
                ConnectionId { node, connection: conn },
            ) {
                &&& pressed is Dragging
                &&& same_but_wires(pre.nodes.nodes@, post.nodes.nodes@)
                &&& wiring(post.nodes.nodes@) == unwired(
                    wiring(pre.nodes.nodes@),
                    ConnectionId { node, connection: conn },
                )
                &&& post.nodes == (crate::model::Nodes { nodes: post.nodes.nodes, ..pre.nodes })
                &&& post == (Model { nodes: post.nodes, ..pre })
            } else {
                post == pre && pressed is Nothing
            },
            DragTarget::Shop { item } => Model::purchased(pre, post, item) && pressed is Nothing,
        }
    }

    /// Deals with a press on `target` and tells whether a drag begins.
    pub fn start_drag(&mut self, target: DragTarget) -> (pressed: Pressed)
        requires
            old(self).wf(),
        ensures
            Model::pressed(*old(self), *final(self), target, pressed),
            final(self).wf(),
            old(self).nodes.contained() ==> final(self).nodes.contained(),
    {
        match target {
            DragTarget::Node { index, .. } => {
                if index >= self.nodes.nodes.len() {
                    return Pressed::Nothing;
                }
                match self.nodes.nodes[index].kind {
                    NodeKind::Power => {
                        self.launch_drill();
                        Pressed::Nothing
                    },
                    NodeKind::Shop { .. } => Pressed::ShopToggled,
                    NodeKind::Sprint { .. } => {
                        self.start_sprint(index);
                        Pressed::Dragging
                    },
                    _ => Pressed::Dragging,
                }
            },
            DragTarget::NodeConnection { node, conn } => {
                match self.phase {
                    Phase::Setup => {},
                    Phase::Drill => {
                        return Pressed::Nothing;
                    },
                }
                if node >= self.nodes.nodes.len() {
                    return Pressed::Nothing;
                }
                if conn >= self.nodes.nodes[node].connections.len() {
                    return Pressed::Nothing;
                }
                self.disconnect(node, conn);
                Pressed::Dragging
            },
            DragTarget::Shop { item } => {
                self.purchase_item(item);
                Pressed::Nothing
            },
        }
    }

    /// The two slots that the end of a drag wires together: the dragged slot
    /// and the slot that the pointer is over, where both are slots, on two
    /// nodes, and the phase is setup.
    pub open spec fn drop_wire(&self, target: DragTarget, over: Option<DragTarget>) -> Option<
        (ConnectionId, ConnectionId),
    > {
        match (target, over) {
            (
                DragTarget::NodeConnection { node, conn },
                Some(DragTarget::NodeConnection { node: to_node, conn: to_conn }),
            ) => if self.phase is Setup && node != to_node {
                Some(
                    (
                        ConnectionId { node, connection: conn },
                        ConnectionId { node: to_node, connection: to_conn },
                    ),
                )
            } else {
                None
            },
            _ => None,
        }
    }

    /// Ends the drag of `target` with the pointer over `over`: a wire that
    /// was dragged from a slot onto a slot of another node is put in where the
    /// two can be wired. Returns whether a wire was put in.
    pub fn end_drag(&mut self, target: DragTarget, over: Option<DragTarget>) -> (done: bool)
        ensures
            match old(self).drop_wire(target, over) {
                Some((a, b)) => done == connectable(old(self).nodes.nodes@, a, b) && (done
                    ==> same_but_wires(old(self).nodes.nodes@, final(self).nodes.nodes@) && wiring(
                    final(self).nodes.nodes@,
                ) == wired(wiring(old(self).nodes.nodes@), a, b)),
                None => !done,
            },
            !done ==> *final(self) == *old(self),
            final(self).nodes == (crate::model::Nodes {
                nodes: final(self).nodes.nodes,
                ..old(self).nodes
            }),
            *final(self) == (Model { nodes: final(self).nodes, ..*old(self) }),
            old(self).wf() ==> final(self).wf(),
            old(self).nodes.contained() ==> final(self).nodes.contained(),
    {
        match target {
            DragTarget::NodeConnection { node, conn } => match over {
                Some(DragTarget::NodeConnection { node: to_node, conn: to_conn }) => {
                    if node != to_node {
                        self.connect(
                            ConnectionId { node, connection: conn },
                            ConnectionId { node: to_node, connection: to_conn },
                        )
                    } else {
                        false
                    }
                },
                _ => false,
            },
            _ => false,
        }
    }

    /// Carries a drag on with the pointer at `cursor`: a dragged node follows
    /// the pointer, as far as the bounds of the graph allow. Returns the turn
    /// that the drag asks of the drill.
    pub fn update_drag(&mut self, drag: Drag, cursor: Vec2) -> (turn: i64)
        requires
            old(self).wf(),
        ensures
            turn == turn_of(*old(self), drag.target),
            final(self).wf(),
            old(self).nodes.contained() ==> final(self).nodes.contained(),
            final(self).nodes.nodes@ == (match drag.target {
                DragTarget::Node { index, from_position } => if index < old(self).nodes.nodes@.len() {
                    old(self).nodes.nodes@.update(
                        index as int,
                        Node {
                            position: old(self).nodes.nodes@[index as int].position.centered_into(
                                cursor.plus(from_position).minus(drag.from_ui),
                                old(self).nodes.bounds,
                            ),
                            ..old(self).nodes.nodes@[index as int]
                        },
                    )
                } else {
                    old(self).nodes.nodes@
                },
                _ => old(self).nodes.nodes@,
            }),
            final(self).nodes == (crate::model::Nodes {
                nodes: final(self).nodes.nodes,
                ..old(self).nodes
            }),
            *final(self) == (Model { nodes: final(self).nodes, ..*old(self) }),
    {
        match drag.target {
            DragTarget::Node { index, from_position } => {
                if index >= self.nodes.nodes.len() {
                    return 0;
                }
                let turn: i64 = match self.nodes.nodes[index].kind {
                    NodeKind::TurnLeft => if self.drill.can_turn_left {
                        1
                    } else {
                        0
                    },
                    NodeKind::TurnRight => if self.drill.can_turn_right {
                        -1
                    } else {
                        0
                    },
                    _ => 0,
                };
                self.move_node(index, cursor.add(from_position).sub(drag.from_ui));
                turn
            },
            _ => 0,
        }
    }

    /// Turns the drill for `delta_time` at the configured speed of rotation,
    /// `turn` times over: to the left where `turn` is positive.
    pub fn turn_drill(&mut self, turn: i64, delta_time: Time)
        ensures
            final(self).drill.collider.rotation == sat(
                old(self).drill.collider.rotation + sat(
                    turn * sat(
                        scaled(old(self).config.drill_rotation_speed as int, delta_time as int),
                    ),
                ),
            ),
            final(self).drill.collider == (crate::collider::Collider {
                rotation: final(self).drill.collider.rotation,
                ..old(self).drill.collider
            }),
            final(self).drill == (crate::model::Drill {
                collider: final(self).drill.collider,
                ..old(self).drill
            }),
            *final(self) == (Model { drill: final(self).drill, ..*old(self) }),
    {
        let step: i64 = mul_scaled(self.config.drill_rotation_speed, delta_time);
        self.drill.collider.rotation = sat_add(self.drill.collider.rotation, sat_mul(turn, step));
    }
}

} // verus!
