//! The connectivity resolver: what the wiring of the graph gives to each node
//! and to the drill.
//!
//! `resolved` defines the graph after a run of the resolver and `Model::
//! update_nodes` computes it in place: positions are pushed into the bounds,
//! power flags are set from a search that starts at the power node, and the
//! levels of the shop, the drill, the vision node and the speed node are
//! counted, in that order.

use crate::bounded::Bounded;
use crate::geometry::{lemma_clamped_into, Aabb2};
use crate::model::graph::{count_from, count_nodes, traverse, visit_order, CountNode, Walk};
use crate::model::reach::lemma_count_from_len;
use crate::model::{
    graph_contained, graph_wf, Config, Drill, Model, Node, NodeKind, Nodes, Phase, ResourceKind,
};
use crate::scalar::{clamp, Coord, Time};
use vstd::prelude::*;

verus! {

/// The parts that single nodes play for the drill.
#[derive(Clone, Copy, Debug, PartialEq, Eq, Structural)]
pub enum Role {
    Shop,
    Drill,
    Vision,
    Speed,
    TurnLeft,
    TurnRight,
}

impl Role {
    /// A node of the kind `kind` plays this part.
    pub open spec fn fits(self, kind: NodeKind) -> bool {
        match self {
            Role::Shop => kind is Shop,
            Role::Drill => kind is Drill,
            Role::Vision => kind is Vision,
            Role::Speed => kind is Speed,
            Role::TurnLeft => kind is TurnLeft,
            Role::TurnRight => kind is TurnRight,
        }
    }
}

/// The last of the first `n` nodes that plays the part `role`.
pub open spec fn last_role_upto(nodes: Seq<Node>, role: Role, n: int) -> Option<usize>
    decreases n,
{
    if n <= 0 {
        None
    } else if role.fits(nodes[n - 1].kind) {
        Some((n - 1) as usize)
    } else {
        last_role_upto(nodes, role, n - 1)
    }
}

/// The node that plays the part `role`: the last one of its kind.
pub open spec fn last_role(nodes: Seq<Node>, role: Role) -> Option<usize> {
    last_role_upto(nodes, role, nodes.len() as int)
}

/// Node `i` is powered: a search that starts at the power node meets it.
pub open spec fn powered(nodes: Seq<Node>, i: usize) -> bool {
    visit_order(nodes, Walk::Everywhere, 0).contains(i)
}

/// The kind after `cooling` has passed: the cooldown of a sprint node runs
/// down, every other kind stays.
pub open spec fn cooled(kind: NodeKind, cooling: Option<Time>) -> NodeKind {
    match (kind, cooling) {
        (NodeKind::Sprint { cooldown }, Some(delta_time)) => NodeKind::Sprint {
            cooldown: cooldown.with_value(cooldown.value - delta_time),
        },
        _ => kind,
    }
}

/// A node with its power flag set, its rectangle pushed into the bounds and
/// its cooldown run down.
pub open spec fn settled(node: Node, power: bool, bounds: Aabb2, cooling: Option<Time>) -> Node {
    Node {
        is_powered: power,
        position: node.position.clamped_into(bounds),
        kind: cooled(node.kind, cooling),
        connections: node.connections,
    }
}

/// Every node settled.
pub open spec fn all_settled(nodes: Seq<Node>, bounds: Aabb2, cooling: Option<Time>) -> Seq<Node> {
    Seq::new(nodes.len(), |i: int| settled(nodes[i], powered(nodes, i as usize), bounds, cooling))
}

/// The resource tier that a drill with `upgrades` upgrades mines.
pub open spec fn drill_tier(upgrades: nat) -> ResourceKind {
    if upgrades == 0 {
        ResourceKind::Iron
    } else if upgrades == 1 {
        ResourceKind::Bronze
    } else if upgrades == 2 {
        ResourceKind::Silver
    } else {
        ResourceKind::Gold
    }
}

/// The kind of node `at` after its level was counted anew: the shop, the
/// vision node and the speed node get the number of upgrades chained to them,
/// the drill its tier and its power slots, of which as many are filled as there
/// are batteries wired to it.
pub open spec fn leveled(nodes: Seq<Node>, at: usize) -> NodeKind {
    let upgrades = count_from(nodes, at, CountNode::Upgrade);
    match nodes[at as int].kind {
        NodeKind::Shop { level } => NodeKind::Shop { level: upgrades as usize },
        NodeKind::Vision { level } => NodeKind::Vision { level: upgrades as usize },
        NodeKind::Speed { level } => NodeKind::Speed { level: upgrades as usize },
        NodeKind::Drill { level, power } => NodeKind::Drill {
            level: drill_tier(upgrades),
            power: Bounded {
                value: clamp(
                    count_from(nodes, at, CountNode::Battery) as int,
                    0,
                    upgrades as int,
                ) as usize,
                min: 0usize,
                max: upgrades as usize,
            },
        },
        kind => kind,
    }
}

/// The graph with the level of the node that plays `role` counted anew. The
/// vision node and the speed node are counted only while they are powered.
pub open spec fn with_level(nodes: Seq<Node>, role: Role, at: Option<usize>) -> Seq<Node> {
    match at {
        Some(i) => if i < nodes.len() && (role is Shop || role is Drill || nodes[i as int].is_powered) {
            nodes.update(i as int, Node { kind: leveled(nodes, i), ..nodes[i as int] })
        } else {
            nodes
        },
        None => nodes,
    }
}

/// The graph after a run of the resolver.
pub open spec fn resolved(nodes: Seq<Node>, bounds: Aabb2, cooling: Option<Time>) -> Seq<Node> {
    let settled = all_settled(nodes, bounds, cooling);
    let shop_done = with_level(settled, Role::Shop, last_role(nodes, Role::Shop));
    let drill_done = with_level(shop_done, Role::Drill, last_role(nodes, Role::Drill));
    let vision_done = with_level(drill_done, Role::Vision, last_role(nodes, Role::Vision));
    with_level(vision_done, Role::Speed, last_role(nodes, Role::Speed))
}

/// Whether the node that plays `role` in the resolved graph is powered.
pub open spec fn role_powered(nodes: Seq<Node>, role: Role) -> bool {
    last_role(nodes, role) matches Some(i) && i < nodes.len() && powered(nodes, i)
}

/// The tier of the drill after a run of the resolver over `nodes`, where
/// `level` was its tier before.
pub open spec fn resolved_drill_level(
    nodes: Seq<Node>,
    after: Seq<Node>,
    level: ResourceKind,
) -> ResourceKind {
    match last_role(nodes, Role::Drill) {
        Some(i) => match after[i as int].kind {
            NodeKind::Drill { level, power } => level,
            _ => level,
        },
        None => level,
    }
}

/// One of three values by the level of a node: the first at level 0, the
/// second at level 1, the third above.
pub open spec fn by_level(level: usize, at_0: Coord, at_1: Coord, at_2: Coord) -> Coord {
    if level == 0 {
        at_0
    } else if level == 1 {
        at_1
    } else {
        at_2
    }
}

/// The vision radius of the drill after a run of the resolver: that of the
/// vision node's level where that node is powered, else the plain one.
pub open spec fn resolved_vision(nodes: Seq<Node>, after: Seq<Node>, config: Config) -> Coord {
    if role_powered(nodes, Role::Vision) {
        match after[last_role(nodes, Role::Vision)->0 as int].kind {
            NodeKind::Vision { level } => by_level(
                level,
                config.vision_0,
                config.vision_1,
                config.vision_2,
            ),
            _ => config.vision,
        }
    } else {
        config.vision
    }
}

/// The top speed of the drill after a run of the resolver: that of the speed
/// node's level where that node is powered, else the plain one.
pub open spec fn resolved_max_speed(nodes: Seq<Node>, after: Seq<Node>, config: Config) -> Coord {
    if role_powered(nodes, Role::Speed) {
        match after[last_role(nodes, Role::Speed)->0 as int].kind {
            NodeKind::Speed { level } => by_level(
                level,
                config.drill_speed_0,
                config.drill_speed_1,
                config.drill_speed_2,
            ),
            _ => config.drill_speed,
        }
    } else {
        config.drill_speed
    }
}

/// The last node that plays the part `role`.
pub fn find_last(nodes: &Vec<Node>, role: Role) -> (found: Option<usize>)
    ensures
        found == last_role(nodes@, role),
        found matches Some(i) ==> i < nodes@.len() && role.fits(nodes@[i as int].kind),
{
    let mut found: Option<usize> = None;
    let mut i: usize = 0;
    while i < nodes.len()
        invariant
            i <= nodes.len(),
            found == last_role_upto(nodes@, role, i as int),
            found matches Some(j) ==> j < nodes@.len() && role.fits(nodes@[j as int].kind),
        decreases nodes.len() - i,
    {
        let fits: bool = match role {
            Role::Shop => match nodes[i].kind {
                NodeKind::Shop { .. } => true,
                _ => false,
            },
            Role::Drill => match nodes[i].kind {
                NodeKind::Drill { .. } => true,
                _ => false,
            },
            Role::Vision => match nodes[i].kind {
                NodeKind::Vision { .. } => true,
                _ => false,
            },
            Role::Speed => match nodes[i].kind {
                NodeKind::Speed { .. } => true,
                _ => false,
            },
            Role::TurnLeft => match nodes[i].kind {
                NodeKind::TurnLeft => true,
                _ => false,
            },
            Role::TurnRight => match nodes[i].kind {
                NodeKind::TurnRight => true,
                _ => false,
            },
        };
        if fits {
            found = Some(i);
        }
        i = i + 1;
    }
    found
}

/// For each of the first `n` nodes, whether `order` holds it.
pub fn membership(order: &Vec<usize>, n: usize) -> (marks: Vec<bool>)
    ensures
        marks@.len() == n,
        forall|j: int| 0 <= j < n ==> marks@[j] == order@.contains(j as usize),
{
    let mut marks: Vec<bool> = Vec::new();
    while marks.len() < n
        invariant
            marks.len() <= n,
            forall|j: int| 0 <= j < marks.len() ==> !marks@[j],
        decreases n - marks.len(),
    {
        marks.push(false);
    }
    let mut k: usize = 0;
    while k < order.len()
        invariant
            k <= order.len(),
            marks@.len() == n,
            forall|j: int|
                0 <= j < n ==> marks@[j] == order@.subrange(0, k as int).contains(j as usize),
        decreases order.len() - k,
    {
        let i: usize = order[k];
        let ghost marks_before = marks@;
        if i < n {
            marks.set(i, true);
        }
        proof {
            let before = order@.subrange(0, k as int);
            let after = order@.subrange(0, k + 1);
            assert(after =~= before.push(i));
            assert forall|j: int| 0 <= j < n implies marks@[j] == after.contains(j as usize) by {
                crate::model::graph::lemma_push_contains(before, i, j as usize);
                assert(marks_before[j] == before.contains(j as usize));
            }
        }
        k = k + 1;
    }
    assert(order@.subrange(0, order.len() as int) =~= order@);
    marks
}

/// Counts the level of node `at` anew and writes it into the node.
fn set_level(nodes: &mut Vec<Node>, at: usize)
    requires
        at < old(nodes)@.len(),
    ensures
        final(nodes)@ == old(nodes)@.update(
            at as int,
            Node { kind: leveled(old(nodes)@, at), ..old(nodes)@[at as int] },
        ),
{
    let upgrades: usize = count_nodes(nodes, at, CountNode::Upgrade);
    match nodes[at].kind {
        NodeKind::Shop { .. } => {
            nodes[at].kind = NodeKind::Shop { level: upgrades };
        },
        NodeKind::Vision { .. } => {
            nodes[at].kind = NodeKind::Vision { level: upgrades };
        },
        NodeKind::Speed { .. } => {
            nodes[at].kind = NodeKind::Speed { level: upgrades };
        },
        NodeKind::Drill { .. } => {
            let batteries: usize = count_nodes(nodes, at, CountNode::Battery);
            let level = match upgrades {
                0 => ResourceKind::Iron,
                1 => ResourceKind::Bronze,
                2 => ResourceKind::Silver,
                _ => ResourceKind::Gold,
            };
            nodes[at].kind = NodeKind::Drill {
                level,
                power: Bounded::<usize>::new(batteries, 0, upgrades),
            };
        },
        _ => {},
    }
    assert(final(nodes)@ =~= old(nodes)@.update(
        at as int,
        Node { kind: leveled(old(nodes)@, at), ..old(nodes)@[at as int] },
    ));
}

/// Counting the level of a node anew keeps a well-formed graph well formed
/// and leaves every rectangle and every power flag as it is.
pub proof fn lemma_with_level_wf(nodes: Seq<Node>, bounds: Aabb2, role: Role, at: Option<usize>)
    requires
        graph_wf(nodes, bounds),
    ensures
        graph_wf(with_level(nodes, role, at), bounds),
        with_level(nodes, role, at).len() == nodes.len(),
        forall|i: int|
            0 <= i < nodes.len() ==> (#[trigger] with_level(nodes, role, at)[i]).position
                == nodes[i].position && with_level(nodes, role, at)[i].is_powered
                == nodes[i].is_powered && with_level(nodes, role, at)[i].connections
                == nodes[i].connections,
{
    let after = with_level(nodes, role, at);
    assert forall|i: int| 0 <= i < after.len() implies ((#[trigger] after[i]).kind is Power <==> i
        == 0) && after[i].wf(bounds) by {
        assert(nodes[i].wf(bounds));
        assert(nodes[i].kind is Power <==> i == 0);
        lemma_count_from_len(nodes, i as usize, CountNode::Upgrade);
        lemma_count_from_len(nodes, i as usize, CountNode::Battery);
    }
}

/// A run of the resolver keeps a well-formed graph well formed and leaves
/// every node within the bounds.
pub proof fn lemma_resolved_wf(nodes: Seq<Node>, bounds: Aabb2, cooling: Option<Time>)
    requires
        bounds.wf(),
        graph_wf(nodes, bounds),
    ensures
        graph_wf(resolved(nodes, bounds, cooling), bounds),
        graph_contained(resolved(nodes, bounds, cooling), bounds),
        resolved(nodes, bounds, cooling).len() == nodes.len(),
        forall|i: int|
            0 <= i < nodes.len() ==> (#[trigger] resolved(nodes, bounds, cooling)[i]).is_powered
                == powered(nodes, i as usize) && resolved(nodes, bounds, cooling)[i].connections
                == nodes[i].connections && resolved(nodes, bounds, cooling)[i].position
                == nodes[i].position.clamped_into(bounds),
{
    let settled = all_settled(nodes, bounds, cooling);
    assert forall|i: int| 0 <= i < settled.len() implies ((#[trigger] settled[i]).kind is Power
        <==> i == 0) && settled[i].wf(bounds) && settled[i].position.within(bounds) by {
        assert(nodes[i].wf(bounds));
        assert(nodes[i].kind is Power <==> i == 0);
        lemma_clamped_into(nodes[i].position, bounds);
    }
    let shop_done = with_level(settled, Role::Shop, last_role(nodes, Role::Shop));
    lemma_with_level_wf(settled, bounds, Role::Shop, last_role(nodes, Role::Shop));
    let drill_done = with_level(shop_done, Role::Drill, last_role(nodes, Role::Drill));
    lemma_with_level_wf(shop_done, bounds, Role::Drill, last_role(nodes, Role::Drill));
    let vision_done = with_level(drill_done, Role::Vision, last_role(nodes, Role::Vision));
    lemma_with_level_wf(drill_done, bounds, Role::Vision, last_role(nodes, Role::Vision));
    let done = with_level(vision_done, Role::Speed, last_role(nodes, Role::Speed));
    lemma_with_level_wf(vision_done, bounds, Role::Speed, last_role(nodes, Role::Speed));
    assert forall|i: int| 0 <= i < done.len() implies (#[trigger] done[i]).position.within(
        bounds,
    ) by {
        assert(done[i].position == vision_done[i].position);
        assert(vision_done[i].position == drill_done[i].position);
        assert(drill_done[i].position == shop_done[i].position);
        assert(shop_done[i].position == settled[i].position);
    }
    assert forall|i: int| 0 <= i < nodes.len() implies (#[trigger] done[i]).is_powered == powered(
        nodes,
        i as usize,
    ) && done[i].connections == nodes[i].connections && done[i].position
        == nodes[i].position.clamped_into(bounds) by {
        assert(done[i].position == vision_done[i].position);
        assert(vision_done[i].position == drill_done[i].position);
        assert(drill_done[i].position == shop_done[i].position);
        assert(shop_done[i].position == settled[i].position);
    }
}

/// Two graphs have the same nodes but for the gauges and levels inside the
/// kinds: the same number of nodes, each of the same sort, at the same place,
/// with the same slots and the same power flag.
pub open spec fn same_shape(a: Seq<Node>, b: Seq<Node>) -> bool {
    &&& a.len() == b.len()
    &&& forall|i: int|
        0 <= i < a.len() ==> {
            &&& (#[trigger] a[i]).position == b[i].position
            &&& a[i].is_powered == b[i].is_powered
            &&& a[i].connections == b[i].connections
            &&& forall|role: Role| role.fits(a[i].kind) == role.fits(b[i].kind)
        }
}

/// Counting a level anew keeps the shape of the graph, and touches no node
/// but the one that is counted.
pub proof fn lemma_with_level_shape(nodes: Seq<Node>, role: Role, at: Option<usize>)
    ensures
        same_shape(nodes, with_level(nodes, role, at)),
        forall|i: int|
            0 <= i < nodes.len() && at != Some(i as usize) ==> #[trigger] with_level(
                nodes,
                role,
                at,
            )[i] == nodes[i],
{
}

/// Settling the nodes keeps the sort and the slots of each.
pub proof fn lemma_settled_shape(nodes: Seq<Node>, bounds: Aabb2, cooling: Option<Time>)
    ensures
        all_settled(nodes, bounds, cooling).len() == nodes.len(),
        forall|i: int|
            0 <= i < nodes.len() ==> {
                &&& (#[trigger] all_settled(nodes, bounds, cooling)[i]).is_powered == powered(
                    nodes,
                    i as usize,
                )
                &&& forall|role: Role|
                    role.fits(all_settled(nodes, bounds, cooling)[i].kind) == role.fits(
                        nodes[i].kind,
                    )
            },
{
}

/// Settles every node: sets its power flag from `marks`, pushes it into the
/// bounds and, where `cools` is set, runs its cooldown down.
fn settle_all(
    nodes: &mut Vec<Node>,
    marks: &Vec<bool>,
    bounds: Aabb2,
    cools: bool,
    delta_time: Time,
)
    requires
        marks@.len() == old(nodes)@.len(),
        graph_wf(old(nodes)@, bounds),
    ensures
        final(nodes)@.len() == old(nodes)@.len(),
        forall|j: int|
            0 <= j < old(nodes)@.len() ==> #[trigger] final(nodes)@[j] == settled(
                old(nodes)@[j],
                marks@[j],
                bounds,
                if cools {
                    Some(delta_time)
                } else {
                    None
                },
            ),
{
    let n: usize = nodes.len();
    let ghost before = nodes@;
    let ghost cooling = if cools {
        Some(delta_time)
    } else {
        None
    };
    let mut i: usize = 0;
    while i < n
        invariant
            i <= n,
            n == before.len(),
            nodes@.len() == n,
            marks@.len() == n,
            graph_wf(before, bounds),
            cooling == if cools {
                Some(delta_time)
            } else {
                None
            },
            forall|j: int|
                0 <= j < i ==> #[trigger] nodes@[j] == settled(
                    before[j],
                    marks@[j],
                    bounds,
                    cooling,
                ),
            forall|j: int| i <= j < n ==> #[trigger] nodes@[j] == before[j],
        decreases n - i,
    {
        assert(before[i as int].wf(bounds));
        let node = &mut nodes[i];
        node.is_powered = marks[i];
        node.position = node.position.clamp_into(bounds);
        if cools {
            match &mut node.kind {
                NodeKind::Sprint { cooldown } => {
                    cooldown.spend(delta_time);
                },
                _ => {},
            }
        }
        i = i + 1;
    }
}

/// Counts the level of the node that plays `role` anew, where there is one
/// and it is powered or needs no power, and returns its kind afterward.
fn level_role(nodes: &mut Vec<Node>, role: Role, at: Option<usize>) -> (kind: Option<NodeKind>)
    requires
        at matches Some(i) ==> i < old(nodes)@.len() && role.fits(old(nodes)@[i as int].kind),
    ensures
        final(nodes)@ == with_level(old(nodes)@, role, at),
        kind matches Some(k) ==> at is Some && final(nodes)@[at->0 as int].kind == k && role.fits(
            k,
        ),
        kind is Some <==> at is Some && (role is Shop || role is Drill || old(nodes)@[at->0
            as int].is_powered),
{
    match at {
        Some(i) => {
            let counted: bool = match role {
                Role::Shop => true,
                Role::Drill => true,
                _ => nodes[i].is_powered,
            };
            if counted {
                set_level(nodes, i);
                Some(nodes[i].kind)
            } else {
                None
            }
        },
        None => None,
    }
}

impl Model {
    /// The time that the cooldowns of sprint nodes run down in a tick of
    /// `delta_time`: they run while the drill descends and does not sprint.
    pub open spec fn cooling(&self, delta_time: Time) -> Option<Time> {
        if self.phase is Drill && self.drill.sprint is None {
            Some(delta_time)
        } else {
            None
        }
    }

    /// `post` is `pre` after a run of the resolver in a tick of `delta_time`.
    pub open spec fn nodes_resolved(pre: Model, post: Model, delta_time: Time) -> bool {
        &&& post.wf()
        &&& post.nodes.contained()
        &&& post.nodes.nodes@ == resolved(
            pre.nodes.nodes@,
            pre.nodes.bounds,
            pre.cooling(delta_time),
        )
        &&& post.drill.drill_level == resolved_drill_level(
            pre.nodes.nodes@,
            post.nodes.nodes@,
            pre.drill.drill_level,
        )
        &&& post.drill.vision_radius == resolved_vision(
            pre.nodes.nodes@,
            post.nodes.nodes@,
            pre.config,
        )
        &&& post.drill.max_speed == resolved_max_speed(
            pre.nodes.nodes@,
            post.nodes.nodes@,
            pre.config,
        )
        &&& post.drill.can_turn_left == role_powered(pre.nodes.nodes@, Role::TurnLeft)
        &&& post.drill.can_turn_right == role_powered(
            pre.nodes.nodes@,
            Role::TurnRight,
        )
        &&& post.nodes == (Nodes { nodes: post.nodes.nodes, ..pre.nodes })
        &&& post.drill == (Drill {
            drill_level: post.drill.drill_level,
            vision_radius: post.drill.vision_radius,
            max_speed: post.drill.max_speed,
            can_turn_left: post.drill.can_turn_left,
            can_turn_right: post.drill.can_turn_right,
            ..pre.drill
        })
        &&& post == (Model {
            nodes: post.nodes,
            drill: post.drill,
            ..pre
        })
    }

    /// Runs the resolver: pushes every node into the bounds, sets the power
    /// flags, runs down the cooldowns, counts the levels anew and hands the
    /// drill what the graph gives it.
    #[verifier::rlimit(60)]
    pub fn update_nodes(&mut self, delta_time: Time)
        requires
            old(self).wf(),
        ensures
            Model::nodes_resolved(*old(self), *final(self), delta_time),
    {
        let ghost before = self.nodes.nodes@;
        let ghost cooling = self.cooling(delta_time);
        let bounds = self.nodes.bounds;
        let n: usize = self.nodes.nodes.len();
        let cools: bool = match self.phase {
            Phase::Drill => self.drill.sprint.is_none(),
            Phase::Setup => false,
        };
        let order = traverse(&self.nodes.nodes, Walk::Everywhere, 0);
        let marks = membership(&order, n);
        let shop_i = find_last(&self.nodes.nodes, Role::Shop);
        let drill_i = find_last(&self.nodes.nodes, Role::Drill);
        let vision_i = find_last(&self.nodes.nodes, Role::Vision);
        let speed_i = find_last(&self.nodes.nodes, Role::Speed);
        let left_i = find_last(&self.nodes.nodes, Role::TurnLeft);
        let right_i = find_last(&self.nodes.nodes, Role::TurnRight);
        proof {
            lemma_resolved_wf(before, bounds, cooling);
        }
        settle_all(&mut self.nodes.nodes, &marks, bounds, cools, delta_time);
        assert(self.nodes.nodes@ =~= all_settled(before, bounds, cooling));
        let ghost settled = self.nodes.nodes@;
        proof {
            lemma_settled_shape(before, bounds, cooling);
        }

        level_role(&mut self.nodes.nodes, Role::Shop, shop_i);
        let ghost shop_done = self.nodes.nodes@;
        proof {
            lemma_with_level_shape(settled, Role::Shop, shop_i);
        }

        let drill_kind = level_role(&mut self.nodes.nodes, Role::Drill, drill_i);
        match drill_kind {
            Some(NodeKind::Drill { level, .. }) => {
                self.drill.drill_level = level;
            },
            _ => {},
        }
        let ghost drill_done = self.nodes.nodes@;
        proof {
            lemma_with_level_shape(shop_done, Role::Drill, drill_i);
        }

        let vision_kind = level_role(&mut self.nodes.nodes, Role::Vision, vision_i);
        self.drill.vision_radius = match vision_kind {
            Some(NodeKind::Vision { level }) => match level {
                0 => self.config.vision_0,
                1 => self.config.vision_1,
                _ => self.config.vision_2,
            },
            _ => self.config.vision,
        };
        let ghost vision_done = self.nodes.nodes@;
        proof {
            lemma_with_level_shape(drill_done, Role::Vision, vision_i);
        }

        let speed_kind = level_role(&mut self.nodes.nodes, Role::Speed, speed_i);
        self.drill.max_speed = match speed_kind {
            Some(NodeKind::Speed { level }) => match level {
                0 => self.config.drill_speed_0,
                1 => self.config.drill_speed_1,
                _ => self.config.drill_speed_2,
            },
            _ => self.config.drill_speed,
        };
        proof {
            lemma_with_level_shape(vision_done, Role::Speed, speed_i);
        }

        self.drill.can_turn_left = match left_i {
            Some(at) => self.nodes.nodes[at].is_powered,
            None => false,
        };
        self.drill.can_turn_right = match right_i {
            Some(at) => self.nodes.nodes[at].is_powered,
            None => false,
        };
    }
}

} // verus!
