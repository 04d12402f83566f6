//! The drill: launching it, moving it, sprinting, and burning fuel.

use crate::bounded::Bounded;
use crate::geometry::Vec2;
use crate::model::graph::{reaches, traverse, visit_order, Walk};
use crate::model::reach::{lemma_visit_order_is_reach, tidy};
use crate::model::{
    graph_contained, graph_wf, Camera, Drill, DrillSprint, Event, Model, Node, NodeKind, Nodes,
    Phase,
};
use crate::scalar::{approach, move_toward, mul_scaled, sat, sat_add, scaled, Time};
use vstd::prelude::*;

verus! {

/// What a launch looks for in the graph.
#[derive(Clone, Copy, Debug, PartialEq, Eq, Structural)]
pub enum Seek {
    /// A fuel reservoir of either sort.
    Reservoir,
    /// A drill node.
    Drill,
}

impl Seek {
    /// A node of the kind `kind` is what is looked for.
    pub open spec fn fits(self, kind: NodeKind) -> bool {
        match self {
            Seek::Reservoir => kind.is_reservoir(),
            Seek::Drill => kind is Drill,
        }
    }
}

/// A chain of wires leads from the power node to a node of the sort `seek`.
pub open spec fn connected(nodes: Seq<Node>, seek: Seek) -> bool {
    exists|i: usize|
        i < nodes.len() && #[trigger] reaches(nodes, Walk::Everywhere, 0, i) && seek.fits(
            nodes[i as int].kind,
        )
}

/// Every drill node has all of its power slots filled.
pub open spec fn drills_charged(nodes: Seq<Node>) -> bool {
    forall|i: int|
        0 <= i < nodes.len() ==> ((#[trigger] nodes[i]).kind matches NodeKind::Drill {
            level,
            power,
        } ==> power.value == power.max)
}

/// The first node from position `k` of `order` on that holds fuel to burn.
pub open spec fn first_fueled(nodes: Seq<Node>, order: Seq<usize>, k: int) -> Option<usize>
    decreases order.len() - k,
{
    if k < 0 || k >= order.len() {
        None
    } else if order[k] < nodes.len() && nodes[order[k] as int].kind.has_fuel() {
        Some(order[k])
    } else {
        first_fueled(nodes, order, k + 1)
    }
}

/// The node that the drill draws its fuel from: the first one holding fuel
/// that a search from the power node meets.
pub open spec fn fuel_source(nodes: Seq<Node>) -> Option<usize> {
    first_fueled(nodes, visit_order(nodes, Walk::Everywhere, 0), 0)
}

/// The kind of a reservoir after `delta_time` of burning.
pub open spec fn burnt(kind: NodeKind, delta_time: Time) -> NodeKind {
    match kind {
        NodeKind::Fuel(fuel) => NodeKind::Fuel(fuel.with_value(fuel.value - delta_time)),
        NodeKind::CoalFuel(fuel) => NodeKind::CoalFuel(fuel.with_value(fuel.value - delta_time)),
        _ => kind,
    }
}

/// The kind of a sprint node with its cooldown at the maximum.
pub open spec fn charged(kind: NodeKind) -> NodeKind {
    match kind {
        NodeKind::Sprint { cooldown } => NodeKind::Sprint {
            cooldown: Bounded { value: cooldown.max, ..cooldown },
        },
        _ => kind,
    }
}

/// The graph with the cooldown of node `at` at the maximum, where that node
/// exists and is a sprint node.
pub open spec fn with_charged(nodes: Seq<Node>, at: usize) -> Seq<Node> {
    if at < nodes.len() {
        nodes.update(at as int, Node { kind: charged(nodes[at as int].kind), ..nodes[at as int] })
    } else {
        nodes
    }
}

/// The first fueled node is one that holds fuel, and a search meets it.
pub proof fn lemma_first_fueled(nodes: Seq<Node>, order: Seq<usize>, k: int)
    requires
        0 <= k,
    ensures
        first_fueled(nodes, order, k) matches Some(i) ==> i < nodes.len()
            && nodes[i as int].kind.has_fuel() && order.contains(i),
        first_fueled(nodes, order, k) is None ==> forall|j: int|
            k <= j < order.len() && order[j] < nodes.len() ==> !nodes[#[trigger] order[j]
                as int].kind.has_fuel(),
    decreases order.len() - k,
{
    if k < order.len() {
        if order[k] < nodes.len() && nodes[order[k] as int].kind.has_fuel() {
            assert(order.contains(order[k]));
        } else {
            lemma_first_fueled(nodes, order, k + 1);
        }
    }
}

/// The drill has a fuel source exactly while a chain of wires leads from the
/// power node to a reservoir that is not empty.
pub proof fn lemma_fuel_source(nodes: Seq<Node>)
    ensures
        fuel_source(nodes) is Some <==> exists|i: usize|
            i < nodes.len() && #[trigger] reaches(nodes, Walk::Everywhere, 0, i)
                && nodes[i as int].kind.has_fuel(),
        fuel_source(nodes) matches Some(i) ==> i < nodes.len() && reaches(
            nodes,
            Walk::Everywhere,
            0,
            i,
        ) && nodes[i as int].kind.has_fuel(),
{
    let order = visit_order(nodes, Walk::Everywhere, 0);
    lemma_visit_order_is_reach(nodes, Walk::Everywhere, 0);
    lemma_first_fueled(nodes, order, 0);
    if exists|i: usize|
        i < nodes.len() && #[trigger] reaches(nodes, Walk::Everywhere, 0, i)
            && nodes[i as int].kind.has_fuel() {
        let i = choose|i: usize|
            i < nodes.len() && #[trigger] reaches(nodes, Walk::Everywhere, 0, i)
                && nodes[i as int].kind.has_fuel();
        assert(order.contains(i));
        let j = choose|j: int| 0 <= j < order.len() && order[j] == i;
        assert(nodes[order[j] as int].kind.has_fuel());
        assert(fuel_source(nodes) is Some);
    }
    if fuel_source(nodes) is Some {
        let i = fuel_source(nodes)->0;
        assert(order.contains(i));
        assert(reaches(nodes, Walk::Everywhere, 0, i));
    }
}

/// Whether `order` holds an existing node of the sort `seek`.
fn order_has(nodes: &Vec<Node>, order: &Vec<usize>, seek: Seek) -> (found: bool)
    ensures
        found == exists|k: int|
            0 <= k < order@.len() && (#[trigger] order@[k]) < nodes@.len() && seek.fits(
                nodes@[order@[k] as int].kind,
            ),
{
    let mut k: usize = 0;
    while k < order.len()
        invariant
            k <= order.len(),
            forall|j: int|
                0 <= j < k ==> !((#[trigger] order@[j]) < nodes@.len() && seek.fits(
                    nodes@[order@[j] as int].kind,
                )),
        decreases order.len() - k,
    {
        let i: usize = order[k];
        if i < nodes.len() {
            let fits: bool = match seek {
                Seek::Reservoir => match nodes[i].kind {
                    NodeKind::Fuel(_) => true,
                    NodeKind::CoalFuel(_) => true,
                    _ => false,
                },
                Seek::Drill => match nodes[i].kind {
                    NodeKind::Drill { .. } => true,
                    _ => false,
                },
            };
            if fits {
                return true;
            }
        }
        k = k + 1;
    }
    false
}

/// Whether every drill node has all of its power slots filled.
fn check_drills_charged(nodes: &Vec<Node>) -> (charged: bool)
    ensures
        charged == drills_charged(nodes@),
{
    let mut i: usize = 0;
    while i < nodes.len()
        invariant
            i <= nodes.len(),
            forall|j: int|
                0 <= j < i ==> ((#[trigger] nodes@[j]).kind matches NodeKind::Drill {
                    level,
                    power,
                } ==> power.value == power.max),
        decreases nodes.len() - i,
    {
        match nodes[i].kind {
            NodeKind::Drill { power, .. } => {
                if !power.is_max() {
                    return false;
                }
            },
            _ => {},
        }
        i = i + 1;
    }
    true
}

/// The place in `order` of the first node that holds fuel to burn.
fn find_fueled(nodes: &Vec<Node>, order: &Vec<usize>) -> (found: Option<usize>)
    ensures
        found == first_fueled(nodes@, order@, 0),
{
    let mut k: usize = 0;
    while k < order.len()
        invariant
            k <= order.len(),
            first_fueled(nodes@, order@, 0) == first_fueled(nodes@, order@, k as int),
        decreases order.len() - k,
    {
        let i: usize = order[k];
        if i < nodes.len() {
            let fueled: bool = match nodes[i].kind {
                NodeKind::Fuel(fuel) => fuel.is_above_min(),
                NodeKind::CoalFuel(fuel) => fuel.is_above_min(),
                _ => false,
            };
            if fueled {
                return Some(i);
            }
        }
        k = k + 1;
    }
    None
}

/// Sets the cooldown of node `at` to the maximum, where that node exists and
/// is a sprint node.
fn charge_node(nodes: &mut Vec<Node>, at: usize, Ghost(bounds): Ghost<crate::geometry::Aabb2>)
    requires
        graph_wf(old(nodes)@, bounds),
    ensures
        final(nodes)@ == with_charged(old(nodes)@, at),
        graph_wf(final(nodes)@, bounds),
        graph_contained(old(nodes)@, bounds) ==> graph_contained(final(nodes)@, bounds),
{
    if at < nodes.len() {
        assert(nodes@[at as int].wf(bounds));
        match &mut nodes[at].kind {
            NodeKind::Sprint { cooldown } => {
                cooldown.set_ratio(1000);
            },
            _ => {},
        }
    }
    proof {
        let before = old(nodes)@;
        assert(nodes@ =~= with_charged(before, at));
        assert forall|j: int| 0 <= j < nodes@.len() implies ((#[trigger] nodes@[j]).kind is Power
            <==> j == 0) && nodes@[j].wf(bounds) by {
            assert(before[j].wf(bounds));
            assert(before[j].kind is Power <==> j == 0);
        }
        if graph_contained(before, bounds) {
            assert forall|j: int| 0 <= j < nodes@.len() implies (#[trigger] nodes@[j]).position.within(
                bounds,
            ) by {
                assert(before[j].position.within(bounds));
            }
        }
    }
}

/// Burns `delta_time` of the fuel of node `at`.
fn burn_node(
    nodes: &mut Vec<Node>,
    at: usize,
    delta_time: Time,
    Ghost(bounds): Ghost<crate::geometry::Aabb2>,
)
    requires
        graph_wf(old(nodes)@, bounds),
        at < old(nodes)@.len(),
    ensures
        final(nodes)@ == old(nodes)@.update(
            at as int,
            Node { kind: burnt(old(nodes)@[at as int].kind, delta_time), ..old(nodes)@[at as int] },
        ),
        graph_wf(final(nodes)@, bounds),
        graph_contained(old(nodes)@, bounds) ==> graph_contained(final(nodes)@, bounds),
{
    assert(nodes@[at as int].wf(bounds));
    match &mut nodes[at].kind {
        NodeKind::Fuel(fuel) => {
            fuel.spend(delta_time);
        },
        NodeKind::CoalFuel(fuel) => {
            fuel.spend(delta_time);
        },
        _ => {},
    }
    proof {
        let before = old(nodes)@;
        assert(nodes@ =~= before.update(
            at as int,
            Node { kind: burnt(before[at as int].kind, delta_time), ..before[at as int] },
        ));
        assert forall|j: int| 0 <= j < nodes@.len() implies ((#[trigger] nodes@[j]).kind is Power
            <==> j == 0) && nodes@[j].wf(bounds) by {
            assert(before[j].wf(bounds));
            assert(before[j].kind is Power <==> j == 0);
        }
        if graph_contained(before, bounds) {
            assert forall|j: int| 0 <= j < nodes@.len() implies (#[trigger] nodes@[j]).position.within(
                bounds,
            ) by {
                assert(before[j].position.within(bounds));
            }
        }
    }
}

impl Model {
    /// The drill can be launched: the phase is setup, chains of wires lead
    /// from the power node to a fuel reservoir and to a drill node, and every
    /// drill node has all of its power slots filled.
    pub open spec fn can_launch(&self) -> bool {
        &&& self.phase is Setup
        &&& connected(self.nodes.nodes@, Seek::Reservoir)
        &&& connected(self.nodes.nodes@, Seek::Drill)
        &&& drills_charged(self.nodes.nodes@)
    }

    /// `post` is `pre` after an attempt to launch the drill.
    pub open spec fn launched(pre: Model, post: Model) -> bool {
        if pre.can_launch() {
            &&& post.phase is Drill
            &&& post.drill == (Drill { target_speed: pre.config.drill_speed, ..pre.drill })
            &&& post.events@ == pre.events@.push(Event::Launched)
            &&& post == (Model {
                phase: post.phase,
                drill: post.drill,
                events: post.events,
                ..pre
            })
        } else {
            post == pre
        }
    }

    /// Launches the drill where it can be launched, and does nothing
    /// otherwise.
    pub fn launch_drill(&mut self)
        ensures
            Model::launched(*old(self), *final(self)),
            old(self).wf() ==> final(self).wf(),
    {
        match self.phase {
            Phase::Setup => {},
            Phase::Drill => {
                return ;
            },
        }
        let order = traverse(&self.nodes.nodes, Walk::Everywhere, 0);
        let has_fuel: bool = order_has(&self.nodes.nodes, &order, Seek::Reservoir);
        let has_drill: bool = order_has(&self.nodes.nodes, &order, Seek::Drill);
        proof {
            let nodes = self.nodes.nodes@;
            lemma_visit_order_is_reach(nodes, Walk::Everywhere, 0);
            assert(has_fuel == connected(nodes, Seek::Reservoir)) by {
                lemma_order_has(nodes, order@, Seek::Reservoir);
            }
            assert(has_drill == connected(nodes, Seek::Drill)) by {
                lemma_order_has(nodes, order@, Seek::Drill);
            }
        }
        if !has_fuel || !has_drill {
            return ;
        }
        if !check_drills_charged(&self.nodes.nodes) {
            return ;
        }
        self.phase = Phase::Drill;
        self.drill.target_speed = self.config.drill_speed;
        self.events.push(Event::Launched);
    }

    /// A sprint can start at node `node_i`: the drill descends and does not
    /// sprint, and the node is a sprint node that has cooled down.
    pub open spec fn can_sprint(&self, node_i: usize) -> bool {
        &&& self.phase is Drill
        &&& self.drill.sprint is None
        &&& node_i < self.nodes.nodes@.len()
        &&& self.nodes.nodes@[node_i as int].kind matches NodeKind::Sprint { cooldown }
            && cooldown.value <= cooldown.min
    }

    /// `post` is `pre` after an attempt to start a sprint at node `node_i`.
    pub open spec fn sprint_started(pre: Model, post: Model, node_i: usize) -> bool {
        if pre.can_sprint(node_i) {
            &&& post.nodes.nodes@ == with_charged(pre.nodes.nodes@, node_i)
            &&& post.nodes == (Nodes { nodes: post.nodes.nodes, ..pre.nodes })
            &&& post.drill == (Drill {
                sprint: Some(
                    DrillSprint {
                        caused_by_node: node_i,
                        duration: Bounded {
                            value: pre.config.sprint_duration,
                            min: 0i64,
                            max: pre.config.sprint_duration,
                        },
                    },
                ),
                speed: sat(pre.drill.speed + pre.config.sprint_boost) as i64,
                ..pre.drill
            })
            &&& post == (Model { nodes: post.nodes, drill: post.drill, ..pre })
        } else {
            post == pre
        }
    }

    /// Starts a sprint at node `node_i` where one can start, and does nothing
    /// otherwise: the node's cooldown goes to its maximum, and the drill gets
    /// the sprint boost for the configured duration.
    pub fn start_sprint(&mut self, node_i: usize)
        requires
            old(self).wf(),
        ensures
            Model::sprint_started(*old(self), *final(self), node_i),
            final(self).wf(),
            old(self).nodes.contained() ==> final(self).nodes.contained(),
    {
        match self.phase {
            Phase::Drill => {},
            Phase::Setup => {
                return ;
            },
        }
        if self.drill.sprint.is_some() {
            return ;
        }
        if node_i >= self.nodes.nodes.len() {
            return ;
        }
        match self.nodes.nodes[node_i].kind {
            NodeKind::Sprint { cooldown } => {
                if cooldown.is_above_min() {
                    return ;
                }
            },
            _ => {
                return ;
            },
        }
        charge_node(&mut self.nodes.nodes, node_i, Ghost(self.nodes.bounds));
        self.drill.sprint = Some(
            DrillSprint {
                caused_by_node: node_i,
                duration: Bounded::<i64>::new_max(self.config.sprint_duration),
            },
        );
        self.drill.speed = sat_add(self.drill.speed, self.config.sprint_boost);
    }

    /// The speed that the drill heads for: its top speed, and the sprint
    /// boost on top while it sprints.
    pub open spec fn aimed_speed(&self) -> int {
        if self.drill.sprint is Some {
            sat(self.drill.max_speed + self.config.sprint_boost)
        } else {
            self.drill.max_speed as int
        }
    }

    /// The speed of the drill after a tick of `delta_time`: it approaches
    /// the aimed speed by no more than the acceleration allows.
    pub open spec fn next_speed(&self, delta_time: Time) -> int {
        approach(
            self.drill.speed as int,
            self.aimed_speed(),
            sat(scaled(self.config.drill_acceleration as int, delta_time as int)),
        )
    }

    /// What is left of the sprint after a tick of `delta_time`: nothing
    /// once its duration is used up.
    pub open spec fn next_sprint(&self, delta_time: Time) -> Option<DrillSprint> {
        match self.drill.sprint {
            Some(sprint) => {
                let duration = sprint.duration.with_value(sprint.duration.value - delta_time);
                if duration.value == duration.min {
                    None
                } else {
                    Some(DrillSprint { duration, ..sprint })
                }
            },
            None => None,
        }
    }

    /// `post` is `pre` with the drill moved for `delta_time` in the direction
    /// `heading`.
    pub open spec fn drill_moved(pre: Model, post: Model, delta_time: Time, heading: Vec2) -> bool {
        let speed = pre.next_speed(delta_time) as i64;
        let step = sat(scaled(speed as int, delta_time as int)) as i64;
        &&& post.drill.target_speed == pre.aimed_speed()
        &&& post.drill.speed == speed
        &&& post.drill.collider.position == pre.drill.collider.position.plus(heading.times(step))
        &&& post.drill.collider == (crate::collider::Collider {
            position: post.drill.collider.position,
            ..pre.drill.collider
        })
        &&& post.drill.sprint == pre.next_sprint(delta_time)
        &&& post.drill == (Drill {
            target_speed: post.drill.target_speed,
            speed: post.drill.speed,
            collider: post.drill.collider,
            sprint: post.drill.sprint,
            ..pre.drill
        })
        &&& post.nodes.nodes@ == (match pre.drill.sprint {
            Some(sprint) => with_charged(pre.nodes.nodes@, sprint.caused_by_node),
            None => pre.nodes.nodes@,
        })
        &&& post.nodes == (Nodes { nodes: post.nodes.nodes, ..pre.nodes })
        &&& post == (Model { nodes: post.nodes, drill: post.drill, ..pre })
    }

    /// Moves the drill for `delta_time`: its speed approaches the aimed speed
    /// and it advances along `heading`, the unit vector of its rotation. While
    /// it sprints, the cooldown of the node that started the sprint is held at
    /// its maximum and the sprint runs down.
    pub fn move_drill(&mut self, delta_time: Time, heading: Vec2)
        requires
            old(self).wf(),
        ensures
            Model::drill_moved(*old(self), *final(self), delta_time, heading),
            final(self).wf(),
            old(self).nodes.contained() ==> final(self).nodes.contained(),
    {
        self.drill.target_speed = if self.drill.sprint.is_some() {
            sat_add(self.drill.max_speed, self.config.sprint_boost)
        } else {
            self.drill.max_speed
        };
        let limit: i64 = mul_scaled(self.config.drill_acceleration, delta_time);
        self.drill.speed = move_toward(self.drill.speed, self.drill.target_speed, limit);
        let step: i64 = mul_scaled(self.drill.speed, delta_time);
        self.drill.collider.position = self.drill.collider.position.add(heading.scale(step));
        match self.drill.sprint {
            Some(sprint) => {
                charge_node(&mut self.nodes.nodes, sprint.caused_by_node, Ghost(self.nodes.bounds));
                let mut duration = sprint.duration;
                duration.spend(delta_time);
                if duration.is_min() {
                    self.drill.sprint = None;
                } else {
                    self.drill.sprint = Some(DrillSprint { duration, ..sprint });
                }
            },
            None => {},
        }
    }

    /// `post` is `pre` after the end of the drill phase, where `pre` was in
    /// that phase: the phase is setup and a new level was started.
    pub open spec fn phase_ended(pre: Model, post: Model) -> bool {
        if pre.phase is Drill {
            &&& post.phase is Setup
            &&& post.events@ == pre.events@.push(Event::PhaseEnded)
            &&& Model::level_reset(pre, Model { phase: pre.phase, events: pre.events, ..post })
        } else {
            post == pre
        }
    }

    /// Ends the drill phase and starts a new level; does nothing in the
    /// setup phase.
    pub fn end_drill_phase(&mut self)
        requires
            old(self).wf(),
        ensures
            Model::phase_ended(*old(self), *final(self)),
            final(self).wf(),
            old(self).nodes.contained() ==> final(self).nodes.contained(),
    {
        match self.phase {
            Phase::Drill => {},
            Phase::Setup => {
                return ;
            },
        }
        self.generate_level();
        let ghost reset = *self;
        self.phase = Phase::Setup;
        self.events.push(Event::PhaseEnded);
        assert((Model { phase: old(self).phase, events: old(self).events, ..*self }) == reset);
    }

    /// `post` is `pre` after the drill drew fuel for `delta_time`: the fuel
    /// source burnt that much, or the drill phase ended for want of one.
    pub open spec fn fuel_used(pre: Model, post: Model, delta_time: Time) -> bool {
        match fuel_source(pre.nodes.nodes@) {
            Some(i) => {
                &&& post.nodes.nodes@ == pre.nodes.nodes@.update(
                    i as int,
                    Node {
                        kind: burnt(pre.nodes.nodes@[i as int].kind, delta_time),
                        ..pre.nodes.nodes@[i as int]
                    },
                )
                &&& post.nodes == (Nodes { nodes: post.nodes.nodes, ..pre.nodes })
                &&& post == (Model { nodes: post.nodes, ..pre })
            },
            None => Model::phase_ended(pre, post),
        }
    }

    /// Burns `delta_time` of fuel in the first reservoir holding any that a
    /// search from the power node meets; ends the drill phase where there is
    /// none.
    pub fn use_fuel(&mut self, delta_time: Time)
        requires
            old(self).wf(),
        ensures
            Model::fuel_used(*old(self), *final(self), delta_time),
            final(self).wf(),
            old(self).nodes.contained() ==> final(self).nodes.contained(),
    {
        let order = traverse(&self.nodes.nodes, Walk::Everywhere, 0);
        match find_fueled(&self.nodes.nodes, &order) {
            Some(i) => {
                proof {
                    lemma_first_fueled(self.nodes.nodes@, order@, 0);
                }
                burn_node(&mut self.nodes.nodes, i, delta_time, Ghost(self.nodes.bounds));
            },
            None => {
                self.end_drill_phase();
            },
        }
    }

    /// `post` is `pre` with the camera centered on the drill.
    pub open spec fn camera_updated(pre: Model, post: Model) -> bool {
        post == (Model {
            camera: Camera { center: pre.drill.collider.position, ..pre.camera },
            ..pre
        })
    }

    /// Centers the camera on the drill.
    pub fn update_camera(&mut self)
        ensures
            Model::camera_updated(*old(self), *final(self)),
    {
        self.camera.center = self.drill.collider.position;
    }
}

/// A list holds an existing node of the sort `seek` exactly when one of its
/// entries is one; for the list of a search, that is when a chain of wires
/// leads to one.
proof fn lemma_order_has(nodes: Seq<Node>, order: Seq<usize>, seek: Seek)
    requires
        order == visit_order(nodes, Walk::Everywhere, 0),
        forall|t: usize| order.contains(t) <==> reaches(nodes, Walk::Everywhere, 0, t),
        tidy(nodes, order),
    ensures
        connected(nodes, seek) <==> exists|k: int|
            0 <= k < order.len() && (#[trigger] order[k]) < nodes.len() && seek.fits(
                nodes[order[k] as int].kind,
            ),
{
    if connected(nodes, seek) {
        let i = choose|i: usize|
            i < nodes.len() && #[trigger] reaches(nodes, Walk::Everywhere, 0, i) && seek.fits(
                nodes[i as int].kind,
            );
        assert(order.contains(i));
        let k = choose|k: int| 0 <= k < order.len() && order[k] == i;
        assert(order[k] < nodes.len() && seek.fits(nodes[order[k] as int].kind));
    }
    if exists|k: int|
        0 <= k < order.len() && (#[trigger] order[k]) < nodes.len() && seek.fits(
            nodes[order[k] as int].kind,
        ) {
        let k = choose|k: int|
            0 <= k < order.len() && (#[trigger] order[k]) < nodes.len() && seek.fits(
                nodes[order[k] as int].kind,
            );
        assert(order.contains(order[k]));
        assert(reaches(nodes, Walk::Everywhere, 0, order[k]));
    }
}

} // verus!
