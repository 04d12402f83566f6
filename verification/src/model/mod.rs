//! The simulation state and its data types.

pub mod edit;
pub mod graph;
pub mod logic;
pub mod particles;
pub mod reach;
pub mod setup;
pub mod validate;

use crate::bounded::Bounded;
use crate::collider::Collider;
use crate::geometry::{Aabb2, Vec2};
use crate::model::particles::{Color, SpawnParticles, TransientStore};
use crate::scalar::{Coord, Fuel, Money, ResourceCount, Time, UNIT};
use std::collections::HashSet;
use vstd::prelude::*;

verus! {

/// The tier of a resource; a drill mines every tier up to its own.
#[derive(Clone, Copy, Debug, PartialEq, Eq, Hash, PartialOrd, Ord, Structural)]
pub enum ResourceKind {
    Coal,
    Iron,
    Bronze,
    Silver,
    Gold,
    Gem,
}

impl ResourceKind {
    /// The rank of the tier: 0 for coal up to 5 for gems.
    pub open spec fn rank(self) -> int {
        match self {
            ResourceKind::Coal => 0,
            ResourceKind::Iron => 1,
            ResourceKind::Bronze => 2,
            ResourceKind::Silver => 3,
            ResourceKind::Gold => 4,
            ResourceKind::Gem => 5,
        }
    }

    /// The rank of the tier.
    pub fn tier(self) -> (r: u8)
        ensures
            r == self.rank(),
    {
        match self {
            ResourceKind::Coal => 0,
            ResourceKind::Iron => 1,
            ResourceKind::Bronze => 2,
            ResourceKind::Silver => 3,
            ResourceKind::Gold => 4,
            ResourceKind::Gem => 5,
        }
    }
}

/// A slot of a node, named by the node's index and the slot's index in it.
#[derive(Clone, Copy, Debug, PartialEq, Eq, Hash, Structural)]
pub struct ConnectionId {
    pub node: usize,
    pub connection: usize,
}

/// What a slot carries; only slots of one kind can be wired together.
#[derive(Clone, Copy, Debug, PartialEq, Eq, Hash, Structural)]
pub enum ConnectionKind {
    Normal,
    Fuel,
    Upgrade,
    Drill,
}

/// A connection slot of a node.
#[derive(Clone, Copy, Debug)]
pub struct NodeConnection {
    /// Where the slot sits in the node's rectangle, as a ratio of its size.
    pub offset: Vec2,
    pub kind: ConnectionKind,
    /// The slot at the other end of the wire, if there is one.
    pub connected_to: Option<ConnectionId>,
}

/// What a node does.
#[derive(Clone, Copy, Debug)]
#[allow(inconsistent_fields)]
pub enum NodeKind {
    Power,
    Fuel(Bounded<Fuel>),
    Shop { level: usize },
    Drill { level: ResourceKind, power: Bounded<usize> },
    TurnLeft,
    TurnRight,
    Sprint { cooldown: Bounded<Time> },
    Upgrade,
    Battery,
    Vision { level: usize },
    Speed { level: usize },
    CoalFuel(Bounded<Fuel>),
}

impl NodeKind {
    /// Every gauge of the kind holds a value within its bounds.
    pub open spec fn wf(self) -> bool {
        match self {
            NodeKind::Fuel(fuel) => fuel.wf(),
            NodeKind::CoalFuel(fuel) => fuel.wf(),
            NodeKind::Drill { level, power } => power.wf(),
            NodeKind::Sprint { cooldown } => cooldown.wf(),
            _ => true,
        }
    }

    /// The kind holds fuel that can still be burnt.
    pub open spec fn has_fuel(self) -> bool {
        match self {
            NodeKind::Fuel(fuel) => fuel.value > fuel.min,
            NodeKind::CoalFuel(fuel) => fuel.value > fuel.min,
            _ => false,
        }
    }

    /// The kind is a fuel reservoir of either sort.
    pub open spec fn is_reservoir(self) -> bool {
        self is Fuel || self is CoalFuel
    }
}

/// A node of the graph.
#[derive(Clone, Debug)]
pub struct Node {
    /// Whether the node is connected to power.
    pub is_powered: bool,
    pub position: Aabb2,
    pub kind: NodeKind,
    pub connections: Vec<NodeConnection>,
}

/// Where the view onto a plane is centered and how much of it is shown.
#[derive(Clone, Copy, Debug)]
pub struct Camera {
    pub center: Vec2,
    /// The height of the visible area.
    pub fov: Coord,
}

/// The editable graph: its nodes and the rectangle they are kept in.
#[derive(Clone, Debug)]
pub struct Nodes {
    pub bounds: Aabb2,
    pub camera: Camera,
    pub nodes: Vec<Node>,
}

impl Node {
    /// The node's gauges are in order, and its rectangle is one that fits
    /// into `bounds`.
    pub open spec fn wf(self, bounds: Aabb2) -> bool {
        &&& self.kind.wf()
        &&& self.position.wf()
        &&& self.position.fits(bounds)
    }
}

/// The graph `nodes` has its power node, and only that one, at index 0, and
/// every node is well formed.
pub open spec fn graph_wf(nodes: Seq<Node>, bounds: Aabb2) -> bool {
    &&& 1 <= nodes.len() <= usize::MAX
    &&& forall|i: int| 0 <= i < nodes.len() ==> ((#[trigger] nodes[i]).kind is Power <==> i == 0)
    &&& forall|i: int| 0 <= i < nodes.len() ==> (#[trigger] nodes[i]).wf(bounds)
}

/// Every node of `nodes` lies within `bounds`.
pub open spec fn graph_contained(nodes: Seq<Node>, bounds: Aabb2) -> bool {
    forall|i: int| 0 <= i < nodes.len() ==> (#[trigger] nodes[i]).position.within(bounds)
}

impl Nodes {
    /// The bounds are ordered and hold at least a node of unit size, and the
    /// graph is well formed.
    pub open spec fn wf(&self) -> bool {
        &&& self.bounds.wf()
        &&& self.bounds.width() >= UNIT
        &&& self.bounds.height() >= UNIT
        &&& graph_wf(self.nodes@, self.bounds)
    }

    /// Every node lies within the bounds.
    pub open spec fn contained(&self) -> bool {
        graph_contained(self.nodes@, self.bounds)
    }
}

/// What a shop item turns into when it is bought.
#[derive(Clone, Copy, Debug, PartialEq, Eq, Structural)]
pub enum ShopNode {
    FuelSmall,
    Fuel,
    TurnLeft,
    TurnRight,
    Battery,
    Upgrade,
    Speed,
    Light,
    Sprint,
    CoalFuel,
}

/// An item of a shop pool.
#[derive(Clone, Copy, Debug, PartialEq, Eq, Structural)]
pub struct ShopItem {
    pub cost: Money,
    pub node: ShopNode,
    /// Whether the item was bought already in this run.
    pub sold_out: bool,
}

/// An item on offer, with the pool it comes from and its place in it.
#[derive(Clone, Copy, Debug, PartialEq, Eq, Structural)]
pub struct ShopItemTracked {
    pub item: ShopItem,
    pub tier: usize,
    pub index: usize,
}

/// The pool of one shop tier.
#[derive(Clone, Debug)]
pub struct ShopConfig {
    /// How many items the shop offers at once at this tier.
    pub slots: usize,
    pub items: Vec<ShopItem>,
}

/// Where a mineral is generated, and how densely.
#[derive(Clone, Copy, Debug)]
pub struct MineralGeneration {
    /// The two ends of the range of depths, in either order.
    pub range: [Coord; 2],
    /// Minerals per unit of area, as a fixed-point number.
    pub density: Coord,
}

/// What a mineral is worth and where it is generated.
#[derive(Clone, Debug)]
pub struct MineralConfig {
    /// The money that one piece gives.
    pub value: Money,
    pub generation: Vec<MineralGeneration>,
}

/// The sort of a mineral.
#[derive(Clone, Copy, Debug, PartialEq, Eq, Hash, Structural)]
pub enum MineralKind {
    Resource(ResourceKind),
    Rock,
}

/// The configuration of one sort of mineral.
#[derive(Clone, Debug)]
pub struct MineralEntry {
    pub kind: MineralKind,
    pub config: MineralConfig,
}

/// A mineral in the ground.
#[derive(Clone, Copy, Debug)]
pub struct Mineral {
    pub collider: Collider,
    pub kind: MineralKind,
    pub amount: ResourceCount,
}

/// The rules of a game. Lengths, speeds, durations and amounts of fuel are
/// fixed-point numbers.
#[derive(Clone, Debug)]
pub struct Config {
    /// The width of the level.
    pub map_width: Coord,
    /// The fuel that one piece of coal adds to every coal reservoir.
    pub coal_fuel_value: Fuel,
    /// How much a node is dimmed while it is not connected to power.
    pub unpowered_node_dim: Coord,
    /// The radius of the drill.
    pub drill_size: Coord,
    /// The top speed of the drill without a powered speed node.
    pub drill_speed: Coord,
    /// The top speed with a powered speed node of level 0, 1, and 2 or more.
    pub drill_speed_0: Coord,
    pub drill_speed_1: Coord,
    pub drill_speed_2: Coord,
    /// By how much the speed of the drill changes in a unit of time.
    pub drill_acceleration: Coord,
    /// By how many degrees the drill turns in a unit of time.
    pub drill_rotation_speed: Coord,
    /// The vision radius without a powered vision node.
    pub vision: Coord,
    /// The vision radius with a powered vision node of level 0, 1, and 2 or
    /// more.
    pub vision_0: Coord,
    pub vision_1: Coord,
    pub vision_2: Coord,
    /// What a sprint adds to the speed of the drill.
    pub sprint_boost: Coord,
    pub sprint_duration: Time,
    pub sprint_cooldown: Time,
    /// The capacity of a small and of a normal fuel reservoir.
    pub fuel_small_amount: Fuel,
    pub fuel_normal_amount: Fuel,
    /// The sorts of minerals, each at most once.
    pub minerals: Vec<MineralEntry>,
    pub shop_0: ShopConfig,
    pub shop_1: ShopConfig,
    pub shop_2: ShopConfig,
}

impl Config {
    /// Capacities and durations are not negative, and no sort of mineral is
    /// configured twice.
    pub open spec fn wf(&self) -> bool {
        &&& self.fuel_small_amount >= 0
        &&& self.fuel_normal_amount >= 0
        &&& self.sprint_duration >= 0
        &&& forall|i: int, j: int|
            0 <= i < j < self.minerals@.len() ==> (#[trigger] self.minerals@[i]).kind
                != (#[trigger] self.minerals@[j]).kind
    }

    /// The pool of a tier; every tier from 2 on shares the last pool.
    pub open spec fn pool(&self, tier: usize) -> ShopConfig {
        if tier == 0 {
            self.shop_0
        } else if tier == 1 {
            self.shop_1
        } else {
            self.shop_2
        }
    }

    /// `self` and `other` agree in everything but the shop pools.
    pub open spec fn same_rules(&self, other: Config) -> bool {
        &&& self.map_width == other.map_width
        &&& self.coal_fuel_value == other.coal_fuel_value
        &&& self.unpowered_node_dim == other.unpowered_node_dim
        &&& self.drill_size == other.drill_size
        &&& self.drill_speed == other.drill_speed
        &&& self.drill_speed_0 == other.drill_speed_0
        &&& self.drill_speed_1 == other.drill_speed_1
        &&& self.drill_speed_2 == other.drill_speed_2
        &&& self.drill_acceleration == other.drill_acceleration
        &&& self.drill_rotation_speed == other.drill_rotation_speed
        &&& self.vision == other.vision
        &&& self.vision_0 == other.vision_0
        &&& self.vision_1 == other.vision_1
        &&& self.vision_2 == other.vision_2
        &&& self.sprint_boost == other.sprint_boost
        &&& self.sprint_duration == other.sprint_duration
        &&& self.sprint_cooldown == other.sprint_cooldown
        &&& self.fuel_small_amount == other.fuel_small_amount
        &&& self.fuel_normal_amount == other.fuel_normal_amount
        &&& self.minerals == other.minerals
    }

    /// The pool of tier `tier` is the same in `self` and `other`.
    pub open spec fn same_pool(&self, other: Config, tier: usize) -> bool {
        self.pool(tier).slots == other.pool(tier).slots && self.pool(tier).items@
            == other.pool(tier).items@
    }
}

/// The two modes of the simulation.
#[derive(Clone, Copy, Debug, PartialEq, Eq, Structural)]
pub enum Phase {
    /// The graph is edited and the shop is open.
    Setup,
    /// The drill descends.
    Drill,
}

/// A sprint that is under way.
#[derive(Clone, Copy, Debug)]
pub struct DrillSprint {
    /// The sprint node that started it.
    pub caused_by_node: usize,
    /// What is left of it.
    pub duration: Bounded<Time>,
}

/// The drill.
#[derive(Debug)]
pub struct Drill {
    pub collider: Collider,
    pub drill_level: ResourceKind,
    pub max_speed: Coord,
    pub speed: Coord,
    pub target_speed: Coord,
    /// The places in the mineral list of the minerals that the drill
    /// touched at the last tick.
    pub colliding_with: HashSet<usize>,
    pub sprint: Option<DrillSprint>,
    pub vision_radius: Coord,
    pub can_turn_left: bool,
    pub can_turn_right: bool,
}

/// Something that happened and that a listener may want to show or play.
#[derive(Clone, Copy, Debug, PartialEq, Eq, Structural)]
pub enum Event {
    /// The drill was launched.
    Launched,
    /// An item was bought.
    Purchased,
    /// The drill ran out of fuel and the setup phase began.
    PhaseEnded,
    /// The drill bounced off the side of the level.
    Bounced,
    /// The drill bounced off a mineral that it cannot mine.
    Collided,
    /// The drill mined at least one mineral.
    Collected,
}

/// The whole state of a game.
pub struct Model {
    pub config: Config,
    pub simulation_time: Time,
    pub phase: Phase,
    pub camera: Camera,
    /// The level: the drill bounces off its left and right sides.
    pub bounds: Aabb2,
    pub ground_level: Coord,
    /// The depth down to which minerals were generated.
    pub depth_generated: Coord,
    pub nodes: Nodes,
    pub money: Money,
    /// The items on offer.
    pub shop: Vec<ShopItemTracked>,
    pub drill: Drill,
    pub minerals: Vec<Mineral>,
    /// Bursts of particles that were asked for and not made yet.
    pub particles_queue: Vec<SpawnParticles>,
    pub particles: TransientStore,
    pub floating_texts: TransientStore,
    /// The color of the texts that tell what a mineral gave.
    pub text_color: Color,
    /// What happened since the listener last emptied this list.
    pub events: Vec<Event>,
}

impl Model {
    /// The configuration and the graph are well formed, the level has
    /// ordered bounds, and every gauge outside the graph is in order.
    pub open spec fn wf(&self) -> bool {
        &&& self.config.wf()
        &&& self.nodes.wf()
        &&& self.bounds.wf()
        &&& (self.drill.sprint matches Some(sprint) ==> sprint.duration.wf())
        &&& self.particles.wf()
        &&& self.floating_texts.wf()
    }
}

} // verus!
