//! The state that a game starts from.

use crate::bounded::Bounded;
use crate::collider::{Collider, Shape};
use crate::geometry::{Aabb2, Vec2};
use crate::model::logic::generate::{
    drawn_from, level_added, level_bounds, settled_depth, strips_range, FACING_DOWN,
};
use crate::model::logic::shop::{free_slot, new_slot};
use crate::model::particles::{Color, Transient, TransientStore};
use crate::model::{
    Camera, Config, ConnectionKind, Drill, Model, Node, NodeConnection, NodeKind, Nodes, Phase,
    ResourceKind,
};
use std::collections::HashSet;
use vstd::prelude::*;

verus! {

/// The rectangle in which the graph is edited: ten units wide and high, below
/// and to the right of the origin.
pub open spec fn editor_bounds() -> Aabb2 {
    Aabb2 { min: Vec2 { x: 0, y: -10_000i64 }, max: Vec2 { x: 10_000, y: 0 } }
}

/// The depth down to which the first level is generated at once.
pub open spec fn first_floor() -> i64 {
    -30_000i64
}

/// `nodes` is the graph that every game starts with: the power node, a small
/// fuel reservoir that is full, the drill and the shop, none wired to another.
pub open spec fn is_initial_graph(nodes: Seq<Node>, config: Config) -> bool {
    &&& nodes.len() == 4
    &&& forall|i: int| 0 <= i < 4 ==> !(#[trigger] nodes[i]).is_powered
    &&& nodes[0].kind is Power
    &&& nodes[0].position == (Aabb2 {
        min: Vec2 { x: 0, y: -1000i64 },
        max: Vec2 { x: 1000, y: 0 },
    })
    &&& nodes[0].connections@ == seq![
        free_slot(1000, 500, ConnectionKind::Fuel),
        free_slot(500, 0, ConnectionKind::Drill),
    ]
    &&& nodes[1].kind == NodeKind::Fuel(
        Bounded { value: config.fuel_small_amount, min: 0i64, max: config.fuel_small_amount },
    )
    &&& nodes[1].position == (Aabb2 {
        min: Vec2 { x: 3000, y: -3000i64 },
        max: Vec2 { x: 5000, y: -2000i64 },
    })
    &&& nodes[1].connections@ == seq![free_slot(0, 500, ConnectionKind::Fuel)]
    &&& nodes[2].kind == (NodeKind::Drill {
        level: ResourceKind::Iron,
        power: Bounded { value: 0usize, min: 0usize, max: 0usize },
    })
    &&& nodes[2].position == (Aabb2 {
        min: Vec2 { x: 2000, y: -7000i64 },
        max: Vec2 { x: 4000, y: -6000i64 },
    })
    &&& nodes[2].connections@ == seq![
        free_slot(0, 500, ConnectionKind::Drill),
        free_slot(500, 1000, ConnectionKind::Upgrade),
        free_slot(1000, 500, ConnectionKind::Normal),
    ]
    &&& nodes[3].kind == (NodeKind::Shop { level: 0 })
    &&& nodes[3].position == (Aabb2 {
        min: Vec2 { x: 0, y: -10_000i64 },
        max: Vec2 { x: 3000, y: -9000i64 },
    })
    &&& nodes[3].connections@ == seq![free_slot(500, 1000, ConnectionKind::Upgrade)]
}

/// The graph that every game starts with.
fn initial_graph(config: &Config) -> (nodes: Vec<Node>)
    requires
        config.wf(),
    ensures
        is_initial_graph(nodes@, *config),
{
    let mut power_slots: Vec<NodeConnection> = Vec::new();
    power_slots.push(new_slot(1000, 500, ConnectionKind::Fuel));
    power_slots.push(new_slot(500, 0, ConnectionKind::Drill));
    let mut fuel_slots: Vec<NodeConnection> = Vec::new();
    fuel_slots.push(new_slot(0, 500, ConnectionKind::Fuel));
    let mut drill_slots: Vec<NodeConnection> = Vec::new();
    drill_slots.push(new_slot(0, 500, ConnectionKind::Drill));
    drill_slots.push(new_slot(500, 1000, ConnectionKind::Upgrade));
    drill_slots.push(new_slot(1000, 500, ConnectionKind::Normal));
    let mut shop_slots: Vec<NodeConnection> = Vec::new();
    shop_slots.push(new_slot(500, 1000, ConnectionKind::Upgrade));
    assert(power_slots@ =~= seq![
        free_slot(1000, 500, ConnectionKind::Fuel),
        free_slot(500, 0, ConnectionKind::Drill),
    ]);
    assert(fuel_slots@ =~= seq![free_slot(0, 500, ConnectionKind::Fuel)]);
    assert(drill_slots@ =~= seq![
        free_slot(0, 500, ConnectionKind::Drill),
        free_slot(500, 1000, ConnectionKind::Upgrade),
        free_slot(1000, 500, ConnectionKind::Normal),
    ]);
    assert(shop_slots@ =~= seq![free_slot(500, 1000, ConnectionKind::Upgrade)]);
    let mut nodes: Vec<Node> = Vec::new();
    nodes.push(
        Node {
            is_powered: false,
            position: Aabb2 { min: Vec2 { x: 0, y: -1000i64 }, max: Vec2 { x: 1000, y: 0 } },
            kind: NodeKind::Power,
            connections: power_slots,
        },
    );
    nodes.push(
        Node {
            is_powered: false,
            position: Aabb2 { min: Vec2 { x: 3000, y: -3000i64 }, max: Vec2 { x: 5000, y: -2000i64 } },
            kind: NodeKind::Fuel(Bounded::<i64>::new_max(config.fuel_small_amount)),
            connections: fuel_slots,
        },
    );
    nodes.push(
        Node {
            is_powered: false,
            position: Aabb2 { min: Vec2 { x: 2000, y: -7000i64 }, max: Vec2 { x: 4000, y: -6000i64 } },
            kind: NodeKind::Drill {
                level: ResourceKind::Iron,
                power: Bounded::<usize>::new_zero(0),
            },
            connections: drill_slots,
        },
    );
    nodes.push(
        Node {
            is_powered: false,
            position: Aabb2 { min: Vec2 { x: 0, y: -10_000i64 }, max: Vec2 { x: 3000, y: -9000i64 } },
            kind: NodeKind::Shop { level: 0 },
            connections: shop_slots,
        },
    );
    nodes
}

impl Model {
    /// A new game: the initial graph, no money, the drill at rest at ground
    /// level and a first level generated.
    pub fn new(config: Config) -> (model: Model)
        requires
            config.wf(),
        ensures
            model.wf(),
            model.nodes.contained(),
            model.config == config,
            model.phase is Setup,
            model.simulation_time == 0,
            model.money == 0,
            model.ground_level == 0,
            model.events@.len() == 0,
            model.particles_queue@.len() == 0,
            model.particles@ == (Map::<u64, Transient>::empty()),
            model.floating_texts@ == (Map::<u64, Transient>::empty()),
            model.text_color == (Color { r: 255, g: 215, b: 0, a: 255 }),
            model.camera == (Camera { center: Vec2 { x: 0, y: 0 }, fov: 15_000 }),
            model.nodes.bounds == editor_bounds(),
            model.nodes.camera == (Camera { center: Vec2 { x: 5000, y: -5000i64 }, fov: 11_000 }),
            is_initial_graph(model.nodes.nodes@, config),
            model.drill.collider == (Collider {
                position: Vec2 { x: 0, y: 0 },
                rotation: FACING_DOWN,
                shape: Shape::Circle { radius: config.drill_size },
            }),
            model.drill.drill_level == ResourceKind::Iron,
            model.drill.speed == 0,
            model.drill.target_speed == 0,
            model.drill.max_speed == config.drill_speed,
            model.drill.vision_radius == config.vision,
            model.drill.sprint is None,
            model.drill.colliding_with@ == Set::<usize>::empty(),
            !model.drill.can_turn_left,
            !model.drill.can_turn_right,
            model.bounds == level_bounds(config.map_width),
            model.depth_generated == settled_depth(0, first_floor()),
            level_added(
                Seq::empty(),
                model.minerals@,
                strips_range(config, 0, first_floor()),
                config.minerals@,
                model.bounds,
                0,
                model.depth_generated,
            ),
            drawn_from(model.shop@, config.shop_0, 0),
    {
        let nodes = initial_graph(&config);
        let drill = Drill {
            collider: Collider::circle(Vec2 { x: 0, y: 0 }, config.drill_size),
            drill_level: ResourceKind::Iron,
            max_speed: config.drill_speed,
            speed: 0,
            target_speed: 0,
            colliding_with: HashSet::new(),
            sprint: None,
            vision_radius: config.vision,
            can_turn_left: false,
            can_turn_right: false,
        };
        let mut model = Model {
            config,
            simulation_time: 0,
            phase: Phase::Setup,
            camera: Camera { center: Vec2 { x: 0, y: 0 }, fov: 15_000 },
            bounds: Aabb2 { min: Vec2 { x: 0, y: 0 }, max: Vec2 { x: 0, y: 0 } },
            ground_level: 0,
            depth_generated: 0,
            nodes: Nodes {
                bounds: Aabb2 { min: Vec2 { x: 0, y: -10_000i64 }, max: Vec2 { x: 10_000, y: 0 } },
                camera: Camera { center: Vec2 { x: 5000, y: -5000i64 }, fov: 11_000 },
                nodes,
            },
            money: 0,
            shop: Vec::new(),
            drill,
            minerals: Vec::new(),
            particles_queue: Vec::new(),
            particles: TransientStore::new(),
            floating_texts: TransientStore::new(),
            text_color: Color { r: 255, g: 215, b: 0, a: 255 },
            events: Vec::new(),
        };
        proof {
            let graph = model.nodes.nodes@;
            assert forall|i: int| 0 <= i < graph.len() implies ((#[trigger] graph[i]).kind is Power
                <==> i == 0) && graph[i].wf(model.nodes.bounds) && graph[i].position.within(
                model.nodes.bounds,
            ) by {
                if i == 0 {
                } else if i == 1 {
                } else if i == 2 {
                } else {
                    assert(i == 3);
                }
            }
            assert(model.wf());
        }
        let ghost start = model.nodes.nodes@;
        model.generate_level();
        proof {
            assert(model.nodes.nodes@ =~= start);
            assert(crate::model::logic::shop::shop_level(start) == Some(0usize)) by {
                reveal_with_fuel(crate::model::logic::shop::shop_level_upto, 5);
            }
        }
        model
    }
}

} // verus!
