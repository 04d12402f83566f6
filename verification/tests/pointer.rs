use drill_core::geometry::Vec2;
use drill_core::interaction::{hover, Drag, DragTarget, Pressed};
use drill_core::model::{
    Config, ConnectionId, Event, Model, NodeKind, Phase, ShopConfig, ShopItem, ShopItemTracked,
    ShopNode,
};

fn plain_rules() -> Config {
    Config {
        map_width: 10_000,
        coal_fuel_value: 500,
        unpowered_node_dim: 500,
        drill_size: 300,
        drill_speed: 3000,
        drill_speed_0: 4000,
        drill_speed_1: 5000,
        drill_speed_2: 6000,
        drill_acceleration: 2000,
        drill_rotation_speed: 90_000,
        vision: 3000,
        vision_0: 4000,
        vision_1: 5000,
        vision_2: 6000,
        sprint_boost: 2000,
        sprint_duration: 1000,
        sprint_cooldown: 3000,
        fuel_small_amount: 1000,
        fuel_normal_amount: 5000,
        minerals: Vec::new(),
        shop_0: ShopConfig {
            slots: 2,
            items: vec![ShopItem { cost: 10, node: ShopNode::Upgrade, sold_out: false }],
        },
        shop_1: ShopConfig { slots: 2, items: Vec::new() },
        shop_2: ShopConfig { slots: 2, items: Vec::new() },
    }
}

fn add(model: &mut Model, node: ShopNode) -> usize {
    model.shop = vec![ShopItemTracked {
        item: ShopItem { cost: 0, node, sold_out: false },
        tier: 0,
        index: 99,
    }];
    model.purchase_item(0);
    model.nodes.nodes.len() - 1
}

#[test]
fn pointer_finds_slots_before_nodes() {
    let model = Model::new(plain_rules());
    let nodes = &model.nodes.nodes;
    assert_eq!(hover(nodes, Vec2::new(1000, -500)), Some(DragTarget::NodeConnection { node: 0, conn: 0 }));
    assert_eq!(hover(nodes, Vec2::new(1100, -400)), Some(DragTarget::NodeConnection { node: 0, conn: 0 }));
    assert_eq!(hover(nodes, Vec2::new(500, -1000)), Some(DragTarget::NodeConnection { node: 0, conn: 1 }));
    assert_eq!(hover(nodes, Vec2::new(500, -1199)), Some(DragTarget::NodeConnection { node: 0, conn: 1 }));
    assert_eq!(hover(nodes, Vec2::new(500, -1200)), None);
    assert_eq!(
        hover(nodes, Vec2::new(500, -500)),
        Some(DragTarget::Node { index: 0, from_position: Vec2::new(500, -500) })
    );
    assert_eq!(
        hover(nodes, Vec2::new(4000, -2900)),
        Some(DragTarget::Node { index: 1, from_position: Vec2::new(4000, -2500) })
    );
    assert_eq!(hover(nodes, Vec2::new(3000, -2500)), Some(DragTarget::NodeConnection { node: 1, conn: 0 }));
    assert_eq!(hover(nodes, Vec2::new(3000, -6000)), Some(DragTarget::NodeConnection { node: 2, conn: 1 }));
    assert_eq!(hover(nodes, Vec2::new(8000, -8000)), None);
    assert_eq!(hover(&Vec::new(), Vec2::new(0, 0)), None);
}

#[test]
fn pointer_takes_the_last_of_overlapping_nodes() {
    let mut model = Model::new(plain_rules());
    let a = add(&mut model, ShopNode::Battery);
    let b = add(&mut model, ShopNode::Battery);
    assert_eq!(
        hover(&model.nodes.nodes, Vec2::new(5000, -5200)),
        Some(DragTarget::Node { index: b, from_position: Vec2::new(5000, -5000) })
    );
    assert_eq!(
        hover(&model.nodes.nodes, Vec2::new(4500, -5000)),
        Some(DragTarget::NodeConnection { node: a, conn: 0 })
    );
}

#[test]
fn press_on_the_power_node_launches() {
    let mut model = Model::new(plain_rules());
    let power = DragTarget::Node { index: 0, from_position: Vec2::new(500, -500) };
    assert_eq!(model.start_drag(power), Pressed::Nothing);
    assert_eq!(model.phase, Phase::Setup);
    assert!(model.connect(
        ConnectionId { node: 0, connection: 0 },
        ConnectionId { node: 1, connection: 0 }
    ));
    assert!(model.connect(
        ConnectionId { node: 0, connection: 1 },
        ConnectionId { node: 2, connection: 0 }
    ));
    assert_eq!(model.start_drag(power), Pressed::Nothing);
    assert_eq!(model.phase, Phase::Drill);
    assert_eq!(model.events, vec![Event::Launched]);
}

#[test]
fn press_on_nodes_drags_or_toggles() {
    let mut model = Model::new(plain_rules());
    let at = Vec2::new(0, 0);
    assert_eq!(model.start_drag(DragTarget::Node { index: 3, from_position: at }), Pressed::ShopToggled);
    assert_eq!(model.start_drag(DragTarget::Node { index: 1, from_position: at }), Pressed::Dragging);
    assert_eq!(model.start_drag(DragTarget::Node { index: 2, from_position: at }), Pressed::Dragging);
    assert_eq!(model.start_drag(DragTarget::Node { index: 9, from_position: at }), Pressed::Nothing);
    let sprint = add(&mut model, ShopNode::Sprint);
    assert_eq!(
        model.start_drag(DragTarget::Node { index: sprint, from_position: at }),
        Pressed::Dragging
    );
    assert!(model.drill.sprint.is_none());
    model.phase = Phase::Drill;
    assert_eq!(
        model.start_drag(DragTarget::Node { index: sprint, from_position: at }),
        Pressed::Dragging
    );
    assert_eq!(model.drill.sprint.map(|s| s.caused_by_node), Some(sprint));
}

#[test]
fn press_on_a_slot_takes_its_wire_off() {
    let mut model = Model::new(plain_rules());
    assert!(model.connect(
        ConnectionId { node: 0, connection: 0 },
        ConnectionId { node: 1, connection: 0 }
    ));
    assert_eq!(model.start_drag(DragTarget::NodeConnection { node: 1, conn: 5 }), Pressed::Nothing);
    assert_eq!(model.start_drag(DragTarget::NodeConnection { node: 7, conn: 0 }), Pressed::Nothing);
    model.phase = Phase::Drill;
    assert_eq!(model.start_drag(DragTarget::NodeConnection { node: 1, conn: 0 }), Pressed::Nothing);
    assert!(model.nodes.nodes[0].connections[0].connected_to.is_some());
    model.phase = Phase::Setup;
    assert_eq!(model.start_drag(DragTarget::NodeConnection { node: 1, conn: 0 }), Pressed::Dragging);
    assert!(model.nodes.nodes[0].connections[0].connected_to.is_none());
    assert!(model.nodes.nodes[1].connections[0].connected_to.is_none());
    assert_eq!(model.start_drag(DragTarget::NodeConnection { node: 1, conn: 0 }), Pressed::Dragging);
}

#[test]
fn press_on_an_offer_buys_it() {
    let mut model = Model::new(plain_rules());
    model.update_shop();
    model.money = 10;
    assert_eq!(model.start_drag(DragTarget::Shop { item: 0 }), Pressed::Nothing);
    assert_eq!(model.money, 0);
    assert_eq!(model.nodes.nodes.len(), 5);
    assert!(matches!(model.nodes.nodes[4].kind, NodeKind::Upgrade));
    assert_eq!(model.start_drag(DragTarget::Shop { item: 0 }), Pressed::Nothing);
    assert_eq!(model.nodes.nodes.len(), 5);
}

#[test]
fn dropping_a_wire_on_a_slot_connects() {
    let mut model = Model::new(plain_rules());
    let from = DragTarget::NodeConnection { node: 0, conn: 0 };
    let onto = DragTarget::NodeConnection { node: 1, conn: 0 };
    assert!(!model.end_drag(from, None));
    assert!(!model.end_drag(from, Some(DragTarget::Shop { item: 0 })));
    assert!(!model.end_drag(from, Some(from)));
    assert!(!model.end_drag(from, Some(DragTarget::NodeConnection { node: 2, conn: 0 })));
    assert!(!model.end_drag(DragTarget::Shop { item: 0 }, Some(onto)));
    assert!(!model
        .end_drag(DragTarget::Node { index: 0, from_position: Vec2::new(0, 0) }, Some(onto)));
    model.phase = Phase::Drill;
    assert!(!model.end_drag(from, Some(onto)));
    model.phase = Phase::Setup;
    assert!(model.end_drag(from, Some(onto)));
    assert_eq!(
        model.nodes.nodes[1].connections[0].connected_to,
        Some(ConnectionId { node: 0, connection: 0 })
    );
    assert_eq!(
        model.nodes.nodes[0].connections[0].connected_to,
        Some(ConnectionId { node: 1, connection: 0 })
    );
}

#[test]
fn dragged_node_follows_the_pointer() {
    let mut model = Model::new(plain_rules());
    let drag = Drag {
        from_ui: Vec2::new(4200, -2400),
        target: DragTarget::Node { index: 1, from_position: Vec2::new(4000, -2500) },
    };
    assert_eq!(model.update_drag(drag, Vec2::new(5200, -3400)), 0);
    assert_eq!(model.nodes.nodes[1].position.center(), Vec2::new(5000, -3500));
    assert_eq!(model.nodes.nodes[1].position.min, Vec2::new(4000, -4000));
    assert_eq!(model.update_drag(drag, Vec2::new(50_000, 50_000)), 0);
    assert_eq!(model.nodes.nodes[1].position.max, Vec2::new(10_000, 0));
    assert_eq!(model.nodes.nodes[1].position.min, Vec2::new(8000, -1000));
    let slot_drag = Drag { from_ui: Vec2::new(0, 0), target: DragTarget::NodeConnection { node: 1, conn: 0 } };
    assert_eq!(model.update_drag(slot_drag, Vec2::new(1000, -1000)), 0);
    assert_eq!(model.nodes.nodes[1].position.min, Vec2::new(8000, -1000));
    let missing = Drag {
        from_ui: Vec2::new(0, 0),
        target: DragTarget::Node { index: 44, from_position: Vec2::new(0, 0) },
    };
    assert_eq!(model.update_drag(missing, Vec2::new(1000, -1000)), 0);
}

#[test]
fn dragging_a_turn_node_turns_the_drill() {
    let mut model = Model::new(plain_rules());
    let left = add(&mut model, ShopNode::TurnLeft);
    let right = add(&mut model, ShopNode::TurnRight);
    let drag_of = |index: usize| Drag {
        from_ui: Vec2::new(5000, -5000),
        target: DragTarget::Node { index, from_position: Vec2::new(5000, -5000) },
    };
    assert_eq!(model.update_drag(drag_of(left), Vec2::new(5000, -5000)), 0);
    model.drill.can_turn_left = true;
    assert_eq!(model.update_drag(drag_of(left), Vec2::new(5000, -5000)), 1);
    assert_eq!(model.update_drag(drag_of(right), Vec2::new(5000, -5000)), 0);
    model.drill.can_turn_right = true;
    assert_eq!(model.update_drag(drag_of(right), Vec2::new(5000, -5000)), -1);
    model.turn_drill(1, 500);
    assert_eq!(model.drill.collider.rotation, -90_000 + 45_000);
    model.turn_drill(-1, 1000);
    assert_eq!(model.drill.collider.rotation, -135_000);
    model.turn_drill(0, 1000);
    assert_eq!(model.drill.collider.rotation, -135_000);
}

#[test]
fn validity_checks_tell_well_formed_values() {
    let mut config = plain_rules();
    assert!(config.validate());
    config.fuel_small_amount = -1;
    assert!(!config.validate());
    config.fuel_small_amount = 0;
    config.sprint_duration = -1;
    assert!(!config.validate());
    config.sprint_duration = 0;
    config.fuel_normal_amount = -5;
    assert!(!config.validate());
    config.fuel_normal_amount = 5;
    let entry = |kind| drill_core::model::MineralEntry {
        kind,
        config: drill_core::model::MineralConfig { value: 1, generation: Vec::new() },
    };
    config.minerals = vec![
        entry(drill_core::model::MineralKind::Rock),
        entry(drill_core::model::MineralKind::Resource(drill_core::model::ResourceKind::Coal)),
        entry(drill_core::model::MineralKind::Resource(drill_core::model::ResourceKind::Iron)),
    ];
    assert!(config.validate());
    config.minerals.push(entry(drill_core::model::MineralKind::Rock));
    assert!(!config.validate());

    let mut model = Model::new(plain_rules());
    assert!(model.validate());
    assert!(model.nodes.validate());
    assert!(model.nodes.is_contained());
    model.nodes.nodes[1].position.min = Vec2::new(-1, -3000);
    assert!(model.nodes.validate());
    assert!(!model.nodes.is_contained());
    model.update_nodes(0);
    assert!(model.nodes.is_contained());
    model.nodes.nodes[1].position.min = Vec2::new(6000, -3000);
    assert!(!model.nodes.validate());
    assert!(!model.validate());
    model.nodes.nodes[1].position.min = Vec2::new(3000, -3000);
    assert!(model.validate());
    model.nodes.nodes[1].position.max = Vec2::new(30_000, -2000);
    assert!(!model.nodes.validate());
    model.nodes.nodes[1].position.max = Vec2::new(5000, -2000);
    model.nodes.nodes[2].kind = NodeKind::Power;
    assert!(!model.validate());
    model.nodes.nodes[2].kind = NodeKind::Battery;
    assert!(model.validate());
    model.nodes.nodes[0].kind = NodeKind::Battery;
    assert!(!model.validate());
    model.nodes.nodes[0].kind = NodeKind::Power;
    model.nodes.nodes[1].kind = NodeKind::Fuel(drill_core::bounded::Bounded { value: 5, min: 0, max: 4 });
    assert!(!model.validate());
    model.nodes.nodes[1].kind = NodeKind::Fuel(drill_core::bounded::Bounded { value: 4, min: 0, max: 4 });
    assert!(model.validate());
    model.nodes.bounds.max = Vec2::new(999, 0);
    assert!(!model.validate());
    model.nodes.bounds.max = Vec2::new(10_000, 0);
    model.bounds.min.x = model.bounds.max.x + 1;
    assert!(!model.validate());
    model.bounds.min.x = model.bounds.max.x;
    assert!(model.validate());
    model.nodes.nodes.clear();
    assert!(!model.validate());
}

#[test]
fn resolver_does_nothing_for_parts_that_nobody_plays() {
    let mut model = Model::new(plain_rules());
    model.nodes.nodes.truncate(2);
    model.drill.drill_level = drill_core::model::ResourceKind::Silver;
    model.update_nodes(10);
    assert_eq!(model.nodes.nodes.len(), 2);
    assert_eq!(model.drill.drill_level, drill_core::model::ResourceKind::Silver);
    assert_eq!(model.drill.vision_radius, 3000);
    assert_eq!(model.drill.max_speed, 3000);
    assert!(!model.drill.can_turn_left && !model.drill.can_turn_right);
    model.update_shop();
    assert!(model.shop.is_empty());
    model.launch_drill();
    assert_eq!(model.phase, Phase::Setup);
    model.generate_level();
    assert_eq!(model.shop.len(), 1);
}

#[test]
fn launch_tolerates_wires_that_lead_nowhere() {
    let mut model = Model::new(plain_rules());
    assert!(model.connect(
        ConnectionId { node: 0, connection: 0 },
        ConnectionId { node: 1, connection: 0 }
    ));
    assert!(model.connect(
        ConnectionId { node: 0, connection: 1 },
        ConnectionId { node: 2, connection: 0 }
    ));
    model.nodes.nodes[2].connections[2].connected_to =
        Some(ConnectionId { node: 17, connection: 3 });
    model.update(16, Vec2::new(0, -1000));
    model.launch_drill();
    assert_eq!(model.phase, Phase::Drill);
}

#[test]
fn edits_keep_every_wire_held_at_both_ends() {
    let mut model = Model::new(plain_rules());
    let a = add(&mut model, ShopNode::Battery);
    let b = add(&mut model, ShopNode::Battery);
    let c = add(&mut model, ShopNode::Sprint);
    let slot = |node: usize, connection: usize| ConnectionId { node, connection };
    assert!(model.connect(slot(2, 2), slot(a, 0)));
    assert!(model.connect(slot(a, 1), slot(b, 0)));
    assert!(model.connect(slot(b, 1), slot(c, 0)));
    assert!(model.connect(slot(c, 1), slot(a, 1)));
    model.disconnect(b, 1);
    model.disconnect(2, 2);
    assert!(model.connect(slot(b, 0), slot(2, 2)));
    let nodes = &model.nodes.nodes;
    let mut wires = 0;
    for (i, node) in nodes.iter().enumerate() {
        for (k, connection) in node.connections.iter().enumerate() {
            if let Some(to) = connection.connected_to {
                wires += 1;
                assert_eq!(nodes[to.node].connections[to.connection].connected_to, Some(slot(i, k)));
                assert_eq!(nodes[to.node].connections[to.connection].kind, connection.kind);
            }
        }
    }
    assert_eq!(wires, 4);
}
