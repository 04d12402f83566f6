use drill_core::bounded::Bounded;
use drill_core::collider::Collider;
use drill_core::geometry::{Aabb2, Vec2};
use drill_core::model::logic::collide::{find_price, same_kind, scan_minerals, BOUNCE_SPEED};
use drill_core::model::logic::generate::{
    expected_spawns, rule_applies, spawn_count, FACING_DOWN, LEVEL_REACH, MINERAL_RADIUS,
};
use drill_core::model::logic::shop::{connection_template, find_shop_level, new_slot, node_kind};
use drill_core::model::particles::{spawn_particles, Color, SpawnParticles, Transient, TransientStore};
use drill_core::model::{
    Config, ConnectionId, ConnectionKind, DrillSprint, Event, Mineral, MineralConfig, MineralEntry,
    MineralGeneration, MineralKind, Model, Node, NodeKind, Phase, ResourceKind, ShopConfig,
    ShopItem, ShopItemTracked, ShopNode,
};

fn item(cost: i64, node: ShopNode) -> ShopItem {
    ShopItem { cost, node, sold_out: false }
}

fn rules() -> Config {
    Config {
        map_width: 10_000,
        coal_fuel_value: 500,
        unpowered_node_dim: 500,
        drill_size: 300,
        drill_speed: 3000,
        drill_speed_0: 4000,
        drill_speed_1: 5000,
        drill_speed_2: 6000,
        drill_acceleration: 2000,
        drill_rotation_speed: 3000,
        vision: 3000,
        vision_0: 4000,
        vision_1: 5000,
        vision_2: 6000,
        sprint_boost: 2000,
        sprint_duration: 1000,
        sprint_cooldown: 3000,
        fuel_small_amount: 1000,
        fuel_normal_amount: 5000,
        minerals: Vec::new(),
        shop_0: ShopConfig {
            slots: 2,
            items: vec![
                item(10, ShopNode::FuelSmall),
                item(20, ShopNode::Upgrade),
                item(30, ShopNode::Battery),
            ],
        },
        shop_1: ShopConfig {
            slots: 3,
            items: vec![item(40, ShopNode::Sprint), item(50, ShopNode::Light)],
        },
        shop_2: ShopConfig {
            slots: 10,
            items: vec![item(60, ShopNode::Speed), item(70, ShopNode::CoalFuel)],
        },
    }
}

fn priced(kind: MineralKind, value: i64) -> MineralEntry {
    MineralEntry { kind, config: MineralConfig { value, generation: Vec::new() } }
}

fn wire(model: &mut Model, a: (usize, usize), b: (usize, usize)) -> bool {
    model.connect(
        ConnectionId { node: a.0, connection: a.1 },
        ConnectionId { node: b.0, connection: b.1 },
    )
}

/// A new game with the fuel reservoir and the drill wired to the power node.
fn ready() -> Model {
    let mut model = Model::new(rules());
    assert!(wire(&mut model, (0, 0), (1, 0)));
    assert!(wire(&mut model, (0, 1), (2, 0)));
    model
}

fn down() -> Vec2 {
    Vec2::new(0, -1000)
}

fn buy(model: &mut Model, node: ShopNode) -> usize {
    model.shop = vec![ShopItemTracked { item: item(0, node), tier: 0, index: 99 }];
    model.purchase_item(0);
    model.nodes.nodes.len() - 1
}

fn fuel_of(node: &Node) -> i64 {
    match node.kind {
        NodeKind::Fuel(fuel) => fuel.value(),
        NodeKind::CoalFuel(fuel) => fuel.value(),
        _ => panic!("no reservoir"),
    }
}

fn ore(x: i64, y: i64, kind: MineralKind, amount: i64) -> Mineral {
    Mineral { collider: Collider::circle(Vec2::new(x, y), MINERAL_RADIUS), kind, amount }
}

#[test]
fn new_game_starts_in_setup_with_the_initial_graph() {
    let model = Model::new(rules());
    assert_eq!(model.phase, Phase::Setup);
    assert_eq!(model.money, 0);
    assert_eq!(model.simulation_time, 0);
    assert_eq!(model.nodes.nodes.len(), 4);
    assert!(matches!(model.nodes.nodes[0].kind, NodeKind::Power));
    assert_eq!(fuel_of(&model.nodes.nodes[1]), 1000);
    assert!(matches!(
        model.nodes.nodes[2].kind,
        NodeKind::Drill { level: ResourceKind::Iron, .. }
    ));
    assert!(matches!(model.nodes.nodes[3].kind, NodeKind::Shop { level: 0 }));
    assert_eq!(model.nodes.nodes[0].connections.len(), 2);
    assert_eq!(model.nodes.nodes[2].connections.len(), 3);
    assert_eq!(model.nodes.nodes[2].connections[1].kind, ConnectionKind::Upgrade);
    assert_eq!(model.nodes.nodes[3].position.min, Vec2::new(0, -10_000));
    assert_eq!(model.nodes.nodes[3].position.max, Vec2::new(3000, -9000));
    assert_eq!(model.drill.collider.position, Vec2::new(0, 0));
    assert_eq!(model.drill.collider.rotation, FACING_DOWN);
    assert_eq!(model.drill.max_speed, 3000);
    assert_eq!(model.drill.vision_radius, 3000);
    assert_eq!(model.drill.speed, 0);
    assert!(model.drill.sprint.is_none());
    assert_eq!(model.bounds.min, Vec2::new(-5000, -LEVEL_REACH));
    assert_eq!(model.bounds.max, Vec2::new(5000, LEVEL_REACH));
    assert_eq!(model.depth_generated, -30_000);
    assert!(model.minerals.is_empty());
    assert!(model.events.is_empty());
    assert_eq!(model.shop.len(), 2);
    assert_ne!(model.shop[0].index, model.shop[1].index);
    for offer in &model.shop {
        assert_eq!(offer.tier, 0);
        assert_eq!(offer.item, model.config.shop_0.items[offer.index]);
    }
    assert!(model.particles.each().is_empty());
    assert!(model.floating_texts.each().is_empty());
}

#[test]
fn launch_needs_fuel_and_drill_on_power() {
    let mut model = Model::new(rules());
    model.launch_drill();
    assert_eq!(model.phase, Phase::Setup);
    assert!(model.events.is_empty());
    assert!(wire(&mut model, (0, 0), (1, 0)));
    model.launch_drill();
    assert_eq!(model.phase, Phase::Setup);
    model.disconnect(0, 0);
    assert!(wire(&mut model, (0, 1), (2, 0)));
    model.launch_drill();
    assert_eq!(model.phase, Phase::Setup);
    assert!(wire(&mut model, (0, 0), (1, 0)));
    model.launch_drill();
    assert_eq!(model.phase, Phase::Drill);
    assert_eq!(model.drill.target_speed, 3000);
    assert_eq!(model.events, vec![Event::Launched]);
    model.launch_drill();
    assert_eq!(model.events, vec![Event::Launched]);
}

#[test]
fn launch_needs_the_drill_fully_powered() {
    let mut model = ready();
    let upgrade = buy(&mut model, ShopNode::Upgrade);
    assert!(wire(&mut model, (2, 1), (upgrade, 0)));
    model.events.clear();
    model.update(16, down());
    match model.nodes.nodes[2].kind {
        NodeKind::Drill { level, power } => {
            assert_eq!(level, ResourceKind::Bronze);
            assert_eq!((power.value(), power.max()), (0, 1));
        },
        _ => panic!("no drill"),
    }
    model.launch_drill();
    assert_eq!(model.phase, Phase::Setup);
    let battery = buy(&mut model, ShopNode::Battery);
    assert!(wire(&mut model, (2, 2), (battery, 0)));
    model.update(16, down());
    match model.nodes.nodes[2].kind {
        NodeKind::Drill { power, .. } => assert!(power.is_max()),
        _ => panic!("no drill"),
    }
    assert_eq!(model.drill.drill_level, ResourceKind::Bronze);
    model.launch_drill();
    assert_eq!(model.phase, Phase::Drill);
}

#[test]
fn launch_accepts_a_coal_reservoir() {
    let mut model = Model::new(rules());
    assert!(wire(&mut model, (0, 1), (2, 0)));
    let coal = buy(&mut model, ShopNode::CoalFuel);
    assert!(wire(&mut model, (0, 0), (coal, 0)));
    model.launch_drill();
    assert_eq!(model.phase, Phase::Drill);
}

#[test]
fn fuel_runs_out_and_the_phase_ends() {
    let mut model = ready();
    model.launch_drill();
    assert_eq!(model.phase, Phase::Drill);
    model.events.clear();
    for burnt in 1..=4 {
        model.update(250, down());
        assert_eq!(model.phase, Phase::Drill);
        assert_eq!(fuel_of(&model.nodes.nodes[1]), 1000 - 250 * burnt);
    }
    assert!(model.drill.collider.position.y < 0);
    model.update(250, down());
    assert_eq!(model.phase, Phase::Setup);
    assert_eq!(model.events, vec![Event::PhaseEnded]);
    assert_eq!(fuel_of(&model.nodes.nodes[1]), 1000);
    assert_eq!(model.drill.collider.position, Vec2::new(0, 0));
    assert_eq!(model.drill.collider.rotation, FACING_DOWN);
    assert_eq!(model.simulation_time, 1250);
}

#[test]
fn fuel_is_drawn_from_the_first_reservoir_met() {
    let mut model = ready();
    let second = buy(&mut model, ShopNode::Fuel);
    model.nodes.nodes[0].connections.push(new_slot(0, 0, ConnectionKind::Fuel));
    assert!(wire(&mut model, (0, 2), (second, 0)));
    model.phase = Phase::Drill;
    model.use_fuel(400);
    assert_eq!(fuel_of(&model.nodes.nodes[1]), 600);
    assert_eq!(fuel_of(&model.nodes.nodes[second]), 5000);
    model.use_fuel(700);
    assert_eq!(fuel_of(&model.nodes.nodes[1]), 0);
    model.use_fuel(700);
    assert_eq!(fuel_of(&model.nodes.nodes[1]), 0);
    assert_eq!(fuel_of(&model.nodes.nodes[second]), 4300);
    assert_eq!(model.phase, Phase::Drill);
}

#[test]
fn unreachable_fuel_does_not_keep_the_drill_going() {
    let mut model = Model::new(rules());
    assert!(wire(&mut model, (0, 1), (2, 0)));
    model.phase = Phase::Drill;
    model.use_fuel(100);
    assert_eq!(model.phase, Phase::Setup);
    assert_eq!(model.events, vec![Event::PhaseEnded]);
    model.end_drill_phase();
    assert_eq!(model.events, vec![Event::PhaseEnded]);
}

#[test]
fn resolver_sets_power_flags_and_clamps_positions() {
    let mut model = ready();
    model.nodes.nodes[1].position =
        Aabb2::from_corners(Vec2::new(9500, 500), Vec2::new(11_500, 1500));
    model.update_nodes(16);
    let flags: Vec<bool> = model.nodes.nodes.iter().map(|n| n.is_powered).collect();
    assert_eq!(flags, vec![true, true, true, false]);
    assert_eq!(model.nodes.nodes[1].position.min, Vec2::new(8000, -1000));
    assert_eq!(model.nodes.nodes[1].position.max, Vec2::new(10_000, 0));
    let before: Vec<bool> = flags;
    model.update_nodes(16);
    let after: Vec<bool> = model.nodes.nodes.iter().map(|n| n.is_powered).collect();
    assert_eq!(before, after);
    for n in &model.nodes.nodes {
        assert!(model.nodes.bounds.min.x <= n.position.min.x);
        assert!(model.nodes.bounds.min.y <= n.position.min.y);
        assert!(n.position.max.x <= model.nodes.bounds.max.x);
        assert!(n.position.max.y <= model.nodes.bounds.max.y);
    }
}

#[test]
fn resolver_counts_levels_and_hands_them_to_the_drill() {
    let mut model = ready();
    let up1 = buy(&mut model, ShopNode::Upgrade);
    let up2 = buy(&mut model, ShopNode::Upgrade);
    let up3 = buy(&mut model, ShopNode::Upgrade);
    assert!(wire(&mut model, (2, 1), (up1, 0)));
    assert!(wire(&mut model, (up1, 1), (up2, 0)));
    assert!(wire(&mut model, (3, 0), (up3, 1)));
    let light = buy(&mut model, ShopNode::Light);
    let speed = buy(&mut model, ShopNode::Speed);
    let left = buy(&mut model, ShopNode::TurnLeft);
    let right = buy(&mut model, ShopNode::TurnRight);
    assert!(wire(&mut model, (2, 2), (left, 0)));
    assert!(wire(&mut model, (left, 1), (light, 0)));
    model.update_nodes(16);
    match model.nodes.nodes[2].kind {
        NodeKind::Drill { level, power } => {
            assert_eq!(level, ResourceKind::Silver);
            assert_eq!((power.value(), power.min(), power.max()), (0, 0, 2));
        },
        _ => panic!("no drill"),
    }
    assert_eq!(model.drill.drill_level, ResourceKind::Silver);
    assert!(matches!(model.nodes.nodes[3].kind, NodeKind::Shop { level: 1 }));
    assert!(matches!(model.nodes.nodes[light].kind, NodeKind::Vision { level: 0 }));
    assert_eq!(model.drill.vision_radius, 4000);
    assert_eq!(model.drill.max_speed, 3000);
    assert!(model.drill.can_turn_left);
    assert!(!model.drill.can_turn_right);
    assert!(!model.nodes.nodes[speed].is_powered);
    assert!(!model.nodes.nodes[right].is_powered);
    let up4 = buy(&mut model, ShopNode::Upgrade);
    assert!(wire(&mut model, (light, 1), (up4, 0)));
    assert!(wire(&mut model, (left, 2), (right, 0)));
    assert!(wire(&mut model, (right, 1), (speed, 0)));
    model.update_nodes(16);
    assert!(matches!(model.nodes.nodes[light].kind, NodeKind::Vision { level: 1 }));
    assert_eq!(model.drill.vision_radius, 5000);
    assert_eq!(model.drill.max_speed, 4000);
    assert!(model.drill.can_turn_right);
    model.disconnect(0, 1);
    model.update_nodes(16);
    assert_eq!(model.drill.vision_radius, 3000);
    assert_eq!(model.drill.max_speed, 3000);
    assert!(!model.drill.can_turn_left);
    assert!(matches!(model.nodes.nodes[light].kind, NodeKind::Vision { level: 1 }));
}

#[test]
fn drill_tier_follows_the_number_of_upgrades() {
    let mut model = ready();
    let mut last = (2usize, 1usize);
    let tiers = [ResourceKind::Bronze, ResourceKind::Silver, ResourceKind::Gold, ResourceKind::Gold];
    model.update_nodes(0);
    assert_eq!(model.drill.drill_level, ResourceKind::Iron);
    for tier in tiers {
        let up = buy(&mut model, ShopNode::Upgrade);
        assert!(wire(&mut model, last, (up, 0)));
        last = (up, 1);
        model.update_nodes(0);
        assert_eq!(model.drill.drill_level, tier);
    }
}

#[test]
fn shop_offers_unsold_items_of_unlocked_tiers() {
    let mut model = Model::new(rules());
    model.update_shop();
    let offered: Vec<(usize, usize, i64)> =
        model.shop.iter().map(|o| (o.tier, o.index, o.item.cost)).collect();
    assert_eq!(offered, vec![(0, 0, 10), (0, 1, 20)]);
    model.config.shop_0.items[0].sold_out = true;
    model.update_shop();
    let offered: Vec<(usize, usize)> = model.shop.iter().map(|o| (o.tier, o.index)).collect();
    assert_eq!(offered, vec![(0, 1), (0, 2)]);
    model.nodes.nodes[3].kind = NodeKind::Shop { level: 1 };
    model.update_shop();
    let offered: Vec<(usize, usize)> = model.shop.iter().map(|o| (o.tier, o.index)).collect();
    assert_eq!(offered, vec![(0, 1), (0, 2), (1, 0)]);
    model.nodes.nodes[3].kind = NodeKind::Shop { level: 7 };
    model.update_shop();
    let offered: Vec<(usize, usize)> = model.shop.iter().map(|o| (o.tier, o.index)).collect();
    assert_eq!(offered, vec![(0, 1), (0, 2), (1, 0), (1, 1), (2, 0), (2, 1)]);
    assert_eq!(find_shop_level(&model.nodes.nodes), Some(7));
    model.nodes.nodes[3].kind = NodeKind::Battery;
    model.update_shop();
    assert!(model.shop.is_empty());
    assert_eq!(find_shop_level(&model.nodes.nodes), None);
}

#[test]
fn purchase_without_funds_changes_nothing() {
    let mut model = Model::new(rules());
    model.update_shop();
    model.money = 9;
    model.purchase_item(0);
    assert_eq!(model.money, 9);
    assert_eq!(model.nodes.nodes.len(), 4);
    assert_eq!(model.shop.len(), 2);
    assert!(model.config.shop_0.items.iter().all(|i| !i.sold_out));
    assert!(model.events.is_empty());
    model.money = 1000;
    model.purchase_item(2);
    assert_eq!(model.money, 1000);
    assert_eq!(model.nodes.nodes.len(), 4);
    model.phase = Phase::Drill;
    model.purchase_item(0);
    assert_eq!(model.money, 1000);
    assert_eq!(model.nodes.nodes.len(), 4);
}

#[test]
fn purchase_pays_adds_a_node_and_marks_the_item_sold() {
    let mut model = Model::new(rules());
    model.update_shop();
    model.money = 25;
    model.purchase_item(1);
    assert_eq!(model.money, 5);
    assert_eq!(model.events, vec![Event::Purchased]);
    assert_eq!(model.shop.len(), 1);
    assert_eq!(model.shop[0].index, 0);
    assert!(model.config.shop_0.items[1].sold_out);
    assert!(!model.config.shop_0.items[0].sold_out);
    assert_eq!(model.nodes.nodes.len(), 5);
    let bought = &model.nodes.nodes[4];
    assert!(matches!(bought.kind, NodeKind::Upgrade));
    assert!(!bought.is_powered);
    assert_eq!(bought.position.min, Vec2::new(4500, -5500));
    assert_eq!(bought.position.max, Vec2::new(5500, -4500));
    assert_eq!(bought.connections.len(), 2);
    assert_eq!(bought.connections[0].offset, Vec2::new(500, 0));
    assert_eq!(bought.connections[1].offset, Vec2::new(500, 1000));
    assert!(bought.connections.iter().all(|c| c.kind == ConnectionKind::Upgrade));
    assert!(bought.connections.iter().all(|c| c.connected_to.is_none()));
    model.update_shop();
    let offered: Vec<usize> = model.shop.iter().map(|o| o.index).collect();
    assert_eq!(offered, vec![0, 2]);
}

#[test]
fn purchase_marks_the_pool_of_the_items_tier() {
    let mut model = Model::new(rules());
    model.money = 500;
    model.shop = vec![
        ShopItemTracked { item: item(40, ShopNode::Sprint), tier: 1, index: 0 },
        ShopItemTracked { item: item(70, ShopNode::CoalFuel), tier: 5, index: 1 },
        ShopItemTracked { item: item(1, ShopNode::Fuel), tier: 0, index: 44 },
    ];
    model.purchase_item(0);
    assert!(model.config.shop_1.items[0].sold_out);
    model.purchase_item(0);
    assert!(model.config.shop_2.items[1].sold_out);
    model.purchase_item(0);
    assert_eq!(model.money, 500 - 40 - 70 - 1);
    assert!(model.config.shop_0.items.iter().all(|i| !i.sold_out));
    assert_eq!(model.nodes.nodes.len(), 7);
}

#[test]
fn bought_nodes_come_with_their_kind_and_slots() {
    let config = rules();
    let kinds = |node: ShopNode| -> Vec<ConnectionKind> {
        connection_template(node).iter().map(|c| c.kind).collect()
    };
    let (drill, fuel, normal, upgrade) = (
        ConnectionKind::Drill,
        ConnectionKind::Fuel,
        ConnectionKind::Normal,
        ConnectionKind::Upgrade,
    );
    assert_eq!(kinds(ShopNode::FuelSmall), vec![fuel]);
    assert_eq!(kinds(ShopNode::Fuel), vec![fuel]);
    assert_eq!(kinds(ShopNode::CoalFuel), vec![fuel]);
    assert_eq!(kinds(ShopNode::TurnLeft), vec![normal, drill, normal]);
    assert_eq!(kinds(ShopNode::TurnRight), vec![normal, drill, normal]);
    assert_eq!(kinds(ShopNode::Battery), vec![normal, normal]);
    assert_eq!(kinds(ShopNode::Sprint), vec![normal, normal]);
    assert_eq!(kinds(ShopNode::Upgrade), vec![upgrade, upgrade]);
    assert_eq!(kinds(ShopNode::Speed), vec![drill, upgrade, fuel]);
    assert_eq!(kinds(ShopNode::Light), vec![drill, upgrade, fuel]);
    let offsets: Vec<Vec2> = connection_template(ShopNode::Speed).iter().map(|c| c.offset).collect();
    assert_eq!(offsets, vec![Vec2::new(0, 500), Vec2::new(500, 1000), Vec2::new(1000, 500)]);
    match node_kind(ShopNode::FuelSmall, &config) {
        NodeKind::Fuel(fuel) => assert_eq!((fuel.value(), fuel.max()), (1000, 1000)),
        _ => panic!("wrong kind"),
    }
    match node_kind(ShopNode::Fuel, &config) {
        NodeKind::Fuel(fuel) => assert_eq!((fuel.value(), fuel.max()), (5000, 5000)),
        _ => panic!("wrong kind"),
    }
    match node_kind(ShopNode::CoalFuel, &config) {
        NodeKind::CoalFuel(fuel) => assert_eq!((fuel.value(), fuel.max()), (0, 5000)),
        _ => panic!("wrong kind"),
    }
    match node_kind(ShopNode::Sprint, &config) {
        NodeKind::Sprint { cooldown } => assert_eq!((cooldown.value(), cooldown.max()), (0, 1000)),
        _ => panic!("wrong kind"),
    }
    assert!(matches!(node_kind(ShopNode::Light, &config), NodeKind::Vision { level: 0 }));
    assert!(matches!(node_kind(ShopNode::Speed, &config), NodeKind::Speed { level: 0 }));
    assert!(matches!(node_kind(ShopNode::Battery, &config), NodeKind::Battery));
    assert!(matches!(node_kind(ShopNode::TurnLeft, &config), NodeKind::TurnLeft));
    assert!(matches!(node_kind(ShopNode::TurnRight, &config), NodeKind::TurnRight));
    assert!(matches!(node_kind(ShopNode::Upgrade, &config), NodeKind::Upgrade));
}

#[test]
fn wires_change_only_in_setup() {
    let mut model = ready();
    model.phase = Phase::Drill;
    assert!(!wire(&mut model, (2, 1), (3, 0)));
    model.disconnect(0, 0);
    assert!(model.nodes.nodes[0].connections[0].connected_to.is_some());
    model.move_node(1, Vec2::new(6000, -6000));
    assert_eq!(model.nodes.nodes[1].position.center(), Vec2::new(6000, -6000));
}

#[test]
fn drill_accelerates_and_moves_along_its_heading() {
    let mut model = ready();
    model.phase = Phase::Drill;
    model.move_drill(100, down());
    assert_eq!(model.drill.target_speed, 3000);
    assert_eq!(model.drill.speed, 200);
    assert_eq!(model.drill.collider.position, Vec2::new(0, -20));
    model.move_drill(100, Vec2::new(600, -800));
    assert_eq!(model.drill.speed, 400);
    assert_eq!(model.drill.collider.position, Vec2::new(24, -52));
    model.drill.speed = 2950;
    model.move_drill(100, down());
    assert_eq!(model.drill.speed, 3000);
    model.drill.speed = 9000;
    model.move_drill(1000, down());
    assert_eq!(model.drill.speed, 7000);
}

#[test]
fn sprint_boosts_then_runs_out() {
    let mut model = ready();
    let sprint = buy(&mut model, ShopNode::Sprint);
    model.start_sprint(sprint);
    assert!(model.drill.sprint.is_none());
    model.phase = Phase::Drill;
    model.start_sprint(0);
    model.start_sprint(99);
    assert!(model.drill.sprint.is_none());
    model.drill.speed = 1000;
    model.start_sprint(sprint);
    match model.drill.sprint {
        Some(DrillSprint { caused_by_node, duration }) => {
            assert_eq!(caused_by_node, sprint);
            assert_eq!((duration.value(), duration.max()), (1000, 1000));
        },
        None => panic!("no sprint"),
    }
    assert_eq!(model.drill.speed, 3000);
    match model.nodes.nodes[sprint].kind {
        NodeKind::Sprint { cooldown } => assert!(cooldown.is_max()),
        _ => panic!("no sprint node"),
    }
    model.start_sprint(sprint);
    assert_eq!(model.drill.speed, 3000);
    model.move_drill(600, down());
    assert_eq!(model.drill.target_speed, 5000);
    assert_eq!(model.drill.sprint.map(|s| s.duration.value()), Some(400));
    model.move_drill(600, down());
    assert!(model.drill.sprint.is_none());
    model.update_nodes(300);
    match model.nodes.nodes[sprint].kind {
        NodeKind::Sprint { cooldown } => assert_eq!(cooldown.value(), 700),
        _ => panic!("no sprint node"),
    }
    model.start_sprint(sprint);
    assert!(model.drill.sprint.is_none());
    model.update_nodes(700);
    model.start_sprint(sprint);
    assert!(model.drill.sprint.is_some());
}

#[test]
fn cooldown_waits_while_the_drill_sprints_or_rests() {
    let mut model = ready();
    let sprint = buy(&mut model, ShopNode::Sprint);
    model.nodes.nodes[sprint].kind = NodeKind::Sprint { cooldown: Bounded::<i64>::new(800, 0, 1000) };
    model.update_nodes(100);
    match model.nodes.nodes[sprint].kind {
        NodeKind::Sprint { cooldown } => assert_eq!(cooldown.value(), 800),
        _ => panic!("no sprint node"),
    }
    model.phase = Phase::Drill;
    model.drill.sprint =
        Some(DrillSprint { caused_by_node: sprint, duration: Bounded::<i64>::new_max(500) });
    model.update_nodes(100);
    match model.nodes.nodes[sprint].kind {
        NodeKind::Sprint { cooldown } => assert_eq!(cooldown.value(), 800),
        _ => panic!("no sprint node"),
    }
    model.drill.sprint = None;
    model.update_nodes(100);
    match model.nodes.nodes[sprint].kind {
        NodeKind::Sprint { cooldown } => assert_eq!(cooldown.value(), 700),
        _ => panic!("no sprint node"),
    }
}

#[test]
fn mining_removes_the_mineral_and_pays() {
    let mut model = ready();
    model.config.minerals = vec![
        priced(MineralKind::Resource(ResourceKind::Iron), 5),
        priced(MineralKind::Rock, 1),
    ];
    model.minerals = vec![
        ore(5000, 0, MineralKind::Rock, 1),
        ore(100, 0, MineralKind::Resource(ResourceKind::Iron), 3),
        ore(-5000, 0, MineralKind::Resource(ResourceKind::Gold), 1),
    ];
    model.drill.speed = 2000;
    model.collide_drill();
    assert_eq!(model.money, 15);
    assert_eq!(model.drill.speed, 2000);
    assert_eq!(model.minerals.len(), 2);
    assert!(matches!(model.minerals[0].kind, MineralKind::Rock));
    assert!(matches!(model.minerals[1].kind, MineralKind::Resource(ResourceKind::Gold)));
    assert_eq!(model.events, vec![Event::Collected]);
    assert!(model.drill.colliding_with.contains(&1));
    assert_eq!(model.drill.colliding_with.len(), 1);
    let texts = model.floating_texts.each();
    assert_eq!(texts.len(), 1);
    let text: &Transient = texts[0].1;
    assert_eq!(text.text, "+15");
    assert_eq!(text.size, 1000);
    assert_eq!(text.color, Color { r: 255, g: 215, b: 0, a: 255 });
    assert_eq!((text.lifetime.value(), text.lifetime.max()), (1000, 1000));
    let dx = text.position.x - 100;
    let dy = text.position.y;
    assert!(dx * dx + dy * dy <= 200 * 200);
    assert!(text.velocity.y > 0 && text.velocity.x.abs() <= 250);
}

#[test]
fn rock_and_higher_tiers_stop_the_drill() {
    let mut model = ready();
    model.config.minerals = vec![
        priced(MineralKind::Resource(ResourceKind::Gold), 50),
        priced(MineralKind::Rock, 1),
    ];
    model.minerals = vec![ore(100, 0, MineralKind::Resource(ResourceKind::Gold), 1)];
    model.drill.speed = 2000;
    model.collide_drill();
    assert_eq!(model.minerals.len(), 1);
    assert_eq!(model.money, 0);
    assert_eq!(model.drill.speed, BOUNCE_SPEED);
    assert_eq!(model.events, vec![Event::Collided]);
    assert!(model.floating_texts.each().is_empty());
    model.drill.speed = 2000;
    model.events.clear();
    model.collide_drill();
    assert_eq!(model.drill.speed, 2000);
    assert!(model.events.is_empty());
    model.minerals = vec![ore(0, 200, MineralKind::Rock, 1)];
    model.drill.colliding_with.clear();
    model.collide_drill();
    assert_eq!(model.drill.speed, BOUNCE_SPEED);
    assert_eq!(model.minerals.len(), 1);
    model.drill.drill_level = ResourceKind::Gold;
    model.minerals = vec![ore(100, 0, MineralKind::Resource(ResourceKind::Gold), 2)];
    model.drill.colliding_with.clear();
    model.drill.speed = 2000;
    model.collide_drill();
    assert!(model.minerals.is_empty());
    assert_eq!(model.money, 100);
    assert_eq!(model.drill.speed, 2000);
}

#[test]
fn minerals_touched_before_are_left_alone() {
    let mut model = ready();
    model.config.minerals = vec![priced(MineralKind::Resource(ResourceKind::Iron), 5)];
    model.minerals = vec![ore(100, 0, MineralKind::Resource(ResourceKind::Iron), 1)];
    model.drill.colliding_with.insert(0);
    model.collide_drill();
    assert_eq!(model.minerals.len(), 1);
    assert_eq!(model.money, 0);
    model.minerals[0].collider.position = Vec2::new(4000, 0);
    model.collide_drill();
    assert!(model.drill.colliding_with.is_empty());
    model.minerals[0].collider.position = Vec2::new(0, 0);
    model.collide_drill();
    assert!(model.minerals.is_empty());
    assert_eq!(model.money, 5);
}

#[test]
fn several_minerals_are_mined_in_one_tick() {
    let mut model = ready();
    model.config.minerals = vec![
        priced(MineralKind::Resource(ResourceKind::Iron), 5),
        priced(MineralKind::Resource(ResourceKind::Coal), 2),
    ];
    model.minerals = vec![
        ore(100, 0, MineralKind::Resource(ResourceKind::Iron), 1),
        ore(3000, 0, MineralKind::Rock, 1),
        ore(0, 100, MineralKind::Resource(ResourceKind::Coal), 4),
        ore(-100, 0, MineralKind::Resource(ResourceKind::Bronze), 1),
        ore(0, -100, MineralKind::Resource(ResourceKind::Iron), 2),
        ore(0, 4000, MineralKind::Resource(ResourceKind::Silver), 1),
    ];
    let coal = buy(&mut model, ShopNode::CoalFuel);
    model.events.clear();
    model.drill.speed = 2000;
    model.collide_drill();
    assert_eq!(model.money, 5 + 8 + 10);
    assert_eq!(model.drill.speed, BOUNCE_SPEED);
    assert_eq!(model.events, vec![Event::Collided]);
    let kinds: Vec<MineralKind> = model.minerals.iter().map(|m| m.kind).collect();
    assert_eq!(
        kinds,
        vec![
            MineralKind::Resource(ResourceKind::Bronze),
            MineralKind::Rock,
            MineralKind::Resource(ResourceKind::Silver),
        ]
    );
    assert_eq!(fuel_of(&model.nodes.nodes[coal]), 500);
    assert_eq!(fuel_of(&model.nodes.nodes[1]), 1000);
    let mut labels: Vec<String> =
        model.floating_texts.each().iter().map(|(_, t)| t.text.clone()).collect();
    labels.sort();
    assert_eq!(labels, vec!["+10", "+5", "+8"]);
    let touched: Vec<usize> = {
        let mut t: Vec<usize> = model.drill.colliding_with.iter().copied().collect();
        t.sort();
        t
    };
    assert_eq!(touched, vec![0, 2, 3, 4]);
}

#[test]
fn minerals_without_a_price_are_mined_for_nothing() {
    let mut model = ready();
    model.minerals = vec![ore(0, 0, MineralKind::Resource(ResourceKind::Coal), 4)];
    let coal = buy(&mut model, ShopNode::CoalFuel);
    model.collide_drill();
    assert!(model.minerals.is_empty());
    assert_eq!(model.money, 0);
    assert!(model.floating_texts.each().is_empty());
    assert_eq!(fuel_of(&model.nodes.nodes[coal]), 0);
}

#[test]
fn negative_worth_is_told_with_its_sign() {
    let mut model = ready();
    model.config.minerals = vec![priced(MineralKind::Resource(ResourceKind::Iron), -7)];
    model.minerals = vec![ore(0, 0, MineralKind::Resource(ResourceKind::Iron), 2)];
    model.collide_drill();
    assert_eq!(model.money, -14);
    assert_eq!(model.floating_texts.each()[0].1.text, "+-14");
}

#[test]
fn money_saturates() {
    let mut model = ready();
    model.config.minerals = vec![priced(MineralKind::Resource(ResourceKind::Iron), i64::MAX)];
    model.minerals = vec![ore(0, 0, MineralKind::Resource(ResourceKind::Iron), 3)];
    model.money = 10;
    model.collide_drill();
    assert_eq!(model.money, i64::MAX);
}

#[test]
fn drill_bounces_off_the_sides() {
    let mut model = ready();
    model.drill.collider.position = Vec2::new(4800, -3000);
    model.drill.collider.rotation = -45_000;
    model.collide_drill();
    assert_eq!(model.drill.collider.rotation, 225_000);
    assert_eq!(model.events, vec![Event::Bounced]);
    model.drill.collider.position = Vec2::new(-4700, -3000);
    model.events.clear();
    model.collide_drill();
    assert_eq!(model.drill.collider.rotation, 225_000);
    assert!(model.events.is_empty());
    model.drill.collider.position = Vec2::new(-4701, -3000);
    model.collide_drill();
    assert_eq!(model.drill.collider.rotation, -45_000);
    assert_eq!(model.events, vec![Event::Bounced]);
}

#[test]
fn scan_tells_what_the_drill_touches() {
    let mut model = ready();
    model.minerals = vec![
        ore(0, 0, MineralKind::Resource(ResourceKind::Iron), 1),
        ore(450, 0, MineralKind::Resource(ResourceKind::Coal), 1),
        ore(451, 0, MineralKind::Resource(ResourceKind::Coal), 1),
        ore(0, -300, MineralKind::Rock, 1),
    ];
    let contact = scan_minerals(&model.minerals, &model.drill);
    assert_eq!(contact.collected, vec![0, 1]);
    assert!(contact.bounce);
    let mut touched: Vec<usize> = contact.touched.iter().copied().collect();
    touched.sort();
    assert_eq!(touched, vec![0, 1, 3]);
    model.minerals.pop();
    let contact = scan_minerals(&model.minerals, &model.drill);
    assert!(!contact.bounce);
}

#[test]
fn prices_come_from_the_first_entry_of_a_sort() {
    let entries = vec![
        priced(MineralKind::Rock, 1),
        priced(MineralKind::Resource(ResourceKind::Gem), 90),
        priced(MineralKind::Resource(ResourceKind::Gem), 91),
    ];
    assert_eq!(find_price(&entries, MineralKind::Rock), Some(1));
    assert_eq!(find_price(&entries, MineralKind::Resource(ResourceKind::Gem)), Some(90));
    assert_eq!(find_price(&entries, MineralKind::Resource(ResourceKind::Coal)), None);
    assert!(same_kind(MineralKind::Rock, MineralKind::Rock));
    assert!(!same_kind(MineralKind::Rock, MineralKind::Resource(ResourceKind::Coal)));
    assert!(same_kind(
        MineralKind::Resource(ResourceKind::Silver),
        MineralKind::Resource(ResourceKind::Silver)
    ));
    assert!(!same_kind(
        MineralKind::Resource(ResourceKind::Silver),
        MineralKind::Resource(ResourceKind::Gold)
    ));
}

#[test]
fn expected_spawns_are_area_times_density() {
    assert_eq!(expected_spawns(0, -500, 10_000, 300), 1500);
    assert_eq!(expected_spawns(-1000, -1500, 20_000, 50), 500);
    assert_eq!(expected_spawns(0, -500, 10_000, -300), -1500);
    assert_eq!(expected_spawns(0, -500, 0, 300), 0);
    assert_eq!(spawn_count(1500, false), 1);
    assert_eq!(spawn_count(1500, true), 2);
    assert_eq!(spawn_count(999, false), 0);
    assert_eq!(spawn_count(999, true), 1);
    assert_eq!(spawn_count(3000, false), 3);
    assert_eq!(spawn_count(-1500, false), 0);
    assert_eq!(spawn_count(0, false), 0);
}

#[test]
fn rules_apply_within_their_range_in_either_order() {
    let rule = MineralGeneration { range: [-1000, -5000], density: 100 };
    assert!(rule_applies(&rule, -1000));
    assert!(rule_applies(&rule, -5000));
    assert!(rule_applies(&rule, -3000));
    assert!(!rule_applies(&rule, -999));
    assert!(!rule_applies(&rule, -5001));
    let flipped = MineralGeneration { range: [-5000, -1000], density: 100 };
    assert!(rule_applies(&flipped, -3000));
    assert!(!rule_applies(&flipped, 0));
}

fn generating() -> Config {
    let mut config = rules();
    config.minerals = vec![
        MineralEntry {
            kind: MineralKind::Resource(ResourceKind::Iron),
            config: MineralConfig {
                value: 5,
                generation: vec![
                    MineralGeneration { range: [0, -100_000], density: 400 },
                    MineralGeneration { range: [-2000, -3000], density: 250 },
                ],
            },
        },
        MineralEntry {
            kind: MineralKind::Rock,
            config: MineralConfig {
                value: 0,
                generation: vec![MineralGeneration { range: [-50_000, -10_000], density: 1000 }],
            },
        },
    ];
    config
}

#[test]
fn strip_gets_the_whole_part_and_at_most_one_more() {
    let mut model = Model::new(generating());
    for _ in 0..50 {
        model.minerals.clear();
        model.generate_strip(-2500, -3000);
        let n = model.minerals.len();
        assert!((3..=4).contains(&n));
        for m in &model.minerals {
            assert_eq!(m.kind, MineralKind::Resource(ResourceKind::Iron));
            assert_eq!(m.amount, 1);
            assert_eq!(m.collider, Collider::circle(m.collider.position, MINERAL_RADIUS));
            assert!(-5000 <= m.collider.position.x && m.collider.position.x <= 5000);
            assert!(-3000 <= m.collider.position.y && m.collider.position.y <= -2500);
        }
    }
    model.minerals.clear();
    model.generate_strip(-20_000, -20_500);
    let rocks = model.minerals.iter().filter(|m| m.kind == MineralKind::Rock).count();
    let iron = model.minerals.len() - rocks;
    assert_eq!(rocks, 5);
    assert_eq!(iron, 2);
    model.minerals.clear();
    model.generate_strip(500, 0);
    assert!(model.minerals.is_empty());
}

#[test]
fn strips_differ_from_run_to_run() {
    let mut model = Model::new(generating());
    let mut seen = std::collections::HashSet::new();
    for _ in 0..20 {
        model.minerals.clear();
        model.generate_strip(-20_000, -20_500);
        seen.insert((model.minerals[0].collider.position.x, model.minerals[0].collider.position.y));
    }
    assert!(seen.len() > 1);
}

#[test]
fn level_is_generated_two_views_ahead() {
    let mut model = Model::new(generating());
    assert_eq!(model.depth_generated, -30_000);
    let first = model.minerals.len();
    assert!((120 + 200 + 3..=120 + 200 + 6).contains(&first));
    for m in &model.minerals {
        assert!(-30_000 <= m.collider.position.y && m.collider.position.y <= 0);
    }
    model.spawn_depths();
    assert_eq!(model.minerals.len(), first);
    model.camera.center = Vec2::new(0, -1200);
    model.spawn_depths();
    assert_eq!(model.depth_generated, -31_500);
    let added = model.minerals.len() - first;
    assert_eq!(added, 3 * 2 + 3 * 5);
    model.camera.fov = 0;
    model.camera.center = Vec2::new(0, -31_400);
    model.spawn_depths();
    assert_eq!(model.depth_generated, -31_500);
}

#[test]
fn new_level_resets_drill_nodes_and_minerals() {
    let mut model = Model::new(generating());
    let sprint = buy(&mut model, ShopNode::Sprint);
    let coal = buy(&mut model, ShopNode::CoalFuel);
    model.nodes.nodes[1].kind = NodeKind::Fuel(Bounded::<i64>::new(100, 0, 1000));
    model.nodes.nodes[sprint].kind = NodeKind::Sprint { cooldown: Bounded::<i64>::new(900, 0, 1000) };
    model.nodes.nodes[coal].kind = NodeKind::CoalFuel(Bounded::<i64>::new(300, 0, 5000));
    model.drill.collider.position = Vec2::new(700, -90_000);
    model.drill.collider.rotation = 12_345;
    model.ground_level = 1000;
    model.config.map_width = 4001;
    model.money = 77;
    model.generate_level();
    assert_eq!(model.drill.collider.position, Vec2::new(0, 1000));
    assert_eq!(model.drill.collider.rotation, FACING_DOWN);
    assert_eq!(model.camera.center, Vec2::new(0, 1000));
    assert_eq!(model.camera.fov, 15_000);
    assert_eq!(model.bounds.min, Vec2::new(-2000, -LEVEL_REACH));
    assert_eq!(model.bounds.max, Vec2::new(2000, LEVEL_REACH));
    assert_eq!(fuel_of(&model.nodes.nodes[1]), 1000);
    assert_eq!(fuel_of(&model.nodes.nodes[coal]), 300);
    match model.nodes.nodes[sprint].kind {
        NodeKind::Sprint { cooldown } => assert!(cooldown.is_min()),
        _ => panic!("no sprint node"),
    }
    assert_eq!(model.depth_generated, -29_000);
    assert!(model.minerals.iter().all(|m| m.collider.position.y <= 1000));
    assert!(model.minerals.iter().all(|m| m.collider.position.x.abs() <= 2000));
    assert_eq!(model.money, 77);
    assert_eq!(model.phase, Phase::Setup);
    assert_eq!(model.shop.len(), 2);
}

#[test]
fn new_offer_is_drawn_from_the_pool_of_the_shops_tier() {
    let mut model = Model::new(rules());
    model.nodes.nodes[3].kind = NodeKind::Shop { level: 1 };
    model.generate_level();
    assert_eq!(model.shop.len(), 2);
    assert!(model.shop.iter().all(|o| o.tier == 1));
    let mut picks: Vec<usize> = model.shop.iter().map(|o| o.index).collect();
    picks.sort();
    assert_eq!(picks, vec![0, 1]);
    model.nodes.nodes[3].kind = NodeKind::Shop { level: 4 };
    model.config.shop_2.slots = 1;
    model.generate_level();
    assert_eq!(model.shop.len(), 1);
    assert_eq!(model.shop[0].tier, 2);
    assert_eq!(model.shop[0].item, model.config.shop_2.items[model.shop[0].index]);
    model.config.shop_2.slots = 0;
    model.generate_level();
    assert!(model.shop.is_empty());
}

#[test]
fn tick_runs_its_steps_in_order() {
    let mut model = ready();
    model.config.minerals = vec![priced(MineralKind::Resource(ResourceKind::Iron), 5)];
    model.launch_drill();
    model.events.clear();
    model.minerals = vec![ore(0, -40, MineralKind::Resource(ResourceKind::Iron), 1)];
    model.update(100, down());
    assert_eq!(model.simulation_time, 100);
    assert!(model.nodes.nodes[1].is_powered);
    assert_eq!(model.shop.len(), 2);
    assert_eq!(model.drill.speed, 200);
    assert_eq!(model.drill.collider.position, Vec2::new(0, -20));
    assert_eq!(model.camera.center, Vec2::new(0, -20));
    assert!(model.minerals.is_empty());
    assert_eq!(model.money, 5);
    assert_eq!(model.events, vec![Event::Collected]);
    assert_eq!(fuel_of(&model.nodes.nodes[1]), 900);
    let texts = model.floating_texts.each();
    assert_eq!(texts.len(), 1);
    assert_eq!(texts[0].1.lifetime.value(), 900);
}

#[test]
fn tick_in_setup_leaves_the_drill_alone() {
    let mut model = ready();
    model.minerals = vec![ore(0, 0, MineralKind::Resource(ResourceKind::Iron), 1)];
    model.update(100, down());
    assert_eq!(model.phase, Phase::Setup);
    assert_eq!(model.drill.collider.position, Vec2::new(0, 0));
    assert_eq!(model.minerals.len(), 1);
    assert_eq!(fuel_of(&model.nodes.nodes[1]), 1000);
    assert_eq!(model.simulation_time, 100);
}

#[test]
fn particles_are_made_aged_and_reaped() {
    let mut model = ready();
    let request = SpawnParticles {
        amount: 3,
        position: Vec2::new(1000, 1000),
        spread: 100,
        velocity: Vec2::new(1000, 0),
        size: 50,
        color: Color { r: 1, g: 2, b: 3, a: 4 },
        lifetime: 300,
    };
    model.particles_queue.push(request);
    model.particles_queue.push(SpawnParticles { amount: 5, spread: -1, ..request });
    model.particles_queue.push(SpawnParticles { amount: 5, lifetime: -1, ..request });
    model.process_particles(100);
    assert!(model.particles_queue.is_empty());
    let particles = model.particles.each();
    assert_eq!(particles.len(), 3);
    for (_, p) in &particles {
        assert_eq!(p.text, "");
        assert_eq!(p.velocity, Vec2::new(1000, 0));
        assert_eq!(p.size, 50);
        assert_eq!(p.color, Color { r: 1, g: 2, b: 3, a: 4 });
        assert_eq!((p.lifetime.value(), p.lifetime.max()), (300, 300));
        let dx = p.position.x - 1000;
        let dy = p.position.y - 1000;
        assert!(dx * dx + dy * dy <= 100 * 100);
    }
    let before: Vec<(u64, Vec2)> = particles.iter().map(|(id, p)| (*id, p.position)).collect();
    model.process_particles(100);
    let particles = model.particles.each();
    assert_eq!(particles.len(), 3);
    for (id, p) in &particles {
        let was = before.iter().find(|(other, _)| other == id).unwrap().1;
        assert_eq!(p.position, Vec2::new(was.x + 100, was.y));
        assert_eq!(p.lifetime.value(), 200);
    }
    model.process_particles(199);
    assert_eq!(model.particles.each().len(), 3);
    model.process_particles(1);
    assert!(model.particles.each().is_empty());
}

#[test]
fn store_hands_out_distinct_identifiers() {
    let mut store = TransientStore::new();
    let particle = spawn_particles(SpawnParticles {
        amount: 1,
        position: Vec2::new(0, 0),
        spread: 0,
        velocity: Vec2::new(0, 1000),
        size: 1,
        color: Color { r: 0, g: 0, b: 0, a: 255 },
        lifetime: 100,
    })
    .pop()
    .unwrap();
    let a = store.spawn(particle.clone()).unwrap();
    let b = store.spawn(particle.clone()).unwrap();
    assert_ne!(a, b);
    let mut ids: Vec<u64> = store.each().iter().map(|(id, _)| *id).collect();
    ids.sort();
    let mut want = vec![a, b];
    want.sort();
    assert_eq!(ids, want);
    store.age(50);
    let aged = store.each();
    assert_eq!(aged.len(), 2);
    assert!(aged.iter().all(|(_, p)| p.position == Vec2::new(0, 50)));
    let c = store.spawn(particle).unwrap();
    store.age(50);
    let left = store.each();
    assert_eq!(left.len(), 1);
    assert_eq!(left[0].0, c);
    assert_eq!(left[0].1.lifetime.value(), 50);
}
