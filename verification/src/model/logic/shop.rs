//! The economy: what the shop offers and what a purchase does.

use crate::bounded::Bounded;
use crate::geometry::{Aabb2, Vec2};
use crate::model::{
    Config, ConnectionKind, Event, Model, Node, NodeConnection, NodeKind, Nodes, Phase, ShopConfig,
    ShopItem, ShopItemTracked, ShopNode,
};
use crate::scalar::{sat, sat_sub, Coord, UNIT};
use vstd::prelude::*;

verus! {

/// The level of the shop: that of the first shop node of the first `n` nodes.
pub open spec fn shop_level_upto(nodes: Seq<Node>, n: int) -> Option<usize>
    decreases n,
{
    if n <= 0 {
        None
    } else {
        match shop_level_upto(nodes, n - 1) {
            Some(level) => Some(level),
            None => match nodes[n - 1].kind {
                NodeKind::Shop { level } => Some(level),
                _ => None,
            },
        }
    }
}

/// The level of the shop: that of the first shop node, if there is one.
pub open spec fn shop_level(nodes: Seq<Node>) -> Option<usize> {
    shop_level_upto(nodes, nodes.len() as int)
}

/// Those of the first `n` items of a pool that are not sold out, each with
/// the tier of the pool and its place in it.
pub open spec fn unsold_upto(pool: Seq<ShopItem>, tier: usize, n: int) -> Seq<ShopItemTracked>
    decreases n,
{
    if n <= 0 {
        Seq::empty()
    } else {
        let before = unsold_upto(pool, tier, n - 1);
        if pool[n - 1].sold_out {
            before
        } else {
            before.push(ShopItemTracked { item: pool[n - 1], tier, index: (n - 1) as usize })
        }
    }
}

/// The items of a pool that are not sold out.
pub open spec fn unsold(pool: ShopConfig, tier: usize) -> Seq<ShopItemTracked> {
    unsold_upto(pool.items@, tier, pool.items@.len() as int)
}

/// Everything that a shop of the given level could offer: the unsold items of
/// the pools of every tier up to the level, tier by tier.
pub open spec fn unlocked(config: Config, level: usize) -> Seq<ShopItemTracked> {
    unsold(config.shop_0, 0) + (if level >= 1 {
        unsold(config.shop_1, 1)
    } else {
        Seq::empty()
    }) + (if level >= 2 {
        unsold(config.shop_2, 2)
    } else {
        Seq::empty()
    })
}

/// What a shop of the given level offers: the first of the unlocked items, as
/// many as the pool of the level has slots.
pub open spec fn on_offer(config: Config, level: usize) -> Seq<ShopItemTracked> {
    let all = unlocked(config, level);
    let slots = config.pool(level).slots;
    if slots <= all.len() {
        all.subrange(0, slots as int)
    } else {
        all
    }
}

/// The offer of a graph: that of its shop node, and nothing without one.
pub open spec fn offer_of(config: Config, nodes: Seq<Node>) -> Seq<ShopItemTracked> {
    match shop_level(nodes) {
        Some(level) => on_offer(config, level),
        None => Seq::empty(),
    }
}

/// A free slot of the given kind at the given place of its node.
pub open spec fn free_slot(x: Coord, y: Coord, kind: ConnectionKind) -> NodeConnection {
    NodeConnection { offset: Vec2 { x, y }, kind, connected_to: None }
}

/// The slots that a bought node comes with.
pub open spec fn slot_template(node: ShopNode) -> Seq<NodeConnection> {
    match node {
        ShopNode::FuelSmall | ShopNode::Fuel | ShopNode::CoalFuel => seq![
            free_slot(0, 500, ConnectionKind::Fuel),
        ],
        ShopNode::TurnLeft | ShopNode::TurnRight => seq![
            free_slot(0, 500, ConnectionKind::Normal),
            free_slot(500, 1000, ConnectionKind::Drill),
            free_slot(1000, 500, ConnectionKind::Normal),
        ],
        ShopNode::Battery | ShopNode::Sprint => seq![
            free_slot(0, 500, ConnectionKind::Normal),
            free_slot(1000, 500, ConnectionKind::Normal),
        ],
        ShopNode::Upgrade => seq![
            free_slot(500, 0, ConnectionKind::Upgrade),
            free_slot(500, 1000, ConnectionKind::Upgrade),
        ],
        ShopNode::Speed | ShopNode::Light => seq![
            free_slot(0, 500, ConnectionKind::Drill),
            free_slot(500, 1000, ConnectionKind::Upgrade),
            free_slot(1000, 500, ConnectionKind::Fuel),
        ],
    }
}

/// The kind of node that a shop item turns into.
pub open spec fn kind_of(node: ShopNode, config: Config) -> NodeKind {
    match node {
        ShopNode::FuelSmall => NodeKind::Fuel(
            Bounded { value: config.fuel_small_amount, min: 0i64, max: config.fuel_small_amount },
        ),
        ShopNode::Fuel => NodeKind::Fuel(
            Bounded { value: config.fuel_normal_amount, min: 0i64, max: config.fuel_normal_amount },
        ),
        ShopNode::TurnLeft => NodeKind::TurnLeft,
        ShopNode::TurnRight => NodeKind::TurnRight,
        ShopNode::Battery => NodeKind::Battery,
        ShopNode::Upgrade => NodeKind::Upgrade,
        ShopNode::Speed => NodeKind::Speed { level: 0 },
        ShopNode::Light => NodeKind::Vision { level: 0 },
        ShopNode::Sprint => NodeKind::Sprint {
            cooldown: Bounded { value: 0i64, min: 0i64, max: UNIT },
        },
        ShopNode::CoalFuel => NodeKind::CoalFuel(
            Bounded { value: 0i64, min: 0i64, max: config.fuel_normal_amount },
        ),
    }
}

/// The square of unit size around the center of `bounds`.
pub open spec fn unit_square(bounds: Aabb2) -> Aabb2 {
    let half = Vec2 { x: 500, y: 500 };
    Aabb2 { min: bounds.middle().minus(half), max: bounds.middle().plus(half) }
}

/// `node` is what the shop item `bought` turns into: an unpowered node of
/// unit size at the center of the bounds, with the kind and the free slots of
/// the item.
pub open spec fn is_bought_node(node: Node, bought: ShopNode, config: Config, bounds: Aabb2) -> bool {
    &&& !node.is_powered
    &&& node.position == unit_square(bounds)
    &&& node.kind == kind_of(bought, config)
    &&& node.connections@ == slot_template(bought)
}

/// The items of a pool after the item at `index` was sold; nothing changes
/// where the pool has no such item.
pub open spec fn sold(items: Seq<ShopItem>, index: usize) -> Seq<ShopItem> {
    if index < items.len() {
        items.update(index as int, ShopItem { sold_out: true, ..items[index as int] })
    } else {
        items
    }
}

/// `after` is `before` with the item at `index` of the pool of `tier` sold.
pub open spec fn config_sold(before: Config, after: Config, tier: usize, index: usize) -> bool {
    let hit: usize = if tier >= 2 {
        2
    } else {
        tier
    };
    &&& after.same_rules(before)
    &&& after.pool(hit).slots == before.pool(hit).slots
    &&& after.pool(hit).items@ == sold(before.pool(hit).items@, index)
    &&& forall|other: usize| 0 <= other <= 2 && other != hit ==> after.same_pool(before, other)
}

/// Appends the unsold items of `pool` to `items`.
fn push_unsold(items: &mut Vec<ShopItemTracked>, pool: &ShopConfig, tier: usize)
    ensures
        final(items)@ == old(items)@ + unsold(*pool, tier),
{
    let mut i: usize = 0;
    assert(old(items)@ + unsold_upto(pool.items@, tier, 0) =~= old(items)@);
    while i < pool.items.len()
        invariant
            i <= pool.items.len(),
            items@ == old(items)@ + unsold_upto(pool.items@, tier, i as int),
        decreases pool.items.len() - i,
    {
        let item: ShopItem = pool.items[i];
        if !item.sold_out {
            items.push(ShopItemTracked { item, tier, index: i });
            assert(items@ =~= old(items)@ + unsold_upto(pool.items@, tier, i + 1));
        }
        i = i + 1;
    }
}

/// The level of the first shop node.
pub fn find_shop_level(nodes: &Vec<Node>) -> (level: Option<usize>)
    ensures
        level == shop_level(nodes@),
{
    let mut i: usize = 0;
    while i < nodes.len()
        invariant
            i <= nodes.len(),
            shop_level_upto(nodes@, i as int) is None,
        decreases nodes.len() - i,
    {
        match nodes[i].kind {
            NodeKind::Shop { level } => {
                proof {
                    lemma_shop_level_found(nodes@, i as int, nodes@.len() as int);
                }
                return Some(level);
            },
            _ => {},
        }
        i = i + 1;
    }
    None
}

/// A shop node that is the first one up to its place stays the first one.
proof fn lemma_shop_level_found(nodes: Seq<Node>, i: int, n: int)
    requires
        0 <= i < n <= nodes.len(),
        shop_level_upto(nodes, i) is None,
        nodes[i].kind is Shop,
    ensures
        shop_level_upto(nodes, n) == Some(nodes[i].kind->Shop_level),
    decreases n - i,
{
    if n > i + 1 {
        lemma_shop_level_found(nodes, i, n - 1);
    }
}

/// The slots that a bought node comes with.
pub fn connection_template(node: ShopNode) -> (slots: Vec<NodeConnection>)
    ensures
        slots@ == slot_template(node),
{
    let mut slots: Vec<NodeConnection> = Vec::new();
    match node {
        ShopNode::FuelSmall | ShopNode::Fuel | ShopNode::CoalFuel => {
            slots.push(new_slot(0, 500, ConnectionKind::Fuel));
        },
        ShopNode::TurnLeft | ShopNode::TurnRight => {
            slots.push(new_slot(0, 500, ConnectionKind::Normal));
            slots.push(new_slot(500, 1000, ConnectionKind::Drill));
            slots.push(new_slot(1000, 500, ConnectionKind::Normal));
        },
        ShopNode::Battery | ShopNode::Sprint => {
            slots.push(new_slot(0, 500, ConnectionKind::Normal));
            slots.push(new_slot(1000, 500, ConnectionKind::Normal));
        },
        ShopNode::Upgrade => {
            slots.push(new_slot(500, 0, ConnectionKind::Upgrade));
            slots.push(new_slot(500, 1000, ConnectionKind::Upgrade));
        },
        ShopNode::Speed | ShopNode::Light => {
            slots.push(new_slot(0, 500, ConnectionKind::Drill));
            slots.push(new_slot(500, 1000, ConnectionKind::Upgrade));
            slots.push(new_slot(1000, 500, ConnectionKind::Fuel));
        },
    }
    assert(slots@ =~= slot_template(node));
    slots
}

/// A free slot of the given kind at the given place of its node.
pub fn new_slot(x: Coord, y: Coord, kind: ConnectionKind) -> (slot: NodeConnection)
    ensures
        slot == free_slot(x, y, kind),
{
    NodeConnection { offset: Vec2 { x, y }, kind, connected_to: None }
}

/// The kind of node that a shop item turns into.
pub fn node_kind(node: ShopNode, config: &Config) -> (kind: NodeKind)
    requires
        config.wf(),
    ensures
        kind == kind_of(node, *config),
        kind.wf(),
        !(kind is Power),
{
    match node {
        ShopNode::FuelSmall => NodeKind::Fuel(Bounded::<i64>::new_max(config.fuel_small_amount)),
        ShopNode::Fuel => NodeKind::Fuel(Bounded::<i64>::new_max(config.fuel_normal_amount)),
        ShopNode::TurnLeft => NodeKind::TurnLeft,
        ShopNode::TurnRight => NodeKind::TurnRight,
        ShopNode::Battery => NodeKind::Battery,
        ShopNode::Upgrade => NodeKind::Upgrade,
        ShopNode::Speed => NodeKind::Speed { level: 0 },
        ShopNode::Light => NodeKind::Vision { level: 0 },
        ShopNode::Sprint => NodeKind::Sprint { cooldown: Bounded::<i64>::new_zero(UNIT) },
        ShopNode::CoalFuel => NodeKind::CoalFuel(
            Bounded::<i64>::new_zero(config.fuel_normal_amount),
        ),
    }
}

/// Marks the item at `index` of a pool as sold; does nothing where the pool
/// has no such item.
fn mark_sold(pool: &mut ShopConfig, index: usize)
    ensures
        final(pool).slots == old(pool).slots,
        final(pool).items@ == sold(old(pool).items@, index),
{
    if index < pool.items.len() {
        pool.items[index].sold_out = true;
        assert(pool.items@ =~= sold(old(pool).items@, index));
    }
}

impl Model {
    /// The item at `index` of the offer can be bought now: the phase is
    /// setup, the offer has such an item, and the money covers its cost.
    pub open spec fn can_purchase(&self, index: usize) -> bool {
        &&& self.phase is Setup
        &&& index < self.shop@.len()
        &&& self.shop@[index as int].item.cost <= self.money
    }

    /// `post` is `pre` with the offer refreshed.
    pub open spec fn shop_refreshed(pre: Model, post: Model) -> bool {
        &&& post.shop@ == offer_of(pre.config, pre.nodes.nodes@)
        &&& post == (Model { shop: post.shop, ..pre })
    }

    /// Refreshes the offer from the pools that the level of the shop node
    /// unlocks.
    pub fn update_shop(&mut self)
        ensures
            Model::shop_refreshed(*old(self), *final(self)),
    {
        let mut items: Vec<ShopItemTracked> = Vec::new();
        match find_shop_level(&self.nodes.nodes) {
            Some(level) => {
                push_unsold(&mut items, &self.config.shop_0, 0);
                if level >= 1 {
                    push_unsold(&mut items, &self.config.shop_1, 1);
                }
                if level >= 2 {
                    push_unsold(&mut items, &self.config.shop_2, 2);
                }
                assert(items@ =~= unlocked(self.config, level));
                let slots: usize = match level {
                    0 => self.config.shop_0.slots,
                    1 => self.config.shop_1.slots,
                    _ => self.config.shop_2.slots,
                };
                items.truncate(slots);
            },
            None => {},
        }
        self.shop = items;
    }

    /// `post` is `pre` after an attempt to buy the item at `index` of the
    /// offer.
    pub open spec fn purchased(pre: Model, post: Model, index: usize) -> bool {
        if pre.can_purchase(index) {
            let bought = pre.shop@[index as int];
            &&& post.money == sat(pre.money - bought.item.cost)
            &&& post.shop@ == pre.shop@.remove(index as int)
            &&& config_sold(pre.config, post.config, bought.tier, bought.index)
            &&& post.nodes.nodes@.len() == pre.nodes.nodes@.len() + 1
            &&& post.nodes.nodes@.drop_last() == pre.nodes.nodes@
            &&& is_bought_node(
                post.nodes.nodes@.last(),
                bought.item.node,
                pre.config,
                pre.nodes.bounds,
            )
            &&& post.events@ == pre.events@.push(Event::Purchased)
            &&& post.nodes == (Nodes { nodes: post.nodes.nodes, ..pre.nodes })
            &&& post == (Model {
                money: post.money,
                shop: post.shop,
                config: post.config,
                nodes: post.nodes,
                events: post.events,
                ..pre
            })
        } else {
            post == pre
        }
    }

    /// Buys the item at `index` of the offer: takes its cost off the money,
    /// takes it off the offer, marks it as sold in its pool and puts the node
    /// that it turns into at the center of the graph. Does nothing where the
    /// item cannot be bought.
    pub fn purchase_item(&mut self, index: usize)
        requires
            old(self).wf(),
        ensures
            Model::purchased(*old(self), *final(self), index),
            final(self).wf(),
            old(self).nodes.contained() ==> final(self).nodes.contained(),
    {
        match self.phase {
            Phase::Setup => {},
            Phase::Drill => {
                return ;
            },
        }
        if index >= self.shop.len() {
            return ;
        }
        if self.shop[index].item.cost > self.money {
            return ;
        }
        let bought: ShopItemTracked = self.shop.remove(index);
        self.money = sat_sub(self.money, bought.item.cost);
        let kind = node_kind(bought.item.node, &self.config);
        match bought.tier {
            0 => {
                mark_sold(&mut self.config.shop_0, bought.index);
            },
            1 => {
                mark_sold(&mut self.config.shop_1, bought.index);
            },
            _ => {
                mark_sold(&mut self.config.shop_2, bought.index);
            },
        }
        let bounds = self.nodes.bounds;
        let position = Aabb2::point(bounds.center()).extend_symmetric(Vec2 { x: 500, y: 500 });
        let node = Node {
            is_powered: false,
            position,
            kind,
            connections: connection_template(bought.item.node),
        };
        proof {
            assert(position.wf() && position.fits(bounds) && position.within(bounds));
            assert(node.wf(bounds));
        }
        self.nodes.nodes.push(node);
        self.events.push(Event::Purchased);
        proof {
            let after = self.nodes.nodes@;
            let before = old(self).nodes.nodes@;
            assert(after.drop_last() =~= before);
            assert(after.len() == self.nodes.nodes.len());
            assert(self.config.wf());
            assert(self.bounds.wf());
            assert forall|i: int| 0 <= i < after.len() implies ((#[trigger] after[i]).kind is Power
                <==> i == 0) && after[i].wf(bounds) by {
                if i < before.len() {
                    assert(after[i] == before[i]);
                    assert(before[i].wf(bounds));
                }
            }
            if old(self).nodes.contained() {
                assert forall|i: int| 0 <= i < after.len() implies (#[trigger] after[i]).position.within(
                    bounds,
                ) by {
                    if i < before.len() {
                        assert(after[i] == before[i]);
                    }
                }
            }
        }
    }
}

} // verus!
