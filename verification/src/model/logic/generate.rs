//! The level generator: resets the level and fills it with minerals strip by
//! strip as the drill descends.
//!
//! How many minerals a rule puts into a strip is the product of the strip's
//! area and the rule's density. The whole part of that number is spawned for
//! certain, and one more mineral with the probability of the fractional part.

use crate::collider::{Collider, Shape};
use crate::geometry::{Aabb2, Vec2};
use crate::model::logic::shop::{find_shop_level, shop_level};
use crate::model::{
    Camera, Config, Drill, Mineral, MineralEntry, MineralGeneration, MineralKind, Model, Node,
    NodeKind, Nodes, ShopConfig, ShopItemTracked,
};
use crate::random::{random_between, random_chance, random_indices};
use crate::scalar::{mul_scaled, sat, sat_mul, sat_sub, scaled, Coord};
use vstd::prelude::*;

verus! {

/// The height of a strip.
pub const STRIP_HEIGHT: Coord = 500;

/// The radius of a generated mineral.
pub const MINERAL_RADIUS: Coord = 150;

/// How far the level reaches above and below the origin.
pub const LEVEL_REACH: Coord = 10_000_000;

/// The rotation of a drill that points straight down.
pub const FACING_DOWN: i64 = -90_000;

/// The rule generates minerals in a strip whose upper edge is at `y`.
pub open spec fn applies(rule: MineralGeneration, y: Coord) -> bool {
    let lo = vstd::math::min(rule.range@[0] as int, rule.range@[1] as int);
    let hi = vstd::math::max(rule.range@[0] as int, rule.range@[1] as int);
    lo <= y <= hi
}

/// The number of minerals, in thousandths, that a rule of the given density
/// is expected to put into a strip from `y_min` up to `y_max` of the given
/// width; each step of the product saturates.
pub open spec fn expected(y_max: Coord, y_min: Coord, width: Coord, density: Coord) -> int {
    let height = sat(y_max - y_min);
    let area = sat(scaled(height, width as int));
    sat(scaled(area, density as int))
}

/// The whole part of an expected number given in thousandths; nothing where
/// the number is negative.
pub open spec fn whole(thousandths: int) -> int {
    if thousandths > 0 {
        thousandths / 1000
    } else {
        0
    }
}

/// The fractional part of an expected number given in thousandths.
pub open spec fn fraction(thousandths: int) -> int {
    if thousandths > 0 {
        thousandths % 1000
    } else {
        0
    }
}

/// How many minerals to spawn for an expected number, where `extra` tells
/// whether the draw for the fractional part came out in favor.
pub open spec fn spawn_total(thousandths: int, extra: bool) -> int {
    whole(thousandths) + if extra {
        1int
    } else {
        0int
    }
}

/// The fewest minerals that a rule puts into a strip.
pub open spec fn rule_floor(rule: MineralGeneration, y_max: Coord, y_min: Coord, width: Coord) -> int {
    if applies(rule, y_max) {
        whole(expected(y_max, y_min, width, rule.density))
    } else {
        0
    }
}

/// The most minerals that a rule puts into a strip: one more than the fewest
/// where the expected number has a fractional part.
pub open spec fn rule_ceil(rule: MineralGeneration, y_max: Coord, y_min: Coord, width: Coord) -> int {
    if applies(rule, y_max) && fraction(expected(y_max, y_min, width, rule.density)) > 0 {
        rule_floor(rule, y_max, y_min, width) + 1
    } else {
        rule_floor(rule, y_max, y_min, width)
    }
}

/// The fewest and the most minerals that the first `n` rules put into a strip.
pub open spec fn rules_range(
    rules: Seq<MineralGeneration>,
    n: int,
    y_max: Coord,
    y_min: Coord,
    width: Coord,
) -> (int, int)
    decreases n,
{
    if n <= 0 {
        (0, 0)
    } else {
        let before = rules_range(rules, n - 1, y_max, y_min, width);
        (
            before.0 + rule_floor(rules[n - 1], y_max, y_min, width),
            before.1 + rule_ceil(rules[n - 1], y_max, y_min, width),
        )
    }
}

/// The fewest and the most minerals that the first `n` sorts of minerals put
/// into a strip.
pub open spec fn strip_range(
    entries: Seq<MineralEntry>,
    n: int,
    y_max: Coord,
    y_min: Coord,
    width: Coord,
) -> (int, int)
    decreases n,
{
    if n <= 0 {
        (0, 0)
    } else {
        let before = strip_range(entries, n - 1, y_max, y_min, width);
        let rules = entries[n - 1].config.generation@;
        let here = rules_range(rules, rules.len() as int, y_max, y_min, width);
        (before.0 + here.0, before.1 + here.1)
    }
}

/// How far `depth` is above `floor`; nothing where it is not above it.
pub open spec fn to_go(depth: Coord, floor: Coord) -> nat {
    if depth > floor {
        (depth - floor) as nat
    } else {
        0
    }
}

/// The depth at which generation stops: the first of `depth`, `depth` less
/// one strip, `depth` less two strips and so on that is not above `floor`.
pub open spec fn settled_depth(depth: Coord, floor: Coord) -> Coord
    decreases to_go(depth, floor),
{
    if depth > floor {
        settled_depth(next_depth(depth), floor)
    } else {
        depth
    }
}

/// The depth one strip below `depth`, saturating.
pub open spec fn next_depth(depth: Coord) -> Coord {
    if depth - 500 < i64::MIN {
        i64::MIN
    } else {
        (depth - 500) as i64
    }
}

/// The fewest and the most minerals that are generated from `depth` down to
/// `floor`, strip by strip.
pub open spec fn strips_range(config: Config, depth: Coord, floor: Coord) -> (int, int)
    decreases to_go(depth, floor),
{
    if depth > floor {
        let next = next_depth(depth);
        let here = strip_range(
            config.minerals@,
            config.minerals@.len() as int,
            depth,
            next,
            config.map_width,
        );
        let below = strips_range(config, next, floor);
        (here.0 + below.0, here.1 + below.1)
    } else {
        (0, 0)
    }
}

/// `mineral` is a generated one: a single piece, a circle of the radius of
/// generated minerals, at a point between the sides of `bounds` and between
/// `y_min` and `y_max`.
pub open spec fn placed(mineral: Mineral, bounds: Aabb2, y_max: Coord, y_min: Coord) -> bool {
    &&& mineral.amount == 1
    &&& mineral.collider.rotation == 0
    &&& mineral.collider.shape == (Shape::Circle { radius: MINERAL_RADIUS })
    &&& bounds.min.x <= mineral.collider.position.x <= bounds.max.x
    &&& y_min <= mineral.collider.position.y <= y_max
}

/// The configuration has a rule for `kind` that applies at `y`.
pub open spec fn has_rule(entries: Seq<MineralEntry>, kind: MineralKind, y: Coord) -> bool {
    exists|e: int, r: int|
        0 <= e < entries.len() && 0 <= r < entries[e].config.generation@.len() && (
        #[trigger] entries[e]).kind == kind && applies(
            #[trigger] entries[e].config.generation@[r],
            y,
        )
}

/// `after` is `before` with minerals added at its end, between `fewest` and
/// `most` of them, each placed in the strip.
pub open spec fn strip_added(
    before: Seq<Mineral>,
    after: Seq<Mineral>,
    fewest: int,
    most: int,
    bounds: Aabb2,
    y_max: Coord,
    y_min: Coord,
) -> bool {
    &&& before.len() <= after.len()
    &&& before.len() + fewest <= after.len() <= before.len() + most
    &&& after.subrange(0, before.len() as int) == before
    &&& forall|i: int|
        before.len() <= i < after.len() ==> placed(#[trigger] after[i], bounds, y_max, y_min)
}

/// What was added to a list that grew out of another list was added to that
/// one as well.
pub proof fn lemma_grown_twice(a: Seq<Mineral>, b: Seq<Mineral>, c: Seq<Mineral>)
    requires
        a.len() <= b.len() <= c.len(),
        b.subrange(0, a.len() as int) == a,
        c.subrange(0, b.len() as int) == b,
    ensures
        c.subrange(0, a.len() as int) == a,
        forall|i: int| 0 <= i < b.len() ==> c[i] == b[i],
{
    assert forall|i: int| 0 <= i < b.len() implies c[i] == b[i] by {
        assert(c.subrange(0, b.len() as int)[i] == c[i]);
    }
    assert forall|i: int| 0 <= i < a.len() implies c[i] == a[i] by {
        assert(b.subrange(0, a.len() as int)[i] == b[i]);
    }
    assert(c.subrange(0, a.len() as int) =~= a);
}

/// The number of minerals to spawn for an expected number, given the draw
/// for its fractional part.
pub fn spawn_count(thousandths: i64, extra: bool) -> (count: u64)
    ensures
        count == spawn_total(thousandths as int, extra),
{
    if thousandths <= 0 {
        if extra {
            1
        } else {
            0
        }
    } else {
        let base: u64 = (thousandths / 1000) as u64;
        if extra {
            base + 1
        } else {
            base
        }
    }
}

/// The expected number of minerals of a rule in a strip, in thousandths.
pub fn expected_spawns(y_max: Coord, y_min: Coord, width: Coord, density: Coord) -> (e: i64)
    ensures
        e == expected(y_max, y_min, width, density),
{
    let height = sat_sub(y_max, y_min);
    let area = mul_scaled(height, width);
    mul_scaled(area, density)
}

/// Whether the rule generates minerals in a strip whose upper edge is at `y`.
pub fn rule_applies(rule: &MineralGeneration, y: Coord) -> (r: bool)
    ensures
        r == applies(*rule, y),
{
    let a: i64 = rule.range[0];
    let b: i64 = rule.range[1];
    let (lo, hi) = if a > b {
        (b, a)
    } else {
        (a, b)
    };
    lo <= y && y <= hi
}

/// Spawns the minerals of one rule in the strip from `y_min` up to `y_max`.
fn spawn_rule(
    minerals: &mut Vec<Mineral>,
    kind: MineralKind,
    rule: &MineralGeneration,
    bounds: Aabb2,
    width: Coord,
    y_max: Coord,
    y_min: Coord,
)
    requires
        bounds.wf(),
        y_min <= y_max,
    ensures
        strip_added(
            old(minerals)@,
            final(minerals)@,
            rule_floor(*rule, y_max, y_min, width),
            rule_ceil(*rule, y_max, y_min, width),
            bounds,
            y_max,
            y_min,
        ),
        forall|i: int|
            old(minerals)@.len() <= i < final(minerals)@.len() ==> (#[trigger] final(
                minerals
            )@[i]).kind == kind && applies(*rule, y_max),
{
    if !rule_applies(rule, y_max) {
        assert(minerals@.subrange(0, minerals@.len() as int) =~= minerals@);
        return ;
    }
    let e: i64 = expected_spawns(y_max, y_min, width, rule.density);
    let part: u32 = if e > 0 {
        (e % 1000) as u32
    } else {
        0
    };
    let extra: bool = random_chance(part, 1000);
    let count: u64 = spawn_count(e, extra);
    let ghost before = minerals@;
    let mut made: u64 = 0;
    assert(minerals@.subrange(0, before.len() as int) =~= before);
    while made < count
        invariant
            made <= count,
            bounds.wf(),
            y_min <= y_max,
            minerals@.len() == before.len() + made,
            minerals@.subrange(0, before.len() as int) == before,
            forall|i: int|
                before.len() <= i < minerals@.len() ==> placed(
                    #[trigger] minerals@[i],
                    bounds,
                    y_max,
                    y_min,
                ) && minerals@[i].kind == kind,
        decreases count - made,
    {
        let x: i64 = random_between(bounds.min.x, bounds.max.x);
        let y: i64 = random_between(y_min, y_max);
        let mineral = Mineral {
            collider: Collider::circle(Vec2 { x, y }, MINERAL_RADIUS),
            kind,
            amount: 1,
        };
        let ghost held = minerals@;
        minerals.push(mineral);
        made = made + 1;
        proof {
            assert(minerals@.subrange(0, held.len() as int) =~= held);
            lemma_grown_twice(before, held, minerals@);
        }
    }
}

/// Spawns the minerals of one sort in the strip from `y_min` up to `y_max`.
fn spawn_entry(
    minerals: &mut Vec<Mineral>,
    entry: &MineralEntry,
    bounds: Aabb2,
    width: Coord,
    y_max: Coord,
    y_min: Coord,
)
    requires
        bounds.wf(),
        y_min <= y_max,
    ensures
        strip_added(
            old(minerals)@,
            final(minerals)@,
            rules_range(
                entry.config.generation@,
                entry.config.generation@.len() as int,
                y_max,
                y_min,
                width,
            ).0,
            rules_range(
                entry.config.generation@,
                entry.config.generation@.len() as int,
                y_max,
                y_min,
                width,
            ).1,
            bounds,
            y_max,
            y_min,
        ),
        forall|i: int|
            old(minerals)@.len() <= i < final(minerals)@.len() ==> (#[trigger] final(
                minerals
            )@[i]).kind == entry.kind && exists|r: int|
                0 <= r < entry.config.generation@.len() && applies(
                    #[trigger] entry.config.generation@[r],
                    y_max,
                ),
{
    let ghost before = minerals@;
    let ghost rules = entry.config.generation@;
    let mut r: usize = 0;
    assert(minerals@.subrange(0, before.len() as int) =~= before);
    while r < entry.config.generation.len()
        invariant
            r <= entry.config.generation.len(),
            rules == entry.config.generation@,
            bounds.wf(),
            y_min <= y_max,
            strip_added(
                before,
                minerals@,
                rules_range(rules, r as int, y_max, y_min, width).0,
                rules_range(rules, r as int, y_max, y_min, width).1,
                bounds,
                y_max,
                y_min,
            ),
            forall|i: int|
                before.len() <= i < minerals@.len() ==> (#[trigger] minerals@[i]).kind
                    == entry.kind && exists|q: int|
                    0 <= q < rules.len() && applies(#[trigger] rules[q], y_max),
        decreases entry.config.generation.len() - r,
    {
        let ghost held = minerals@;
        let rule = &entry.config.generation[r];
        spawn_rule(minerals, entry.kind, rule, bounds, width, y_max, y_min);
        proof {
            lemma_grown_twice(before, held, minerals@);
            assert forall|i: int| before.len() <= i < minerals@.len() implies placed(
                #[trigger] minerals@[i],
                bounds,
                y_max,
                y_min,
            ) && minerals@[i].kind == entry.kind && exists|q: int|
                0 <= q < rules.len() && applies(#[trigger] rules[q], y_max) by {
                if i < held.len() {
                    assert(minerals@[i] == held[i]);
                } else {
                    assert(applies(rules[r as int], y_max));
                }
            }
        }
        r = r + 1;
    }
}

impl Model {
    /// The depth down to which minerals are generated: two fields of view
    /// below the center of the camera.
    pub open spec fn generation_floor(&self) -> Coord {
        sat(self.camera.center.y - sat(self.camera.fov * 2)) as i64
    }

    /// Fills the strip from `y_min` up to `y_max` with minerals: for every
    /// rule that applies at `y_max`, the whole part of the expected number and
    /// one more with the probability of its fractional part, each at a random
    /// point of the strip.
    pub fn generate_strip(&mut self, y_max: Coord, y_min: Coord)
        requires
            old(self).bounds.wf(),
            y_min <= y_max,
        ensures
            strip_added(
                old(self).minerals@,
                final(self).minerals@,
                strip_range(
                    old(self).config.minerals@,
                    old(self).config.minerals@.len() as int,
                    y_max,
                    y_min,
                    old(self).config.map_width,
                ).0,
                strip_range(
                    old(self).config.minerals@,
                    old(self).config.minerals@.len() as int,
                    y_max,
                    y_min,
                    old(self).config.map_width,
                ).1,
                old(self).bounds,
                y_max,
                y_min,
            ),
            forall|i: int|
                old(self).minerals@.len() <= i < final(self).minerals@.len() ==> has_rule(
                    old(self).config.minerals@,
                    (#[trigger] final(self).minerals@[i]).kind,
                    y_max,
                ),
            *final(self) == (Model { minerals: final(self).minerals, ..*old(self) }),
    {
        let ghost before = self.minerals@;
        let ghost entries = self.config.minerals@;
        let bounds = self.bounds;
        let width = self.config.map_width;
        let mut e: usize = 0;
        assert(self.minerals@.subrange(0, before.len() as int) =~= before);
        while e < self.config.minerals.len()
            invariant
                e <= self.config.minerals.len(),
                entries == self.config.minerals@,
                bounds == self.bounds,
                width == self.config.map_width,
                bounds.wf(),
                y_min <= y_max,
                strip_added(
                    before,
                    self.minerals@,
                    strip_range(entries, e as int, y_max, y_min, width).0,
                    strip_range(entries, e as int, y_max, y_min, width).1,
                    bounds,
                    y_max,
                    y_min,
                ),
                forall|i: int|
                    before.len() <= i < self.minerals@.len() ==> has_rule(
                        entries,
                        (#[trigger] self.minerals@[i]).kind,
                        y_max,
                    ),
                *self == (Model { minerals: self.minerals, ..*old(self) }),
            decreases self.config.minerals.len() - e,
        {
            let ghost held = self.minerals@;
            spawn_entry(&mut self.minerals, &self.config.minerals[e], bounds, width, y_max, y_min);
            proof {
                lemma_grown_twice(before, held, self.minerals@);
                assert forall|i: int| before.len() <= i < self.minerals@.len() implies placed(
                    #[trigger] self.minerals@[i],
                    bounds,
                    y_max,
                    y_min,
                ) && has_rule(entries, self.minerals@[i].kind, y_max) by {
                    if i < held.len() {
                        assert(self.minerals@[i] == held[i]);
                    } else {
                        let entry = entries[e as int];
                        let r = choose|r: int|
                            0 <= r < entry.config.generation@.len() && applies(
                                #[trigger] entry.config.generation@[r],
                                y_max,
                            );
                        assert(entries[e as int].kind == self.minerals@[i].kind && applies(
                            entries[e as int].config.generation@[r],
                            y_max,
                        ));
                    }
                }
            }
            e = e + 1;
        }
    }
}

/// `after` is `before` with minerals added at its end, between `fewest` and
/// `most` of them, each of a sort that the configuration knows and placed
/// between the depths `bottom` and `top`.
pub open spec fn level_added(
    before: Seq<Mineral>,
    after: Seq<Mineral>,
    range: (int, int),
    entries: Seq<MineralEntry>,
    bounds: Aabb2,
    top: Coord,
    bottom: Coord,
) -> bool {
    &&& strip_added(before, after, range.0, range.1, bounds, top, bottom)
    &&& forall|i: int|
        before.len() <= i < after.len() ==> has_sort(entries, (#[trigger] after[i]).kind)
}

/// The configuration knows the sort `kind`.
pub open spec fn has_sort(entries: Seq<MineralEntry>, kind: MineralKind) -> bool {
    exists|e: int| 0 <= e < entries.len() && (#[trigger] entries[e]).kind == kind
}

/// The kind of a node at the start of a level: fuel reservoirs are full and
/// sprint nodes have cooled down; coal reservoirs keep what they hold.
pub open spec fn refilled(kind: NodeKind) -> NodeKind {
    match kind {
        NodeKind::Fuel(fuel) => NodeKind::Fuel(
            crate::bounded::Bounded { value: fuel.max, ..fuel },
        ),
        NodeKind::Sprint { cooldown } => NodeKind::Sprint {
            cooldown: crate::bounded::Bounded { value: cooldown.min, ..cooldown },
        },
        _ => kind,
    }
}

/// Every node as it is at the start of a level.
pub open spec fn all_refilled(nodes: Seq<Node>) -> Seq<Node> {
    Seq::new(nodes.len(), |i: int| Node { kind: refilled(nodes[i].kind), ..nodes[i] })
}

/// The bounds of a level of the given width: centered at the origin in x, and
/// reaching `LEVEL_REACH` up and down.
pub open spec fn level_bounds(width: Coord) -> Aabb2 {
    let side = crate::collider::half(width as int);
    Aabb2 {
        min: Vec2 { x: vstd::math::min(-side, side) as i64, y: (-LEVEL_REACH) as i64 },
        max: Vec2 { x: vstd::math::max(-side, side) as i64, y: LEVEL_REACH },
    }
}

/// The tier whose pool a shop of the given level draws from.
pub open spec fn tier_of(level: usize) -> usize {
    if level >= 2 {
        2
    } else {
        level
    }
}

/// `offer` is a draw from `pool`: as many items as the pool has slots, or all
/// of them where it has fewer, no item twice, each with the tier of the pool
/// and its place in it.
pub open spec fn drawn_from(offer: Seq<ShopItemTracked>, pool: ShopConfig, tier: usize) -> bool {
    &&& offer.len() == vstd::math::min(pool.slots as int, pool.items@.len() as int)
    &&& forall|i: int|
        0 <= i < offer.len() ==> {
            &&& (#[trigger] offer[i]).tier == tier
            &&& offer[i].index < pool.items@.len()
            &&& offer[i].item == pool.items@[offer[i].index as int]
        }
    &&& forall|i: int, j: int|
        0 <= i < j < offer.len() ==> (#[trigger] offer[i]).index != (#[trigger] offer[j]).index
}

/// Fills the fuel reservoirs and cools the sprint nodes down.
fn refill_nodes(nodes: &mut Vec<Node>, Ghost(bounds): Ghost<Aabb2>)
    requires
        crate::model::graph_wf(old(nodes)@, bounds),
    ensures
        final(nodes)@ == all_refilled(old(nodes)@),
        crate::model::graph_wf(final(nodes)@, bounds),
        crate::model::graph_contained(old(nodes)@, bounds) ==> crate::model::graph_contained(
            final(nodes)@,
            bounds,
        ),
{
    let n: usize = nodes.len();
    let ghost before = nodes@;
    let mut i: usize = 0;
    while i < n
        invariant
            i <= n,
            n == before.len(),
            nodes@.len() == n,
            crate::model::graph_wf(before, bounds),
            forall|j: int|
                0 <= j < i ==> #[trigger] nodes@[j] == (Node {
                    kind: refilled(before[j].kind),
                    ..before[j]
                }),
            forall|j: int| i <= j < n ==> #[trigger] nodes@[j] == before[j],
        decreases n - i,
    {
        assert(before[i as int].wf(bounds));
        match &mut nodes[i].kind {
            NodeKind::Fuel(fuel) => {
                fuel.set_ratio(1000);
            },
            NodeKind::Sprint { cooldown } => {
                cooldown.set_ratio(0);
            },
            _ => {},
        }
        i = i + 1;
    }
    proof {
        assert(nodes@ =~= all_refilled(before));
        assert forall|j: int| 0 <= j < n implies ((#[trigger] nodes@[j]).kind is Power <==> j == 0)
            && nodes@[j].wf(bounds) by {
            assert(before[j].wf(bounds));
            assert(before[j].kind is Power <==> j == 0);
        }
        if crate::model::graph_contained(before, bounds) {
            assert forall|j: int| 0 <= j < n implies (#[trigger] nodes@[j]).position.within(
                bounds,
            ) by {
                assert(before[j].position.within(bounds));
            }
        }
    }
}

/// Draws a new offer from a pool at random.
fn draw_offer(pool: &ShopConfig, tier: usize) -> (offer: Vec<ShopItemTracked>)
    ensures
        drawn_from(offer@, *pool, tier),
{
    let length: usize = pool.items.len();
    let amount: usize = if pool.slots < length {
        pool.slots
    } else {
        length
    };
    let picks = random_indices(length, amount);
    let mut offer: Vec<ShopItemTracked> = Vec::new();
    let mut k: usize = 0;
    while k < picks.len()
        invariant
            k <= picks.len(),
            length == pool.items@.len(),
            picks@.no_duplicates(),
            forall|i: int| 0 <= i < picks@.len() ==> picks@[i] < length,
            offer@.len() == k,
            forall|i: int|
                0 <= i < k ==> {
                    &&& (#[trigger] offer@[i]).tier == tier
                    &&& offer@[i].index == picks@[i]
                    &&& offer@[i].item == pool.items@[picks@[i] as int]
                },
        decreases picks.len() - k,
    {
        let index: usize = picks[k];
        offer.push(ShopItemTracked { item: pool.items[index], tier, index });
        k = k + 1;
    }
    offer
}

impl Model {
    /// `post` is `pre` with minerals generated down to two fields of view below
    /// the camera.
    pub open spec fn depths_spawned(pre: Model, post: Model) -> bool {
        &&& post.depth_generated == settled_depth(
            pre.depth_generated,
            pre.generation_floor(),
        )
        &&& post.depth_generated <= pre.depth_generated
        &&& level_added(
            pre.minerals@,
            post.minerals@,
            strips_range(
                pre.config,
                pre.depth_generated,
                pre.generation_floor(),
            ),
            pre.config.minerals@,
            pre.bounds,
            pre.depth_generated,
            post.depth_generated,
        )
        &&& post == (Model {
            minerals: post.minerals,
            depth_generated: post.depth_generated,
            ..pre
        })
    }

    /// Generates minerals down to two fields of view below the camera, strip
    /// by strip.
    pub fn spawn_depths(&mut self)
        requires
            old(self).bounds.wf(),
        ensures
            Model::depths_spawned(*old(self), *final(self)),
    {
        let floor: i64 = sat_sub(self.camera.center.y, sat_mul(self.camera.fov, 2));
        let ghost before = self.minerals@;
        let ghost top = self.depth_generated;
        let ghost total = strips_range(self.config, top, floor);
        let ghost entries = self.config.minerals@;
        let bounds = self.bounds;
        assert(before.subrange(0, before.len() as int) =~= before);
        while self.depth_generated > floor
            invariant
                bounds == self.bounds,
                bounds.wf(),
                entries == self.config.minerals@,
                floor == old(self).generation_floor(),
                total == strips_range(old(self).config, top, floor),
                self.depth_generated <= top,
                settled_depth(self.depth_generated, floor) == settled_depth(top, floor),
                strip_added(
                    before,
                    self.minerals@,
                    total.0 - strips_range(self.config, self.depth_generated, floor).0,
                    total.1 - strips_range(self.config, self.depth_generated, floor).1,
                    bounds,
                    top,
                    self.depth_generated,
                ),
                forall|i: int|
                    before.len() <= i < self.minerals@.len() ==> has_sort(
                        entries,
                        (#[trigger] self.minerals@[i]).kind,
                    ),
                *self == (Model {
                    minerals: self.minerals,
                    depth_generated: self.depth_generated,
                    ..*old(self)
                }),
            decreases to_go(self.depth_generated, floor),
        {
            let depth: i64 = self.depth_generated;
            let next: i64 = sat_sub(depth, STRIP_HEIGHT);
            let ghost held = self.minerals@;
            assert(next == next_depth(depth));
            self.generate_strip(depth, next);
            self.depth_generated = next;
            proof {
                lemma_grown_twice(before, held, self.minerals@);
                assert forall|i: int| before.len() <= i < self.minerals@.len() implies placed(
                    #[trigger] self.minerals@[i],
                    bounds,
                    top,
                    next,
                ) && has_sort(entries, self.minerals@[i].kind) by {
                    if i < held.len() {
                        assert(self.minerals@[i] == held[i]);
                    } else {
                        let kind = self.minerals@[i].kind;
                        assert(has_rule(entries, kind, depth));
                        let (e, r) = choose|e: int, r: int|
                            0 <= e < entries.len() && 0 <= r < entries[e].config.generation@.len()
                                && (#[trigger] entries[e]).kind == kind && applies(
                                #[trigger] entries[e].config.generation@[r],
                                depth,
                            );
                        assert(entries[e].kind == kind);
                    }
                }
            }
        }
    }

    /// `post` is `pre` with a new level started.
    pub open spec fn level_reset(pre: Model, post: Model) -> bool {
        &&& post.wf()
        &&& pre.nodes.contained() ==> post.nodes.contained()
        &&& post.drill.collider == (Collider {
            position: Vec2 { x: 0, y: pre.ground_level },
            rotation: FACING_DOWN,
            ..pre.drill.collider
        })
        &&& post.drill == (Drill {
            collider: post.drill.collider,
            ..pre.drill
        })
        &&& post.nodes.nodes@ == all_refilled(pre.nodes.nodes@)
        &&& post.nodes == (Nodes { nodes: post.nodes.nodes, ..pre.nodes })
        &&& post.camera == (Camera {
            center: Vec2 { x: 0, y: pre.ground_level },
            ..pre.camera
        })
        &&& post.bounds == level_bounds(pre.config.map_width)
        &&& post.depth_generated == settled_depth(
            pre.ground_level,
            post.generation_floor(),
        )
        &&& level_added(
            Seq::empty(),
            post.minerals@,
            strips_range(
                pre.config,
                pre.ground_level,
                post.generation_floor(),
            ),
            pre.config.minerals@,
            post.bounds,
            pre.ground_level,
            post.depth_generated,
        )
        &&& drawn_from(
            post.shop@,
            pre.config.pool(
                tier_of(
                    match shop_level(pre.nodes.nodes@) {
                        Some(level) => level,
                        None => 0,
                    },
                ),
            ),
            tier_of(
                match shop_level(pre.nodes.nodes@) {
                    Some(level) => level,
                    None => 0,
                },
            ),
        )
        &&& post == (Model {
            drill: post.drill,
            nodes: post.nodes,
            camera: post.camera,
            bounds: post.bounds,
            depth_generated: post.depth_generated,
            minerals: post.minerals,
            shop: post.shop,
            ..pre
        })
    }

    /// Starts a new level: puts the drill at ground level facing down, fills
    /// the fuel reservoirs and cools the sprint nodes down, centers the camera
    /// on the drill, lays out the level's bounds, clears and regenerates the
    /// minerals and draws a new offer for the shop.
    pub fn generate_level(&mut self)
        requires
            old(self).wf(),
        ensures
            Model::level_reset(*old(self), *final(self)),
    {
        self.drill.collider.position = Vec2 { x: 0, y: self.ground_level };
        self.drill.collider.rotation = FACING_DOWN;
        let level: usize = match find_shop_level(&self.nodes.nodes) {
            Some(level) => level,
            None => 0,
        };
        refill_nodes(&mut self.nodes.nodes, Ghost(self.nodes.bounds));
        self.camera.center = self.drill.collider.position;
        let side: i64 = self.config.map_width / 2;
        self.bounds = Aabb2::from_corners(
            Vec2 { x: -side, y: -LEVEL_REACH },
            Vec2 { x: side, y: LEVEL_REACH },
        );
        self.minerals.clear();
        self.depth_generated = self.ground_level;
        self.spawn_depths();
        self.shop = match level {
            0 => draw_offer(&self.config.shop_0, 0),
            1 => draw_offer(&self.config.shop_1, 1),
            _ => draw_offer(&self.config.shop_2, 2),
        };
    }
}

} // verus!
