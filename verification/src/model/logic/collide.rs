//! Collisions of the drill: with the sides of the level and with minerals.
//!
//! A mineral counts when the drill touches it now and did not touch it at the
//! last tick. A resource of a tier up to the drill's is mined; a rock or a
//! resource of a higher tier stops the drill.

use crate::collider::Collider;
use crate::model::particles::{credit_text, is_credit_text, Color, Transient, STORE_LIMIT};
use crate::model::{
    graph_contained, graph_wf, Config, Drill, Event, Mineral, MineralEntry, MineralKind, Model,
    Node, NodeKind, Nodes, ResourceKind,
};
use crate::scalar::{sat, sat_add, sat_mul, sat_sub, Coord, Fuel, Money};
use std::collections::HashSet;
use vstd::prelude::*;

verus! {

broadcast use vstd::std_specs::hash::group_hash_axioms;

/// The speed that the drill is left with when it is stopped.
pub const BOUNCE_SPEED: Coord = 500;

/// Half a turn, as an angle.
pub const HALF_TURN: i64 = 180_000;

/// A drill of the tier `level` mines a mineral of the sort `kind`.
pub open spec fn minable(kind: MineralKind, level: ResourceKind) -> bool {
    kind matches MineralKind::Resource(tier) && tier.rank() <= level.rank()
}

/// The collider of the drill sticks out of the level to the left or to the
/// right.
pub open spec fn hits_wall(drill: Collider, bounds: crate::geometry::Aabb2) -> bool {
    drill.aabb().min.x < bounds.min.x || drill.aabb().max.x > bounds.max.x
}

/// The drill touches mineral `i`.
pub open spec fn touching(minerals: Seq<Mineral>, drill: Collider, i: int) -> bool {
    0 <= i < minerals.len() && minerals[i].collider.overlaps(drill)
}

/// The drill touches mineral `i` and did not at the last tick.
pub open spec fn fresh(minerals: Seq<Mineral>, drill: Drill, i: int) -> bool {
    touching(minerals, drill.collider, i) && !drill.colliding_with@.contains(i as usize)
}

/// The drill mines mineral `i` at this tick.
pub open spec fn mined(minerals: Seq<Mineral>, drill: Drill, i: int) -> bool {
    fresh(minerals, drill, i) && minable(minerals[i].kind, drill.drill_level)
}

/// Mineral `i` stops the drill at this tick.
pub open spec fn blocked(minerals: Seq<Mineral>, drill: Drill, i: int) -> bool {
    fresh(minerals, drill, i) && !minable(minerals[i].kind, drill.drill_level)
}

/// The places of the minerals among the first `n` that the drill touches.
pub open spec fn touched_upto(minerals: Seq<Mineral>, drill: Collider, n: int) -> Set<usize> {
    Set::new(|i: usize| i < n && touching(minerals, drill, i as int))
}

/// The places of the minerals among the first `n` that the drill mines, in
/// rising order.
pub open spec fn mined_upto(minerals: Seq<Mineral>, drill: Drill, n: int) -> Seq<usize>
    decreases n,
{
    if n <= 0 {
        Seq::empty()
    } else if mined(minerals, drill, n - 1) {
        mined_upto(minerals, drill, n - 1).push((n - 1) as usize)
    } else {
        mined_upto(minerals, drill, n - 1)
    }
}

/// One of the first `n` minerals stops the drill.
pub open spec fn blocked_upto(minerals: Seq<Mineral>, drill: Drill, n: int) -> bool {
    exists|i: int| 0 <= i < n && blocked(minerals, drill, i)
}

/// The entries of `picks` rise and are below `n`.
pub open spec fn rising(picks: Seq<usize>, n: int) -> bool {
    &&& forall|k: int| 0 <= k < picks.len() ==> (#[trigger] picks[k]) < n
    &&& forall|j: int, k: int| 0 <= j < k < picks.len() ==> picks[j] < picks[k]
}

/// The places of the mined minerals rise and lie within the list, and each
/// of them is the place of a mined mineral.
pub proof fn lemma_mined_rising(minerals: Seq<Mineral>, drill: Drill, n: int)
    requires
        0 <= n <= minerals.len() <= usize::MAX,
    ensures
        rising(mined_upto(minerals, drill, n), n),
        forall|k: int|
            0 <= k < mined_upto(minerals, drill, n).len() ==> mined(
                minerals,
                drill,
                (#[trigger] mined_upto(minerals, drill, n)[k]) as int,
            ),
    decreases n,
{
    if n > 0 {
        lemma_mined_rising(minerals, drill, n - 1);
        let before = mined_upto(minerals, drill, n - 1);
        let now = mined_upto(minerals, drill, n);
        if mined(minerals, drill, n - 1) {
            assert(now == before.push((n - 1) as usize));
            assert forall|k: int| 0 <= k < now.len() implies (#[trigger] now[k]) < n && mined(
                minerals,
                drill,
                now[k] as int,
            ) by {
                if k < before.len() {
                    assert(now[k] == before[k]);
                }
            }
            assert forall|j: int, k: int| 0 <= j < k < now.len() implies now[j] < now[k] by {
                assert(now[j] == before[j]);
                if k < before.len() {
                    assert(now[k] == before[k]);
                }
            }
        } else {
            assert(now == before);
            assert forall|k: int| 0 <= k < now.len() implies (#[trigger] now[k]) < n by {
                assert(before[k] < n - 1);
            }
        }
    }
}

/// The price of a piece of the sort `kind`: that of the first of the first
/// `n` entries for that sort.
pub open spec fn price_upto(entries: Seq<MineralEntry>, kind: MineralKind, n: int) -> Option<
    Money,
>
    decreases n,
{
    if n <= 0 {
        None
    } else {
        match price_upto(entries, kind, n - 1) {
            Some(value) => Some(value),
            None => if entries[n - 1].kind == kind {
                Some(entries[n - 1].config.value)
            } else {
                None
            },
        }
    }
}

/// What a mineral gives when it is mined: its amount times the price of its
/// sort, saturating; nothing where its sort is not configured.
pub open spec fn worth(config: Config, mineral: Mineral) -> Option<Money> {
    match price_upto(config.minerals@, mineral.kind, config.minerals@.len() as int) {
        Some(value) => Some(sat(mineral.amount * value) as i64),
        None => None,
    }
}

/// The mineral is coal that gives something.
pub open spec fn is_fuel(config: Config, mineral: Mineral) -> bool {
    mineral.kind == MineralKind::Resource(ResourceKind::Coal) && worth(config, mineral) is Some
}

/// The list of minerals after those at the places `picks[from..]` were taken
/// out, the last place first, each time by moving the last mineral of the list
/// into the gap.
pub open spec fn remaining(minerals: Seq<Mineral>, picks: Seq<usize>, from: int) -> Seq<Mineral>
    decreases picks.len() - from,
{
    if from < 0 || from >= picks.len() {
        minerals
    } else {
        let rest = remaining(minerals, picks, from + 1);
        rest.update(picks[from] as int, rest.last()).drop_last()
    }
}

/// The money after the minerals at the places `picks[from..]` were paid out,
/// the last place first; each sum saturates.
pub open spec fn banked(
    money: Money,
    config: Config,
    minerals: Seq<Mineral>,
    picks: Seq<usize>,
    from: int,
) -> Money
    decreases picks.len() - from,
{
    if from < 0 || from >= picks.len() {
        money
    } else {
        let before = banked(money, config, minerals, picks, from + 1);
        match worth(config, minerals[picks[from] as int]) {
            Some(value) => sat(before + value) as i64,
            None => before,
        }
    }
}

/// How many of the minerals at the places `picks[from..]` are coal that
/// gives something.
pub open spec fn coal_mined(config: Config, minerals: Seq<Mineral>, picks: Seq<usize>, from: int) -> nat
    decreases picks.len() - from,
{
    if from < 0 || from >= picks.len() {
        0
    } else {
        let before = coal_mined(config, minerals, picks, from + 1);
        if is_fuel(config, minerals[picks[from] as int]) {
            before + 1
        } else {
            before
        }
    }
}

/// The kind of a node after `pieces` pieces of coal were mined: a coal
/// reservoir takes the fuel of each piece in turn, every other kind stays.
pub open spec fn fed(kind: NodeKind, fuel: Fuel, pieces: nat) -> NodeKind
    decreases pieces,
{
    if pieces == 0 {
        kind
    } else {
        match fed(kind, fuel, (pieces - 1) as nat) {
            NodeKind::CoalFuel(gauge) => NodeKind::CoalFuel(gauge.with_value(gauge.value + fuel)),
            other => other,
        }
    }
}

/// Every node after `pieces` pieces of coal were mined.
pub open spec fn all_fed(nodes: Seq<Node>, fuel: Fuel, pieces: nat) -> Seq<Node> {
    Seq::new(nodes.len(), |i: int| Node { kind: fed(nodes[i].kind, fuel, pieces), ..nodes[i] })
}

/// `after` holds what `before` held, and beyond that only texts that tell
/// what one of the minerals at the places `picks[from..]` gave.
pub open spec fn texts_added(
    before: Map<u64, Transient>,
    after: Map<u64, Transient>,
    config: Config,
    minerals: Seq<Mineral>,
    picks: Seq<usize>,
    from: int,
    color: Color,
) -> bool {
    &&& forall|id: u64| #[trigger]
        before.contains_key(id) ==> after.contains_key(id) && after[id] == before[id]
    &&& forall|id: u64| #[trigger]
        after.contains_key(id) && !before.contains_key(id) ==> exists|k: int|
            from <= k < picks.len() && told(
                after[id],
                config,
                minerals[#[trigger] picks[k] as int],
                color,
            )
}

/// `text` tells what `mineral` gave.
pub open spec fn told(text: Transient, config: Config, mineral: Mineral, color: Color) -> bool {
    worth(config, mineral) matches Some(value) && is_credit_text(
        text,
        value,
        mineral.collider.position,
        color,
    )
}

/// What the scan of the minerals found.
pub struct Contact {
    /// The places of the minerals that the drill touches.
    pub touched: HashSet<usize>,
    /// The places of the minerals that the drill mines, in rising order.
    pub collected: Vec<usize>,
    /// Whether a mineral stops the drill.
    pub bounce: bool,
}

/// Looks at every mineral: which ones the drill touches, which of them it
/// mines, and whether one stops it.
pub fn scan_minerals(minerals: &Vec<Mineral>, drill: &Drill) -> (contact: Contact)
    ensures
        contact.touched@ == touched_upto(minerals@, drill.collider, minerals@.len() as int),
        contact.collected@ == mined_upto(minerals@, *drill, minerals@.len() as int),
        contact.bounce == blocked_upto(minerals@, *drill, minerals@.len() as int),
{
    let mut touched: HashSet<usize> = HashSet::new();
    let mut collected: Vec<usize> = Vec::new();
    let mut bounce: bool = false;
    let mut i: usize = 0;
    assert(touched@ =~= touched_upto(minerals@, drill.collider, 0));
    while i < minerals.len()
        invariant
            i <= minerals.len(),
            touched@ == touched_upto(minerals@, drill.collider, i as int),
            collected@ == mined_upto(minerals@, *drill, i as int),
            bounce == blocked_upto(minerals@, *drill, i as int),
        decreases minerals.len() - i,
    {
        let mineral = &minerals[i];
        let ghost seen = touched@;
        if mineral.collider.check(&drill.collider) {
            touched.insert(i);
            let known: bool = drill.colliding_with.contains(&i);
            if !known {
                let can_mine: bool = match mineral.kind {
                    MineralKind::Resource(tier) => tier.tier() <= drill.drill_level.tier(),
                    MineralKind::Rock => false,
                };
                if can_mine {
                    collected.push(i);
                } else {
                    bounce = true;
                    assert(blocked(minerals@, *drill, i as int));
                }
            }
        }
        proof {
            assert(touched@ =~= touched_upto(minerals@, drill.collider, i + 1));
            if !blocked(minerals@, *drill, i as int) && blocked_upto(minerals@, *drill, i + 1) {
                let j = choose|j: int| 0 <= j < i + 1 && blocked(minerals@, *drill, j);
                assert(0 <= j < i && blocked(minerals@, *drill, j));
            }
        }
        i = i + 1;
    }
    Contact { touched, collected, bounce }
}

/// The price of a piece of the sort `kind`.
pub fn find_price(entries: &Vec<MineralEntry>, kind: MineralKind) -> (price: Option<Money>)
    ensures
        price == price_upto(entries@, kind, entries@.len() as int),
{
    let mut i: usize = 0;
    while i < entries.len()
        invariant
            i <= entries.len(),
            price_upto(entries@, kind, i as int) is None,
        decreases entries.len() - i,
    {
        if same_kind(entries[i].kind, kind) {
            proof {
                lemma_price_found(entries@, kind, i as int, entries@.len() as int);
            }
            return Some(entries[i].config.value);
        }
        i = i + 1;
    }
    None
}

/// Whether two sorts of minerals are the same.
pub fn same_kind(a: MineralKind, b: MineralKind) -> (same: bool)
    ensures
        same == (a == b),
{
    match a {
        MineralKind::Rock => match b {
            MineralKind::Rock => true,
            _ => false,
        },
        MineralKind::Resource(x) => match b {
            MineralKind::Resource(y) => x.tier() == y.tier(),
            _ => false,
        },
    }
}

/// The first entry for a sort sets its price.
proof fn lemma_price_found(entries: Seq<MineralEntry>, kind: MineralKind, i: int, n: int)
    requires
        0 <= i < n <= entries.len(),
        price_upto(entries, kind, i) is None,
        entries[i].kind == kind,
    ensures
        price_upto(entries, kind, n) == Some(entries[i].config.value),
    decreases n - i,
{
    if n > i + 1 {
        lemma_price_found(entries, kind, i, n - 1);
    }
}

/// The kind of a node after one piece of coal was mined: a coal reservoir
/// takes its fuel, every other kind stays.
pub open spec fn fed_once(kind: NodeKind, fuel: Fuel) -> NodeKind {
    match kind {
        NodeKind::CoalFuel(gauge) => NodeKind::CoalFuel(gauge.with_value(gauge.value + fuel)),
        other => other,
    }
}

/// Feeding one piece after some pieces is feeding one piece more.
pub proof fn lemma_fed_step(kind: NodeKind, fuel: Fuel, pieces: nat)
    ensures
        fed(kind, fuel, pieces + 1) == fed_once(fed(kind, fuel, pieces), fuel),
        fed(kind, fuel, pieces) is Power <==> kind is Power,
        fed(kind, fuel, pieces) is CoalFuel || fed(kind, fuel, pieces) == kind,
    decreases pieces,
{
    if pieces > 0 {
        lemma_fed_step(kind, fuel, (pieces - 1) as nat);
    }
}

/// Where places rise below `n`, the place at position `r` leaves room for the
/// places after it.
pub proof fn lemma_rising_room(picks: Seq<usize>, n: int, r: int)
    requires
        rising(picks, n),
        0 <= r < picks.len(),
    ensures
        picks[r] + (picks.len() - r) <= n,
    decreases picks.len() - r,
{
    if r + 1 < picks.len() {
        lemma_rising_room(picks, n, r + 1);
    }
}

/// `after` is `before` with one text more that tells of `value` gained at
/// `at`; it is `before` where that holds as many texts as a store takes.
pub open spec fn text_added(
    before: Map<u64, Transient>,
    after: Map<u64, Transient>,
    value: Money,
    at: crate::geometry::Vec2,
    color: Color,
) -> bool {
    if before.dom().len() < STORE_LIMIT {
        exists|id: u64|
            !before.contains_key(id) && #[trigger] after.contains_key(id) && after
                == before.insert(id, after[id]) && is_credit_text(after[id], value, at, color)
    } else {
        after == before
    }
}

/// How many of the minerals at the places `picks[from..]` give something.
pub open spec fn credited(config: Config, minerals: Seq<Mineral>, picks: Seq<usize>, from: int) -> nat
    decreases picks.len() - from,
{
    if from < 0 || from >= picks.len() {
        0
    } else {
        let before = credited(config, minerals, picks, from + 1);
        if worth(config, minerals[picks[from] as int]) is Some {
            before + 1
        } else {
            before
        }
    }
}

/// Gives the fuel of one piece of coal to every coal reservoir.
fn feed_coal(nodes: &mut Vec<Node>, fuel: Fuel, Ghost(bounds): Ghost<crate::geometry::Aabb2>)
    requires
        graph_wf(old(nodes)@, bounds),
    ensures
        final(nodes)@.len() == old(nodes)@.len(),
        forall|j: int|
            0 <= j < old(nodes)@.len() ==> #[trigger] final(nodes)@[j] == (Node {
                kind: fed_once(old(nodes)@[j].kind, fuel),
                ..old(nodes)@[j]
            }),
        graph_wf(final(nodes)@, bounds),
        graph_contained(old(nodes)@, bounds) ==> graph_contained(final(nodes)@, bounds),
{
    let n: usize = nodes.len();
    let ghost before = nodes@;
    let mut i: usize = 0;
    while i < n
        invariant
            i <= n,
            n == before.len(),
            nodes@.len() == n,
            graph_wf(before, bounds),
            forall|j: int|
                0 <= j < i ==> #[trigger] nodes@[j] == (Node {
                    kind: fed_once(before[j].kind, fuel),
                    ..before[j]
                }),
            forall|j: int| i <= j < n ==> #[trigger] nodes@[j] == before[j],
        decreases n - i,
    {
        assert(before[i as int].wf(bounds));
        match &mut nodes[i].kind {
            NodeKind::CoalFuel(gauge) => {
                gauge.change(fuel);
            },
            _ => {},
        }
        i = i + 1;
    }
    proof {
        assert forall|j: int| 0 <= j < n implies ((#[trigger] nodes@[j]).kind is Power <==> j == 0)
            && nodes@[j].wf(bounds) by {
            assert(before[j].wf(bounds));
            assert(before[j].kind is Power <==> j == 0);
        }
        if graph_contained(before, bounds) {
            assert forall|j: int| 0 <= j < n implies (#[trigger] nodes@[j]).position.within(
                bounds,
            ) by {
                assert(before[j].position.within(bounds));
            }
        }
    }
}

/// The more places are counted, the more minerals give something.
pub proof fn lemma_credited_grows(config: Config, minerals: Seq<Mineral>, picks: Seq<usize>, from: int)
    requires
        0 <= from,
    ensures
        credited(config, minerals, picks, from) <= credited(config, minerals, picks, 0),
    decreases from,
{
    if from > 0 {
        lemma_credited_grows(config, minerals, picks, from - 1);
    }
}

/// The events of a tick's collisions: a bounce off the side first, then a stop
/// by a mineral or, without one, the mining of at least one mineral.
pub open spec fn collision_events(hit_wall: bool, stopped: bool, any_mined: bool) -> Seq<Event> {
    (if hit_wall {
        seq![Event::Bounced]
    } else {
        Seq::empty()
    }) + (if stopped {
        seq![Event::Collided]
    } else if any_mined {
        seq![Event::Collected]
    } else {
        Seq::empty()
    })
}

impl Model {
    /// `post` is `pre` after `mineral` was paid out: its worth is added to
    /// the money and told by a text, and coal feeds the coal reservoirs.
    /// Nothing happens for a mineral whose sort is not configured.
    pub open spec fn paid(pre: Model, post: Model, mineral: Mineral) -> bool {
        match worth(pre.config, mineral) {
            Some(value) => {
                &&& post.money == sat(pre.money + value)
                &&& text_added(
                    pre.floating_texts@,
                    post.floating_texts@,
                    value,
                    mineral.collider.position,
                    pre.text_color,
                )
                &&& post.floating_texts.size() == pre.floating_texts.size() + if pre.floating_texts.size()
                    < STORE_LIMIT {
                    1int
                } else {
                    0int
                }
                &&& post.nodes.nodes@.len() == pre.nodes.nodes@.len()
                &&& forall|j: int|
                    0 <= j < pre.nodes.nodes@.len() ==> #[trigger] post.nodes.nodes@[j] == (Node {
                        kind: if is_fuel(pre.config, mineral) {
                            fed_once(pre.nodes.nodes@[j].kind, pre.config.coal_fuel_value)
                        } else {
                            pre.nodes.nodes@[j].kind
                        },
                        ..pre.nodes.nodes@[j]
                    })
                &&& post.nodes == (Nodes { nodes: post.nodes.nodes, ..pre.nodes })
                &&& post == (Model {
                    money: post.money,
                    floating_texts: post.floating_texts,
                    nodes: post.nodes,
                    ..pre
                })
            },
            None => post == pre,
        }
    }

    /// Pays out a mined mineral.
    pub fn pay_out(&mut self, mineral: Mineral)
        requires
            old(self).wf(),
        ensures
            Model::paid(*old(self), *final(self), mineral),
            final(self).wf(),
            old(self).nodes.contained() ==> final(self).nodes.contained(),
    {
        match find_price(&self.config.minerals, mineral.kind) {
            Some(price) => {
                let value: i64 = sat_mul(mineral.amount, price);
                self.money = sat_add(self.money, value);
                let text = credit_text(value, mineral.collider.position, self.text_color);
                let ghost texts = self.floating_texts@;
                let id = self.floating_texts.spawn(text);
                proof {
                    match id {
                        Some(id) => {
                            assert(self.floating_texts@.contains_key(id));
                            assert(self.floating_texts@[id] == text);
                            assert(self.floating_texts@ =~= texts.insert(
                                id,
                                self.floating_texts@[id],
                            ));
                        },
                        None => {},
                    }
                }
                let is_coal: bool = same_kind(
                    mineral.kind,
                    MineralKind::Resource(ResourceKind::Coal),
                );
                if is_coal {
                    feed_coal(
                        &mut self.nodes.nodes,
                        self.config.coal_fuel_value,
                        Ghost(self.nodes.bounds),
                    );
                } else {
                    assert forall|j: int|
                        0 <= j < self.nodes.nodes@.len() implies #[trigger] self.nodes.nodes@[j]
                        == (Node { kind: self.nodes.nodes@[j].kind, ..self.nodes.nodes@[j] }) by {}
                }
            },
            None => {},
        }
    }
}

impl Model {
    /// `post` is `pre` after the minerals at the places `picks` were taken
    /// out and paid out, the last place first.
    pub open spec fn collected(pre: Model, post: Model, picks: Seq<usize>) -> bool {
        &&& post.minerals@ == remaining(pre.minerals@, picks, 0)
        &&& post.money == banked(pre.money, pre.config, pre.minerals@, picks, 0)
        &&& post.nodes.nodes@ == all_fed(
            pre.nodes.nodes@,
            pre.config.coal_fuel_value,
            coal_mined(pre.config, pre.minerals@, picks, 0),
        )
        &&& post.nodes == (Nodes { nodes: post.nodes.nodes, ..pre.nodes })
        &&& texts_added(
            pre.floating_texts@,
            post.floating_texts@,
            pre.config,
            pre.minerals@,
            picks,
            0,
            pre.text_color,
        )
        &&& post.floating_texts.size() <= pre.floating_texts.size() + credited(
            pre.config,
            pre.minerals@,
            picks,
            0,
        )
        &&& pre.floating_texts.size() + credited(pre.config, pre.minerals@, picks, 0)
            <= STORE_LIMIT ==> post.floating_texts.size() == pre.floating_texts.size() + credited(
            pre.config,
            pre.minerals@,
            picks,
            0,
        )
        &&& post == (Model {
            minerals: post.minerals,
            money: post.money,
            nodes: post.nodes,
            floating_texts: post.floating_texts,
            ..pre
        })
    }

    /// Takes the minerals at the places `picks` out of the list, the last
    /// place first, and pays each of them out.
    pub fn collect(&mut self, picks: &Vec<usize>)
        requires
            old(self).wf(),
            rising(picks@, old(self).minerals@.len() as int),
        ensures
            Model::collected(*old(self), *final(self), picks@),
            final(self).wf(),
            old(self).nodes.contained() ==> final(self).nodes.contained(),
    {
        let ghost origin = self.minerals@;
        let ghost nodes0 = self.nodes.nodes@;
        let ghost texts0 = self.floating_texts@;
        let ghost n = origin.len() as int;
        let mut r: usize = picks.len();
        proof {
            assert(nodes0 =~= all_fed(nodes0, self.config.coal_fuel_value, 0));
        }
        while r > 0
            invariant
                r <= picks.len(),
                self.wf(),
                old(self).nodes.contained() ==> self.nodes.contained(),
                rising(picks@, n),
                n == origin.len(),
                origin == old(self).minerals@,
                nodes0 == old(self).nodes.nodes@,
                texts0 == old(self).floating_texts@,
                self.minerals@.len() == n - (picks@.len() - r),
                forall|j: int|
                    0 <= j < self.minerals@.len() && (r == picks@.len() || j < picks@[r as int])
                        ==> #[trigger] self.minerals@[j] == origin[j],
                self.minerals@ == remaining(origin, picks@, r as int),
                self.money == banked(old(self).money, self.config, origin, picks@, r as int),
                self.nodes.nodes@ == all_fed(
                    nodes0,
                    self.config.coal_fuel_value,
                    coal_mined(self.config, origin, picks@, r as int),
                ),
                self.nodes == (Nodes { nodes: self.nodes.nodes, ..old(self).nodes }),
                texts_added(
                    texts0,
                    self.floating_texts@,
                    self.config,
                    origin,
                    picks@,
                    r as int,
                    self.text_color,
                ),
                self.floating_texts.size() <= texts0.dom().len() + credited(
                    self.config,
                    origin,
                    picks@,
                    r as int,
                ),
                texts0.dom().len() + credited(self.config, origin, picks@, 0) <= STORE_LIMIT
                    ==> self.floating_texts.size() == texts0.dom().len() + credited(
                    self.config,
                    origin,
                    picks@,
                    r as int,
                ),
                *self == (Model {
                    minerals: self.minerals,
                    money: self.money,
                    nodes: self.nodes,
                    floating_texts: self.floating_texts,
                    ..*old(self)
                }),
            decreases r,
        {
            r = r - 1;
            let i: usize = picks[r];
            proof {
                lemma_rising_room(picks@, n, r as int);
                lemma_credited_grows(self.config, origin, picks@, r as int);
            }
            let ghost held = *self;
            let mineral = self.minerals.swap_remove(i);
            assert(mineral == origin[i as int]);
            let ghost lifted = *self;
            self.pay_out(mineral);
            proof {
                let fuel = self.config.coal_fuel_value;
                let before = coal_mined(self.config, origin, picks@, r + 1);
                let now = coal_mined(self.config, origin, picks@, r as int);
                assert forall|j: int| 0 <= j < nodes0.len() implies #[trigger] self.nodes.nodes@[j]
                    == all_fed(nodes0, fuel, now)[j] by {
                    lemma_fed_step(nodes0[j].kind, fuel, before);
                    assert(lifted.nodes.nodes@[j] == all_fed(nodes0, fuel, before)[j]);
                }
                assert(self.nodes.nodes@ =~= all_fed(nodes0, fuel, now));
                assert forall|id: u64| #[trigger]
                    self.floating_texts@.contains_key(id) && !texts0.contains_key(
                        id,
                    ) implies exists|k: int|
                    r <= k < picks@.len() && told(
                        self.floating_texts@[id],
                        self.config,
                        origin[#[trigger] picks@[k] as int],
                        self.text_color,
                    ) by {
                    if lifted.floating_texts@.contains_key(id) {
                        let k = choose|k: int|
                            r + 1 <= k < picks@.len() && told(
                                lifted.floating_texts@[id],
                                self.config,
                                origin[#[trigger] picks@[k] as int],
                                self.text_color,
                            );
                        assert(self.floating_texts@[id] == lifted.floating_texts@[id]);
                        assert(r <= k < picks@.len() && told(
                            self.floating_texts@[id],
                            self.config,
                            origin[picks@[k] as int],
                            self.text_color,
                        ));
                    } else {
                        assert(told(
                            self.floating_texts@[id],
                            self.config,
                            origin[picks@[r as int] as int],
                            self.text_color,
                        ));
                    }
                }
            }
        }
    }

    /// The drill of `pre` after it bounced off the side of the level, where
    /// it hit one: its rotation is mirrored at the vertical.
    pub open spec fn turned(pre: Model) -> Drill {
        Drill {
            collider: Collider {
                rotation: if hits_wall(pre.drill.collider, pre.bounds) {
                    sat(HALF_TURN - pre.drill.collider.rotation) as i64
                } else {
                    pre.drill.collider.rotation
                },
                ..pre.drill.collider
            },
            ..pre.drill
        }
    }

    /// `post` is `pre` after the collisions of a tick: the drill bounced off
    /// the side where it stuck out, was stopped where a mineral blocked it, and
    /// the minerals that it mined were taken out and paid out.
    pub open spec fn collided(pre: Model, post: Model) -> bool {
        let turned = Model::turned(pre);
        let n = pre.minerals@.len() as int;
        let picks = mined_upto(pre.minerals@, turned, n);
        let stopped = blocked_upto(pre.minerals@, turned, n);
        &&& post.drill.colliding_with@ == touched_upto(pre.minerals@, turned.collider, n)
        &&& post.drill == (Drill {
            colliding_with: post.drill.colliding_with,
            speed: if stopped {
                BOUNCE_SPEED
            } else {
                pre.drill.speed
            },
            ..turned
        })
        &&& post.events@ == pre.events@ + collision_events(
            hits_wall(pre.drill.collider, pre.bounds),
            stopped,
            picks.len() > 0,
        )
        &&& Model::collected(
            pre,
            Model { drill: pre.drill, events: pre.events, ..post },
            picks,
        )
    }

    /// Collides the drill with the sides of the level and with the minerals.
    pub fn collide_drill(&mut self)
        requires
            old(self).wf(),
        ensures
            Model::collided(*old(self), *final(self)),
            final(self).wf(),
            old(self).nodes.contained() ==> final(self).nodes.contained(),
    {
        let ghost pre = *self;
        let aabb = self.drill.collider.compute_aabb();
        let hit_wall: bool = aabb.min.x < self.bounds.min.x || aabb.max.x > self.bounds.max.x;
        let contact = scan_minerals(&self.minerals, &self.drill);
        let Contact { touched, collected, bounce } = contact;
        proof {
            lemma_mined_rising(self.minerals@, self.drill, self.minerals@.len() as int);
            assert(self.minerals@.len() == self.minerals.len());
            lemma_scan_ignores_rotation(
                pre.minerals@,
                pre.drill,
                Model::turned(pre),
                pre.minerals@.len() as int,
            );
        }
        self.collect(&collected);
        let ghost paid = *self;
        if hit_wall {
            self.drill.collider.rotation = sat_sub(HALF_TURN, self.drill.collider.rotation);
            self.events.push(Event::Bounced);
        }
        self.drill.colliding_with = touched;
        if bounce {
            self.drill.speed = BOUNCE_SPEED;
            self.events.push(Event::Collided);
        } else if collected.len() > 0 {
            self.events.push(Event::Collected);
        }
        proof {
            assert((Model { drill: pre.drill, events: pre.events, ..*self }) == paid);
            assert(self.events@ =~= pre.events@ + collision_events(
                hit_wall,
                bounce,
                collected@.len() > 0,
            ));
        }
    }
}

/// What the drill touches, mines and is stopped by does not depend on its
/// rotation.
pub proof fn lemma_scan_ignores_rotation(minerals: Seq<Mineral>, a: Drill, b: Drill, n: int)
    requires
        a.collider.position == b.collider.position,
        a.collider.shape == b.collider.shape,
        a.colliding_with == b.colliding_with,
        a.drill_level == b.drill_level,
    ensures
        touched_upto(minerals, a.collider, n) == touched_upto(minerals, b.collider, n),
        mined_upto(minerals, a, n) == mined_upto(minerals, b, n),
        blocked_upto(minerals, a, n) == blocked_upto(minerals, b, n),
    decreases n,
{
    assert forall|i: int| touching(minerals, a.collider, i) == touching(minerals, b.collider, i) by {
        if 0 <= i < minerals.len() {
            lemma_overlap_ignores_rotation(minerals[i].collider, a.collider, b.collider);
        }
    }
    assert(touched_upto(minerals, a.collider, n) =~= touched_upto(minerals, b.collider, n));
    if n > 0 {
        lemma_scan_ignores_rotation(minerals, a, b, n - 1);
    }
    if blocked_upto(minerals, a, n) {
        let i = choose|i: int| 0 <= i < n && blocked(minerals, a, i);
        assert(blocked(minerals, b, i));
    }
    if blocked_upto(minerals, b, n) {
        let i = choose|i: int| 0 <= i < n && blocked(minerals, b, i);
        assert(blocked(minerals, a, i));
    }
}

/// Whether two colliders overlap does not depend on the rotation of either.
pub proof fn lemma_overlap_ignores_rotation(m: Collider, a: Collider, b: Collider)
    requires
        a.position == b.position,
        a.shape == b.shape,
    ensures
        m.overlaps(a) == m.overlaps(b),
{
}

} // verus!
