//! Laws of the simulation: what holds across its functions, proved from
//! their definitions.

use crate::geometry::Aabb2;
use crate::model::graph::{lemma_unseen_shrinks, reaches, search, targets, unseen, Walk};
use crate::model::logic::collide::{
    banked, blocked, blocked_upto, fresh, mined, mined_upto, minable, remaining, worth,
    BOUNCE_SPEED,
};
use crate::model::logic::drill::{fuel_source, lemma_fuel_source};
use crate::model::logic::generate::{applies, expected, rule_ceil, rule_floor};
use crate::model::logic::resolve::{lemma_resolved_wf, powered, resolved};
use crate::model::logic::shop::{is_bought_node, sold};
use crate::model::edit::{
    connectable, countable, lemma_symmetric_wiring, lemma_unwired_symmetric, lemma_wired_symmetric,
    same_but_wires, unwired, wired, wiring,
};
use crate::model::reach::{
    lemma_reach_symmetric, lemma_visit_order_is_reach, lemma_wiring_gives_links, wiring_symmetric,
};
use crate::model::{
    graph_wf, ConnectionId, Drill, Mineral, MineralGeneration, Model, Node, NodeKind,
};
use crate::scalar::{sat, Coord, Time};
use vstd::prelude::*;

verus! {

/// Under symmetric wiring, power reaches a node exactly when the node
/// reaches the power node: the power flag does not depend on the side from
/// which the wires are followed.
pub proof fn law_power_is_symmetric(nodes: Seq<Node>, i: usize)
    requires
        wiring_symmetric(nodes),
    ensures
        powered(nodes, i) <==> reaches(nodes, Walk::Everywhere, i, 0),
{
    lemma_visit_order_is_reach(nodes, Walk::Everywhere, 0);
    lemma_wiring_gives_links(nodes);
    if reaches(nodes, Walk::Everywhere, 0, i) {
        lemma_reach_symmetric(nodes, 0, i);
    }
    if reaches(nodes, Walk::Everywhere, i, 0) {
        lemma_reach_symmetric(nodes, i, 0);
    }
}

/// Taking a wire off keeps every wire of the graph held at both of its ends.
pub proof fn law_disconnect_keeps_symmetry(before: Seq<Node>, after: Seq<Node>, at: ConnectionId)
    requires
        countable(before),
        wiring_symmetric(before),
        same_but_wires(before, after),
        wiring(after) == unwired(wiring(before), at),
    ensures
        wiring_symmetric(after),
{
    assert(countable(after)) by {
        assert forall|i: int| 0 <= i < after.len() implies (#[trigger] after[i]).connections@.len()
            <= usize::MAX by {
            assert(before[i].connections@.len() <= usize::MAX);
        }
    }
    lemma_symmetric_wiring(before);
    lemma_unwired_symmetric(wiring(before), at);
    lemma_symmetric_wiring(after);
}

/// Wiring two slots together keeps every wire of the graph held at both of
/// its ends.
pub proof fn law_connect_keeps_symmetry(
    before: Seq<Node>,
    after: Seq<Node>,
    a: ConnectionId,
    b: ConnectionId,
)
    requires
        countable(before),
        wiring_symmetric(before),
        connectable(before, a, b),
        same_but_wires(before, after),
        wiring(after) == wired(wiring(before), a, b),
    ensures
        wiring_symmetric(after),
{
    assert(countable(after)) by {
        assert forall|i: int| 0 <= i < after.len() implies (#[trigger] after[i]).connections@.len()
            <= usize::MAX by {
            assert(before[i].connections@.len() <= usize::MAX);
        }
    }
    lemma_symmetric_wiring(before);
    lemma_wired_symmetric(wiring(before), a, b);
    lemma_symmetric_wiring(after);
}

/// Two graphs are wired alike: they have the same number of nodes, and
/// each node the same slots.
pub open spec fn wired_alike(a: Seq<Node>, b: Seq<Node>) -> bool {
    &&& a.len() == b.len()
    &&& forall|i: int| 0 <= i < a.len() ==> (#[trigger] a[i]).connections@ == b[i].connections@
}

/// A search that goes on from every node meets the same nodes in the same
/// order in two graphs that are wired alike.
pub proof fn lemma_search_wired_alike(
    a: Seq<Node>,
    b: Seq<Node>,
    start: usize,
    queue: Seq<usize>,
    seen: Seq<usize>,
)
    requires
        wired_alike(a, b),
    ensures
        search(a, Walk::Everywhere, start, queue, seen) == search(
            b,
            Walk::Everywhere,
            start,
            queue,
            seen,
        ),
    decreases unseen(a.len(), seen).len(), queue.len(),
{
    if queue.len() > 0 {
        let i = queue[0];
        let rest = queue.subrange(1, queue.len() as int);
        if i >= a.len() || seen.contains(i) {
            lemma_search_wired_alike(a, b, start, rest, seen);
        } else {
            lemma_unseen_shrinks(a.len(), seen, i);
            assert(a[i as int].connections@ == b[i as int].connections@);
            assert(targets(a[i as int]) == targets(b[i as int]));
            lemma_search_wired_alike(a, b, start, rest + targets(a[i as int]), seen.push(i));
        }
    }
}

/// Running the resolver a second time without a change in between leaves
/// every power flag as the first run set it.
pub proof fn law_resolver_is_idempotent(
    nodes: Seq<Node>,
    bounds: Aabb2,
    first: Option<Time>,
    second: Option<Time>,
)
    requires
        bounds.wf(),
        graph_wf(nodes, bounds),
    ensures
        resolved(resolved(nodes, bounds, first), bounds, second).len() == nodes.len(),
        forall|i: int|
            0 <= i < nodes.len() ==> (#[trigger] resolved(
                resolved(nodes, bounds, first),
                bounds,
                second,
            )[i]).is_powered == resolved(nodes, bounds, first)[i].is_powered,
{
    let once = resolved(nodes, bounds, first);
    lemma_resolved_wf(nodes, bounds, first);
    lemma_resolved_wf(once, bounds, second);
    let twice = resolved(once, bounds, second);
    assert(wired_alike(nodes, once)) by {
        assert forall|i: int| 0 <= i < nodes.len() implies (#[trigger] nodes[i]).connections@
            == once[i].connections@ by {
            assert(once[i].connections == nodes[i].connections);
        }
    }
    lemma_search_wired_alike(nodes, once, 0, seq![0usize], Seq::empty());
    assert forall|i: int| 0 <= i < nodes.len() implies (#[trigger] twice[i]).is_powered
        == once[i].is_powered by {
        assert(twice[i].is_powered == powered(once, i as usize));
        assert(once[i].is_powered == powered(nodes, i as usize));
    }
}

/// A launch succeeds exactly when the phase is setup, a fuel reservoir and a
/// drill node can be reached from the power node and every drill node is fully
/// powered; otherwise nothing changes, and the phase stays what it was.
pub proof fn law_launch(pre: Model, post: Model)
    requires
        Model::launched(pre, post),
    ensures
        pre.can_launch() ==> post.phase is Drill,
        !pre.can_launch() ==> post == pre,
        pre.phase is Setup && !pre.can_launch() ==> post.phase is Setup,
{
}

/// While a reservoir that is not empty can be reached from the power node,
/// a tick's draw of fuel takes `delta_time` off one such reservoir, down to its
/// minimum at most, touches nothing else and leaves the phase alone. Once
/// there is none, the draw ends the drill phase.
pub proof fn law_fuel_draw(pre: Model, post: Model, delta_time: Time)
    requires
        pre.wf(),
        pre.phase is Drill,
        delta_time > 0,
        Model::fuel_used(pre, post, delta_time),
    ensures
        (exists|i: usize|
            i < pre.nodes.nodes@.len() && #[trigger] reaches(
                pre.nodes.nodes@,
                Walk::Everywhere,
                0,
                i,
            ) && pre.nodes.nodes@[i as int].kind.has_fuel()) <==> post.phase is Drill,
        fuel_source(pre.nodes.nodes@) matches Some(i) ==> {
            &&& reaches(pre.nodes.nodes@, Walk::Everywhere, 0, i)
            &&& fuel_left(post.nodes.nodes@[i as int].kind) == vstd::math::max(
                fuel_floor(pre.nodes.nodes@[i as int].kind),
                fuel_left(pre.nodes.nodes@[i as int].kind) - delta_time,
            )
            &&& fuel_left(post.nodes.nodes@[i as int].kind) < fuel_left(
                pre.nodes.nodes@[i as int].kind,
            )
            &&& forall|j: int|
                0 <= j < pre.nodes.nodes@.len() && j != i ==> post.nodes.nodes@[j]
                    == pre.nodes.nodes@[j]
        },
{
    lemma_fuel_source(pre.nodes.nodes@);
    match fuel_source(pre.nodes.nodes@) {
        Some(i) => {
            assert(pre.nodes.nodes@[i as int].wf(pre.nodes.bounds));
        },
        None => {},
    }
}

/// The fuel that a reservoir holds; nothing for another kind of node.
pub open spec fn fuel_left(kind: NodeKind) -> int {
    match kind {
        NodeKind::Fuel(fuel) => fuel.value as int,
        NodeKind::CoalFuel(fuel) => fuel.value as int,
        _ => 0,
    }
}

/// The least that a reservoir can hold.
pub open spec fn fuel_floor(kind: NodeKind) -> int {
    match kind {
        NodeKind::Fuel(fuel) => fuel.min as int,
        NodeKind::CoalFuel(fuel) => fuel.min as int,
        _ => 0,
    }
}

/// A purchase that the money does not cover changes nothing: not the
/// money, not the graph, not the pools.
pub proof fn law_purchase_unaffordable(pre: Model, post: Model, index: usize)
    requires
        Model::purchased(pre, post, index),
        index < pre.shop@.len() ==> pre.shop@[index as int].item.cost > pre.money,
    ensures
        post == pre,
{
}

/// A purchase that can be made takes exactly the cost off the money, adds
/// exactly one node, the one that the item stands for, and marks the item as
/// sold in its pool.
pub proof fn law_purchase(pre: Model, post: Model, index: usize)
    requires
        Model::purchased(pre, post, index),
        pre.can_purchase(index),
        pre.shop@[index as int].item.cost >= 0,
    ensures
        post.money == pre.money - pre.shop@[index as int].item.cost,
        post.nodes.nodes@.len() == pre.nodes.nodes@.len() + 1,
        forall|i: int|
            0 <= i < pre.nodes.nodes@.len() ==> post.nodes.nodes@[i] == pre.nodes.nodes@[i],
        is_bought_node(
            post.nodes.nodes@.last(),
            pre.shop@[index as int].item.node,
            pre.config,
            pre.nodes.bounds,
        ),
        ({
            let bought = pre.shop@[index as int];
            let tier: usize = if bought.tier >= 2 {
                2
            } else {
                bought.tier
            };
            bought.index < pre.config.pool(tier).items@.len() ==> post.config.pool(
                tier,
            ).items@[bought.index as int].sold_out
        }),
{
    let before = pre.nodes.nodes@;
    let after = post.nodes.nodes@;
    assert forall|i: int| 0 <= i < before.len() implies after[i] == before[i] by {
        assert(after.drop_last()[i] == after[i]);
    }
}

/// Where just one mineral is touched anew, the places of the mined
/// minerals are that one place or none.
proof fn lemma_single_contact(minerals: Seq<Mineral>, drill: Drill, i: int, n: int)
    requires
        0 <= i < minerals.len() <= usize::MAX,
        0 <= n <= minerals.len(),
        forall|j: int| 0 <= j < minerals.len() && j != i ==> !fresh(minerals, drill, j),
    ensures
        mined_upto(minerals, drill, n) == if n > i && mined(minerals, drill, i) {
            seq![i as usize]
        } else {
            Seq::<usize>::empty()
        },
        blocked_upto(minerals, drill, n) == (n > i && blocked(minerals, drill, i)),
    decreases n,
{
    if n > 0 {
        lemma_single_contact(minerals, drill, i, n - 1);
        if n - 1 == i && mined(minerals, drill, i) {
            assert(mined_upto(minerals, drill, n) =~= seq![i as usize]);
        }
    }
    if blocked_upto(minerals, drill, n) {
        let j = choose|j: int| 0 <= j < n && blocked(minerals, drill, j);
        assert(j == i);
    }
}

/// Where the drill newly touches just one mineral: if the drill's tier
/// reaches the mineral's, exactly that mineral leaves the list, the money grows
/// by its amount times its price, and the speed stays; if the mineral is a
/// rock or of a higher tier, it stays and the drill is left with the bounce
/// speed.
pub proof fn law_single_collision(pre: Model, post: Model, i: int)
    requires
        Model::collided(pre, post),
        0 <= i < pre.minerals@.len() <= usize::MAX,
        fresh(pre.minerals@, Model::turned(pre), i),
        forall|j: int|
            0 <= j < pre.minerals@.len() && j != i ==> !fresh(pre.minerals@, Model::turned(pre), j),
    ensures
        minable(pre.minerals@[i].kind, pre.drill.drill_level) ==> {
            &&& post.minerals@ == pre.minerals@.update(i, pre.minerals@.last()).drop_last()
            &&& post.drill.speed == pre.drill.speed
            &&& post.money == match worth(pre.config, pre.minerals@[i]) {
                Some(value) => sat(pre.money + value),
                None => pre.money as int,
            }
        },
        !minable(pre.minerals@[i].kind, pre.drill.drill_level) ==> {
            &&& post.minerals@ == pre.minerals@
            &&& post.money == pre.money
            &&& post.drill.speed == BOUNCE_SPEED
        },
{
    let minerals = pre.minerals@;
    let turned = Model::turned(pre);
    let n = minerals.len() as int;
    lemma_single_contact(minerals, turned, i, n);
    let picks = mined_upto(minerals, turned, n);
    if minable(minerals[i].kind, pre.drill.drill_level) {
        assert(picks == seq![i as usize]);
        assert(remaining(minerals, picks, 1) == minerals);
        assert(remaining(minerals, picks, 0) == minerals.update(i, minerals.last()).drop_last());
        assert(banked(pre.money, pre.config, minerals, picks, 1) == pre.money);
    } else {
        assert(picks == Seq::<usize>::empty());
        assert(remaining(minerals, picks, 0) == minerals);
    }
}

/// After a run of the resolver every node lies within the bounds of the
/// graph.
pub proof fn law_nodes_stay_in_bounds(pre: Model, post: Model, delta_time: Time, i: int)
    requires
        Model::nodes_resolved(pre, post, delta_time),
        0 <= i < post.nodes.nodes@.len(),
    ensures
        post.nodes.bounds.min.x <= post.nodes.nodes@[i].position.min.x,
        post.nodes.bounds.min.y <= post.nodes.nodes@[i].position.min.y,
        post.nodes.nodes@[i].position.max.x <= post.nodes.bounds.max.x,
        post.nodes.nodes@[i].position.max.y <= post.nodes.bounds.max.y,
{
    assert(post.nodes.nodes@[i].position.within(post.nodes.bounds));
}

/// The number of minerals that a rule puts into a strip differs from the
/// expected number by less than one: the fewest is the expected number rounded
/// down, the most is one more at most.
pub proof fn law_spawn_tolerance(
    rule: MineralGeneration,
    y_max: Coord,
    y_min: Coord,
    width: Coord,
)
    requires
        applies(rule, y_max),
        expected(y_max, y_min, width, rule.density) >= 0,
    ensures
        1000 * rule_floor(rule, y_max, y_min, width) <= expected(
            y_max,
            y_min,
            width,
            rule.density,
        ) <= 1000 * rule_ceil(rule, y_max, y_min, width),
        expected(y_max, y_min, width, rule.density) < 1000 * rule_floor(
            rule,
            y_max,
            y_min,
            width,
        ) + 1000,
        rule_ceil(rule, y_max, y_min, width) <= rule_floor(rule, y_max, y_min, width) + 1,
{
}

} // verus!
