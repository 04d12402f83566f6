//! Checks at run time of what the functions of the model ask of their
//! arguments.

use crate::geometry::Aabb2;
use crate::model::logic::collide::same_kind;
use crate::model::particles::{entries_wf, lists, Transient, TransientStore};
use crate::model::{graph_wf, Config, MineralEntry, Model, Node, NodeKind, Nodes};
use vstd::prelude::*;

verus! {

/// No two of the first `n` entries are for the same sort of mineral.
pub open spec fn distinct_upto(entries: Seq<MineralEntry>, n: int) -> bool {
    forall|i: int, j: int|
        0 <= i < j < n ==> (#[trigger] entries[i]).kind != (#[trigger] entries[j]).kind
}

/// Whether the rectangle has ordered corners and is no larger than `bounds`.
fn rectangle_fits(r: Aabb2, bounds: Aabb2) -> (ok: bool)
    ensures
        ok == (r.wf() && r.fits(bounds)),
{
    let w: i128 = r.max.x as i128 - r.min.x as i128;
    let h: i128 = r.max.y as i128 - r.min.y as i128;
    let bw: i128 = bounds.max.x as i128 - bounds.min.x as i128;
    let bh: i128 = bounds.max.y as i128 - bounds.min.y as i128;
    r.min.x <= r.max.x && r.min.y <= r.max.y && w <= bw && h <= bh
}

/// Whether every gauge of the kind holds a value within its bounds.
fn kind_is_valid(kind: &NodeKind) -> (ok: bool)
    ensures
        ok == kind.wf(),
{
    match kind {
        NodeKind::Fuel(fuel) => fuel.min <= fuel.value && fuel.value <= fuel.max,
        NodeKind::CoalFuel(fuel) => fuel.min <= fuel.value && fuel.value <= fuel.max,
        NodeKind::Drill { power, .. } => power.min <= power.value && power.value <= power.max,
        NodeKind::Sprint { cooldown } => cooldown.min <= cooldown.value && cooldown.value
            <= cooldown.max,
        _ => true,
    }
}

impl Config {
    /// Whether the configuration is well formed.
    pub fn validate(&self) -> (ok: bool)
        ensures
            ok == self.wf(),
    {
        if self.fuel_small_amount < 0 || self.fuel_normal_amount < 0 || self.sprint_duration < 0 {
            return false;
        }
        let mut j: usize = 0;
        while j < self.minerals.len()
            invariant
                j <= self.minerals.len(),
                distinct_upto(self.minerals@, j as int),
            decreases self.minerals.len() - j,
        {
            let mut i: usize = 0;
            while i < j
                invariant
                    i <= j < self.minerals.len(),
                    forall|k: int|
                        0 <= k < i ==> (#[trigger] self.minerals@[k]).kind
                            != self.minerals@[j as int].kind,
                decreases j - i,
            {
                if same_kind(self.minerals[i].kind, self.minerals[j].kind) {
                    return false;
                }
                i = i + 1;
            }
            j = j + 1;
        }
        true
    }
}

impl Nodes {
    /// Whether the graph is well formed.
    pub fn validate(&self) -> (ok: bool)
        ensures
            ok == self.wf(),
    {
        let bounds = self.bounds;
        if !(bounds.min.x <= bounds.max.x && bounds.min.y <= bounds.max.y) {
            return false;
        }
        let bw: i128 = bounds.max.x as i128 - bounds.min.x as i128;
        let bh: i128 = bounds.max.y as i128 - bounds.min.y as i128;
        if bw < 1000 || bh < 1000 {
            return false;
        }
        if self.nodes.len() == 0 {
            return false;
        }
        let mut i: usize = 0;
        while i < self.nodes.len()
            invariant
                i <= self.nodes.len(),
                bounds == self.bounds,
                forall|k: int|
                    0 <= k < i ==> ((#[trigger] self.nodes@[k]).kind is Power <==> k == 0)
                        && self.nodes@[k].wf(bounds),
            decreases self.nodes.len() - i,
        {
            let node = &self.nodes[i];
            let is_power: bool = match node.kind {
                NodeKind::Power => true,
                _ => false,
            };
            if is_power != (i == 0) || !kind_is_valid(&node.kind) || !rectangle_fits(
                node.position,
                bounds,
            ) {
                return false;
            }
            i = i + 1;
        }
        true
    }

    /// Whether every node lies within the bounds.
    pub fn is_contained(&self) -> (ok: bool)
        ensures
            ok == self.contained(),
    {
        let bounds = self.bounds;
        let mut i: usize = 0;
        while i < self.nodes.len()
            invariant
                i <= self.nodes.len(),
                bounds == self.bounds,
                forall|k: int| 0 <= k < i ==> (#[trigger] self.nodes@[k]).position.within(bounds),
            decreases self.nodes.len() - i,
        {
            let r = self.nodes[i].position;
            if !(bounds.min.x <= r.min.x && bounds.min.y <= r.min.y && r.max.x <= bounds.max.x
                && r.max.y <= bounds.max.y) {
                return false;
            }
            i = i + 1;
        }
        true
    }
}

impl TransientStore {
    /// Whether every entity of the store is well formed.
    pub fn validate(&self) -> (ok: bool)
        ensures
            ok == self.wf(),
    {
        let listing = self.each();
        proof {
            let ids = listing@.map_values(|entry: (u64, &Transient)| entry.0);
            vstd::seq_lib::seq_to_set_is_finite(ids);
            assert forall|id: u64| self@.dom().contains(id) implies ids.to_set().contains(id) by {
                let k = choose|k: int| 0 <= k < listing@.len() && (#[trigger] listing@[k]).0 == id;
                assert(ids[k] == id);
            }
            assert(self@.dom().subset_of(ids.to_set()));
            vstd::set_lib::lemma_len_subset(self@.dom(), ids.to_set());
        }
        let mut i: usize = 0;
        while i < listing.len()
            invariant
                i <= listing.len(),
                lists(listing@, self@),
                self@.dom().finite(),
                forall|k: int| 0 <= k < i ==> (#[trigger] listing@[k]).1.wf(),
            decreases listing.len() - i,
        {
            let entity: &Transient = listing[i].1;
            if !(entity.lifetime.min <= entity.lifetime.value && entity.lifetime.value
                <= entity.lifetime.max) {
                proof {
                    let id = listing@[i as int].0;
                    assert(self@.contains_key(id) && !self@[id].wf());
                }
                return false;
            }
            i = i + 1;
        }
        proof {
            assert forall|id: u64| self@.contains_key(id) implies (#[trigger] self@[id]).wf() by {
                let k = choose|k: int| 0 <= k < listing@.len() && (#[trigger] listing@[k]).0 == id;
                assert(listing@[k].1.wf());
            }
        }
        true
    }
}

impl Model {
    /// Whether the model is well formed.
    pub fn validate(&self) -> (ok: bool)
        ensures
            ok == self.wf(),
    {
        let sprint_ok: bool = match self.drill.sprint {
            Some(sprint) => sprint.duration.min <= sprint.duration.value && sprint.duration.value
                <= sprint.duration.max,
            None => true,
        };
        sprint_ok && self.bounds.min.x <= self.bounds.max.x && self.bounds.min.y
            <= self.bounds.max.y && self.config.validate() && self.nodes.validate()
            && self.particles.validate() && self.floating_texts.validate()
    }
}

} // verus!
