//! The rules of the simulation: what a tick and each command do to the model.

pub mod collide;
pub mod drill;
pub mod generate;
pub mod resolve;
pub mod shop;

use crate::geometry::Vec2;
use crate::model::particles::{aged, spawn_particles, SpawnParticles, Transient, STORE_LIMIT};
use crate::model::{Model, Phase};
use crate::scalar::{sat, sat_add, Time};
use vstd::prelude::*;

verus! {

/// `after` holds what `before` held, and beyond that only particles that one
/// of the requests in `queue` asks for.
pub open spec fn particles_added(
    before: Map<u64, Transient>,
    after: Map<u64, Transient>,
    queue: Seq<SpawnParticles>,
) -> bool {
    &&& forall|id: u64| #[trigger]
        before.contains_key(id) ==> after.contains_key(id) && after[id] == before[id]
    &&& forall|id: u64| #[trigger]
        after.contains_key(id) && !before.contains_key(id) ==> exists|q: int|
            0 <= q < queue.len() && (#[trigger] queue[q]).makes(after[id])
}

/// How many particles the first `n` requests of `queue` ask for; a request
/// that is not valid asks for none.
pub open spec fn requested(queue: Seq<SpawnParticles>, n: int) -> int
    decreases n,
{
    if n <= 0 {
        0
    } else {
        requested(queue, n - 1) + if queue[n - 1].valid() {
            queue[n - 1].amount as int
        } else {
            0
        }
    }
}

/// The more requests are counted, the more particles are asked for.
pub proof fn lemma_requested_grows(queue: Seq<SpawnParticles>, n: int, m: int)
    requires
        0 <= n <= m,
    ensures
        0 <= requested(queue, n) <= requested(queue, m),
    decreases m,
{
    if n < m {
        lemma_requested_grows(queue, n, m - 1);
    } else if n > 0 {
        lemma_requested_grows(queue, n - 1, n - 1);
    }
}

impl Model {
    /// `post` is `pre` after the transient entities lived through
    /// `delta_time`: texts and particles moved and aged, those whose life was
    /// used up are gone, and the particles that were asked for are made, all
    /// of them where the store has room for them.
    pub open spec fn particles_processed(pre: Model, post: Model, delta_time: Time) -> bool {
        &&& post.floating_texts@ == aged(pre.floating_texts@, delta_time)
        &&& particles_added(
            aged(pre.particles@, delta_time),
            post.particles@,
            pre.particles_queue@,
        )
        &&& post.particles.size() <= aged(pre.particles@, delta_time).dom().len() + requested(
            pre.particles_queue@,
            pre.particles_queue@.len() as int,
        )
        &&& aged(pre.particles@, delta_time).dom().len() + requested(
            pre.particles_queue@,
            pre.particles_queue@.len() as int,
        ) <= STORE_LIMIT ==> post.particles.size() == aged(pre.particles@, delta_time).dom().len()
            + requested(pre.particles_queue@, pre.particles_queue@.len() as int)
        &&& post.particles_queue@.len() == 0
        &&& post == (Model {
            floating_texts: post.floating_texts,
            particles: post.particles,
            particles_queue: post.particles_queue,
            ..pre
        })
    }

    /// Lets the transient entities live through `delta_time` and makes the
    /// particles that were asked for.
    pub fn process_particles(&mut self, delta_time: Time)
        requires
            old(self).wf(),
        ensures
            Model::particles_processed(*old(self), *final(self), delta_time),
            final(self).wf(),
    {
        self.floating_texts.age(delta_time);
        self.particles.age(delta_time);
        let ghost base = self.particles@;
        let ghost queue = self.particles_queue@;
        let ghost total = requested(queue, queue.len() as int);
        let mut q: usize = 0;
        while q < self.particles_queue.len()
            invariant
                q <= self.particles_queue.len(),
                queue == self.particles_queue@,
                total == requested(queue, queue.len() as int),
                self.particles.size() <= base.dom().len() + requested(queue, q as int),
                base.dom().len() + total <= STORE_LIMIT ==> self.particles.size() == base.dom().len()
                    + requested(queue, q as int),
                self.floating_texts@ == aged(old(self).floating_texts@, delta_time),
                self.wf(),
                forall|id: u64| #[trigger]
                    base.contains_key(id) ==> self.particles@.contains_key(id) && self.particles@[id]
                        == base[id],
                forall|id: u64| #[trigger]
                    self.particles@.contains_key(id) && !base.contains_key(id) ==> exists|k: int|
                        0 <= k < q && (#[trigger] queue[k]).makes(self.particles@[id]),
                *self == (Model {
                    particles: self.particles,
                    floating_texts: self.floating_texts,
                    ..*old(self)
                }),
            decreases self.particles_queue.len() - q,
        {
            let request: SpawnParticles = self.particles_queue[q];
            let mut burst = spawn_particles(request);
            let ghost asked = burst@.len() as int;
            proof {
                lemma_requested_grows(queue, q as int, q as int);
                lemma_requested_grows(queue, q + 1, queue.len() as int);
            }
            while burst.len() > 0
                invariant
                    q < self.particles_queue.len(),
                    queue == self.particles_queue@,
                    request == queue[q as int],
                    total == requested(queue, queue.len() as int),
                    burst@.len() <= asked,
                    requested(queue, q + 1) == requested(queue, q as int) + asked,
                    0 <= requested(queue, q as int),
                    requested(queue, q + 1) <= total,
                    self.particles.size() <= base.dom().len() + requested(queue, q as int) + (
                    asked - burst@.len()),
                    base.dom().len() + total <= STORE_LIMIT ==> self.particles.size()
                        == base.dom().len() + requested(queue, q as int) + (asked - burst@.len()),
                    self.floating_texts@ == aged(old(self).floating_texts@, delta_time),
                    self.wf(),
                    forall|i: int| 0 <= i < burst@.len() ==> request.makes(#[trigger] burst@[i]),
                    forall|i: int| 0 <= i < burst@.len() ==> (#[trigger] burst@[i]).wf(),
                    forall|id: u64| #[trigger]
                        base.contains_key(id) ==> self.particles@.contains_key(id)
                            && self.particles@[id] == base[id],
                    forall|id: u64| #[trigger]
                        self.particles@.contains_key(id) && !base.contains_key(id) ==> exists|
                            k: int,
                        |
                            0 <= k < q + 1 && (#[trigger] queue[k]).makes(self.particles@[id]),
                    *self == (Model {
                        particles: self.particles,
                        floating_texts: self.floating_texts,
                        ..*old(self)
                    }),
                decreases burst.len(),
            {
                let ghost held = self.particles@;
                let popped = burst.pop();
                match popped {
                    Some(particle) => {
                        assert(request.makes(particle) && particle.wf());
                        let id = self.particles.spawn(particle);
                        proof {
                            assert forall|id: u64| #[trigger]
                                self.particles@.contains_key(id) && !base.contains_key(
                                    id,
                                ) implies exists|k: int|
                                0 <= k < q + 1 && (#[trigger] queue[k]).makes(
                                    self.particles@[id],
                                ) by {
                                if held.contains_key(id) {
                                    let k = choose|k: int|
                                        0 <= k < q + 1 && (#[trigger] queue[k]).makes(held[id]);
                                    assert(self.particles@[id] == held[id]);
                                    assert(queue[k].makes(self.particles@[id]));
                                } else {
                                    assert(queue[q as int].makes(self.particles@[id]));
                                }
                            }
                        }
                    },
                    None => {},
                }
            }
            q = q + 1;
        }
        self.particles_queue.clear();
    }

    /// The states that a tick goes through from `pre` to `post`: the clock
    /// advances, the resolver runs, the offer is refreshed; while the drill
    /// descends it moves, collides, draws fuel and has the level generated
    /// ahead of it; then the camera follows and the transient entities age.
    pub open spec fn tick_path(
        pre: Model,
        clocked: Model,
        resolved: Model,
        offered: Model,
        moved: Model,
        collided: Model,
        fueled: Model,
        spawned: Model,
        viewed: Model,
        post: Model,
        delta_time: Time,
        heading: Vec2,
    ) -> bool {
        &&& clocked == (Model {
            simulation_time: sat(pre.simulation_time + delta_time) as i64,
            ..pre
        })
        &&& Model::nodes_resolved(clocked, resolved, delta_time)
        &&& Model::shop_refreshed(resolved, offered)
        &&& if offered.phase is Drill {
            &&& Model::drill_moved(offered, moved, delta_time, heading)
            &&& Model::collided(moved, collided)
            &&& Model::fuel_used(collided, fueled, delta_time)
            &&& Model::depths_spawned(fueled, spawned)
        } else {
            moved == offered && collided == offered && fueled == offered && spawned == offered
        }
        &&& Model::camera_updated(spawned, viewed)
        &&& Model::particles_processed(viewed, post, delta_time)
    }

    /// `post` is `pre` after a tick of `delta_time` with the drill heading
    /// along `heading`.
    pub open spec fn ticked(pre: Model, post: Model, delta_time: Time, heading: Vec2) -> bool {
        exists|
            clocked: Model,
            resolved: Model,
            offered: Model,
            moved: Model,
            collided: Model,
            fueled: Model,
            spawned: Model,
            viewed: Model,
        |
            Model::tick_path(
                pre,
                clocked,
                resolved,
                offered,
                moved,
                collided,
                fueled,
                spawned,
                viewed,
                post,
                delta_time,
                heading,
            )
    }

    /// Advances the simulation by `delta_time`. `heading` is the unit vector
    /// of the drill's rotation, as a fixed-point vector.
    pub fn update(&mut self, delta_time: Time, heading: Vec2)
        requires
            old(self).wf(),
        ensures
            Model::ticked(*old(self), *final(self), delta_time, heading),
            final(self).wf(),
            final(self).nodes.contained(),
    {
        self.simulation_time = sat_add(self.simulation_time, delta_time);
        let ghost clocked = *self;
        self.update_nodes(delta_time);
        let ghost resolved = *self;
        self.update_shop();
        let ghost offered = *self;
        let ghost mut moved = *self;
        let ghost mut collided = *self;
        let ghost mut fueled = *self;
        match self.phase {
            Phase::Setup => {},
            Phase::Drill => {
                self.move_drill(delta_time, heading);
                proof {
                    moved = *self;
                }
                self.collide_drill();
                proof {
                    collided = *self;
                }
                self.use_fuel(delta_time);
                proof {
                    fueled = *self;
                }
                self.spawn_depths();
            },
        }
        let ghost spawned = *self;
        self.update_camera();
        let ghost viewed = *self;
        self.process_particles(delta_time);
        assert(Model::tick_path(
            *old(self),
            clocked,
            resolved,
            offered,
            moved,
            collided,
            fueled,
            spawned,
            viewed,
            *self,
            delta_time,
            heading,
        ));
    }
}

} // verus!
