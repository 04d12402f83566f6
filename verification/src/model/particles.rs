//! Short-lived entities: particles and floating texts.
//!
//! Each store is an arena of the `stecs` crate (a slot map), which hands out
//! a stable identifier for every entity it takes. The arena is opaque to the
//! verifier: `store_entries` names what it holds, and the private methods at
//! the end of this file state what each arena call does to that.

use crate::bounded::Bounded;
use crate::geometry::Vec2;
use crate::random::{random_in_disc, random_upward, rises};
use crate::scalar::{Coord, Money, Time};
use stecs::storage::arena::slotmap::{Key, KeyData};
use stecs::storage::arena::{Arena, ArenaId};
use stecs::storage::Storage;
use vstd::prelude::*;

verus! {

/// A color with eight bits for each of red, green, blue and opacity.
#[derive(Clone, Copy, Debug, PartialEq, Eq, Structural)]
pub struct Color {
    pub r: u8,
    pub g: u8,
    pub b: u8,
    pub a: u8,
}

/// An entity that drifts and fades: a particle, or a text where `text` is not
/// empty.
#[derive(Clone, Debug)]
pub struct Transient {
    pub text: String,
    pub position: Vec2,
    pub velocity: Vec2,
    pub size: Coord,
    pub color: Color,
    /// What is left of the entity's life; it is removed when this is used up.
    pub lifetime: Bounded<Time>,
}

/// A request for a burst of particles.
#[derive(Clone, Copy, Debug)]
pub struct SpawnParticles {
    /// How many particles to make.
    pub amount: usize,
    /// The center of the burst.
    pub position: Vec2,
    /// How far from the center a particle may start.
    pub spread: Coord,
    pub velocity: Vec2,
    pub size: Coord,
    pub color: Color,
    /// How long each particle lives.
    pub lifetime: Time,
}

/// The most entities that a store takes.
pub const STORE_LIMIT: usize = 0xFFFF_FFF0;

impl Transient {
    /// The lifetime is a gauge with ordered bounds.
    pub open spec fn wf(self) -> bool {
        self.lifetime.wf()
    }

    /// The entity has used up its life.
    pub open spec fn expired(self) -> bool {
        self.lifetime.value == self.lifetime.min
    }

    /// The entity after `delta_time`: moved along its velocity, with that
    /// much less of its life left.
    pub open spec fn advanced(self, delta_time: Time) -> Transient {
        Transient {
            position: self.position.plus(self.velocity.times(delta_time)),
            lifetime: self.lifetime.with_value(self.lifetime.value - delta_time),
            ..self
        }
    }

    /// Moves the entity along its velocity and takes `delta_time` off its
    /// life.
    pub fn advance(&mut self, delta_time: Time)
        requires
            old(self).wf(),
        ensures
            *final(self) == old(self).advanced(delta_time),
            final(self).wf(),
    {
        self.position = self.position.add(self.velocity.scale(delta_time));
        let mut lifetime = self.lifetime;
        lifetime.spend(delta_time);
        self.lifetime = lifetime;
    }
}

impl SpawnParticles {
    /// The request asks for something that can be made: a spread and a
    /// lifetime that are not negative.
    pub open spec fn valid(self) -> bool {
        self.spread >= 0 && self.lifetime >= 0
    }

    /// `particle` is one that the request asks for.
    pub open spec fn makes(self, particle: Transient) -> bool {
        &&& particle.text@.len() == 0
        &&& particle.velocity == self.velocity
        &&& particle.size == self.size
        &&& particle.color == self.color
        &&& particle.lifetime == (Bounded { value: self.lifetime, min: 0i64, max: self.lifetime })
        &&& exists|offset: Vec2|
            offset.norm_sq() <= self.spread * self.spread && particle.position
                == self.position.plus(offset)
    }
}

/// The particles of one burst, each at a random point of the burst's disc. A
/// request that is not valid makes nothing.
pub fn spawn_particles(request: SpawnParticles) -> (particles: Vec<Transient>)
    ensures
        particles@.len() == if request.valid() {
            request.amount as int
        } else {
            0
        },
        forall|i: int| 0 <= i < particles@.len() ==> request.makes(#[trigger] particles@[i]),
        forall|i: int| 0 <= i < particles@.len() ==> (#[trigger] particles@[i]).wf(),
{
    let mut particles: Vec<Transient> = Vec::new();
    if request.spread < 0 || request.lifetime < 0 {
        return particles;
    }
    let mut made: usize = 0;
    while made < request.amount
        invariant
            request.valid(),
            made <= request.amount,
            particles@.len() == made,
            forall|i: int| 0 <= i < particles@.len() ==> request.makes(#[trigger] particles@[i]),
            forall|i: int| 0 <= i < particles@.len() ==> (#[trigger] particles@[i]).wf(),
        decreases request.amount - made,
    {
        let position = random_in_disc(request.position, request.spread);
        let text = String::new();
        let particle = Transient {
            text,
            position,
            velocity: request.velocity,
            size: request.size,
            color: request.color,
            lifetime: Bounded::<i64>::new_max(request.lifetime),
        };
        assert(request.makes(particle));
        particles.push(particle);
        made = made + 1;
    }
    particles
}

/// How far from a mined mineral its text may start.
pub const TEXT_SPREAD: Coord = 200;

/// The speed at which a text rises.
pub const TEXT_SPEED: Coord = 500;

/// The size of a text.
pub const TEXT_SIZE: Coord = 1000;

/// How long a text lives.
pub const TEXT_LIFETIME: Time = 1000;

/// The character of a decimal digit.
pub open spec fn digit(d: int) -> char {
    if d == 0 {
        '0'
    } else if d == 1 {
        '1'
    } else if d == 2 {
        '2'
    } else if d == 3 {
        '3'
    } else if d == 4 {
        '4'
    } else if d == 5 {
        '5'
    } else if d == 6 {
        '6'
    } else if d == 7 {
        '7'
    } else if d == 8 {
        '8'
    } else {
        '9'
    }
}

/// The decimal digits of a number that is not negative.
pub open spec fn digits(n: nat) -> Seq<char>
    decreases n,
{
    if n < 10 {
        seq![digit(n as int)]
    } else {
        digits(n / 10).push(digit((n % 10) as int))
    }
}

/// A number in decimal, with a minus sign in front where it is negative.
pub open spec fn decimal(v: int) -> Seq<char> {
    if v < 0 {
        seq!['-'] + digits((-v) as nat)
    } else {
        digits(v as nat)
    }
}

/// The text that tells what a mineral gave: a plus sign and the amount.
pub open spec fn credit_label(value: int) -> Seq<char> {
    seq!['+'] + decimal(value)
}

/// `text` is one that tells of `value` gained at the point `at`: it
/// starts near that point, rises, and has the size, the color and the lifetime
/// of such texts.
pub open spec fn is_credit_text(text: Transient, value: Money, at: Vec2, color: Color) -> bool {
    &&& text.text@ == credit_label(value as int)
    &&& text.size == TEXT_SIZE
    &&& text.color == color
    &&& text.lifetime == (Bounded { value: TEXT_LIFETIME, min: 0i64, max: TEXT_LIFETIME })
    &&& rises(text.velocity, TEXT_SPEED)
    &&& exists|offset: Vec2|
        offset.norm_sq() <= TEXT_SPREAD * TEXT_SPREAD && text.position == at.plus(offset)
}

/// The text that tells what a mineral gave.
///
/// Calls the formatting of `std` for a plus sign followed by an integer.
/// Believed: the integer is written in decimal without padding, with a minus
/// sign where it is negative.
#[verifier::external_body]
fn label(value: Money) -> (text: String)
    ensures
        text@ == credit_label(value as int),
{
    format!("+{}", value)
}

/// A text that tells of `value` gained at the point `at`, with a random
/// start near that point and a random direction upward.
pub fn credit_text(value: Money, at: Vec2, color: Color) -> (text: Transient)
    ensures
        is_credit_text(text, value, at, color),
        text.wf(),
{
    let position = random_in_disc(at, TEXT_SPREAD);
    let velocity = random_upward(TEXT_SPEED);
    Transient {
        text: label(value),
        position,
        velocity,
        size: TEXT_SIZE,
        color,
        lifetime: Bounded::<i64>::new_max(TEXT_LIFETIME),
    }
}

/// An arena of transient entities, each under a stable identifier.
#[verifier::external_body]
pub struct TransientStore {
    arena: Arena<Transient>,
}

/// What a store holds: each entity under its identifier.
pub uninterp spec fn store_entries(store: TransientStore) -> Map<u64, Transient>;

impl View for TransientStore {
    type V = Map<u64, Transient>;

    open spec fn view(&self) -> Map<u64, Transient> {
        store_entries(*self)
    }
}

/// What `entries` becomes after `delta_time`: every entity advanced, and
/// those that used up their life removed.
pub open spec fn aged(entries: Map<u64, Transient>, delta_time: Time) -> Map<u64, Transient> {
    Map::new(
        |id: u64| entries.contains_key(id) && !entries[id].advanced(delta_time).expired(),
        |id: u64| entries[id].advanced(delta_time),
    )
}

/// Every entity in `entries` is well formed.
pub open spec fn entries_wf(entries: Map<u64, Transient>) -> bool {
    forall|id: u64| entries.contains_key(id) ==> (#[trigger] entries[id]).wf()
}

/// `listing` names every entity of `entries` once, with a reference to it.
pub open spec fn lists(listing: Seq<(u64, &Transient)>, entries: Map<u64, Transient>) -> bool {
    &&& forall|i: int|
        0 <= i < listing.len() ==> entries.contains_key((#[trigger] listing[i]).0) && *listing[i].1
            == entries[listing[i].0]
    &&& forall|i: int, j: int|
        0 <= i < j < listing.len() ==> (#[trigger] listing[i]).0 != (#[trigger] listing[j]).0
    &&& forall|id: u64|
        entries.contains_key(id) ==> exists|i: int|
            0 <= i < listing.len() && (#[trigger] listing[i]).0 == id
}

/// `ids` names every entity of `entries` once.
pub open spec fn covers(ids: Seq<u64>, entries: Map<u64, Transient>) -> bool {
    &&& forall|i: int| 0 <= i < ids.len() ==> entries.contains_key(#[trigger] ids[i])
    &&& forall|i: int, j: int| 0 <= i < j < ids.len() ==> ids[i] != ids[j]
    &&& forall|id: u64|
        entries.contains_key(id) ==> exists|i: int| 0 <= i < ids.len() && #[trigger] ids[i] == id
}

/// A list without repetitions whose contents are the keys of `entries` names
/// every entity of `entries` once.
pub proof fn lemma_ids_cover(ids: Seq<u64>, entries: Map<u64, Transient>)
    requires
        ids.no_duplicates(),
        ids.to_set() == entries.dom(),
    ensures
        covers(ids, entries),
{
    assert forall|i: int| 0 <= i < ids.len() implies entries.contains_key(#[trigger] ids[i]) by {
        assert(ids.contains(ids[i]));
        assert(ids.to_set().contains(ids[i]));
    }
    assert forall|id: u64| entries.contains_key(id) implies exists|i: int|
        0 <= i < ids.len() && #[trigger] ids[i] == id by {
        assert(ids.to_set().contains(id));
        assert(ids.contains(id));
    }
}

impl TransientStore {
    /// The store holds finitely many entities, all of them well formed.
    pub open spec fn wf(&self) -> bool {
        entries_wf(self@) && self@.dom().finite()
    }

    /// The number of entities in the store.
    pub open spec fn size(&self) -> nat {
        self@.dom().len()
    }

    /// The number of entities in the store.
    pub fn len(&self) -> (n: usize)
        ensures
            n == self.size(),
    {
        self.count()
    }

    /// An empty store.
    pub fn new() -> (store: TransientStore)
        ensures
            store@ == (Map::<u64, Transient>::empty()),
            store.wf(),
    {
        TransientStore::empty()
    }

    /// Puts `entity` into the store and returns its identifier, or returns
    /// `None` and leaves the store as it is where it is full.
    pub fn spawn(&mut self, entity: Transient) -> (id: Option<u64>)
        requires
            old(self).wf(),
            entity.wf(),
        ensures
            final(self).wf(),
            match id {
                Some(id) => !old(self)@.contains_key(id) && final(self)@ == old(self)@.insert(
                    id,
                    entity,
                ),
                None => final(self)@ == old(self)@,
            },
            id is Some <==> old(self).size() < STORE_LIMIT,
            final(self).size() == old(self).size() + if id is Some {
                1int
            } else {
                0int
            },
    {
        if self.count() < STORE_LIMIT {
            let id = self.insert(entity);
            Some(id)
        } else {
            None
        }
    }

    /// Every entity of the store with its identifier, in no particular
    /// order.
    pub fn each(&self) -> (listing: Vec<(u64, &Transient)>)
        ensures
            lists(listing@, self@),
    {
        let ids = self.ids();
        proof {
            lemma_ids_cover(ids@, self@);
        }
        let mut listing: Vec<(u64, &Transient)> = Vec::new();
        let mut k: usize = 0;
        while k < ids.len()
            invariant
                k <= ids.len(),
                covers(ids@, self@),
                listing@.len() == k,
                forall|i: int|
                    0 <= i < k ==> (#[trigger] listing@[i]).0 == ids@[i] && *listing@[i].1
                        == self@[ids@[i]],
            decreases ids.len() - k,
        {
            let id: u64 = ids[k];
            match self.get(id) {
                Some(entity) => {
                    listing.push((id, entity));
                },
                None => {},
            }
            k = k + 1;
        }
        proof {
            assert forall|id: u64| self@.contains_key(id) implies exists|i: int|
                0 <= i < listing@.len() && (#[trigger] listing@[i]).0 == id by {
                let i = choose|i: int| 0 <= i < ids@.len() && #[trigger] ids@[i] == id;
                assert(listing@[i].0 == id);
            }
        }
        listing
    }

    /// Lets `delta_time` pass: every entity moves along its velocity and
    /// loses that much of its life, and those that have none left are removed.
    pub fn age(&mut self, delta_time: Time)
        requires
            old(self).wf(),
        ensures
            final(self)@ == aged(old(self)@, delta_time),
            final(self).wf(),
    {
        let ids = self.ids();
        let ghost before = self@;
        proof {
            lemma_ids_cover(ids@, before);
        }
        let mut k: usize = 0;
        while k < ids.len()
            invariant
                k <= ids.len(),
                entries_wf(before),
                before.dom().finite(),
                covers(ids@, before),
                forall|i: int|
                    k <= i < ids@.len() ==> self@.contains_key(#[trigger] ids@[i]) && self@[ids@[i]]
                        == before[ids@[i]],
                forall|i: int|
                    0 <= i < k ==> (self@.contains_key(#[trigger] ids@[i]) <==> !before[ids@[i]].advanced(
                        delta_time,
                    ).expired()),
                forall|i: int|
                    0 <= i < k && self@.contains_key(#[trigger] ids@[i]) ==> self@[ids@[i]]
                        == before[ids@[i]].advanced(delta_time),
                forall|id: u64| #[trigger] self@.contains_key(id) ==> before.contains_key(id),
            decreases ids.len() - k,
        {
            let id: u64 = ids[k];
            let ghost held = self@;
            assert(held.contains_key(ids@[k as int]));
            let mut dead: bool = false;
            match self.get_mut(id) {
                Some(entity) => {
                    entity.advance(delta_time);
                    dead = entity.lifetime.is_min();
                },
                None => {},
            }
            if dead {
                self.remove(id);
            }
            proof {
                assert forall|i: int| k < i < ids@.len() implies self@.contains_key(
                    #[trigger] ids@[i],
                ) && self@[ids@[i]] == before[ids@[i]] by {
                    assert(ids@[i] != ids@[k as int]);
                    assert(held.contains_key(ids@[i]));
                }
                assert forall|i: int| 0 <= i < k implies (self@.contains_key(#[trigger] ids@[i])
                    <==> !before[ids@[i]].advanced(delta_time).expired()) by {
                    assert(ids@[i] != ids@[k as int]);
                }
                assert forall|i: int|
                    0 <= i < k && self@.contains_key(#[trigger] ids@[i]) implies self@[ids@[i]]
                    == before[ids@[i]].advanced(delta_time) by {
                    assert(ids@[i] != ids@[k as int]);
                }
            }
            k = k + 1;
        }
        proof {
            let after = aged(before, delta_time);
            assert forall|id: u64| self@.contains_key(id) == after.contains_key(id) by {
                if before.contains_key(id) {
                    let i = choose|i: int| 0 <= i < ids@.len() && #[trigger] ids@[i] == id;
                    assert(self@.contains_key(ids@[i]) <==> !before[ids@[i]].advanced(
                        delta_time,
                    ).expired());
                }
            }
            assert forall|id: u64| self@.contains_key(id) implies self@[id] == after[id] by {
                assert(before.contains_key(id));
                let i = choose|i: int| 0 <= i < ids@.len() && #[trigger] ids@[i] == id;
                assert(self@[ids@[i]] == before[ids@[i]].advanced(delta_time));
            }
            assert(self@ =~= after);
            assert forall|id: u64| after.contains_key(id) implies (#[trigger] after[id]).wf() by {
                assert(before[id].wf());
            }
            assert(after.dom().subset_of(before.dom()));
            vstd::set_lib::lemma_len_subset(after.dom(), before.dom());
        }
    }

    /// Makes an empty arena.
    ///
    /// Calls `Default::default` of the arena (`SlotMap::new`). Believed: the
    /// new arena holds nothing.
    #[verifier::external_body]
    fn empty() -> (store: TransientStore)
        ensures
            store_entries(store) == (Map::<u64, Transient>::empty()),
    {
        TransientStore { arena: Default::default() }
    }

    /// The number of entities.
    ///
    /// Calls `SlotMap::len`. Believed: it returns the number of entities
    /// that the arena holds.
    #[verifier::external_body]
    fn count(&self) -> (n: usize)
        ensures
            n == store_entries(*self).dom().len(),
    {
        self.arena.len()
    }

    /// Inserts an entity.
    ///
    /// Calls `Storage::insert` of the arena. Believed: the entity is stored
    /// under an identifier that no entity of the arena had, and nothing else
    /// changes. The call panics on an arena that holds 2^32 - 2 entities,
    /// which `requires` leaves out.
    #[verifier::external_body]
    fn insert(&mut self, entity: Transient) -> (id: u64)
        requires
            store_entries(*old(self)).dom().len() < 0xFFFF_FFFE,
        ensures
            !store_entries(*old(self)).contains_key(id),
            store_entries(*final(self)) == store_entries(*old(self)).insert(id, entity),
    {
        Storage::insert(&mut self.arena, entity).data().as_ffi()
    }

    /// The identifiers of all entities.
    ///
    /// Calls `Storage::ids` of the arena. Believed: it yields the identifier
    /// of every entity once, in an order that is not stated.
    #[verifier::external_body]
    fn ids(&self) -> (ids: Vec<u64>)
        ensures
            ids@.no_duplicates(),
            ids@.to_set() == store_entries(*self).dom(),
    {
        Storage::ids(&self.arena).map(|key: ArenaId| key.data().as_ffi()).collect()
    }

    /// The entity under an identifier of the store.
    ///
    /// Calls `Storage::get` of the arena. Believed: it finds the entity that
    /// is stored under the identifier.
    #[verifier::external_body]
    fn get(&self, id: u64) -> (entity: Option<&Transient>)
        requires
            store_entries(*self).contains_key(id),
        ensures
            match entity {
                Some(found) => *found == store_entries(*self)[id],
                None => false,
            },
    {
        Storage::get(&self.arena, ArenaId::from(KeyData::from_ffi(id)))
    }

    /// The entity under an identifier of the store, to be changed in place.
    ///
    /// Calls `Storage::get_mut` of the arena. Believed: it hands out the
    /// entity that is stored under the identifier, and what is written to it
    /// is what the arena holds under that identifier afterward; nothing else
    /// changes.
    #[verifier::external_body]
    fn get_mut(&mut self, id: u64) -> (entity: Option<&mut Transient>)
        requires
            store_entries(*old(self)).contains_key(id),
        ensures
            match entity {
                Some(found) => *found == store_entries(*old(self))[id] && store_entries(
                    *final(self),
                ) == store_entries(*old(self)).insert(id, *final(found)),
                None => false,
            },
    {
        Storage::get_mut(&mut self.arena, ArenaId::from(KeyData::from_ffi(id)))
    }

    /// Removes the entity under an identifier of the store.
    ///
    /// Calls `Storage::remove` of the arena. Believed: it takes out the
    /// entity that is stored under the identifier and returns it; nothing else
    /// changes.
    #[verifier::external_body]
    fn remove(&mut self, id: u64) -> (entity: Option<Transient>)
        requires
            store_entries(*old(self)).contains_key(id),
        ensures
            entity == Some(store_entries(*old(self))[id]),
            store_entries(*final(self)) == store_entries(*old(self)).remove(id),
    {
        Storage::remove(&mut self.arena, ArenaId::from(KeyData::from_ffi(id)))
    }
}

} // verus!
