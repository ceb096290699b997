//! A pool whose handles are plain numbers, and which puts off the kills
//! that are asked for during an update until the update is over.
//!
//! The pool keeps its objects as the swarm pool does: a kill lets the
//! killed object and the last spawned one change places, and the handle of
//! each follows its object.

use vstd::prelude::*;
use crate::control::SwarmControl;
use crate::ecs::{component_bit, Component, Entity};
use crate::error::{SwarmError, KILL_DURING_UPDATE, MAX_SPAWNS_REACHED, NO_SPAWN_TO_KILL};
use crate::model::{is_step, SwarmView};

verus! {

/// The position of a data object in the pool.
pub type Pointer = usize;

/// The handle of a data object: the identity of a handle of the slot table.
pub type Spawn = usize;

/// What a pool holds, as plain mathematical values.
pub struct HeapView<T> {
    /// The slot table: the data objects, the handles and where they are
    /// bound, and the handles that wait for reuse.
    pub slots: SwarmView<T, ()>,
    /// True during an update.
    pub updating: bool,
    /// The queue of the kills that were put off: its first `delayed_count`
    /// entries are waiting.
    pub delayed: Seq<Spawn>,
    /// The number of kills that are waiting.
    pub delayed_count: usize,
    /// For each handle, the components of its entity.
    pub entities: Seq<Entity>,
}

impl<T> HeapView<T> {
    /// The number of spawned objects.
    pub open spec fn len(self) -> usize {
        self.slots.len
    }

    /// The capacity.
    pub open spec fn max(self) -> usize {
        self.slots.max
    }

    /// The data objects, in storage order. The first `len()` are spawned.
    pub open spec fn content(self) -> Seq<T> {
        self.slots.pool
    }

    /// The handle that is bound to the position `p`.
    pub open spec fn handle_at(self, p: int) -> Spawn {
        self.slots.spawns[p]
    }

    /// The position that the handle `spawn` is bound to.
    pub open spec fn position_of(self, spawn: Spawn) -> Pointer {
        self.slots.position_of(spawn)
    }

    /// True if `spawn` is a handle of this pool that is spawned.
    pub open spec fn is_active(self, spawn: Spawn) -> bool {
        self.slots.is_active(spawn)
    }

    /// True if the position `p` holds a spawned object.
    pub open spec fn is_spawned(self, p: int) -> bool {
        self.slots.is_spawned(p)
    }

    /// The invariant of a pool: its slot table is well-formed, the queue
    /// and the entities have the length of the capacity, and the queue
    /// holds handles of the pool.
    pub open spec fn wf(self) -> bool {
        &&& self.slots.wf()
        &&& self.delayed.len() == self.max()
        &&& self.entities.len() == self.max()
        &&& self.delayed_count <= self.max()
        &&& forall|i: int| 0 <= i < self.max() ==> (#[trigger] self.delayed[i]) < self.max()
    }

    /// The pool as it is made: nothing spawned, every handle at the position
    /// of its number, no kill waiting, no entity with a component.
    pub open spec fn fresh(content: Seq<T>) -> Self {
        HeapView {
            slots: SwarmView::fresh(content, ()),
            updating: false,
            delayed: Seq::new(content.len(), |i: int| i as usize),
            delayed_count: 0,
            entities: Seq::new(content.len(), |i: int| Entity(0)),
        }
    }

    /// The handle that the next spawn hands out: the most recently killed
    /// one if any waits for reuse, else the one at the first position never
    /// claimed.
    pub open spec fn next_spawn(self) -> Spawn {
        self.slots.next_id()
    }

    /// The pool after a spawn that found room.
    pub open spec fn spawned(self) -> Self {
        HeapView { slots: self.slots.spawned(), ..self }
    }

    /// The pool after the active handle `target` was killed: unless its
    /// object was the last spawned one, the two objects have changed places
    /// and the handle of the other has followed its object; the target is
    /// inactive and is the first to be reused.
    pub open spec fn killed(self, target: Spawn) -> Self {
        HeapView { slots: self.slots.killed(target), ..self }
    }

    /// The pool after a kill of `target` was asked for: nothing changes
    /// during an update, and nothing where the target is not active.
    pub open spec fn after_kill(self, target: Spawn) -> Self {
        if !self.updating && self.is_active(target) {
            self.killed(target)
        } else {
            self
        }
    }

    /// True if a kill of `spawn` is waiting.
    pub open spec fn is_delayed(self, spawn: Spawn) -> bool {
        exists|i: int| 0 <= i < self.delayed_count && #[trigger] self.delayed[i] == spawn
    }

    /// The pool after a kill of `spawn` was put off: it is queued, unless it
    /// was already.
    pub open spec fn delayed_kill(self, spawn: Spawn) -> Self {
        if self.is_delayed(spawn) {
            self
        } else {
            HeapView {
                delayed: self.delayed.update(self.delayed_count as int, spawn),
                delayed_count: (self.delayed_count + 1) as usize,
                ..self
            }
        }
    }

    /// The pool with other data objects.
    pub open spec fn with_content(self, content: Seq<T>) -> Self {
        HeapView { slots: self.slots.with_data(content, ()), ..self }
    }

    /// The pool during an update, or outside one.
    pub open spec fn with_updating(self, updating: bool) -> Self {
        HeapView { updating, ..self }
    }

    /// The pool with no kill waiting.
    pub open spec fn with_empty_queue(self) -> Self {
        HeapView { delayed_count: 0, ..self }
    }

    /// The pool with other components for the entity of the handle `spawn`.
    pub open spec fn with_entity(self, spawn: Spawn, entity: Entity) -> Self {
        HeapView { entities: self.entities.update(spawn as int, entity), ..self }
    }

    /// A kill that was asked for keeps the invariant, the capacity and the
    /// queue. Outside an update it leaves an active target inactive, takes
    /// one from the number of spawned objects, and leaves every other
    /// handle as active as it was, bound to the object it was bound to.
    pub proof fn lemma_after_kill(self, target: Spawn)
        requires
            self.wf(),
        ensures
            self.after_kill(target).wf(),
            self.after_kill(target).max() == self.max(),
            self.after_kill(target).delayed == self.delayed,
            self.after_kill(target).delayed_count == self.delayed_count,
            self.after_kill(target).updating == self.updating,
            self.after_kill(target).entities == self.entities,
            !self.updating ==> !self.after_kill(target).is_active(target),
            !self.updating && self.is_active(target) ==> self.after_kill(target).len() == self.len()
                - 1,
            forall|other: Spawn|
                #![trigger self.after_kill(target).is_active(other)]
                other != target && other < self.max() ==> {
                    &&& self.after_kill(target).is_active(other) == self.is_active(other)
                    &&& self.after_kill(target).content()[self.after_kill(target).position_of(
                        other,
                    ) as int] == self.content()[self.position_of(other) as int]
                },
    {
        if !self.updating && self.is_active(target) {
            let s = self.slots;
            s.lemma_killed_wf(target);
            s.lemma_kill_moves_last(target);
            let last = s.spawns[s.len - 1];
            assert(s.tags[target as int].pos < s.len);
            assert(s.tags[target as int].id == target);
            assert(last < s.max);
            assert(s.tags[last as int].pos == s.len - 1);
            assert forall|other: Spawn|
                #![trigger self.after_kill(target).is_active(other)]
                other != target && other < self.max() implies {
                &&& self.after_kill(target).is_active(other) == self.is_active(other)
                &&& self.after_kill(target).content()[self.after_kill(target).position_of(
                    other,
                ) as int] == self.content()[self.position_of(other) as int]
            } by {
                assert(s.tags[other as int].id == other);
                assert(s.spawns[s.tags[other as int].pos as int] == other);
                if other != last {
                    assert(s.killed(target).tags[other as int] == s.tags[other as int]);
                }
            }
        }
    }
}

/// The pool.
pub struct Swarm<T: Default + Clone> {
    pub(crate) slots: SwarmControl<T, ()>,
    pub(crate) is_updateing: bool,
    pub(crate) delayed_kills: Vec<Spawn>,
    pub(crate) dkill_amount: usize,
    pub(crate) entities: Vec<Entity>,
}

impl<T: Default + Clone> View for Swarm<T> {
    type V = HeapView<T>;

    open(crate) spec fn view(&self) -> HeapView<T> {
        HeapView {
            slots: self.slots@,
            updating: self.is_updateing,
            delayed: self.delayed_kills@,
            delayed_count: self.dkill_amount,
            entities: self.entities@,
        }
    }
}

/// Calls `handler` once for each position below `count()`, with the handle
/// that is bound to the position and with the pool, and then carries out
/// the kills that were put off, in the order in which they were asked for.
///
/// During the calls a kill is refused. `states` holds the pool before the
/// first call and after each call, `kills` the pool before the first of the
/// kills that were put off and after each of them. In the end no kill is
/// waiting. `handler` has to be callable on every state that the calls can
/// reach, and has to leave the pool well-formed, with the same capacity and
/// in its update.
#[verifier::loop_isolation(false)]
pub fn update<T, Handler>(swarm: &mut Swarm<T>, handler: Handler) where
    T: Default + Clone,
    Handler: Fn(&Spawn, &mut Swarm<T>),

    requires
        old(swarm)@.wf(),
        forall|states: Seq<HeapView<T>>, spawn: Spawn, pool: &mut Swarm<T>|
            #![trigger states.last(), call_requires(handler, (&spawn, pool))]
            {
                &&& 0 < states.len() <= old(swarm)@.len()
                &&& states[0] == old(swarm)@.with_updating(true)
                &&& forall|k: int|
                    0 <= k < states.len() ==> {
                        &&& (#[trigger] states[k]).wf()
                        &&& states[k].max() == old(swarm)@.max()
                        &&& states[k].updating
                    }
                &&& forall|k: int|
                    #![trigger is_step(states, k)]
                    is_step(states, k) ==> exists|p: &mut Swarm<T>|
                        #![trigger call_ensures(handler, (&states[k].handle_at(k), p), ())]
                        {
                            &&& p@ == states[k]
                            &&& final(p)@ == states[k + 1]
                            &&& call_ensures(handler, (&states[k].handle_at(k), p), ())
                        }
                &&& pool@ == states.last()
                &&& spawn == states.last().handle_at(states.len() - 1)
            } ==> {
                &&& call_requires(handler, (&spawn, pool))
                &&& call_ensures(handler, (&spawn, pool), ()) ==> {
                    &&& final(pool)@.wf()
                    &&& final(pool)@.max() == pool@.max()
                    &&& final(pool)@.updating
                }
            },
    ensures
        final(swarm)@.wf(),
        final(swarm)@.max() == old(swarm)@.max(),
        exists|states: Seq<HeapView<T>>, kills: Seq<HeapView<T>>|
            #![trigger states.last(), kills.last()]
            {
                &&& states.len() == old(swarm)@.len() + 1
                &&& states[0] == old(swarm)@.with_updating(true)
                &&& forall|k: int|
                    0 <= k < states.len() ==> {
                        &&& (#[trigger] states[k]).wf()
                        &&& states[k].max() == old(swarm)@.max()
                        &&& states[k].updating
                    }
                &&& forall|k: int|
                    #![trigger is_step(states, k)]
                    is_step(states, k) ==> exists|p: &mut Swarm<T>|
                        #![trigger call_ensures(handler, (&states[k].handle_at(k), p), ())]
                        {
                            &&& p@ == states[k]
                            &&& final(p)@ == states[k + 1]
                            &&& call_ensures(handler, (&states[k].handle_at(k), p), ())
                        }
                &&& kills.len() == states.last().delayed_count + 1
                &&& kills[0] == states.last().with_updating(false)
                &&& forall|j: int|
                    #![trigger is_step(kills, j)]
                    is_step(kills, j) ==> kills[j + 1] == kills[j].after_kill(kills[0].delayed[j])
                &&& final(swarm)@ == kills.last().with_empty_queue()
            },
{
    swarm.is_updateing = true;
    let len = swarm.slots.len;
    let ghost mut states: Seq<HeapView<T>> = seq![swarm@];
    let mut i: usize = 0;
    while i < len
        invariant
            i <= len,
            len <= old(swarm)@.max(),
            swarm@.wf(),
            swarm@.max() == old(swarm)@.max(),
            states.len() == i + 1,
            states[0] == old(swarm)@.with_updating(true),
            states.last() == swarm@,
            swarm@.updating,
            forall|k: int|
                0 <= k < states.len() ==> {
                    &&& (#[trigger] states[k]).wf()
                    &&& states[k].max() == old(swarm)@.max()
                    &&& states[k].updating
                },
            forall|k: int|
                #![trigger is_step(states, k)]
                is_step(states, k) ==> exists|p: &mut Swarm<T>|
                    #![trigger call_ensures(handler, (&states[k].handle_at(k), p), ())]
                    {
                        &&& p@ == states[k]
                        &&& final(p)@ == states[k + 1]
                        &&& call_ensures(handler, (&states[k].handle_at(k), p), ())
                    },
        decreases len - i,
    {
        let ghost earlier = states;
        let ghost before = swarm@;
        let spawn = swarm.slots.spawns[i];
        handler(&spawn, swarm);
        proof {
            assert(exists|p: &mut Swarm<T>|
                #![trigger call_ensures(handler, (&spawn, p), ())]
                {
                    &&& p@ == before
                    &&& final(p)@ == swarm@
                    &&& call_requires(handler, (&spawn, p))
                    &&& call_ensures(handler, (&spawn, p), ())
                });
            states = states.push(swarm@);
            assert forall|k: int|
                #![trigger is_step(states, k)]
                is_step(states, k) implies exists|p: &mut Swarm<T>|
                #![trigger call_ensures(handler, (&states[k].handle_at(k), p), ())]
                {
                    &&& p@ == states[k]
                    &&& final(p)@ == states[k + 1]
                    &&& call_ensures(handler, (&states[k].handle_at(k), p), ())
                } by {
                if k < i {
                    assert(is_step(earlier, k));
                    assert(states[k] == earlier[k]);
                    assert(states[k + 1] == earlier[k + 1]);
                } else {
                    assert(states[k] == earlier.last());
                    assert(states[k].handle_at(k) == spawn);
                }
            }
            assert forall|k: int| 0 <= k < states.len() implies {
                &&& (#[trigger] states[k]).wf()
                &&& states[k].max() == old(swarm)@.max()
                &&& states[k].updating
            } by {
                if k < earlier.len() {
                    assert(states[k] == earlier[k]);
                }
            }
        }
        i += 1;
    }
    swarm.is_updateing = false;
    let amount = swarm.dkill_amount;
    let ghost mut kills: Seq<HeapView<T>> = seq![swarm@];
    let mut j: usize = 0;
    while j < amount
        invariant
            swarm@.wf(),
            !swarm@.updating,
            j <= amount,
            amount == kills[0].delayed_count,
            amount <= swarm@.max(),
            kills.len() == j + 1,
            kills[0] == states.last().with_updating(false),
            kills.last() == swarm@,
            swarm@.delayed == kills[0].delayed,
            swarm@.delayed_count == kills[0].delayed_count,
            swarm@.max() == kills[0].max(),
            forall|k: int|
                #![trigger is_step(kills, k)]
                is_step(kills, k) ==> kills[k + 1] == kills[k].after_kill(kills[0].delayed[k]),
        decreases amount - j,
    {
        let ghost earlier = kills;
        let ghost before = swarm@;
        let target = swarm.delayed_kills[j];
        assert(before.delayed[j as int] < before.max());
        let _ = swarm.kill(target);
        proof {
            before.lemma_after_kill(target);
            kills = kills.push(swarm@);
            assert forall|k: int| #![trigger is_step(kills, k)] is_step(kills, k) implies kills[k
                + 1] == kills[k].after_kill(kills[0].delayed[k]) by {
                if k < j {
                    assert(is_step(earlier, k));
                    assert(kills[k] == earlier[k]);
                    assert(kills[k + 1] == earlier[k + 1]);
                } else {
                    assert(kills[k] == before);
                }
            }
        }
        j += 1;
    }
    swarm.dkill_amount = 0;
}

impl<T: Default + Clone> Swarm<T> {
    /// Creates a pool of `size` default objects, none of them spawned.
    pub fn new(size: usize) -> (r: Self)
        ensures
            r@.wf(),
            r@ == HeapView::fresh(r@.content()),
            r@.max() == size,
            forall|i: int| 0 <= i < size ==> call_ensures(T::default, (), #[trigger] r@.content()[i]),
    {
        let slots = crate::Swarm::<T, ()>::new(size, ()).ctl;
        let mut delayed_kills: Vec<Spawn> = Vec::new();
        let mut entities: Vec<Entity> = Vec::new();
        let mut i: usize = 0;
        while i < size
            invariant
                i <= size,
                delayed_kills@.len() == i,
                entities@.len() == i,
                forall|j: int| 0 <= j < i ==> (#[trigger] delayed_kills@[j]) == j,
                forall|j: int| 0 <= j < i ==> (#[trigger] entities@[j]) == Entity(0),
            decreases size - i,
        {
            delayed_kills.push(i);
            entities.push(Entity(0));
            i += 1;
        }
        let r = Swarm { slots, is_updateing: false, delayed_kills, dkill_amount: 0, entities };
        proof {
            let fresh = HeapView::fresh(r@.content());
            assert(r@.delayed =~= fresh.delayed);
            assert(r@.entities =~= fresh.entities);
        }
        r
    }

    /// Removes an instance from the loops.
    ///
    /// During an update the kill is refused, and where the target is not
    /// spawned there is nothing to kill: in both cases nothing changes.
    /// Else the target's object and the last spawned one change places,
    /// the handle of the other follows its object, and the target is
    /// inactive and the first to be reused.
    pub fn kill(&mut self, target: Spawn) -> (r: Result<(), SwarmError>)
        requires
            old(self)@.wf(),
            target < old(self)@.max(),
        ensures
            final(self)@.wf(),
            final(self)@ == old(self)@.after_kill(target),
            r == if old(self)@.updating {
                Err::<(), SwarmError>(SwarmError(KILL_DURING_UPDATE))
            } else if !old(self)@.is_active(target) {
                Err::<(), SwarmError>(SwarmError(NO_SPAWN_TO_KILL))
            } else {
                Ok::<(), SwarmError>(())
            },
    {
        if self.is_updateing {
            return Err(SwarmError(KILL_DURING_UPDATE));
        }
        let handle = crate::types::Spawn::new(target);
        if !handle.active(self.slots.tags()) {
            return Err(SwarmError(NO_SPAWN_TO_KILL));
        }
        proof {
            self@.lemma_after_kill(target);
        }
        self.slots.kill(&handle);
        Ok(())
    }

    /// Puts a kill of `spawn` on the queue of the kills that the next update
    /// carries out when its calls are over, unless it is queued already.
    pub fn delayed_kill(&mut self, spawn: Spawn)
        requires
            old(self)@.wf(),
            spawn < old(self)@.max(),
            old(self)@.is_delayed(spawn) || old(self)@.delayed_count < old(self)@.max(),
        ensures
            final(self)@.wf(),
            final(self)@ == old(self)@.delayed_kill(spawn),
    {
        let mut allready_in_que = false;
        let mut i: usize = 0;
        while i < self.dkill_amount
            invariant
                self@ == old(self)@,
                self@.wf(),
                i <= self@.delayed_count,
                allready_in_que <==> exists|k: int| 0 <= k < i && #[trigger] self@.delayed[k] == spawn,
            decreases self@.delayed_count - i,
        {
            if self.delayed_kills[i] == spawn {
                allready_in_que = true;
            }
            i += 1;
        }
        if !allready_in_que {
            self.delayed_kills[self.dkill_amount] = spawn;
            self.dkill_amount += 1;
        }
    }

    /// Spawns an instance and returns its handle, or returns an error and
    /// changes nothing if all of the capacity is in use.
    pub fn spawn(&mut self) -> (r: Result<Spawn, SwarmError>)
        requires
            old(self)@.wf(),
        ensures
            final(self)@.wf(),
            old(self)@.len() < old(self)@.max() ==> r == Ok::<Spawn, SwarmError>(
                old(self)@.next_spawn(),
            ) && final(self)@ == old(self)@.spawned(),
            old(self)@.len() >= old(self)@.max() ==> r == Err::<Spawn, SwarmError>(
                SwarmError(MAX_SPAWNS_REACHED),
            ) && final(self)@ == old(self)@,
    {
        proof {
            if self@.len() < self@.max() {
                self@.slots.lemma_spawned_wf();
            }
        }
        match self.slots.spawn() {
            Some(spawn) => Ok(spawn.id()),
            None => Err(SwarmError(MAX_SPAWNS_REACHED)),
        }
    }

    /// Hands every spawned object, in storage order, to `handler`, which
    /// may change it.
    ///
    /// `handler` is called once for each position below `count()`, and for
    /// no other: the object at the position is what the call found, and
    /// what the call left is the object at the position afterwards.
    #[verifier::loop_isolation(false)]
    pub fn for_each<Handler>(&mut self, handler: Handler) where Handler: Fn(&mut T)
        requires
            old(self)@.wf(),
            forall|i: int, r: &mut T|
                #![trigger old(self)@.is_spawned(i), call_requires(handler, (r,))]
                old(self)@.is_spawned(i) && *r == old(self)@.content()[i] ==> call_requires(
                    handler,
                    (r,),
                ),
        ensures
            final(self)@.wf(),
            final(self)@ == old(self)@.with_content(final(self)@.content()),
            forall|i: int|
                #![trigger old(self)@.is_spawned(i)]
                old(self)@.is_spawned(i) ==> exists|r: &mut T|
                    #![trigger call_ensures(handler, (r,), ())]
                    {
                        &&& *r == old(self)@.content()[i]
                        &&& *final(r) == final(self)@.content()[i]
                        &&& call_ensures(handler, (r,), ())
                    },
            forall|i: int|
                old(self)@.len() <= i < old(self)@.max() ==> final(self)@.content()[i] == old(
                    self,
                )@.content()[i],
    {
        let len = self.slots.len;
        let mut i: usize = 0;
        while i < len
            invariant
                i <= len,
                self@ == old(self)@.with_content(self@.content()),
                self@.content().len() == old(self)@.content().len(),
                forall|j: int|
                    #![trigger old(self)@.is_spawned(j)]
                    old(self)@.is_spawned(j) && j < i ==> exists|r: &mut T|
                        #![trigger call_ensures(handler, (r,), ())]
                        {
                            &&& *r == old(self)@.content()[j]
                            &&& *final(r) == self@.content()[j]
                            &&& call_ensures(handler, (r,), ())
                        },
                forall|j: int|
                    i <= j < old(self)@.max() ==> self@.content()[j] == old(self)@.content()[j],
            decreases len - i,
        {
            assert(old(self)@.is_spawned(i as int));
            handler(&mut self.slots.pool[i]);
            i += 1;
        }
        proof {
            old(self)@.slots.lemma_with_data_wf(self@.content(), ());
        }
    }

    /// Returns true if `id` is spawned.
    pub fn is_active(&self, id: &Spawn) -> (r: bool)
        requires
            self@.wf(),
            *id < self@.max(),
        ensures
            r == self@.is_active(*id),
    {
        crate::types::Spawn::new(*id).active(self.slots.tags())
    }

    /// Returns a mutable reference to the data object of `id`.
    pub fn get_mut(&mut self, id: &Spawn) -> (r: &mut T)
        requires
            old(self)@.wf(),
            *id < old(self)@.max(),
        ensures
            *r == old(self)@.content()[old(self)@.position_of(*id) as int],
            final(self)@ == old(self)@.with_content(
                old(self)@.content().update(old(self)@.position_of(*id) as int, *final(r)),
            ),
    {
        let pos = crate::types::Spawn::new(*id).pos(self.slots.tags());
        &mut self.slots.pool[pos]
    }

    /// Returns a reference to the data object of `id`.
    pub fn get_ref(&self, id: &Spawn) -> (r: &T)
        requires
            self@.wf(),
            *id < self@.max(),
        ensures
            *r == self@.content()[self@.position_of(*id) as int],
    {
        self.slots.fetch_ref(&crate::types::Spawn::new(*id))
    }

    /// Returns the handle that is bound to the position `pos`.
    pub fn handle_at(&self, pos: &Pointer) -> (r: Spawn)
        requires
            self@.wf(),
            *pos < self@.max(),
        ensures
            r == self@.handle_at(*pos as int),
    {
        self.slots.fetch_spawn(pos).id()
    }

    /// Returns the number of spawned instances.
    pub fn count(&self) -> (r: usize)
        ensures
            r == self@.len(),
    {
        self.slots.count()
    }

    /// Returns the maximum number of instances that can be spawned.
    pub fn max_size(&self) -> (r: usize)
        ensures
            r == self@.max(),
    {
        self.slots.capacity()
    }

    /// Returns the components of the entity of `spawn`.
    pub fn entity(&self, spawn: &Spawn) -> (r: Entity)
        requires
            self@.wf(),
            *spawn < self@.max(),
        ensures
            r == self@.entities[*spawn as int],
    {
        self.entities[*spawn]
    }

    /// Gives the entity of `spawn` the component `component`.
    pub fn add_component(&mut self, spawn: &Spawn, component: Component)
        requires
            old(self)@.wf(),
            *spawn < old(self)@.max(),
            component@ < 64,
        ensures
            final(self)@.wf(),
            final(self)@ == old(self)@.with_entity(
                *spawn,
                Entity(old(self)@.entities[*spawn as int]@ | component_bit(component@)),
            ),
    {
        let mut entity = self.entities[*spawn];
        entity.add_component(component);
        self.entities[*spawn] = entity;
    }

    /// Takes the component `component` from the entity of `spawn`.
    pub fn remove_component(&mut self, spawn: &Spawn, component: Component)
        requires
            old(self)@.wf(),
            *spawn < old(self)@.max(),
            component@ < 64,
        ensures
            final(self)@.wf(),
            final(self)@ == old(self)@.with_entity(
                *spawn,
                Entity(old(self)@.entities[*spawn as int]@ & !component_bit(component@)),
            ),
    {
        let mut entity = self.entities[*spawn];
        entity.remove_component(component);
        self.entities[*spawn] = entity;
    }
}

} // verus!
