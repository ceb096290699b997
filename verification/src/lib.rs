//! An object pooling system: a fixed-capacity arena of reusable slots with
//! stable handles, constant-time spawn and kill, and update loops.
//!
//! All objects of a pool exist from the start. A spawned object takes part
//! in the loops of the pool; a killed one does not, and its slot is reused
//! by the next spawn. A kill keeps the spawned objects together at the
//! front of the storage by moving the last one into the gap; a [`Spawn`]
//! stays bound to its object whatever moves.
//!
//! - [`Swarm`] is the pool. Its loops are `for_each` (one object at a
//!   time), `for_all` (the spawned objects and the shared properties at
//!   every step) and `update` (the control of the pool at every step, with
//!   which a step may spawn and kill).
//! - [`control`] holds the [`SwarmControl`], [`types`] the handles and
//!   their tags.
//! - [`model`] says what a pool is as a mathematical value, what the
//!   operations do to it, and which laws hold of it.
//! - [`heap`] and [`stack`] are pools with plain numbers as handles, which
//!   refuse a kill during an update and carry out the kills that were put
//!   off when the update is over; [`ecs`] runs systems on the entities of
//!   such a pool by their components.
//! - [`tools`] has a sized byte string and sized pools.

pub mod control;
pub mod ecs;
pub mod error;
pub mod heap;
pub mod model;
pub mod stack;
pub mod tools;
pub mod types;

use vstd::prelude::*;

pub use control::SwarmControl;
pub use model::{is_step, Call, SwarmView};
pub use types::{Factory, ObjectPosition, Spawn, SpawnId, Tag};

verus! {

/// The actual Swarm pool.
pub struct Swarm<ItemType, Properties> {
    pub(crate) ctl: SwarmControl<ItemType, Properties>,
}

impl<ItemType, Properties> View for Swarm<ItemType, Properties> {
    type V = SwarmView<ItemType, Properties>;

    open(crate) spec fn view(&self) -> SwarmView<ItemType, Properties> {
        self.ctl@
    }
}

impl<ItemType: Default + Clone, Properties> Swarm<ItemType, Properties> {
    /// Creates a new Swarm object pool.
    ///
    /// The pool holds `capacity` default objects, none of them spawned; the
    /// capacity cannot be changed afterwards. `properties` is the state
    /// that the objects share.
    pub fn new(capacity: usize, properties: Properties) -> (r: Self)
        ensures
            r@.wf(),
            r@ == SwarmView::fresh(r@.pool, properties),
            r@.max == capacity,
            forall|i: int|
                0 <= i < capacity ==> call_ensures(ItemType::default, (), #[trigger] r@.pool[i]),
    {
        let mut tags: Vec<Tag> = Vec::with_capacity(capacity);
        let mut spawns: Vec<SpawnId> = Vec::with_capacity(capacity);
        let mut order: Vec<SpawnId> = Vec::with_capacity(capacity);
        let mut pool: Vec<ItemType> = Vec::with_capacity(capacity);
        let mut i: usize = 0;
        while i < capacity
            invariant
                i <= capacity,
                tags@.len() == i,
                spawns@.len() == i,
                order@.len() == i,
                pool@.len() == i,
                forall|j: int|
                    0 <= j < i ==> (#[trigger] tags@[j]) == (Tag {
                        id: j as usize,
                        pos: j as usize,
                        active: false,
                    }),
                forall|j: int| 0 <= j < i ==> (#[trigger] spawns@[j]) == j,
                forall|j: int| 0 <= j < i ==> (#[trigger] order@[j]) == j,
                forall|j: int|
                    0 <= j < i ==> call_ensures(ItemType::default, (), #[trigger] pool@[j]),
            decreases capacity - i,
        {
            tags.push(Tag { id: i, pos: i, active: false });
            spawns.push(i);
            order.push(i);
            pool.push(ItemType::default());
            i += 1;
        }
        let free: Vec<SpawnId> = Vec::with_capacity(capacity);
        let ctl = SwarmControl {
            max: capacity,
            tags,
            spawns,
            free,
            order,
            len: 0,
            pos: 0,
            pool,
            properties,
        };
        proof {
            let fresh = SwarmView::fresh(ctl@.pool, properties);
            assert(ctl@.tags =~= fresh.tags);
            assert(ctl@.spawns =~= fresh.spawns);
            assert(ctl@.order =~= fresh.order);
            SwarmView::lemma_fresh_wf(ctl@.pool, properties);
        }
        Swarm { ctl }
    }

    /// Spawns an instance for every item of `items`, as long as there is
    /// room, and gives it a clone of that item.
    pub fn populate(&mut self, items: &[ItemType])
        requires
            old(self)@.wf(),
        ensures
            final(self)@.wf(),
            ({
                let room = old(self)@.max - old(self)@.len;
                let n = if items@.len() <= room {
                    items@.len()
                } else {
                    room as nat
                };
                &&& final(self)@ == old(self)@.spawned_times(n).with_data(
                    final(self)@.pool,
                    old(self)@.properties,
                )
                &&& final(self)@.len == old(self)@.len + n
                &&& final(self)@.max == old(self)@.max
                &&& final(self)@.order == old(self)@.order
                &&& forall|j: int|
                    0 <= j < n ==> cloned(#[trigger] items@[j], final(self)@.pool[old(self)@.len + j])
                &&& forall|p: int|
                    0 <= p < old(self)@.max && !(old(self)@.len <= p < old(self)@.len + n)
                        ==> final(self)@.pool[p] == old(self)@.pool[p]
            }),
    {
        let mut i: usize = 0;
        while i < items.len()
            invariant
                old(self)@.wf(),
                self@.wf(),
                i <= items@.len(),
                ({
                    let room = old(self)@.max - old(self)@.len;
                    let n = if i <= room {
                        i as nat
                    } else {
                        room as nat
                    };
                    &&& self@ == old(self)@.spawned_times(n).with_data(
                        self@.pool,
                        old(self)@.properties,
                    )
                    &&& self@.len == old(self)@.len + n
                    &&& self@.max == old(self)@.max
                    &&& self@.order == old(self)@.order
                    &&& forall|j: int|
                        0 <= j < n ==> cloned(#[trigger] items@[j], self@.pool[old(self)@.len + j])
                    &&& forall|p: int|
                        0 <= p < old(self)@.max && !(old(self)@.len <= p < old(self)@.len + n)
                            ==> self@.pool[p] == old(self)@.pool[p]
                }),
            decreases items@.len() - i,
        {
            let ghost room = old(self)@.max - old(self)@.len;
            let ghost n = if i <= room {
                i as nat
            } else {
                room as nat
            };
            let ghost before = self@;
            proof {
                old(self)@.lemma_spawned_times_wf(n);
                old(self)@.lemma_spawned_times_step(n);
            }
            match self.spawn() {
                Some(s) => {
                    let item = items[i].clone();
                    proof {
                        before.lemma_spawned_wf();
                        before.lemma_next_id();
                    }
                    *self.fetch(&s) = item;
                    proof {
                        before.spawned().lemma_with_data_wf(self@.pool, self@.properties);
                        assert(self@ =~= old(self)@.spawned_times(n + 1).with_data(
                            self@.pool,
                            old(self)@.properties,
                        ));
                    }
                },
                None => {},
            }
            i += 1;
        }
    }

    /// Moves the update pass to its start and hands out the control of the
    /// pool.
    pub(crate) fn control(&mut self) -> (r: &mut SwarmControl<ItemType, Properties>)
        requires
            old(self)@.wf(),
        ensures
            r@ == old(self)@.homed(),
            r@.wf(),
            final(self)@ == final(r)@,
    {
        proof {
            self@.lemma_pass_moves_wf(0);
        }
        self.ctl.pos = 0;
        &mut self.ctl
    }

    /// Spawns a pool instance and returns its handle, or returns `None` and
    /// changes nothing if all of the capacity is in use.
    ///
    /// The handle is the most recently killed one, if any waits for reuse,
    /// else the one at the first position never claimed.
    pub fn spawn(&mut self) -> (r: Option<Spawn>)
        requires
            old(self)@.wf(),
        ensures
            final(self)@.wf(),
            old(self)@.len < old(self)@.max ==> r is Some && r.unwrap()@ == old(self)@.next_id()
                && final(self)@ == old(self)@.spawned(),
            old(self)@.len >= old(self)@.max ==> r is None && final(self)@ == old(self)@,
            final(self)@.order == old(self)@.order,
    {
        self.ctl.spawn()
    }

    /// Removes a spawned instance from the update loops.
    ///
    /// Unless the instance is the last spawned one, its data object changes
    /// places with the last spawned one, whose handle follows it. The
    /// killed handle is the first to be reused.
    pub fn kill(&mut self, target: &Spawn)
        requires
            old(self)@.wf(),
            old(self)@.is_active(target@),
        ensures
            final(self)@.wf(),
            final(self)@ == old(self)@.after_call(Call::Kill(target@)),
    {
        proof {
            self@.lemma_call_keeps_wf(Call::Kill(target@));
        }
        let ctl = self.control();
        ctl.kill(target);
    }

    /// Kills all spawned instances, the last spawned one first, so that the
    /// handle at the first position is the first to be reused.
    pub fn kill_all(&mut self)
        requires
            old(self)@.wf(),
        ensures
            final(self)@.wf(),
            final(self)@ == old(self)@.homed().emptied(),
            final(self)@.order == old(self)@.order,
    {
        proof {
            self@.lemma_pass_moves_wf(0);
        }
        self.ctl.pos = 0;
        while self.ctl.len > 0
            invariant
                self@.wf(),
                self@.pos == 0,
                self@.len <= old(self)@.len,
                self@.emptied() == old(self)@.homed().emptied(),
            decreases self@.len,
        {
            let ghost before = self@;
            let last = Spawn::new(self.ctl.spawns[self.ctl.len - 1]);
            proof {
                before.lemma_killed_last(last@);
            }
            self.ctl.kill(&last);
        }
        proof {
            self@.lemma_emptied_nothing();
        }
    }

    /// Returns the spawn that is bound to the position `pos` of the pool.
    pub fn fetch_spawn(&self, pos: &ObjectPosition) -> (r: Spawn)
        requires
            self@.wf(),
            *pos < self@.max,
        ensures
            r@ == self@.spawns[*pos as int],
    {
        self.ctl.fetch_spawn(pos)
    }

    /// Returns a mutable reference to the object that `spawn` is bound to.
    /// A spawn that was killed still resolves: to the object at the
    /// position it was moved to.
    pub fn fetch(&mut self, spawn: &Spawn) -> (r: &mut ItemType)
        requires
            old(self)@.wf(),
            old(self)@.is_handle(spawn@),
        ensures
            *r == old(self)@.pool[old(self)@.position_of(spawn@) as int],
            final(self)@ == old(self)@.with_data(
                old(self)@.pool.update(old(self)@.position_of(spawn@) as int, *final(r)),
                old(self)@.properties,
            ),
    {
        self.ctl.fetch(spawn)
    }

    /// Returns a reference to the object that `spawn` is bound to.
    pub fn fetch_ref(&self, spawn: &Spawn) -> (r: &ItemType)
        requires
            self@.wf(),
            self@.is_handle(spawn@),
        ensures
            *r == self@.pool[self@.position_of(spawn@) as int],
    {
        self.ctl.fetch_ref(spawn)
    }

    /// Returns a mutable reference to the object at the position `pos`.
    ///
    /// A kill changes the positions of objects: use `fetch` where
    /// instances are killed.
    pub fn fetch_raw(&mut self, pos: &ObjectPosition) -> (r: &mut ItemType)
        requires
            old(self)@.wf(),
            *pos < old(self)@.max,
        ensures
            *r == old(self)@.pool[*pos as int],
            final(self)@ == old(self)@.with_data(
                old(self)@.pool.update(*pos as int, *final(r)),
                old(self)@.properties,
            ),
    {
        &mut self.ctl.pool[*pos]
    }

    /// Returns the tag of every handle of the pool, indexed by identity.
    pub fn tags(&self) -> (r: &Vec<Tag>)
        ensures
            r@ == self@.tags,
    {
        &self.ctl.tags
    }

    /// Returns the state that the objects share.
    pub fn properties(&self) -> (r: &Properties)
        ensures
            *r == self@.properties,
    {
        &self.ctl.properties
    }

    /// Returns the state that the objects share, to be changed.
    pub fn properties_mut(&mut self) -> (r: &mut Properties)
        ensures
            *r == old(self)@.properties,
            final(self)@ == old(self)@.with_data(old(self)@.pool, *final(r)),
    {
        &mut self.ctl.properties
    }

    /// Returns the number of spawned instances.
    pub fn count(&self) -> (r: usize)
        ensures
            r == self@.len,
    {
        self.ctl.len
    }

    /// Returns the maximum number of instances that can be spawned.
    pub fn capacity(&self) -> (r: usize)
        ensures
            r == self@.max,
    {
        self.ctl.max
    }

    /// Hands every spawned object, in storage order and together with its
    /// position, to `handler`, which may change it.
    ///
    /// `handler` is called once for each position below `count()`, and for
    /// no other: the object at the position is what the call found, and
    /// what the call left is the object at the position afterwards.
    pub fn enumerate<Handler>(&mut self, handler: Handler) where
        Handler: Fn(&usize, &mut ItemType),

        requires
            old(self)@.wf(),
            forall|i: usize, r: &mut ItemType|
                i < old(self)@.len && *r == old(self)@.pool[i as int] ==> #[trigger] call_requires(
                    handler,
                    (&i, r),
                ),
        ensures
            final(self)@.wf(),
            final(self)@ == old(self)@.with_data(final(self)@.pool, old(self)@.properties),
            forall|i: int|
                #![trigger old(self)@.is_spawned(i)]
                old(self)@.is_spawned(i) ==> exists|r: &mut ItemType|
                    #![trigger call_ensures(handler, (&(i as usize), r), ())]
                    {
                        &&& *r == old(self)@.pool[i]
                        &&& *final(r) == final(self)@.pool[i]
                        &&& call_ensures(handler, (&(i as usize), r), ())
                    },
            forall|i: int|
                old(self)@.len <= i < old(self)@.max ==> final(self)@.pool[i] == old(self)@.pool[i],
    {
        self.ctl.enumerate(handler)
    }

    /// Hands every spawned object, in storage order, to `handler`, which
    /// may change it.
    ///
    /// `handler` is called once for each position below `count()`, and for
    /// no other: the object at the position is what the call found, and
    /// what the call left is the object at the position afterwards.
    pub fn for_each<Handler>(&mut self, handler: Handler) where Handler: Fn(&mut ItemType)
        requires
            old(self)@.wf(),
            forall|i: int, r: &mut ItemType|
                #![trigger old(self)@.is_spawned(i), call_requires(handler, (r,))]
                old(self)@.is_spawned(i) && *r == old(self)@.pool[i] ==> call_requires(
                    handler,
                    (r,),
                ),
        ensures
            final(self)@.wf(),
            final(self)@ == old(self)@.with_data(final(self)@.pool, old(self)@.properties),
            forall|i: int|
                #![trigger old(self)@.is_spawned(i)]
                old(self)@.is_spawned(i) ==> exists|r: &mut ItemType|
                    #![trigger call_ensures(handler, (r,), ())]
                    {
                        &&& *r == old(self)@.pool[i]
                        &&& *final(r) == final(self)@.pool[i]
                        &&& call_ensures(handler, (r,), ())
                    },
            forall|i: int|
                old(self)@.len <= i < old(self)@.max ==> final(self)@.pool[i] == old(self)@.pool[i],
    {
        self.ctl.for_each(handler)
    }

    /// Calls `handler` once for each position below `count()`, in storage
    /// order, with the position, the spawned data objects of the pool and
    /// the shared properties. The handler may change any spawned object and
    /// the properties; what it wrote is what the next call finds. The
    /// objects that are not spawned are out of its reach.
    ///
    /// `states` holds the spawned objects and the properties before the
    /// first call and after each call. `handler` has to leave the list of
    /// objects its length, as every function that gets a slice does.
    pub fn for_all<Handler>(&mut self, handler: Handler) where
        Handler: Fn(&usize, &mut [ItemType], &mut Properties),

        requires
            old(self)@.wf(),
            forall|
                states: Seq<(Seq<ItemType>, Properties)>,
                at: usize,
                list: &mut [ItemType],
                shared: &mut Properties,
            |
                #![trigger states.last(), call_requires(handler, (&at, list, shared))]
                {
                    &&& 0 < states.len() <= old(self)@.len
                    &&& at == states.len() - 1
                    &&& states[0] == (old(self)@.spawned_objects(), old(self)@.properties)
                    &&& forall|k: int|
                        0 <= k < states.len() ==> (#[trigger] states[k]).0.len() == old(self)@.len
                    &&& forall|k: int|
                        #![trigger is_step(states, k)]
                        is_step(states, k) ==> exists|list: &mut [ItemType], shared: &mut Properties|
                            #![trigger call_ensures(handler, (&(k as usize), list, shared), ())]
                            {
                                &&& list@ == states[k].0
                                &&& *shared == states[k].1
                                &&& final(list)@ == states[k + 1].0
                                &&& *final(shared) == states[k + 1].1
                                &&& call_ensures(handler, (&(k as usize), list, shared), ())
                            }
                    &&& list@ == states.last().0
                    &&& *shared == states.last().1
                } ==> {
                    &&& call_requires(handler, (&at, list, shared))
                    &&& call_ensures(handler, (&at, list, shared), ())
                        ==> final(list)@.len() == list@.len()
                },
        ensures
            final(self)@.wf(),
            final(self)@ == old(self)@.with_data(final(self)@.pool, final(self)@.properties),
            exists|states: Seq<(Seq<ItemType>, Properties)>|
                {
                    &&& states.len() == old(self)@.len + 1
                    &&& states[0] == (old(self)@.spawned_objects(), old(self)@.properties)
                    &&& #[trigger] states.last() == (
                        final(self)@.spawned_objects(),
                        final(self)@.properties,
                    )
                    &&& forall|k: int|
                        0 <= k < states.len() ==> (#[trigger] states[k]).0.len() == old(self)@.len
                    &&& forall|k: int|
                        #![trigger is_step(states, k)]
                        is_step(states, k) ==> exists|list: &mut [ItemType], shared: &mut Properties|
                            #![trigger call_ensures(handler, (&(k as usize), list, shared), ())]
                            {
                                &&& list@ == states[k].0
                                &&& *shared == states[k].1
                                &&& final(list)@ == states[k + 1].0
                                &&& *final(shared) == states[k + 1].1
                                &&& call_ensures(handler, (&(k as usize), list, shared), ())
                            }
                },
            forall|p: int|
                old(self)@.len <= p < old(self)@.max ==> #[trigger] final(self)@.pool[p] == old(
                    self,
                )@.pool[p],
    {
        self.ctl.for_all(handler)
    }

    /// Hands the control of the pool to `handler` once for each instance
    /// that is spawned when the pass starts. The handler may change any
    /// object and the properties, spawn and kill; what it did is what the
    /// next call finds.
    ///
    /// There are `count()` steps. When the pass starts, it notes for each
    /// step the handle that is bound to the position of the step's number.
    /// Before the call of step `k` the control is aimed at that handle: at
    /// the position where its object lies by then. So step `k` visits the
    /// handle that was bound to the position `k` at the start, whatever
    /// the steps before have spawned, killed and moved; no handle is
    /// visited twice, and an instance that a step spawns at a position
    /// that was free at the start is not visited. A handle that was killed
    /// before its step is visited all the same, as it is then: not
    /// spawned, or spawned again. `states` holds the pool before the first
    /// step and after each step.
    ///
    /// On every state that the pass can reach, `handler` has to be callable
    /// and has to leave the control well-formed, with the same capacity
    /// and the same visiting order, as everything that the control offers
    /// does.
    #[verifier::loop_isolation(false)]
    pub fn update<Handler>(&mut self, handler: Handler) where
        Handler: Fn(&mut SwarmControl<ItemType, Properties>),

        requires
            old(self)@.wf(),
            forall|
                states: Seq<SwarmView<ItemType, Properties>>,
                next: &mut SwarmControl<ItemType, Properties>,
            |
                #![trigger states.last(), call_requires(handler, (next,))]
                {
                    &&& old(self)@.starts_pass(states)
                    &&& forall|k: int|
                        #![trigger is_step(states, k)]
                        is_step(states, k) ==> exists|call: &mut SwarmControl<ItemType, Properties>|
                            #![trigger call_ensures(handler, (call,), ())]
                            {
                                &&& call@ == states[k].aimed(k)
                                &&& final(call)@ == states[k + 1]
                                &&& call_ensures(handler, (call,), ())
                            }
                    &&& next@ == states.last().aimed(states.len() - 1)
                } ==> {
                    &&& call_requires(handler, (next,))
                    &&& call_ensures(handler, (next,), ()) ==> {
                        &&& final(next)@.wf()
                        &&& final(next)@.max == next@.max
                        &&& final(next)@.order == next@.order
                    }
                },
        ensures
            final(self)@.wf(),
            final(self)@.max == old(self)@.max,
            exists|states: Seq<SwarmView<ItemType, Properties>>|
                {
                    &&& states.len() == old(self)@.len + 1
                    &&& states[0] == old(self)@.homed().lined_up()
                    &&& #[trigger] states.last() == final(self)@
                    &&& forall|k: int|
                        0 <= k < states.len() ==> {
                            &&& (#[trigger] states[k]).wf()
                            &&& states[k].max == old(self)@.max
                            &&& states[k].order == states[0].order
                        }
                    &&& forall|k: int|
                        0 <= k < old(self)@.len ==> (#[trigger] states[k]).aimed(k).visited() == old(
                            self,
                        )@.spawns[k]
                    &&& forall|k: int|
                        #![trigger is_step(states, k)]
                        is_step(states, k) ==> exists|call: &mut SwarmControl<ItemType, Properties>|
                            #![trigger call_ensures(handler, (call,), ())]
                            {
                                &&& call@ == states[k].aimed(k)
                                &&& final(call)@ == states[k + 1]
                                &&& call_ensures(handler, (call,), ())
                            }
                },
    {
        let len = self.ctl.len;
        let mut i: usize = 0;
        let ctl = self.control();
        let mut k: usize = 0;
        while k < len
            invariant
                k <= len,
                ctl@.wf(),
                ctl@ == (SwarmView { order: ctl@.order, ..old(self)@.homed() }),
                forall|u: int| 0 <= u < k ==> #[trigger] ctl@.order[u] == old(self)@.spawns[u],
                forall|u: int| k <= u < ctl@.max ==> #[trigger] ctl@.order[u] == old(self)@.order[u],
            decreases len - k,
        {
            assert(ctl@.spawns[k as int] < ctl@.max);
            ctl.order[k] = ctl.spawns[k];
            k += 1;
        }
        proof {
            assert(ctl@.order =~= old(self)@.homed().lined_up().order);
            old(self)@.homed().lemma_lined_up();
        }
        let ghost mut states: Seq<SwarmView<ItemType, Properties>> = seq![ctl@];
        while i < len
            invariant
                i <= len,
                ctl@.wf(),
                states.len() == i + 1,
                states.last() == ctl@,
                states[0] == old(self)@.homed().lined_up(),
                forall|k: int|
                    0 <= k < states.len() ==> {
                        &&& (#[trigger] states[k]).wf()
                        &&& states[k].max == old(self)@.max
                        &&& states[k].order == states[0].order
                    },
                forall|k: int|
                    #![trigger is_step(states, k)]
                    is_step(states, k) ==> exists|call: &mut SwarmControl<ItemType, Properties>|
                        #![trigger call_ensures(handler, (call,), ())]
                        {
                            &&& call@ == states[k].aimed(k)
                            &&& final(call)@ == states[k + 1]
                            &&& call_ensures(handler, (call,), ())
                        },
            decreases len - i,
        {
            let ghost earlier = states;
            proof {
                ctl@.lemma_pass_moves_wf(i as int);
            }
            let visited = ctl.order[i];
            ctl.pos = ctl.tags[visited].pos;
            let ghost aimed = ctl@;
            assert(aimed == earlier.last().aimed(i as int));
            handler(ctl);
            proof {
                assert(exists|call: &mut SwarmControl<ItemType, Properties>|
                    #![trigger call_ensures(handler, (call,), ())]
                    {
                        &&& call@ == aimed
                        &&& final(call)@ == ctl@
                        &&& call_requires(handler, (call,))
                        &&& call_ensures(handler, (call,), ())
                    });
                states = states.push(ctl@);
                assert forall|k: int| #![trigger is_step(states, k)] is_step(states, k) implies exists|call: &mut SwarmControl<ItemType, Properties>|
                    #![trigger call_ensures(handler, (call,), ())]
                    {
                        &&& call@ == states[k].aimed(k)
                        &&& final(call)@ == states[k + 1]
                        &&& call_ensures(handler, (call,), ())
                    } by {
                    if k < i {
                        assert(is_step(earlier, k));
                        assert(states[k] == earlier[k]);
                        assert(states[k + 1] == earlier[k + 1]);
                    } else {
                        assert(states[k] == earlier.last());
                    }
                }
                assert forall|k: int| 0 <= k < states.len() implies {
                    &&& (#[trigger] states[k]).wf()
                    &&& states[k].max == old(self)@.max
                    &&& states[k].order == states[0].order
                } by {
                    if k < earlier.len() {
                        assert(states[k] == earlier[k]);
                    }
                }
            }
            i += 1;
        }
        proof {
            assert forall|k: int| 0 <= k < old(self)@.len implies (#[trigger] states[k]).aimed(
                k,
            ).visited() == old(self)@.spawns[k] by {
                SwarmView::lemma_pass_visits_each_once(states, k);
            }
        }
    }
}

} // verus!
