//! Controlling the swarm inside its own update loop.
//!
//! A [`SwarmControl`] holds the slot table of a pool and the position that
//! an update pass is visiting. The handler of `Swarm::update` gets it on
//! every step, and may read and write any data object, spawn and kill.

use vstd::prelude::*;
use crate::model::{is_step, SwarmView};
use crate::types::{ObjectPosition, Spawn, SpawnId, Tag};

verus! {

/// The slot table of a pool, together with the cursor of its update pass.
pub struct SwarmControl<ItemType, Properties> {
    pub(crate) max: usize,
    pub(crate) tags: Vec<Tag>,
    pub(crate) spawns: Vec<SpawnId>,
    pub(crate) free: Vec<SpawnId>,
    pub(crate) order: Vec<SpawnId>,
    pub(crate) len: usize,
    pub(crate) pos: usize,
    /// The data objects, spawned or not, in storage order.
    pub pool: Vec<ItemType>,
    /// The state shared by all data objects.
    pub properties: Properties,
}

impl<ItemType, Properties> View for SwarmControl<ItemType, Properties> {
    type V = SwarmView<ItemType, Properties>;

    open(crate) spec fn view(&self) -> SwarmView<ItemType, Properties> {
        SwarmView {
            pool: self.pool@,
            properties: self.properties,
            tags: self.tags@,
            spawns: self.spawns@,
            free: self.free@,
            order: self.order@,
            len: self.len,
            max: self.max,
            pos: self.pos,
        }
    }
}

impl<ItemType, Properties> SwarmControl<ItemType, Properties> where ItemType: Default + Clone {
    /// Returns a mutable reference to the pool object that is currently
    /// being updated.
    pub fn target(&mut self) -> (r: &mut ItemType)
        requires
            old(self)@.wf(),
            old(self)@.max > 0,
        ensures
            *r == old(self)@.pool[old(self)@.pos as int],
            final(self)@ == old(self)@.with_data(
                old(self)@.pool.update(old(self)@.pos as int, *final(r)),
                old(self)@.properties,
            ),
    {
        &mut self.pool[self.pos]
    }

    /// Returns a Spawn that is linked to the pool object being updated.
    pub fn target_spawn(&self) -> (r: Spawn)
        requires
            self@.wf(),
            self@.max > 0,
        ensures
            r@ == self@.spawns[self@.pos as int],
    {
        Spawn::new(self.spawns[self.pos])
    }

    /// Returns the position at which the pool object that is currently
    /// being updated lies at this moment.
    pub fn head(&self) -> (r: ObjectPosition)
        ensures
            r == self@.pos,
    {
        self.pos
    }

    /// Returns the spawn that is bound to the position `pos` of the pool.
    pub fn fetch_spawn(&self, pos: &ObjectPosition) -> (r: Spawn)
        requires
            self@.wf(),
            *pos < self@.max,
        ensures
            r@ == self@.spawns[*pos as int],
    {
        Spawn::new(self.spawns[*pos])
    }

    /// Returns a mutable reference to the object that `spawn` is bound to.
    /// A spawn that was killed still resolves: to the object at the
    /// position it was moved to.
    pub fn fetch(&mut self, spawn: &Spawn) -> (r: &mut ItemType)
        requires
            old(self)@.wf(),
            old(self)@.is_handle(spawn@),
        ensures
            *r == old(self)@.pool[old(self)@.position_of(spawn@) as int],
            final(self)@ == old(self)@.with_data(
                old(self)@.pool.update(old(self)@.position_of(spawn@) as int, *final(r)),
                old(self)@.properties,
            ),
    {
        let pos = self.tags[spawn.id].pos;
        &mut self.pool[pos]
    }

    /// Returns a reference to the object that `spawn` is bound to.
    pub fn fetch_ref(&self, spawn: &Spawn) -> (r: &ItemType)
        requires
            self@.wf(),
            self@.is_handle(spawn@),
        ensures
            *r == self@.pool[self@.position_of(spawn@) as int],
    {
        &self.pool[self.tags[spawn.id].pos]
    }

    /// Returns the tag of every handle of the pool, indexed by identity.
    pub fn tags(&self) -> (r: &Vec<Tag>)
        ensures
            r@ == self@.tags,
    {
        &self.tags
    }

    /// Returns the state that the objects share.
    pub fn properties(&self) -> (r: &Properties)
        ensures
            *r == self@.properties,
    {
        &self.properties
    }

    /// Returns the state that the objects share, to be changed.
    pub fn properties_mut(&mut self) -> (r: &mut Properties)
        ensures
            *r == old(self)@.properties,
            final(self)@ == old(self)@.with_data(old(self)@.pool, *final(r)),
    {
        &mut self.properties
    }

    /// Returns the number of spawned instances.
    pub fn count(&self) -> (r: usize)
        ensures
            r == self@.len,
    {
        self.len
    }

    /// Returns the maximum number of instances that can be spawned.
    pub fn capacity(&self) -> (r: usize)
        ensures
            r == self@.max,
    {
        self.max
    }

    /// Loops through the spawned objects, in storage order, until
    /// `predicate` returns true for one, and returns the spawn of that
    /// object. Returns `None` if `predicate` returns false for all of them.
    #[verifier::loop_isolation(false)]
    pub fn find<Predicate>(&self, predicate: Predicate) -> (r: Option<Spawn>) where
        Predicate: Fn(&ItemType) -> bool,

        requires
            self@.wf(),
            forall|i: int|
                0 <= i < self@.len ==> call_requires(predicate, (&#[trigger] self@.pool[i],)),
        ensures
            self@.is_first_accepted(predicate, r),
    {
        let count = self.len;
        let mut i: usize = 0;
        while i < count
            invariant
                i <= count,
                forall|j: int|
                    0 <= j < i ==> call_ensures(predicate, (&#[trigger] self@.pool[j],), false),
            decreases count - i,
        {
            if predicate(&self.pool[i]) {
                let found = Spawn::new(self.spawns[i]);
                assert(self@.spawns[i as int] < self@.max);
                assert(self@.tags[self@.spawns[i as int] as int].pos == i);
                return Some(found);
            }
            i += 1;
        }
        None
    }

    /// Does what `find` does: returns the spawn of the first spawned object
    /// for which `predicate` returns true.
    pub fn for_while<Predicate>(&self, predicate: Predicate) -> (r: Option<Spawn>) where
        Predicate: Fn(&ItemType) -> bool,

        requires
            self@.wf(),
            forall|i: int|
                0 <= i < self@.len ==> call_requires(predicate, (&#[trigger] self@.pool[i],)),
        ensures
            self@.is_first_accepted(predicate, r),
    {
        self.find(predicate)
    }

    /// Hands every spawned object, in storage order and together with its
    /// position, to `handler`, which may change it.
    ///
    /// `handler` is called once for each position below `count()`, and for
    /// no other: the object at the position is what the call found, and
    /// what the call left is the object at the position afterwards.
    #[verifier::loop_isolation(false)]
    pub fn enumerate<Handler>(&mut self, handler: Handler) where
        Handler: Fn(&usize, &mut ItemType),

        requires
            old(self)@.wf(),
            forall|i: usize, r: &mut ItemType|
                i < old(self)@.len && *r == old(self)@.pool[i as int] ==> #[trigger] call_requires(
                    handler,
                    (&i, r),
                ),
        ensures
            final(self)@.wf(),
            final(self)@ == old(self)@.with_data(final(self)@.pool, old(self)@.properties),
            forall|i: int|
                #![trigger old(self)@.is_spawned(i)]
                old(self)@.is_spawned(i) ==> exists|r: &mut ItemType|
                    #![trigger call_ensures(handler, (&(i as usize), r), ())]
                    {
                        &&& *r == old(self)@.pool[i]
                        &&& *final(r) == final(self)@.pool[i]
                        &&& call_ensures(handler, (&(i as usize), r), ())
                    },
            forall|i: int|
                old(self)@.len <= i < old(self)@.max ==> final(self)@.pool[i] == old(self)@.pool[i],
    {
        let len = self.len;
        let mut i: usize = 0;
        while i < len
            invariant
                i <= len,
                self@ == old(self)@.with_data(self@.pool, old(self)@.properties),
                self@.pool.len() == old(self)@.pool.len(),
                forall|j: int|
                    #![trigger old(self)@.is_spawned(j)]
                    old(self)@.is_spawned(j) && j < i ==> exists|r: &mut ItemType|
                        #![trigger call_ensures(handler, (&(j as usize), r), ())]
                        {
                            &&& *r == old(self)@.pool[j]
                            &&& *final(r) == self@.pool[j]
                            &&& call_ensures(handler, (&(j as usize), r), ())
                        },
                forall|j: int| i <= j < old(self)@.max ==> self@.pool[j] == old(self)@.pool[j],
            decreases len - i,
        {
            handler(&i, &mut self.pool[i]);
            proof {
                assert forall|j: int|
                    #![trigger old(self)@.is_spawned(j)]
                    old(self)@.is_spawned(j) && j < i + 1 implies exists|r: &mut ItemType|
                    #![trigger call_ensures(handler, (&(j as usize), r), ())]
                    {
                        &&& *r == old(self)@.pool[j]
                        &&& *final(r) == self@.pool[j]
                        &&& call_ensures(handler, (&(j as usize), r), ())
                    } by {
                    if j >= i {
                        assert(j as usize == i);
                    }
                }
            }
            i += 1;
        }
        proof {
            old(self)@.lemma_with_data_wf(self@.pool, self@.properties);
        }
    }

    /// Hands every spawned object, in storage order, to `handler`, which
    /// may change it.
    ///
    /// `handler` is called once for each position below `count()`, and for
    /// no other: the object at the position is what the call found, and
    /// what the call left is the object at the position afterwards.
    #[verifier::loop_isolation(false)]
    pub fn for_each<Handler>(&mut self, handler: Handler) where Handler: Fn(&mut ItemType)
        requires
            old(self)@.wf(),
            forall|i: int, r: &mut ItemType|
                #![trigger old(self)@.is_spawned(i), call_requires(handler, (r,))]
                old(self)@.is_spawned(i) && *r == old(self)@.pool[i] ==> call_requires(
                    handler,
                    (r,),
                ),
        ensures
            final(self)@.wf(),
            final(self)@ == old(self)@.with_data(final(self)@.pool, old(self)@.properties),
            forall|i: int|
                #![trigger old(self)@.is_spawned(i)]
                old(self)@.is_spawned(i) ==> exists|r: &mut ItemType|
                    #![trigger call_ensures(handler, (r,), ())]
                    {
                        &&& *r == old(self)@.pool[i]
                        &&& *final(r) == final(self)@.pool[i]
                        &&& call_ensures(handler, (r,), ())
                    },
            forall|i: int|
                old(self)@.len <= i < old(self)@.max ==> final(self)@.pool[i] == old(self)@.pool[i],
    {
        let len = self.len;
        let mut i: usize = 0;
        while i < len
            invariant
                i <= len,
                self@ == old(self)@.with_data(self@.pool, old(self)@.properties),
                self@.pool.len() == old(self)@.pool.len(),
                forall|j: int|
                    #![trigger old(self)@.is_spawned(j)]
                    old(self)@.is_spawned(j) && j < i ==> exists|r: &mut ItemType|
                        #![trigger call_ensures(handler, (r,), ())]
                        {
                            &&& *r == old(self)@.pool[j]
                            &&& *final(r) == self@.pool[j]
                            &&& call_ensures(handler, (r,), ())
                        },
                forall|j: int| i <= j < old(self)@.max ==> self@.pool[j] == old(self)@.pool[j],
            decreases len - i,
        {
            assert(old(self)@.is_spawned(i as int));
            handler(&mut self.pool[i]);
            i += 1;
        }
        proof {
            old(self)@.lemma_with_data_wf(self@.pool, self@.properties);
        }
    }

    /// Calls `handler` once for each position below `count()`, in storage
    /// order, with the position, the spawned data objects of the pool and
    /// the shared properties. The handler may change any spawned object and
    /// the properties; what it wrote is what the next call finds. The
    /// objects that are not spawned are out of its reach.
    ///
    /// `states` holds the spawned objects and the properties before the
    /// first call and after each call. `handler` has to leave the list of
    /// objects its length, as every function that gets a slice does.
    #[verifier::loop_isolation(false)]
    pub fn for_all<Handler>(&mut self, handler: Handler) where
        Handler: Fn(&usize, &mut [ItemType], &mut Properties),

        requires
            old(self)@.wf(),
            forall|
                states: Seq<(Seq<ItemType>, Properties)>,
                at: usize,
                list: &mut [ItemType],
                shared: &mut Properties,
            |
                #![trigger states.last(), call_requires(handler, (&at, list, shared))]
                {
                    &&& 0 < states.len() <= old(self)@.len
                    &&& at == states.len() - 1
                    &&& states[0] == (old(self)@.spawned_objects(), old(self)@.properties)
                    &&& forall|k: int|
                        0 <= k < states.len() ==> (#[trigger] states[k]).0.len() == old(self)@.len
                    &&& forall|k: int|
                        #![trigger is_step(states, k)]
                        is_step(states, k) ==> exists|list: &mut [ItemType], shared: &mut Properties|
                            #![trigger call_ensures(handler, (&(k as usize), list, shared), ())]
                            {
                                &&& list@ == states[k].0
                                &&& *shared == states[k].1
                                &&& final(list)@ == states[k + 1].0
                                &&& *final(shared) == states[k + 1].1
                                &&& call_ensures(handler, (&(k as usize), list, shared), ())
                            }
                    &&& list@ == states.last().0
                    &&& *shared == states.last().1
                } ==> {
                    &&& call_requires(handler, (&at, list, shared))
                    &&& call_ensures(handler, (&at, list, shared), ())
                        ==> final(list)@.len() == list@.len()
                },
        ensures
            final(self)@.wf(),
            final(self)@ == old(self)@.with_data(final(self)@.pool, final(self)@.properties),
            exists|states: Seq<(Seq<ItemType>, Properties)>|
                {
                    &&& states.len() == old(self)@.len + 1
                    &&& states[0] == (old(self)@.spawned_objects(), old(self)@.properties)
                    &&& #[trigger] states.last() == (
                        final(self)@.spawned_objects(),
                        final(self)@.properties,
                    )
                    &&& forall|k: int|
                        0 <= k < states.len() ==> (#[trigger] states[k]).0.len() == old(self)@.len
                    &&& forall|k: int|
                        #![trigger is_step(states, k)]
                        is_step(states, k) ==> exists|list: &mut [ItemType], shared: &mut Properties|
                            #![trigger call_ensures(handler, (&(k as usize), list, shared), ())]
                            {
                                &&& list@ == states[k].0
                                &&& *shared == states[k].1
                                &&& final(list)@ == states[k + 1].0
                                &&& *final(shared) == states[k + 1].1
                                &&& call_ensures(handler, (&(k as usize), list, shared), ())
                            }
                },
            forall|p: int|
                old(self)@.len <= p < old(self)@.max ==> #[trigger] final(self)@.pool[p] == old(
                    self,
                )@.pool[p],
    {
        let len = self.len;
        let mut i: usize = 0;
        let ghost mut states: Seq<(Seq<ItemType>, Properties)> = seq![
            (self@.spawned_objects(), self@.properties),
        ];
        while i < len
            invariant
                i <= len,
                self@ == old(self)@.with_data(self@.pool, self@.properties),
                self@.pool.len() == old(self)@.max,
                states.len() == i + 1,
                states[0] == (old(self)@.spawned_objects(), old(self)@.properties),
                states.last() == (self@.spawned_objects(), self@.properties),
                forall|p: int|
                    old(self)@.len <= p < old(self)@.max ==> #[trigger] self@.pool[p] == old(
                        self,
                    )@.pool[p],
                forall|k: int|
                    0 <= k < states.len() ==> (#[trigger] states[k]).0.len() == old(self)@.len,
                forall|k: int|
                    #![trigger is_step(states, k)]
                    is_step(states, k) ==> exists|list: &mut [ItemType], shared: &mut Properties|
                        #![trigger call_ensures(handler, (&(k as usize), list, shared), ())]
                        {
                            &&& list@ == states[k].0
                            &&& *shared == states[k].1
                            &&& final(list)@ == states[k + 1].0
                            &&& *final(shared) == states[k + 1].1
                            &&& call_ensures(handler, (&(k as usize), list, shared), ())
                        },
            decreases len - i,
        {
            let ghost earlier = states;
            let ghost before = self@;
            let (spawned, rest) = self.pool.as_mut_slice().split_at_mut(len);
            let ghost behind = rest@;
            handler(&i, spawned, &mut self.properties);
            proof {
                assert(behind == before.pool.subrange(len as int, before.pool.len() as int));
                let left = choose|list: &mut [ItemType], shared: &mut Properties|
                    #![trigger call_ensures(handler, (&i, list, shared), ())]
                    {
                        &&& list@ == before.spawned_objects()
                        &&& *shared == before.properties
                        &&& self@.pool == final(list)@ + behind
                        &&& *final(shared) == self@.properties
                        &&& call_requires(handler, (&i, list, shared))
                        &&& call_ensures(handler, (&i, list, shared), ())
                    };
                assert(final(left.0)@.len() == len);
                assert(self@.pool.subrange(0, len as int) =~= final(left.0)@);
                assert forall|p: int| old(self)@.len <= p < old(self)@.max implies #[trigger] self@.pool[p]
                    == old(self)@.pool[p] by {
                    assert(self@.pool[p] == behind[p - len]);
                }
                states = states.push((self@.spawned_objects(), self@.properties));
                assert forall|k: int| 0 <= k < states.len() implies (#[trigger] states[k]).0.len()
                    == old(self)@.len by {
                    if k < earlier.len() {
                        assert(states[k] == earlier[k]);
                    }
                }
                assert forall|k: int|
                    #![trigger is_step(states, k)]
                    is_step(states, k) implies exists|list: &mut [ItemType], shared: &mut Properties|
                        #![trigger call_ensures(handler, (&(k as usize), list, shared), ())]
                        {
                            &&& list@ == states[k].0
                            &&& *shared == states[k].1
                            &&& final(list)@ == states[k + 1].0
                            &&& *final(shared) == states[k + 1].1
                            &&& call_ensures(handler, (&(k as usize), list, shared), ())
                        } by {
                    if k < i {
                        assert(is_step(earlier, k));
                        assert(states[k] == earlier[k]);
                        assert(states[k + 1] == earlier[k + 1]);
                    } else {
                        assert(states[k] == earlier.last());
                        assert(k as usize == i);
                    }
                }
            }
            i += 1;
        }
        proof {
            old(self)@.lemma_with_data_wf(self@.pool, self@.properties);
        }
    }

    /// Spawns a pool instance and returns its handle, or returns `None` and
    /// changes nothing if all of the capacity is in use.
    ///
    /// The handle is the most recently killed one, if any waits for reuse,
    /// else the one at the first position never claimed. An instance
    /// spawned during an update pass is not visited in that pass.
    pub fn spawn(&mut self) -> (r: Option<Spawn>)
        requires
            old(self)@.wf(),
        ensures
            final(self)@.wf(),
            old(self)@.len < old(self)@.max ==> r is Some && r.unwrap()@ == old(self)@.next_id()
                && final(self)@ == old(self)@.spawned(),
            old(self)@.len >= old(self)@.max ==> r is None && final(self)@ == old(self)@,
    {
        if self.len < self.max {
            proof {
                self@.lemma_next_id();
                self@.lemma_spawned_wf();
            }
            let pos = self.len;
            self.len += 1;
            let id = if self.free.len() > 0 {
                self.free.pop().unwrap()
            } else {
                self.spawns[pos]
            };
            self.tags[id] = Tag { id, pos, active: true };
            Some(Spawn::new(id))
        } else {
            None
        }
    }

    /// Removes the instance that is currently being updated, see `kill`.
    pub fn kill_current(&mut self)
        requires
            old(self)@.wf(),
            old(self)@.max > 0,
            old(self)@.is_active(old(self)@.spawns[old(self)@.pos as int]),
        ensures
            final(self)@.wf(),
            final(self)@ == old(self)@.killed(old(self)@.spawns[old(self)@.pos as int]),
    {
        let target = self.target_spawn();
        self.kill(&target)
    }

    /// Removes a spawned instance from the update loops.
    ///
    /// Unless the instance is the last spawned one, its data object changes
    /// places with the last spawned one, whose handle follows it. The
    /// killed handle is the first to be reused. Killing is allowed during
    /// an update pass, of any spawned instance: the pass finds every handle
    /// that it is still to visit wherever its object lies.
    pub fn kill(&mut self, target: &Spawn)
        requires
            old(self)@.wf(),
            old(self)@.is_active(target@),
        ensures
            final(self)@.wf(),
            final(self)@ == old(self)@.killed(target@),
    {
        proof {
            self@.lemma_killed_wf(target@);
        }
        let id = target.id;
        let last_pos = self.len - 1;
        let target_pos = self.tags[id].pos;
        if target_pos < last_pos {
            let other = self.spawns[last_pos];
            let other_active = self.tags[other].active;
            swap_items(&mut self.pool, target_pos, last_pos);
            self.spawns[target_pos] = other;
            self.spawns[last_pos] = id;
            self.tags[other] = Tag { id: other, pos: target_pos, active: other_active };
            self.tags[id] = Tag { id, pos: last_pos, active: false };
        } else {
            self.tags[id] = Tag { id, pos: target_pos, active: false };
        }
        self.free.push(id);
        self.len -= 1;
    }
}

/// Lets the items at the positions `a` and `b` of `items` change places.
pub(crate) fn swap_items<T>(items: &mut Vec<T>, a: usize, b: usize)
    requires
        a < b < old(items).len(),
    ensures
        final(items)@ == old(items)@.update(a as int, old(items)@[b as int]).update(
            b as int,
            old(items)@[a as int],
        ),
{
    let (left, right) = items.as_mut_slice().split_at_mut(b);
    core::mem::swap(&mut left[a], &mut right[0]);
    assert(items@ =~= old(items)@.update(a as int, old(items)@[b as int]).update(
        b as int,
        old(items)@[a as int],
    ));
}

} // verus!
