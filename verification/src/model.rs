//! The mathematical model of a swarm pool, and the laws that hold of it.
//!
//! A pool is described by a [`SwarmView`]: the data objects in storage
//! order, the tag of every handle, which handle is bound to which position,
//! the stack of recycled handles, and the bookkeeping of the update loop.
//! The operations of the pool are functions on that description.

use vstd::prelude::*;
use crate::types::{ObjectPosition, Spawn, SpawnId, Tag};

verus! {

/// True if `k` is a step of a pass whose states, before the first step and
/// after each step, are `states`: step `k` leads from `states[k]` to
/// `states[k + 1]`.
pub open spec fn is_step<State>(states: Seq<State>, k: int) -> bool {
    0 <= k && k + 1 < states.len()
}

/// A call of `Swarm::spawn`, or of `Swarm::kill` with the handle of the
/// given identity.
pub enum Call {
    Spawn,
    Kill(SpawnId),
}

/// What a pool holds, as plain mathematical values.
pub struct SwarmView<ItemType, Properties> {
    /// The data objects, in storage order. The first `len` are spawned.
    pub pool: Seq<ItemType>,
    /// The state shared by all objects.
    pub properties: Properties,
    /// The tag of each handle, indexed by the handle's identity.
    pub tags: Seq<Tag>,
    /// The identity of the handle bound to each position.
    pub spawns: Seq<SpawnId>,
    /// The killed handles that wait for reuse; the last one is reused first.
    pub free: Seq<SpawnId>,
    /// For each step of an update pass, the handle that the step visits.
    pub order: Seq<SpawnId>,
    /// The number of spawned objects.
    pub len: usize,
    /// The capacity.
    pub max: usize,
    /// The position of the object that an update pass is visiting.
    pub pos: ObjectPosition,
}

impl<ItemType, Properties> SwarmView<ItemType, Properties> {
    /// The invariant of a pool.
    ///
    /// Storage has the length of the capacity; handles and positions are
    /// bound one to one; a handle is active exactly when its position lies
    /// below `len`; the recycled handles occupy the positions from `len`
    /// upwards, the most recently killed first; behind them lie the handles
    /// that were never spawned, each at the position of its identity.
    pub open spec fn wf(self) -> bool {
        &&& self.pool.len() == self.max
        &&& self.tags.len() == self.max
        &&& self.spawns.len() == self.max
        &&& self.order.len() == self.max
        &&& self.len <= self.max
        &&& self.len + self.free.len() <= self.max
        &&& self.max > 0 ==> self.pos < self.max
        &&& forall|id: int|
            0 <= id < self.max ==> {
                &&& (#[trigger] self.tags[id]).id == id
                &&& self.tags[id].pos < self.max
                &&& self.spawns[self.tags[id].pos as int] == id
                &&& self.tags[id].active <==> self.tags[id].pos < self.len
            }
        &&& forall|p: int|
            0 <= p < self.max ==> {
                &&& (#[trigger] self.spawns[p]) < self.max
                &&& self.tags[self.spawns[p] as int].pos == p
            }
        &&& forall|j: int|
            0 <= j < self.free.len() ==> (#[trigger] self.free[j]) == self.spawns[self.len
                + self.free.len() - 1 - j]
        &&& forall|p: int|
            self.len + self.free.len() <= p < self.max ==> (#[trigger] self.spawns[p]) == p
        &&& forall|k: int| 0 <= k < self.max ==> (#[trigger] self.order[k]) < self.max
    }

    /// True if `id` is the identity of a handle of this pool.
    pub open spec fn is_handle(self, id: SpawnId) -> bool {
        id < self.max
    }

    /// True if `id` is the identity of a handle of this pool that is spawned.
    pub open spec fn is_active(self, id: SpawnId) -> bool {
        self.is_handle(id) && self.tags[id as int].active
    }

    /// True if the position `p` holds a spawned object.
    pub open spec fn is_spawned(self, p: int) -> bool {
        0 <= p < self.len
    }

    /// The spawned data objects, in storage order.
    pub open spec fn spawned_objects(self) -> Seq<ItemType> {
        self.pool.subrange(0, self.len as int)
    }

    /// True if `found` is the handle of the first spawned object, in
    /// storage order, for which `predicate` can return true, and which it
    /// returned false for all objects before; or if `found` is `None` and
    /// it returned false for all spawned objects.
    pub open spec fn is_first_accepted<Predicate: Fn(&ItemType) -> bool>(
        self,
        predicate: Predicate,
        found: Option<Spawn>,
    ) -> bool {
        match found {
            Some(spawn) => {
                &&& self.is_active(spawn@)
                &&& call_ensures(predicate, (&self.pool[self.position_of(spawn@) as int],), true)
                &&& forall|j: int|
                    0 <= j < self.position_of(spawn@) ==> call_ensures(
                        predicate,
                        (&#[trigger] self.pool[j],),
                        false,
                    )
            },
            None => forall|j: int|
                0 <= j < self.len ==> call_ensures(predicate, (&#[trigger] self.pool[j],), false),
        }
    }

    /// The identities of the spawned handles.
    pub open spec fn active_ids(self) -> Set<SpawnId> {
        Set::new(|id: SpawnId| self.is_active(id))
    }

    /// The position that the handle `id` is bound to.
    pub open spec fn position_of(self, id: SpawnId) -> ObjectPosition {
        self.tags[id as int].pos
    }

    /// The handle that the next spawn hands out: the most recently killed
    /// one if any waits for reuse, else the one at the first unclaimed
    /// position.
    pub open spec fn next_id(self) -> SpawnId {
        if self.free.len() > 0 {
            self.free.last()
        } else {
            self.spawns[self.len as int]
        }
    }

    /// The pool after a spawn that found room: the next handle is active and
    /// bound to the position `len`, and `len` has grown by one. The data
    /// objects are untouched.
    pub open spec fn spawned(self) -> Self {
        let id = self.next_id();
        SwarmView {
            tags: self.tags.update(id as int, Tag { id, pos: self.len, active: true }),
            free: if self.free.len() > 0 {
                self.free.drop_last()
            } else {
                self.free
            },
            len: (self.len + 1) as usize,
            ..self
        }
    }

    /// The pool after `n` spawns in a row.
    pub open spec fn spawned_times(self, n: nat) -> Self
        decreases n,
    {
        if n == 0 {
            self
        } else {
            self.spawned().spawned_times((n - 1) as nat)
        }
    }

    /// The pool after the active handle `id` was killed.
    ///
    /// If its object was not the last spawned one, the two objects change
    /// places, and so do their handles; the killed handle is then bound to
    /// the position `len - 1`. It is inactive, it is pushed on the stack of
    /// recycled handles, and `len` has shrunk by one. The visiting order
    /// of an update pass is as it was: it holds handles, and a handle is
    /// found wherever its object lies.
    pub open spec fn killed(self, id: SpawnId) -> Self {
        let target = self.tags[id as int].pos;
        let last = (self.len - 1) as usize;
        let other = self.spawns[last as int];
        if target < last {
            SwarmView {
                pool: self.pool.update(target as int, self.pool[last as int]).update(
                    last as int,
                    self.pool[target as int],
                ),
                tags: self.tags.update(
                    other as int,
                    Tag { id: other, pos: target, active: self.tags[other as int].active },
                ).update(id as int, Tag { id, pos: last, active: false }),
                spawns: self.spawns.update(target as int, other).update(last as int, id),
                free: self.free.push(id),
                len: last,
                ..self
            }
        } else {
            SwarmView {
                tags: self.tags.update(id as int, Tag { id, pos: target, active: false }),
                free: self.free.push(id),
                len: last,
                ..self
            }
        }
    }

    /// The pool after its spawned instances were killed one after the other,
    /// the last spawned one first: no object has moved, every handle is
    /// inactive, and the handle at the first position is the first to be
    /// reused.
    pub open spec fn emptied(self) -> Self {
        SwarmView {
            tags: Seq::new(
                self.tags.len(),
                |id: int| Tag { id: self.tags[id].id, pos: self.tags[id].pos, active: false },
            ),
            free: self.free + Seq::new(
                self.len as nat,
                |j: int| self.spawns[self.len - 1 - j],
            ),
            len: 0,
            ..self
        }
    }

    /// True if `states` can be the first states of an update pass on this
    /// pool, the state before the first step and the states after the steps
    /// that were taken: the pass starts from this pool with the pass at its
    /// start and the visiting order lined up, it takes no more steps than
    /// objects are spawned, and every state is well-formed, has the
    /// capacity of this pool and the visiting order of the start.
    pub open spec fn starts_pass(self, states: Seq<Self>) -> bool {
        &&& 0 < states.len() <= self.len
        &&& states[0] == self.homed().lined_up()
        &&& forall|k: int|
            0 <= k < states.len() ==> {
                &&& (#[trigger] states[k]).wf()
                &&& states[k].max == self.max
                &&& states[k].order == states[0].order
            }
    }

    /// The pool with its update pass at the start.
    pub open spec fn homed(self) -> Self {
        SwarmView { pos: 0, ..self }
    }

    /// The pool with its visiting order lined up: every step of a pass that
    /// starts now is to visit the handle that is bound to the position of
    /// its number now.
    pub open spec fn lined_up(self) -> Self {
        SwarmView {
            order: Seq::new(
                self.order.len(),
                |k: int|
                    if k < self.len {
                        self.spawns[k]
                    } else {
                        self.order[k]
                    },
            ),
            ..self
        }
    }

    /// True if every step of a pass that starts now is to visit the handle
    /// that is bound to the position of its number.
    pub open spec fn is_lined_up(self) -> bool {
        forall|k: int| 0 <= k < self.len ==> #[trigger] self.order[k] == self.spawns[k]
    }

    /// The pool with its update pass aimed at the handle that step `cursor`
    /// is to visit: at the position where the object of that handle lies.
    pub open spec fn aimed(self, cursor: int) -> Self {
        SwarmView { pos: self.tags[self.order[cursor] as int].pos, ..self }
    }

    /// The handle of the object that the update pass is visiting.
    pub open spec fn visited(self) -> SpawnId {
        self.spawns[self.pos as int]
    }

    /// The pool with other data objects and shared state, and everything
    /// else as it is.
    pub open spec fn with_data(self, pool: Seq<ItemType>, properties: Properties) -> Self {
        SwarmView { pool, properties, ..self }
    }

    /// The pool as it is made: nothing spawned, nothing recycled, every
    /// handle inactive at the position of its identity.
    pub open spec fn fresh(pool: Seq<ItemType>, properties: Properties) -> Self {
        SwarmView {
            pool,
            properties,
            tags: Seq::new(pool.len(), |i: int| Tag { id: i as usize, pos: i as usize, active: false }),
            spawns: Seq::new(pool.len(), |i: int| i as usize),
            free: Seq::empty(),
            order: Seq::new(pool.len(), |i: int| i as usize),
            len: 0,
            max: pool.len() as usize,
            pos: 0,
        }
    }

    /// A pool as it is made satisfies the invariant.
    pub proof fn lemma_fresh_wf(pool: Seq<ItemType>, properties: Properties)
        requires
            pool.len() <= usize::MAX,
        ensures
            Self::fresh(pool, properties).wf(),
    {
    }

    /// In a well-formed pool with room, the next handle is the one bound to
    /// the position `len`, and it is inactive.
    pub proof fn lemma_next_id(self)
        requires
            self.wf(),
            self.len < self.max,
        ensures
            self.next_id() == self.spawns[self.len as int],
            self.is_handle(self.next_id()),
            !self.is_active(self.next_id()),
            self.position_of(self.next_id()) == self.len,
    {
        if self.free.len() > 0 {
            assert(self.free[self.free.len() - 1] == self.spawns[self.len + self.free.len() - 1 - (
            self.free.len() - 1)]);
        }
        let id = self.spawns[self.len as int];
        assert(self.tags[id as int].pos == self.len);
    }

    /// A spawn keeps the invariant, and changes neither the capacity nor a
    /// data object.
    pub proof fn lemma_spawned_wf(self)
        requires
            self.wf(),
            self.len < self.max,
        ensures
            self.spawned().wf(),
            self.spawned().len == self.len + 1,
            self.spawned().max == self.max,
            self.spawned().pool == self.pool,
            self.spawned().is_active(self.next_id()),
            self.spawned().position_of(self.next_id()) == self.len,
    {
        self.lemma_next_id();
        let s = self.spawned();
        let id = self.next_id();
        assert forall|i: int| 0 <= i < s.max implies {
            &&& (#[trigger] s.tags[i]).id == i
            &&& s.tags[i].pos < s.max
            &&& s.spawns[s.tags[i].pos as int] == i
            &&& s.tags[i].active <==> s.tags[i].pos < s.len
        } by {
            assert(self.tags[i].id == i);
            if i != id {
                assert(self.tags[i].pos != self.len) by {
                    assert(self.spawns[self.tags[i].pos as int] == i);
                }
            }
        }
        assert forall|p: int| 0 <= p < s.max implies {
            &&& (#[trigger] s.spawns[p]) < s.max
            &&& s.tags[s.spawns[p] as int].pos == p
        } by {
            assert(self.spawns[p] < self.max);
        }
        assert forall|j: int| 0 <= j < s.free.len() implies (#[trigger] s.free[j]) == s.spawns[s.len
            + s.free.len() - 1 - j] by {
            assert(self.free[j] == self.spawns[self.len + self.free.len() - 1 - j]);
        }
        assert forall|p: int| s.len + s.free.len() <= p < s.max implies (#[trigger] s.spawns[p])
            == p by {
            assert(self.spawns[p] == p);
        }
    }

    /// `n` spawns in a row keep the invariant, as long as there is room for
    /// them.
    pub proof fn lemma_spawned_times_wf(self, n: nat)
        requires
            self.wf(),
            self.len + n <= self.max,
        ensures
            self.spawned_times(n).wf(),
            self.spawned_times(n).len == self.len + n,
            self.spawned_times(n).max == self.max,
            self.spawned_times(n).pool == self.pool,
            self.spawned_times(n).properties == self.properties,
            self.spawned_times(n).order == self.order,
        decreases n,
    {
        if n > 0 {
            self.lemma_spawned_wf();
            self.spawned().lemma_spawned_times_wf((n - 1) as nat);
        }
    }

    /// One more spawn behind `n` spawns is `n + 1` spawns.
    pub proof fn lemma_spawned_times_step(self, n: nat)
        ensures
            self.spawned_times(n).spawned() == self.spawned_times(n + 1),
        decreases n,
    {
        if n > 0 {
            self.spawned().lemma_spawned_times_step((n - 1) as nat);
            assert(self.spawned_times(n + 1) == self.spawned().spawned_times(n));
        } else {
            assert(self.spawned_times(1) == self.spawned().spawned_times(0));
        }
    }

    /// A kill of an active handle keeps the invariant, and changes neither
    /// the capacity nor the shared state.
    pub proof fn lemma_killed_wf(self, id: SpawnId)
        requires
            self.wf(),
            self.is_active(id),
        ensures
            self.killed(id).wf(),
            self.killed(id).len == self.len - 1,
            self.killed(id).max == self.max,
            self.killed(id).pos == self.pos,
            self.killed(id).properties == self.properties,
            !self.killed(id).is_active(id),
            self.killed(id).position_of(id) == self.len - 1,
    {
        let s = self.killed(id);
        let target = self.tags[id as int].pos;
        let last = (self.len - 1) as usize;
        let other = self.spawns[last as int];
        assert(self.tags[id as int].id == id);
        assert(target < self.len);
        assert(other < self.max);
        assert(self.tags[other as int].pos == last);
        assert(self.tags[other as int].id == other);
        assert(self.spawns[target as int] == id);
        assert forall|i: int| 0 <= i < s.max implies {
            &&& (#[trigger] s.tags[i]).id == i
            &&& s.tags[i].pos < s.max
            &&& s.spawns[s.tags[i].pos as int] == i
            &&& s.tags[i].active <==> s.tags[i].pos < s.len
        } by {
            assert(self.tags[i].id == i);
            assert(self.spawns[self.tags[i].pos as int] == i);
        }
        assert forall|p: int| 0 <= p < s.max implies {
            &&& (#[trigger] s.spawns[p]) < s.max
            &&& s.tags[s.spawns[p] as int].pos == p
        } by {
            assert(self.spawns[p] < self.max);
            assert(self.tags[self.spawns[p] as int].pos == p);
        }
        assert forall|j: int| 0 <= j < s.free.len() implies (#[trigger] s.free[j]) == s.spawns[s.len
            + s.free.len() - 1 - j] by {
            if j < self.free.len() {
                assert(self.free[j] == self.spawns[self.len + self.free.len() - 1 - j]);
            }
        }
        assert forall|p: int| s.len + s.free.len() <= p < s.max implies (#[trigger] s.spawns[p])
            == p by {
            assert(self.spawns[p] == p);
        }
        assert forall|k: int| 0 <= k < s.max implies (#[trigger] s.order[k]) < s.max by {
            assert(self.order[k] < self.max);
        }
    }

    /// The handle at the last spawned position is active. To kill it and
    /// then all the others is to kill all.
    pub proof fn lemma_killed_last(self, id: SpawnId)
        requires
            self.wf(),
            self.len > 0,
            id == self.spawns[self.len - 1],
        ensures
            self.is_active(id),
            self.killed(id).emptied() == self.emptied(),
    {
        assert(self.spawns[self.len - 1] < self.max);
        assert(self.tags[id as int].pos == self.len - 1);
        let a = self.killed(id).emptied();
        let b = self.emptied();
        assert(a.tags =~= b.tags);
        assert(a.free =~= b.free);
    }

    /// To kill all where nothing is spawned changes nothing.
    pub proof fn lemma_emptied_nothing(self)
        requires
            self.wf(),
            self.len == 0,
        ensures
            self.emptied() == self,
    {
        assert forall|id: int| 0 <= id < self.max implies self.emptied().tags[id]
            == #[trigger] self.tags[id] by {}
        assert(self.emptied().tags =~= self.tags);
        assert(self.emptied().free =~= self.free);
    }

    /// As many handles are active as objects are spawned, and each active
    /// handle is bound to a position below `len`: to one of the spawned
    /// objects.
    pub proof fn lemma_active_handles(self)
        requires
            self.wf(),
        ensures
            self.active_ids().finite(),
            self.active_ids().len() == self.len,
            forall|id: SpawnId|
                #![trigger self.is_active(id)]
                self.is_active(id) ==> self.position_of(id) < self.len,
    {
        let bound = self.spawns.subrange(0, self.len as int);
        assert forall|i: int, j: int| 0 <= i < bound.len() && 0 <= j < bound.len() && i != j implies
            bound[i] != bound[j] by {
            assert(self.tags[self.spawns[i] as int].pos == i);
            assert(self.tags[self.spawns[j] as int].pos == j);
        }
        assert(bound.no_duplicates());
        assert forall|id: SpawnId| bound.to_set().contains(id) <==> self.active_ids().contains(
            id,
        ) by {
            if bound.to_set().contains(id) {
                let p = choose|p: int| 0 <= p < bound.len() && bound[p] == id;
                assert(self.spawns[p] == id);
                assert(self.spawns[p] < self.max);
                assert(self.tags[self.spawns[p] as int].pos == p);
            }
            if self.active_ids().contains(id) {
                assert(self.is_active(id));
                let p = self.tags[id as int].pos as int;
                assert(self.spawns[p] == id);
                assert(bound[p] == id);
            }
        }
        assert(bound.to_set() =~= self.active_ids());
        bound.unique_seq_to_set();
        assert forall|id: SpawnId| #![trigger self.is_active(id)] self.is_active(id) implies
            self.position_of(id) < self.len by {
            assert(self.tags[id as int].active);
        }
    }

    /// A kill of a handle whose object is not the last spawned one brings
    /// the last spawned object to the position of the killed one, and binds
    /// the handle of that object to its new position. A kill of the handle
    /// of the last spawned object moves no object.
    pub proof fn lemma_kill_moves_last(self, id: SpawnId)
        requires
            self.wf(),
            self.is_active(id),
        ensures
            self.position_of(id) < self.len - 1 ==> {
                let moved = self.spawns[self.len - 1];
                &&& self.killed(id).pool[self.position_of(id) as int] == self.pool[self.len - 1]
                &&& self.killed(id).pool[self.len - 1] == self.pool[self.position_of(id) as int]
                &&& self.killed(id).position_of(moved) == self.position_of(id)
                &&& self.killed(id).spawns[self.position_of(id) as int] == moved
                &&& self.killed(id).is_active(moved)
            },
            self.position_of(id) >= self.len - 1 ==> self.killed(id).pool == self.pool,
            forall|other: SpawnId|
                self.is_handle(other) && other != id && other != self.spawns[self.len - 1]
                    ==> self.killed(id).tags[other as int] == #[trigger] self.tags[other as int],
            forall|p: int|
                0 <= p < self.max && p != self.position_of(id) && p != self.len - 1
                    ==> #[trigger] self.killed(id).pool[p] == self.pool[p],
    {
        let last = self.len - 1;
        assert(self.tags[id as int].id == id);
        assert(self.tags[id as int].pos < self.len);
        assert(self.spawns[last] < self.max);
        assert(self.tags[self.spawns[last] as int].pos == last);
        assert(self.tags[self.spawns[last] as int].id == self.spawns[last]);
    }

    /// After a kill, the next spawn hands out the killed handle, and there
    /// is room for it. The handle is then bound to the data object that it
    /// was bound to when it was killed, which is where the kill left it.
    pub proof fn lemma_killed_is_next(self, id: SpawnId)
        requires
            self.wf(),
            self.is_active(id),
        ensures
            self.killed(id).len < self.killed(id).max,
            self.killed(id).next_id() == id,
            self.killed(id).spawned().is_active(id),
            self.killed(id).spawned().len == self.len,
            self.killed(id).spawned().position_of(id) == self.len - 1,
            self.killed(id).spawned().pool[self.len - 1] == self.pool[self.position_of(id) as int],
    {
        self.lemma_killed_wf(id);
        self.killed(id).lemma_spawned_wf();
        self.lemma_kill_moves_last(id);
        assert(self.tags[id as int].pos < self.len);
    }

    /// Two handles of the same identity resolve to the same tag: whoever
    /// holds a mirror of a handle observes the position and the activity
    /// that the holder of the handle observes.
    pub proof fn lemma_mirrors_agree(self, a: Spawn, b: Spawn)
        requires
            a@ == b@,
        ensures
            a == b,
            self.position_of(a@) == self.position_of(b@),
            self.is_active(a@) == self.is_active(b@),
            self.tags[a@ as int] == self.tags[b@ as int],
    {
    }

    /// True if `call` may be made on the pool: a kill needs an active
    /// handle.
    pub open spec fn allows(self, call: Call) -> bool {
        match call {
            Call::Spawn => true,
            Call::Kill(id) => self.is_active(id),
        }
    }

    /// The pool after `call` was made on it by way of `Swarm`: a spawn that
    /// finds no room changes nothing; a kill is made with the update pass
    /// at its start.
    pub open spec fn after_call(self, call: Call) -> Self {
        match call {
            Call::Spawn => if self.len < self.max {
                self.spawned()
            } else {
                self
            },
            Call::Kill(id) => self.homed().killed(id),
        }
    }

    /// True if the calls of `calls` may be made one after the other.
    pub open spec fn allows_all(self, calls: Seq<Call>) -> bool
        decreases calls.len(),
    {
        calls.len() == 0 || (self.allows(calls[0]) && self.after_call(calls[0]).allows_all(
            calls.drop_first(),
        ))
    }

    /// The pool after the calls of `calls` were made one after the other.
    pub open spec fn after_calls(self, calls: Seq<Call>) -> Self
        decreases calls.len(),
    {
        if calls.len() == 0 {
            self
        } else {
            self.after_call(calls[0]).after_calls(calls.drop_first())
        }
    }

    /// A call that may be made keeps the invariant and the capacity.
    pub proof fn lemma_call_keeps_wf(self, call: Call)
        requires
            self.wf(),
            self.allows(call),
        ensures
            self.after_call(call).wf(),
            self.after_call(call).max == self.max,
    {
        match call {
            Call::Spawn => {
                if self.len < self.max {
                    self.lemma_spawned_wf();
                }
            },
            Call::Kill(id) => {
                self.lemma_pass_moves_wf(0);
                self.homed().lemma_killed_wf(id);
            },
        }
    }

    /// A kill by way of `Swarm` does to the pool what a kill in an update
    /// pass does: the two differ in where the pass stands only. What holds
    /// of the objects and the handles after the one holds after the other.
    pub proof fn lemma_kill_call_as_killed(self, id: SpawnId)
        requires
            self.wf(),
            self.is_active(id),
        ensures
            self.after_call(Call::Kill(id)) == self.killed(id).homed(),
            self.after_call(Call::Kill(id)).next_id() == id,
    {
        self.lemma_pass_moves_wf(0);
        self.homed().lemma_killed_is_next(id);
    }

    /// After any calls of spawn and kill, made one after the other from a
    /// well-formed pool, the pool is well-formed, as many handles are
    /// active as objects are spawned, and each active handle is bound to
    /// one of the spawned objects.
    pub proof fn lemma_calls_keep_count(self, calls: Seq<Call>)
        requires
            self.wf(),
            self.allows_all(calls),
        ensures
            self.after_calls(calls).wf(),
            self.after_calls(calls).max == self.max,
            self.after_calls(calls).active_ids().finite(),
            self.after_calls(calls).active_ids().len() == self.after_calls(calls).len,
            forall|id: SpawnId|
                #![trigger self.after_calls(calls).is_active(id)]
                self.after_calls(calls).is_active(id) ==> self.after_calls(calls).position_of(id)
                    < self.after_calls(calls).len,
        decreases calls.len(),
    {
        if calls.len() == 0 {
            self.lemma_active_handles();
        } else {
            self.lemma_call_keeps_wf(calls[0]);
            self.after_call(calls[0]).lemma_calls_keep_count(calls.drop_first());
        }
    }

    /// A pool whose visiting order was lined up is well-formed as it was,
    /// and its order is lined up. Nothing but the order has changed.
    pub proof fn lemma_lined_up(self)
        requires
            self.wf(),
        ensures
            self.lined_up().wf(),
            self.lined_up().is_lined_up(),
            self.lined_up() == (SwarmView { order: self.lined_up().order, ..self }),
    {
        let s = self.lined_up();
        assert forall|k: int| 0 <= k < s.max implies (#[trigger] s.order[k]) < s.max by {
            assert(self.order[k] < self.max);
            assert(self.spawns[k] < self.max);
        }
    }

    /// In an update pass, step `k` visits the handle that was bound to the
    /// position `k` when the pass started, wherever its object lies by
    /// then, whatever the steps before did: they may have changed objects,
    /// spawned and killed at will. That handle was active when the pass
    /// started, and no other step of the pass visits it. So the pass
    /// visits every instance that is spawned at the start once, no
    /// instance twice, and none that a step has spawned at a position that
    /// was free at the start.
    ///
    /// A handle that a step before has killed is visited all the same, as
    /// an instance that is not spawned; if it was spawned again by then,
    /// the instance that it stands for now is visited.
    pub proof fn lemma_pass_visits_each_once(states: Seq<Self>, k: int)
        requires
            states.len() > 0,
            states[0].is_lined_up(),
            forall|j: int|
                0 <= j < states.len() ==> (#[trigger] states[j]).wf() && states[j].max
                    == states[0].max && states[j].order == states[0].order,
            0 <= k < states.len(),
            k < states[0].len,
        ensures
            states[k].aimed(k).wf(),
            states[k].aimed(k).visited() == states[0].spawns[k],
            states[0].is_active(states[0].spawns[k]),
            forall|j: int|
                0 <= j < states[0].len && j != k ==> #[trigger] states[0].spawns[j]
                    != states[0].spawns[k],
    {
        let start = states[0];
        let now = states[k];
        let id = start.spawns[k];
        assert(start.wf());
        assert(now.wf());
        assert(id < start.max);
        assert(start.tags[id as int].pos == k);
        assert(now.order[k] == start.order[k]);
        assert(start.order[k] == id);
        assert(now.tags[id as int].pos < now.max);
        assert(now.spawns[now.tags[id as int].pos as int] == id);
        now.lemma_pass_moves_wf(k);
        assert forall|j: int| 0 <= j < start.len && j != k implies #[trigger] start.spawns[j]
            != start.spawns[k] by {
            assert(start.spawns[j] < start.max);
            assert(start.tags[start.spawns[j] as int].pos == j);
        }
    }

    /// Moving the pass to its start or aiming it at a step keeps the
    /// invariant and changes nothing but where the pass stands.
    pub proof fn lemma_pass_moves_wf(self, cursor: int)
        requires
            self.wf(),
        ensures
            self.homed().wf(),
            0 <= cursor < self.max ==> self.aimed(cursor).wf(),
            0 <= cursor < self.max ==> self.aimed(cursor).visited() == self.order[cursor],
    {
        if 0 <= cursor < self.max {
            let id = self.order[cursor];
            assert(id < self.max);
            assert(self.tags[id as int].pos < self.max);
            assert(self.spawns[self.tags[id as int].pos as int] == id);
        }
    }

    /// Other data objects and other shared state keep the invariant, as long
    /// as there are as many objects as before.
    pub proof fn lemma_with_data_wf(self, pool: Seq<ItemType>, properties: Properties)
        requires
            self.wf(),
            pool.len() == self.pool.len(),
        ensures
            self.with_data(pool, properties).wf(),
    {
    }
}

} // verus!
