//! Entities and components on top of a pool: every slot of the pool has a
//! set of components, and a system is run on the slots that have all the
//! components the system requires.

use vstd::prelude::*;
use core::marker::PhantomData;
use crate::heap::{HeapView, Spawn, Swarm};
use crate::model::is_step;

verus! {

/// Why a component could not be made.
#[derive(Debug, Clone, Copy, PartialEq, Eq, Structural)]
pub enum ComponentError {
    ZeroNotAllowed,
}

/// The number of a component, kept as the number of its bit in the set of
/// components of an entity: one more than the number it was made from, so
/// that the lowest bit is never used.
#[derive(Debug, Clone, Copy, PartialEq, Eq, Structural)]
pub struct Component(pub(crate) u8);

impl View for Component {
    type V = u8;

    /// The number of the component's bit.
    open(crate) spec fn view(&self) -> u8 {
        self.0
    }
}

impl Component {
    /// The number of the bit of a component is never zero.
    #[verifier::type_invariant]
    spec fn is_not_zero(self) -> bool {
        self.0 > 0
    }

    /// Makes the component with the number `value`, which is 254 at most.
    pub fn new(value: u8) -> (r: Self)
        requires
            value <= 254,
        ensures
            r@ == value + 1,
    {
        Component(value + 1)
    }

    /// Returns the number of the bit of the component, which is one more
    /// than the number the component was made from.
    pub fn bit(&self) -> (r: u8)
        ensures
            r == self@,
            r > 0,
    {
        proof {
            use_type_invariant(self);
        }
        self.0
    }
}

/// The set that holds the component with the bit `bit` and no other.
pub open spec fn component_bit(bit: u8) -> u64 {
    1u64 << bit
}

/// True if the set `mask` holds every component of `required`.
pub open spec fn has_all(mask: u64, required: u64) -> bool {
    mask & required == required
}

/// The components of one slot, as a set of bits.
#[derive(Debug, Copy, Clone, PartialEq, Eq, Structural)]
pub struct Entity(pub u64);

impl View for Entity {
    type V = u64;

    /// The set of components, one bit for each.
    open(crate) spec fn view(&self) -> u64 {
        self.0
    }
}

impl Entity {
    /// Removes all components.
    pub fn clear(&mut self)
        ensures
            final(self)@ == 0,
    {
        self.0 = 0;
    }

    /// Adds `component`, whose bit has to be one of the 64 of the set. The
    /// lowest bit of the set is left as it is.
    pub fn add_component(&mut self, component: Component)
        requires
            component@ < 64,
        ensures
            final(self)@ == old(self)@ | component_bit(component@),
            final(self)@ & 1 == old(self)@ & 1,
    {
        let bit = component.bit();
        let before = self.0;
        self.0 |= 1u64 << bit;
        assert(0 < bit < 64 ==> (before | (1u64 << bit)) & 1 == before & 1) by (bit_vector);
    }

    /// Removes `component`, whose bit has to be one of the 64 of the set.
    pub fn remove_component(&mut self, component: Component)
        requires
            component@ < 64,
        ensures
            final(self)@ == old(self)@ & !component_bit(component@),
    {
        self.0 &= !(1u64 << component.0);
    }
}

/// What is run on the entities that have the components it requires. A
/// system has a state of its own, which an update may change.
pub trait System<T: Default + Copy>: Sized {
    /// True if an update for the handle `spawn` may lead from the system
    /// `self` and the pool `before` to the system `system` and the pool
    /// `after`. A system that does not say what its updates do leaves all
    /// open: of such a system `EcsShell::run` says which steps leave
    /// everything as it is, and of the other steps no more than that the
    /// pool is well-formed after them.
    open spec fn updates(
        self,
        spawn: Spawn,
        before: HeapView<T>,
        system: Self,
        after: HeapView<T>,
    ) -> bool {
        true
    }

    /// Updates the entity of the handle `spawn` of the pool `swarm`. The
    /// pool stays well-formed and keeps its capacity.
    fn update(&mut self, spawn: &Spawn, swarm: &mut Swarm<T>)
        requires
            old(swarm)@.wf(),
            *spawn < old(swarm)@.max(),
        ensures
            final(swarm)@.wf(),
            final(swarm)@.max() == old(swarm)@.max(),
            old(self).updates(*spawn, old(swarm)@, *final(self), final(swarm)@),
    ;
}

/// A system together with the components it requires.
pub struct EcsShell<T: Default + Copy, S: System<T>> {
    pub(crate) components: Entity,
    pub(crate) system: S,
    pub(crate) marker: PhantomData<T>,
}

impl<T: Default + Copy, S: System<T>> EcsShell<T, S> {
    /// The set of the components that the system requires.
    pub open(crate) spec fn required(self) -> u64 {
        self.components@
    }

    /// The system, in the state it is in.
    pub open(crate) spec fn system(self) -> S {
        self.system
    }

    /// Returns the set of the components that the system requires.
    pub fn components(&self) -> (r: Entity)
        ensures
            r@ == self.required(),
    {
        self.components
    }

    /// Gives the system back, in the state it is in.
    pub fn into_system(self) -> (r: S)
        ensures
            r == self.system(),
    {
        self.system
    }

    /// Updates every entity of a spawned object that has all of the
    /// required components.
    ///
    /// There is one step for each position below `count()`. The step takes
    /// the handle that is bound to its position when the step comes: if
    /// the entity of that handle has all of the required components, the
    /// system updates it; else the step changes nothing. `states` holds
    /// the system and the pool before the first step and after each step.
    pub fn run(&mut self, swarm: &mut Swarm<T>)
        requires
            old(swarm)@.wf(),
        ensures
            final(swarm)@.wf(),
            final(swarm)@.max() == old(swarm)@.max(),
            final(self).required() == old(self).required(),
            exists|states: Seq<(S, HeapView<T>)>|
                {
                    &&& states.len() == old(swarm)@.len() + 1
                    &&& states[0] == (old(self).system(), old(swarm)@)
                    &&& #[trigger] states.last() == (final(self).system(), final(swarm)@)
                    &&& forall|k: int|
                        0 <= k < states.len() ==> (#[trigger] states[k]).1.wf() && states[k].1.max()
                            == old(swarm)@.max()
                    &&& forall|k: int|
                        #![trigger is_step(states, k)]
                        is_step(states, k) ==> runs_step(
                            old(self).required(),
                            k,
                            states[k],
                            states[k + 1],
                        )
                },
    {
        let len = swarm.count();
        let ghost mut states: Seq<(S, HeapView<T>)> = seq![(self.system, swarm@)];
        let mut i: usize = 0;
        while i < len
            invariant
                old(swarm)@.wf(),
                swarm@.wf(),
                swarm@.max() == old(swarm)@.max(),
                len == old(swarm)@.len(),
                i <= len,
                self.required() == old(self).required(),
                states.len() == i + 1,
                states[0] == (old(self).system(), old(swarm)@),
                states.last() == (self.system(), swarm@),
                forall|k: int|
                    0 <= k < states.len() ==> (#[trigger] states[k]).1.wf() && states[k].1.max()
                        == old(swarm)@.max(),
                forall|k: int|
                    #![trigger is_step(states, k)]
                    is_step(states, k) ==> runs_step(
                        old(self).required(),
                        k,
                        states[k],
                        states[k + 1],
                    ),
            decreases len - i,
        {
            let ghost earlier = states;
            let spawn = swarm.handle_at(&i);
            assert(swarm@.handle_at(i as int) < swarm@.max()) by {
                assert(swarm@.slots.spawns[i as int] < swarm@.slots.max);
            }
            if self.components.0 == swarm.entity(&spawn).0 & self.components.0 {
                self.system.update(&spawn, swarm);
            }
            proof {
                states = states.push((self.system, swarm@));
                assert forall|k: int| #![trigger is_step(states, k)] is_step(states, k) implies runs_step(
                    old(self).required(),
                    k,
                    states[k],
                    states[k + 1],
                ) by {
                    if k < i {
                        assert(is_step(earlier, k));
                        assert(states[k] == earlier[k]);
                        assert(states[k + 1] == earlier[k + 1]);
                    } else {
                        assert(states[k] == earlier.last());
                    }
                }
                assert forall|k: int| 0 <= k < states.len() implies (#[trigger] states[k]).1.wf()
                    && states[k].1.max() == old(swarm)@.max() by {
                    if k < earlier.len() {
                        assert(states[k] == earlier[k]);
                    }
                }
            }
            i += 1;
        }
    }
}

/// True if step `k` of a run of a system that requires the components
/// `required` can lead from the system and the pool `before` to the system
/// and the pool `after`: the step takes the handle that is bound to the
/// position `k`, and the system updates the entity of that handle if it has
/// all of the required components; else nothing changes.
pub open spec fn runs_step<T: Default + Copy, S: System<T>>(
    required: u64,
    k: int,
    before: (S, HeapView<T>),
    after: (S, HeapView<T>),
) -> bool {
    let spawn = before.1.handle_at(k);
    if has_all(before.1.entities[spawn as int]@, required) {
        before.0.updates(spawn, before.1, after.0, after.1)
    } else {
        after == before
    }
}

/// Builds a system together with the components it requires.
pub struct SystemBuilder<T: Default + Copy, S: System<T>> {
    pub(crate) shell: EcsShell<T, S>,
}

impl<T: Default + Copy, S: System<T>> SystemBuilder<T, S> {
    /// Starts with `system` and no required component.
    pub fn new(system: S) -> (r: Self)
        ensures
            r.required() == 0,
            r.system() == system,
    {
        SystemBuilder { shell: EcsShell { components: Entity(0), system, marker: PhantomData } }
    }

    /// The set of the components that are required so far.
    pub open(crate) spec fn required(self) -> u64 {
        self.shell.required()
    }

    /// The system.
    pub open(crate) spec fn system(self) -> S {
        self.shell.system()
    }

    /// Requires `component`, whose bit has to be one of the 64 of a set, in
    /// addition to the components required so far.
    pub fn requires_component(self, component: Component) -> (r: Self)
        requires
            component@ < 64,
        ensures
            r.required() == self.required() | component_bit(component@),
            r.system() == self.system(),
    {
        let mut builder = self;
        builder.shell.components.add_component(component);
        builder
    }

    /// Returns the system with what it requires.
    pub fn build(self) -> (r: EcsShell<T, S>)
        ensures
            r.required() == self.required(),
            r.system() == self.system(),
    {
        self.shell
    }
}

/// An entity that has got a component has it, whatever it had before; and
/// one that has all of the required components but one at most has all of
/// them once it has got that one.
pub proof fn lemma_added_component_matches(mask: u64, required: u64, bit: u8)
    requires
        bit < 64,
        has_all(mask, required & !component_bit(bit)),
    ensures
        has_all(mask | component_bit(bit), component_bit(bit)),
        has_all(mask | component_bit(bit), required),
{
    let b = component_bit(bit);
    assert((mask | b) & b == b) by (bit_vector);
    assert(mask & (required & !b) == required & !b ==> (mask | b) & required == required)
        by (bit_vector);
}

/// An entity without a required component does not match.
pub proof fn lemma_missing_component_fails(mask: u64, required: u64, bit: u8)
    requires
        bit < 64,
        mask & component_bit(bit) == 0,
        required & component_bit(bit) == component_bit(bit),
    ensures
        !has_all(mask, required),
{
    let b = component_bit(bit);
    assert(bit < 64 ==> (1u64 << bit) != 0) by (bit_vector);
    assert(mask & b == 0 && required & b == b && b != 0 ==> mask & required != required)
        by (bit_vector);
}

} // verus!
