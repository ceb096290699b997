//! Types used by the Swarm pool.

use vstd::prelude::*;
use core::marker::PhantomData;

verus! {

/// The index of a data object in the pool.
pub type ObjectPosition = usize;

/// The identity of a Spawn.
pub type SpawnId = usize;

/// A way to set up pool objects of one kind: the number of the kind, and
/// the function that gets an object and the properties of its pool.
pub struct Factory<ItemType, Properties, Handler> where
    Handler: Fn(&mut ItemType, &mut Properties),
{
    pub type_def: usize,
    pub methode: Handler,
    pub marker: PhantomData<(ItemType, Properties)>,
}

/// The record that a pool keeps for one of its handles: the identity of the
/// handle, the position of the data object it is bound to, and whether it is
/// spawned at the moment.
#[derive(Debug, Copy, Clone, PartialEq, Eq, Structural)]
pub struct Tag {
    pub id: SpawnId,
    pub pos: ObjectPosition,
    pub active: bool,
}

impl Tag {
    /// The identity of the handle this record belongs to.
    pub fn id(&self) -> (r: &SpawnId)
        ensures
            *r == self.id,
    {
        &self.id
    }

    /// The position of the data object the handle is bound to.
    pub fn pos(&self) -> (r: &ObjectPosition)
        ensures
            *r == self.pos,
    {
        &self.pos
    }

    /// True while the handle is spawned.
    pub fn active(&self) -> (r: bool)
        ensures
            r == self.active,
    {
        self.active
    }
}

impl Default for Tag {
    fn default() -> (r: Self)
        ensures
            r == (Tag { id: 0, pos: 0, active: false }),
    {
        Tag { id: 0, pos: 0, active: false }
    }
}

/// A spawn is a handle to a data object in the swarm pool. It is a key: the
/// pool that issued it holds the record of where the object is and whether
/// it is alive, so every copy of a spawn resolves to the same record.
#[derive(Debug, Copy, Clone, PartialEq, Eq, Structural)]
pub struct Spawn {
    pub(crate) id: SpawnId,
}

impl View for Spawn {
    type V = SpawnId;

    /// A spawn is its identity.
    open(crate) spec fn view(&self) -> SpawnId {
        self.id
    }
}

impl Spawn {
    pub(crate) fn new(index: usize) -> (r: Self)
        ensures
            r@ == index,
    {
        Spawn { id: index }
    }

    /// Returns the identity of this spawn. All mirrors of a spawn have the
    /// same identity and resolve to the same object position.
    pub fn id(&self) -> (r: SpawnId)
        ensures
            r == self@,
    {
        self.id
    }

    /// Returns the position of the target object in the pool, as recorded in
    /// `tags`, the tag table of the pool that issued this spawn.
    pub fn pos(&self, tags: &Vec<Tag>) -> (r: ObjectPosition)
        requires
            self@ < tags.len(),
        ensures
            r == tags[self@ as int].pos,
    {
        tags[self.id].pos
    }

    /// Returns true if the target object is spawned, as recorded in `tags`,
    /// the tag table of the pool that issued this spawn.
    pub fn active(&self, tags: &Vec<Tag>) -> (r: bool)
        requires
            self@ < tags.len(),
        ensures
            r == tags[self@ as int].active,
    {
        tags[self.id].active
    }

    /// Returns another handle to the same object.
    pub fn mirror(&self) -> (r: Self)
        ensures
            r == *self,
    {
        Spawn { id: self.id }
    }
}

/// The default spawn has identity zero. It is there so that a spawn can be a
/// field of a pool object; it was issued by no pool.
impl Default for Spawn {
    fn default() -> (r: Self)
        ensures
            r@ == 0,
    {
        Spawn { id: 0 }
    }
}

} // verus!
