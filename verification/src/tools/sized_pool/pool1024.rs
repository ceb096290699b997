use vstd::prelude::*;
use super::{PoolView, StackPool};

verus! {

/// The capacity of the pool.
pub const CAPACITY: usize = 1024;

/// Sized pool object with a max capacity of 1024 items.
pub struct SizedPool1024<ItemType> {
    pub(crate) items: [Option<ItemType>; CAPACITY],
    pub(crate) order: [usize; CAPACITY],
    pub(crate) count: usize,
}

impl<ItemType> View for SizedPool1024<ItemType> {
    type V = PoolView<ItemType>;

    open(crate) spec fn view(&self) -> PoolView<ItemType> {
        PoolView { items: self.items@, order: self.order@, count: self.count }
    }
}

impl<ItemType> SizedPool1024<ItemType> where ItemType: Copy + PartialEq {
    /// Creates a new pool: it has no item, every slot is empty, and every
    /// position has the slot of its own number.
    pub fn new() -> (r: Self)
        ensures
            r@.wf(),
            r@.count == 0,
            r@.items.len() == CAPACITY,
            forall|i: int| 0 <= i < CAPACITY ==> (#[trigger] r@.items[i]) is None,
            forall|i: int| 0 <= i < CAPACITY ==> (#[trigger] r@.order[i]) == i,
    {
        let mut order = [0usize; CAPACITY];
        let mut i: usize = 0;
        while i < CAPACITY
            invariant
                i <= CAPACITY,
                forall|j: int| 0 <= j < i ==> (#[trigger] order@[j]) == j,
            decreases CAPACITY - i,
        {
            order[i] = i;
            i += 1;
        }
        SizedPool1024 { items: [None; CAPACITY], order, count: 0 }
    }

    /// Returns the slot of the position `position`, to be changed.
    pub fn get_mut(&mut self, position: &usize) -> (r: &mut Option<ItemType>)
        requires
            old(self)@.wf(),
            *position < CAPACITY,
        ensures
            *r == old(self)@.sorted(*position as int),
            final(self)@ == old(self)@.with_items(
                old(self)@.items.update(old(self)@.order[*position as int] as int, *final(r)),
            ),
    {
        &mut self.items[self.order[*position]]
    }

    /// Returns the slot of the position `position`.
    pub fn get_ref(&self, position: &usize) -> (r: &Option<ItemType>)
        requires
            self@.wf(),
            *position < CAPACITY,
        ensures
            *r == self@.sorted(*position as int),
    {
        &self.items[self.order[*position]]
    }
}

impl<ItemType> StackPool<ItemType> for SizedPool1024<ItemType> {
    fn count(&self) -> (r: &usize) {
        &self.count
    }

    fn count_mut(&mut self) -> (r: &mut usize) {
        &mut self.count
    }

    fn ref_at(&self, item_index: &usize) -> (r: &Option<ItemType>) {
        &self.items[*item_index]
    }

    fn ref_sorted(&self, ord_index: &usize) -> (r: &Option<ItemType>) {
        &self.items[self.order[*ord_index]]
    }

    fn item_at(&mut self, item_index: &usize) -> (r: &mut Option<ItemType>) {
        &mut self.items[*item_index]
    }

    fn item_last(&mut self) -> (r: &mut Option<ItemType>) {
        &mut self.items[self.count]
    }

    fn item_sorted(&mut self, ord_index: &usize) -> (r: &mut Option<ItemType>) {
        &mut self.items[self.order[*ord_index]]
    }

    fn order_at(&mut self, ord_index: &usize) -> (r: &mut usize) {
        &mut self.order[*ord_index]
    }
}

} // verus!
