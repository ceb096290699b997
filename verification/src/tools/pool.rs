//! Pools of a fixed capacity that keep their order when an item is removed:
//! the slot of the item is emptied and no position changes its slot. In all
//! else they are what the sized pools are.

mod pool16;
mod pool64;

use vstd::prelude::*;

pub use crate::tools::sized_pool::{
    for_each, for_while, is_first_equal, pop, position, push, PoolView, StackPool,
};
pub use pool16::StackPool16;
pub use pool64::StackPool64;

verus! {

/// Removes the item at the first position and returns it, as `remove_at`
/// does.
pub fn shift<ItemType, Pool>(pool: &mut Pool) -> (r: Option<ItemType>) where
    ItemType: Copy + PartialEq,
    Pool: StackPool<ItemType>,

    requires
        old(pool)@.wf(),
        old(pool)@.count <= old(pool)@.order.len(),
    ensures
        final(pool)@.wf(),
        old(pool)@.count == 0 ==> r is None && final(pool)@ == old(pool)@,
        old(pool)@.count > 0 ==> r == old(pool)@.sorted(0) && final(pool)@ == emptied_at(
            old(pool)@,
            0,
        ),
{
    match *pool.count() > 0 {
        true => remove_at(pool, 0),
        false => None,
    }
}

/// The pool after the item at the position `position` was removed: its slot
/// is empty and there is one item less. The order is as it was.
pub open spec fn emptied_at<ItemType>(pool: PoolView<ItemType>, position: int) -> PoolView<
    ItemType,
> {
    pool.with_items(pool.items.update(pool.order[position] as int, None)).with_count(
        (pool.count - 1) as usize,
    )
}

/// Removes the item at the position `position` and returns it: its slot is
/// emptied, and no position changes its slot. Returns `None` and changes
/// nothing if the pool has no item.
pub fn remove_at<ItemType, Pool>(pool: &mut Pool, position: usize) -> (r: Option<ItemType>) where
    ItemType: Copy + PartialEq,
    Pool: StackPool<ItemType>,

    requires
        old(pool)@.wf(),
        old(pool)@.count <= old(pool)@.order.len(),
        position < old(pool)@.order.len(),
    ensures
        final(pool)@.wf(),
        old(pool)@.count == 0 ==> r is None && final(pool)@ == old(pool)@,
        old(pool)@.count > 0 ==> r == old(pool)@.sorted(position as int) && final(pool)@
            == emptied_at(old(pool)@, position as int),
{
    if *pool.count() > 0 {
        let item = *pool.item_sorted(&position);
        assert(pool@.items =~= old(pool)@.items);
        *pool.item_sorted(&position) = None;
        *pool.count_mut() -= 1;
        let count = *pool.count();
        swap(pool, 0, count);
        item
    } else {
        None
    }
}

/// Removes the first item that equals `item`, as `remove_at` does, and
/// returns it. Returns `None` and changes nothing if there is none.
pub fn remove_target<ItemType, Pool>(pool: &mut Pool, item: &ItemType) -> (r: Option<
    ItemType,
>) where ItemType: Copy + PartialEq, Pool: StackPool<ItemType>
    requires
        old(pool)@.wf(),
        old(pool)@.count <= old(pool)@.order.len(),
    ensures
        final(pool)@.wf(),
        exists|found: Option<usize>|
            {
                &&& #[trigger] is_first_equal(old(pool)@, *item, found)
                &&& match found {
                    Some(i) => r == old(pool)@.sorted(i as int) && final(pool)@ == emptied_at(
                        old(pool)@,
                        i as int,
                    ),
                    None => r is None && final(pool)@ == old(pool)@,
                }
            },
{
    match find_position(pool, item) {
        Some(i) => remove_at(pool, i),
        None => None,
    }
}

/// Lets two positions of the pool exchange their slots, if they are two and
/// both hold an item: else nothing changes.
pub fn swap<ItemType, Pool>(pool: &mut Pool, first_position: usize, second_position: usize) where
    ItemType: Copy + PartialEq,
    Pool: StackPool<ItemType>,

    requires
        old(pool)@.count <= old(pool)@.order.len(),
    ensures
        final(pool)@ == if first_position < old(pool)@.count && second_position < old(
            pool,
        )@.count && first_position != second_position {
            old(pool)@.swapped(first_position as int, second_position as int)
        } else {
            old(pool)@
        },
{
    if first_position < *pool.count() && second_position < *pool.count() && first_position
        != second_position {
        let first_order = *pool.order_at(&first_position);
        let second_order = *pool.order_at(&second_position);
        *pool.order_at(&first_position) = second_order;
        *pool.order_at(&second_position) = first_order;
        assert(pool@.order =~= old(pool)@.swapped(
            first_position as int,
            second_position as int,
        ).order);
    }
}

/// Finds the first position of the pool whose item equals `item`, where
/// `==` decides. Returns `None` if there is none.
pub fn find_position<ItemType, Pool>(pool: &mut Pool, item: &ItemType) -> (r: Option<usize>) where
    ItemType: Copy + PartialEq,
    Pool: StackPool<ItemType>,

    requires
        old(pool)@.wf(),
        old(pool)@.count <= old(pool)@.order.len(),
    ensures
        final(pool)@ == old(pool)@,
        is_first_equal(old(pool)@, *item, r),
{
    let equals = |other: &ItemType| -> (r: bool)
        ensures
            call_ensures(ItemType::eq, (other, item), r),
        { *other == *item };
    position(pool, equals)
}

} // verus!
