//! A set of sized pools that can be used somewhat like an array or a vector
//! that can grow up to a fixed capacity.
//!
//! A pool holds its items in slots and reaches them through an order: the
//! item at the position `p` of the pool lies in the slot `order[p]`.

mod pool1024;
mod pool128;
mod pool16;
mod pool256;
mod pool32;

use vstd::prelude::*;
use crate::model::is_step;

pub use pool1024::SizedPool1024;
pub use pool128::SizedPool128;
pub use pool16::SizedPool16;
pub use pool256::SizedPool256;
pub use pool32::SizedPool32;

verus! {

/// What a sized pool holds, as plain mathematical values.
pub struct PoolView<ItemType> {
    /// The slots, each with an item or empty.
    pub items: Seq<Option<ItemType>>,
    /// For each position of the pool, the slot of the item at that position.
    pub order: Seq<usize>,
    /// The number of items in the pool.
    pub count: usize,
}

impl<ItemType> PoolView<ItemType> {
    /// The invariant of a pool: there are as many positions as slots, and
    /// every position has a slot.
    pub open spec fn wf(self) -> bool {
        &&& self.order.len() == self.items.len()
        &&& forall|p: int| 0 <= p < self.order.len() ==> (#[trigger] self.order[p]) < self.items.len()
    }

    /// What lies at the position `position` of the pool.
    pub open spec fn sorted(self, position: int) -> Option<ItemType> {
        self.items[self.order[position] as int]
    }

    /// The pool with other slots.
    pub open spec fn with_items(self, items: Seq<Option<ItemType>>) -> Self {
        PoolView { items, ..self }
    }

    /// The pool with another order.
    pub open spec fn with_order(self, order: Seq<usize>) -> Self {
        PoolView { order, ..self }
    }

    /// The pool with another number of items.
    pub open spec fn with_count(self, count: usize) -> Self {
        PoolView { count, ..self }
    }

    /// The pool after the positions `first` and `second` have exchanged
    /// their slots.
    pub open spec fn swapped(self, first: int, second: int) -> Self {
        self.with_order(
            self.order.update(first, self.order[second]).update(second, self.order[first]),
        )
    }

    /// The pool after `item` was put into the slot whose number is the
    /// number of items.
    pub open spec fn pushed(self, item: ItemType) -> Self {
        PoolView {
            items: self.items.update(self.count as int, Some(item)),
            count: (self.count + 1) as usize,
            ..self
        }
    }

    /// The pool after the slot whose number is the number of items less one
    /// was emptied.
    pub open spec fn popped(self) -> Self {
        PoolView {
            items: self.items.update(self.count - 1, None),
            count: (self.count - 1) as usize,
            ..self
        }
    }

    /// The pool after the item at the position `position` was removed: its
    /// slot is empty, and the position has exchanged its slot with the last
    /// position in use.
    pub open spec fn removed(self, position: int) -> Self {
        self.with_items(self.items.update(self.order[position] as int, None)).swapped(
            position,
            self.count - 1,
        ).with_count((self.count - 1) as usize)
    }

    /// An exchange of slots keeps the invariant.
    pub proof fn lemma_swapped_wf(self, first: int, second: int)
        requires
            self.wf(),
            0 <= first < self.order.len(),
            0 <= second < self.order.len(),
        ensures
            self.swapped(first, second).wf(),
    {
    }

    /// To exchange the slots of two positions twice is to do nothing.
    pub proof fn lemma_swapped_twice(self, first: int, second: int)
        requires
            0 <= first < self.order.len(),
            0 <= second < self.order.len(),
        ensures
            self.swapped(first, second).swapped(first, second) == self,
    {
        assert(self.swapped(first, second).swapped(first, second).order =~= self.order);
    }
}

/// What the functions of this module need of a pool: its number of items,
/// its slots and its order. The view of a pool says what it holds.
pub trait StackPool<ItemType>: View<V = PoolView<ItemType>> {
    /// The number of items.
    fn count(&self) -> (r: &usize)
        ensures
            *r == self@.count,
    ;

    /// The number of items, to be changed.
    fn count_mut(&mut self) -> (r: &mut usize)
        ensures
            *r == old(self)@.count,
            final(self)@ == old(self)@.with_count(*final(r)),
    ;

    /// The slot `item_index`.
    fn ref_at(&self, item_index: &usize) -> (r: &Option<ItemType>)
        requires
            *item_index < self@.items.len(),
        ensures
            *r == self@.items[*item_index as int],
    ;

    /// The slot of the position `ord_index`.
    fn ref_sorted(&self, ord_index: &usize) -> (r: &Option<ItemType>)
        requires
            *ord_index < self@.order.len(),
            self@.order[*ord_index as int] < self@.items.len(),
        ensures
            *r == self@.sorted(*ord_index as int),
    ;

    /// The slot `item_index`, to be changed.
    fn item_at(&mut self, item_index: &usize) -> (r: &mut Option<ItemType>)
        requires
            *item_index < old(self)@.items.len(),
        ensures
            *r == old(self)@.items[*item_index as int],
            final(self)@ == old(self)@.with_items(
                old(self)@.items.update(*item_index as int, *final(r)),
            ),
    ;

    /// The slot whose number is the number of items, to be changed.
    fn item_last(&mut self) -> (r: &mut Option<ItemType>)
        requires
            old(self)@.count < old(self)@.items.len(),
        ensures
            *r == old(self)@.items[old(self)@.count as int],
            final(self)@ == old(self)@.with_items(
                old(self)@.items.update(old(self)@.count as int, *final(r)),
            ),
    ;

    /// The slot of the position `ord_index`, to be changed.
    fn item_sorted(&mut self, ord_index: &usize) -> (r: &mut Option<ItemType>)
        requires
            *ord_index < old(self)@.order.len(),
            old(self)@.order[*ord_index as int] < old(self)@.items.len(),
        ensures
            *r == old(self)@.sorted(*ord_index as int),
            final(self)@ == old(self)@.with_items(
                old(self)@.items.update(old(self)@.order[*ord_index as int] as int, *final(r)),
            ),
    ;

    /// The number of the slot of the position `ord_index`, to be changed.
    fn order_at(&mut self, ord_index: &usize) -> (r: &mut usize)
        requires
            *ord_index < old(self)@.order.len(),
        ensures
            *r == old(self)@.order[*ord_index as int],
            final(self)@ == old(self)@.with_order(
                old(self)@.order.update(*ord_index as int, *final(r)),
            ),
    ;
}

/// Hands the items of the pool, one position after the other, to
/// `handler`, which may change them. An empty slot is passed over.
///
/// There is one step for each position below the number of items. `states`
/// holds the slots before the first step and after each step: a step finds
/// the slot of its position as the step before left it.
#[verifier::loop_isolation(false)]
pub fn for_each<ItemType, Pool, Callback>(pool: &mut Pool, handler: Callback) where
    ItemType: Copy + PartialEq,
    Pool: StackPool<ItemType>,
    Callback: Fn(&mut ItemType),

    requires
        old(pool)@.wf(),
        old(pool)@.count <= old(pool)@.order.len(),
        forall|states: Seq<Seq<Option<ItemType>>>, r: &mut ItemType|
            #![trigger states.last(), call_requires(handler, (r,))]
            {
                &&& 0 < states.len() <= old(pool)@.count
                &&& states[0] == old(pool)@.items
                &&& forall|k: int|
                    #![trigger is_step(states, k)]
                    is_step(states, k) ==> match states[k][old(pool)@.order[k] as int] {
                        Some(item) => exists|q: &mut ItemType|
                            #![trigger call_ensures(handler, (q,), ())]
                            {
                                &&& *q == item
                                &&& states[k + 1] == states[k].update(
                                    old(pool)@.order[k] as int,
                                    Some(*final(q)),
                                )
                                &&& call_ensures(handler, (q,), ())
                            },
                        None => states[k + 1] == states[k],
                    }
                &&& states.last()[old(pool)@.order[states.len() - 1] as int] == Some(*r)
            } ==> call_requires(handler, (r,)),
    ensures
        final(pool)@.wf(),
        final(pool)@ == old(pool)@.with_items(final(pool)@.items),
        exists|states: Seq<Seq<Option<ItemType>>>|
            {
                &&& states.len() == old(pool)@.count + 1
                &&& states[0] == old(pool)@.items
                &&& #[trigger] states.last() == final(pool)@.items
                &&& forall|k: int|
                    #![trigger is_step(states, k)]
                    is_step(states, k) ==> match states[k][old(pool)@.order[k] as int] {
                        Some(item) => exists|q: &mut ItemType|
                            #![trigger call_ensures(handler, (q,), ())]
                            {
                                &&& *q == item
                                &&& states[k + 1] == states[k].update(
                                    old(pool)@.order[k] as int,
                                    Some(*final(q)),
                                )
                                &&& call_ensures(handler, (q,), ())
                            },
                        None => states[k + 1] == states[k],
                    }
            },
{
    let count = *pool.count();
    let mut i: usize = 0;
    let ghost mut states: Seq<Seq<Option<ItemType>>> = seq![pool@.items];
    while i < count
        invariant
            i <= count,
            pool@ == old(pool)@.with_items(pool@.items),
            pool@.items.len() == old(pool)@.items.len(),
            states.len() == i + 1,
            states[0] == old(pool)@.items,
            states.last() == pool@.items,
            forall|k: int|
                #![trigger is_step(states, k)]
                is_step(states, k) ==> match states[k][old(pool)@.order[k] as int] {
                    Some(item) => exists|q: &mut ItemType|
                        #![trigger call_ensures(handler, (q,), ())]
                        {
                            &&& *q == item
                            &&& states[k + 1] == states[k].update(
                                old(pool)@.order[k] as int,
                                Some(*final(q)),
                            )
                            &&& call_ensures(handler, (q,), ())
                        },
                    None => states[k + 1] == states[k],
                },
        decreases count - i,
    {
        let ghost earlier = states;
        match pool.item_sorted(&i) {
            Some(item) => {
                handler(item);
            },
            None => {},
        }
        proof {
            states = states.push(pool@.items);
            assert forall|k: int|
                #![trigger is_step(states, k)]
                is_step(states, k) implies match states[k][old(pool)@.order[k] as int] {
                    Some(item) => exists|q: &mut ItemType|
                        #![trigger call_ensures(handler, (q,), ())]
                        {
                            &&& *q == item
                            &&& states[k + 1] == states[k].update(
                                old(pool)@.order[k] as int,
                                Some(*final(q)),
                            )
                            &&& call_ensures(handler, (q,), ())
                        },
                    None => states[k + 1] == states[k],
                } by {
                if k < i {
                    assert(is_step(earlier, k));
                }
            }
        }
        i += 1;
    }
}

/// Finds the first position of the pool whose item `handler` accepts.
/// Returns `None` if `handler` accepts none. An empty slot is passed over.
#[verifier::loop_isolation(false)]
pub fn position<ItemType, Pool, Callback>(pool: &Pool, handler: Callback) -> (r: Option<usize>) where
    ItemType: Copy + PartialEq,
    Pool: StackPool<ItemType>,
    Callback: Fn(&ItemType) -> bool,

    requires
        pool@.wf(),
        pool@.count <= pool@.order.len(),
        forall|i: int|
            0 <= i < pool@.count && (#[trigger] pool@.sorted(i)) is Some ==> call_requires(
                handler,
                (&pool@.sorted(i).unwrap(),),
            ),
    ensures
        match r {
            Some(i) => {
                &&& i < pool@.count
                &&& pool@.sorted(i as int) is Some
                &&& call_ensures(handler, (&pool@.sorted(i as int).unwrap(),), true)
                &&& forall|j: int|
                    0 <= j < i && (#[trigger] pool@.sorted(j)) is Some ==> call_ensures(
                        handler,
                        (&pool@.sorted(j).unwrap(),),
                        false,
                    )
            },
            None => forall|j: int|
                0 <= j < pool@.count && (#[trigger] pool@.sorted(j)) is Some ==> call_ensures(
                    handler,
                    (&pool@.sorted(j).unwrap(),),
                    false,
                ),
        },
{
    let count = *pool.count();
    let mut i: usize = 0;
    while i < count
        invariant
            i <= count,
            forall|j: int|
                0 <= j < i && (#[trigger] pool@.sorted(j)) is Some ==> call_ensures(
                    handler,
                    (&pool@.sorted(j).unwrap(),),
                    false,
                ),
        decreases count - i,
    {
        if let Some(item) = pool.ref_sorted(&i) {
            if handler(item) {
                return Some(i);
            }
        }
        i += 1;
    }
    None
}

/// Finds the first position of the pool whose item `handler` does not
/// accept. Returns `None` if `handler` accepts all. An empty slot is passed
/// over.
#[verifier::loop_isolation(false)]
pub fn for_while<ItemType, Pool, Callback>(pool: &Pool, handler: Callback) -> (r: Option<usize>) where
    ItemType: Copy + PartialEq,
    Pool: StackPool<ItemType>,
    Callback: Fn(&ItemType) -> bool,

    requires
        pool@.wf(),
        pool@.count <= pool@.order.len(),
        forall|i: int|
            0 <= i < pool@.count && (#[trigger] pool@.sorted(i)) is Some ==> call_requires(
                handler,
                (&pool@.sorted(i).unwrap(),),
            ),
    ensures
        match r {
            Some(i) => {
                &&& i < pool@.count
                &&& pool@.sorted(i as int) is Some
                &&& call_ensures(handler, (&pool@.sorted(i as int).unwrap(),), false)
                &&& forall|j: int|
                    0 <= j < i && (#[trigger] pool@.sorted(j)) is Some ==> call_ensures(
                        handler,
                        (&pool@.sorted(j).unwrap(),),
                        true,
                    )
            },
            None => forall|j: int|
                0 <= j < pool@.count && (#[trigger] pool@.sorted(j)) is Some ==> call_ensures(
                    handler,
                    (&pool@.sorted(j).unwrap(),),
                    true,
                ),
        },
{
    let count = *pool.count();
    let mut i: usize = 0;
    while i < count
        invariant
            i <= count,
            forall|j: int|
                0 <= j < i && (#[trigger] pool@.sorted(j)) is Some ==> call_ensures(
                    handler,
                    (&pool@.sorted(j).unwrap(),),
                    true,
                ),
        decreases count - i,
    {
        if let Some(item) = pool.ref_sorted(&i) {
            if !handler(item) {
                return Some(i);
            }
        }
        i += 1;
    }
    None
}

/// Finds the first position of the pool whose item equals `item`, where
/// `==` decides. Returns `None` if there is none.
pub fn find<ItemType, Pool>(pool: &mut Pool, item: &ItemType) -> (r: Option<usize>) where
    ItemType: Copy + PartialEq,
    Pool: StackPool<ItemType>,

    requires
        old(pool)@.wf(),
        old(pool)@.count <= old(pool)@.order.len(),
    ensures
        final(pool)@ == old(pool)@,
        is_first_equal(old(pool)@, *item, r),
{
    let equals = |other: &ItemType| -> (r: bool)
        ensures
            call_ensures(ItemType::eq, (other, item), r),
        { *other == *item };
    position(pool, equals)
}

/// True if `found` is the first position of `pool` whose item equals
/// `item`, as far as a call of `==` can tell, or if `found` is `None` and no
/// item equals `item`.
pub open spec fn is_first_equal<ItemType: PartialEq>(
    pool: PoolView<ItemType>,
    item: ItemType,
    found: Option<usize>,
) -> bool {
    match found {
        Some(i) => {
            &&& i < pool.count
            &&& pool.sorted(i as int) is Some
            &&& call_ensures(ItemType::eq, (&pool.sorted(i as int).unwrap(), &item), true)
            &&& forall|j: int|
                0 <= j < i && (#[trigger] pool.sorted(j)) is Some ==> call_ensures(
                    ItemType::eq,
                    (&pool.sorted(j).unwrap(), &item),
                    false,
                )
        },
        None => forall|j: int|
            0 <= j < pool.count && (#[trigger] pool.sorted(j)) is Some ==> call_ensures(
                ItemType::eq,
                (&pool.sorted(j).unwrap(), &item),
                false,
            ),
    }
}

/// Removes the first item that equals `item`, as `remove_at` does, and
/// returns it. Returns `None` and changes nothing if there is none.
pub fn remove_equal<ItemType, Pool>(pool: &mut Pool, item: ItemType) -> (r: Option<ItemType>) where
    ItemType: Copy + PartialEq,
    Pool: StackPool<ItemType>,

    requires
        old(pool)@.wf(),
        old(pool)@.count <= old(pool)@.order.len(),
    ensures
        final(pool)@.wf(),
        exists|found: Option<usize>|
            {
                &&& #[trigger] is_first_equal(old(pool)@, item, found)
                &&& match found {
                    Some(i) => r == old(pool)@.sorted(i as int) && final(pool)@ == old(
                        pool,
                    )@.removed(i as int),
                    None => r is None && final(pool)@ == old(pool)@,
                }
            },
{
    match find(pool, &item) {
        Some(i) => remove_at(pool, i),
        None => None,
    }
}

/// Adds a new item to the pool.
pub fn push<ItemType, Pool>(pool: &mut Pool, item: ItemType) where
    ItemType: Copy + PartialEq,
    Pool: StackPool<ItemType>,

    requires
        old(pool)@.count < old(pool)@.items.len() <= usize::MAX,
    ensures
        final(pool)@ == old(pool)@.pushed(item),
{
    *pool.item_last() = Some(item);
    *pool.count_mut() += 1;
}

/// Empties the slot whose number is the number of items less one, and
/// returns what it held. Returns `None` and changes nothing if the pool has
/// no item.
pub fn pop<ItemType, Pool>(pool: &mut Pool) -> (r: Option<ItemType>) where
    ItemType: Copy + PartialEq,
    Pool: StackPool<ItemType>,

    requires
        old(pool)@.count <= old(pool)@.items.len(),
    ensures
        old(pool)@.count == 0 ==> r is None && final(pool)@ == old(pool)@,
        old(pool)@.count > 0 ==> r == old(pool)@.items[old(pool)@.count - 1] && final(pool)@
            == old(pool)@.popped(),
{
    if *pool.count() > 0 {
        *pool.count_mut() -= 1;
        let item = *pool.item_last();
        assert(pool@.items =~= old(pool)@.items);
        *pool.item_last() = None;
        item
    } else {
        None
    }
}

/// Returns the number of items in the pool.
pub fn count<ItemType, Pool>(pool: &Pool) -> (r: &usize) where
    ItemType: Copy + PartialEq,
    Pool: StackPool<ItemType>,

    ensures
        *r == pool@.count,
{
    pool.count()
}

/// Returns the slot of the position `position`, to be changed.
pub fn get_item<ItemType, Pool>(pool: &mut Pool, position: usize) -> (r: &mut Option<
    ItemType,
>) where ItemType: Copy + PartialEq, Pool: StackPool<ItemType>
    requires
        old(pool)@.wf(),
        position < old(pool)@.order.len(),
    ensures
        *r == old(pool)@.sorted(position as int),
        final(pool)@ == old(pool)@.with_items(
            old(pool)@.items.update(old(pool)@.order[position as int] as int, *final(r)),
        ),
{
    pool.item_sorted(&position)
}

/// Returns the slot of the position `position`.
pub fn get_ref<ItemType, Pool>(pool: &Pool, position: usize) -> (r: &Option<ItemType>) where
    ItemType: Copy + PartialEq,
    Pool: StackPool<ItemType>,

    requires
        pool@.wf(),
        position < pool@.order.len(),
    ensures
        *r == pool@.sorted(position as int),
{
    pool.ref_sorted(&position)
}

/// Lets two positions of the pool exchange their slots.
pub fn swap<ItemType, Pool>(pool: &mut Pool, first_position: &usize, second_position: &usize) where
    ItemType: Copy + PartialEq,
    Pool: StackPool<ItemType>,

    requires
        *first_position < old(pool)@.order.len(),
        *second_position < old(pool)@.order.len(),
    ensures
        final(pool)@ == old(pool)@.swapped(*first_position as int, *second_position as int),
{
    let first_order = *pool.order_at(first_position);
    let second_order = *pool.order_at(second_position);
    *pool.order_at(first_position) = second_order;
    *pool.order_at(second_position) = first_order;
    assert(pool@.order =~= old(pool)@.swapped(
        *first_position as int,
        *second_position as int,
    ).order);
}

/// Removes the item at the position `position` and returns it: its slot is
/// emptied, and the position exchanges its slot with the last position in
/// use. Returns `None` and changes nothing if the pool has no item.
pub fn remove_at<ItemType, Pool>(pool: &mut Pool, position: usize) -> (r: Option<ItemType>) where
    ItemType: Copy + PartialEq,
    Pool: StackPool<ItemType>,

    requires
        old(pool)@.wf(),
        old(pool)@.count <= old(pool)@.order.len(),
        position < old(pool)@.order.len(),
    ensures
        final(pool)@.wf(),
        old(pool)@.count == 0 ==> r is None && final(pool)@ == old(pool)@,
        old(pool)@.count > 0 ==> r == old(pool)@.sorted(position as int) && final(pool)@ == old(
            pool,
        )@.removed(position as int),
{
    if *pool.count() > 0 {
        let item = *pool.item_sorted(&position);
        assert(pool@.items =~= old(pool)@.items);
        *pool.item_sorted(&position) = None;
        let last = *pool.count() - 1;
        proof {
            pool@.lemma_swapped_wf(position as int, last as int);
        }
        swap(pool, &position, &last);
        *pool.count_mut() -= 1;
        item
    } else {
        None
    }
}

/// Removes the item at the first position and returns it, as `remove_at`
/// does.
pub fn shift<ItemType, Pool>(pool: &mut Pool) -> (r: Option<ItemType>) where
    ItemType: Copy + PartialEq,
    Pool: StackPool<ItemType>,

    requires
        old(pool)@.wf(),
        old(pool)@.count <= old(pool)@.order.len(),
    ensures
        final(pool)@.wf(),
        old(pool)@.count == 0 ==> r is None && final(pool)@ == old(pool)@,
        old(pool)@.count > 0 ==> r == old(pool)@.sorted(0) && final(pool)@ == old(pool)@.removed(0),
{
    match *pool.count() > 0 {
        true => remove_at(pool, 0),
        false => None,
    }
}

} // verus!
