//! The pool shared between threads: besides the kept items it keeps a
//! counter of them that can be read without taking the lock. The lock
//! itself is the caller's; this is the state it guards.

use vstd::prelude::*;

use std::marker::PhantomData;

use crate::pool::{Recyclable, Recycle, fill_with, limited};

verus! {

/// Allows for a controlled allocation of the pool
pub struct PoolBuilder<T: Recyclable + Send> {
    capacity: Option<usize>,
    max_items: Option<usize>,
    p: PhantomData<T>,
}

impl<T: Recyclable + Send> PoolBuilder<T> {
    /// The capacity asked for, if any.
    pub closed spec fn spec_capacity(&self) -> Option<usize> {
        self.capacity
    }

    /// The most items the built pool keeps, if limited.
    pub closed spec fn spec_max_items(&self) -> Option<usize> {
        self.max_items
    }

    #[verifier::type_invariant]
    closed spec fn limit_positive(self) -> bool {
        self.max_items matches Some(m) ==> m > 0
    }

    pub fn build(self) -> (r: Pool<T>)
        ensures
            r.spec_items() == Seq::<T>::empty(),
            r.spec_max_items() == self.spec_max_items(),
    {
        let pool = match self.capacity {
            Some(capacity) => Vec::with_capacity(capacity),
            None => Vec::new(),
        };
        Pool { items: pool, lock_free_counter: 0, max_items: self.max_items }
    }

    /// Builds a pool that already holds `new_size` items made by
    /// `item_constructor`.
    pub fn build_sized<F: Fn() -> T>(self, new_size: usize, item_constructor: F) -> (r: Pool<T>)
        requires
            call_requires(item_constructor, ()),
        ensures
            r.spec_items().len() == new_size,
            forall|i: int|
                0 <= i < new_size ==> call_ensures(item_constructor, (), #[trigger] r.spec_items()[i]),
            r.spec_max_items() == self.spec_max_items(),
    {
        let mut pool = match self.capacity {
            Some(capacity) => Vec::with_capacity(if capacity > new_size {
                capacity
            } else {
                new_size
            }),
            None => Vec::with_capacity(new_size),
        };
        fill_with(&mut pool, new_size, &item_constructor);
        Pool { items: pool, lock_free_counter: new_size, max_items: self.max_items }
    }

    /// If capacity is 0, the pool will not allocate memory for any elements, but will still create heap memory.
    pub fn with_capacity(self, capacity: usize) -> (r: Self)
        ensures
            r.spec_capacity() == Some(capacity),
            r.spec_max_items() == self.spec_max_items(),
    {
        proof {
            use_type_invariant(&self);
        }
        Self { capacity: Some(capacity), ..self }
    }

    /// If the limit is reached, then recycled items will not be pushed into the pool again.
    pub fn with_limit(self, max_items: usize) -> (r: Self)
        requires
            max_items > 0,
        ensures
            r.spec_max_items() == Some(max_items),
            r.spec_capacity() == self.spec_capacity(),
    {
        Self { max_items: Some(max_items), ..self }
    }
}

impl<T: Recyclable + Send> Default for PoolBuilder<T> {
    fn default() -> (r: Self)
        ensures
            r.spec_capacity() is None,
            r.spec_max_items() is None,
    {
        PoolBuilder { capacity: None, max_items: None, p: PhantomData }
    }
}

/// Thread-safe version of the pool (the state behind its lock).
pub struct Pool<T: Recyclable + Send> {
    items: Vec<T>,
    lock_free_counter: usize,
    max_items: Option<usize>,
}

impl<T: Recyclable + Send> Pool<T> {
    /// The items kept in the pool, the last one is handed out first.
    pub closed spec fn spec_items(&self) -> Seq<T> {
        self.items@
    }

    /// The most items the pool keeps, if limited.
    pub closed spec fn spec_max_items(&self) -> Option<usize> {
        self.max_items
    }

    /// The counter that is read without the lock.
    pub closed spec fn spec_counter(&self) -> usize {
        self.lock_free_counter
    }

    /// The counter always equals the number of kept items.
    pub closed spec fn wf(&self) -> bool {
        self.lock_free_counter == self.items@.len()
    }

    pub fn builder() -> (r: PoolBuilder<T>)
        ensures
            r.spec_capacity() is None,
            r.spec_max_items() is None,
    {
        PoolBuilder::default()
    }

    /// If capacity is 0, the pool will not allocate memory for any elements, but will still create heap memory.
    pub fn with_capacity(capacity: usize) -> (r: Self)
        ensures
            r.wf(),
            r.spec_items() == Seq::<T>::empty(),
            r.spec_max_items() is None,
    {
        Pool { items: Vec::with_capacity(capacity), lock_free_counter: 0, max_items: None }
    }

    pub fn with_sized<F: Fn() -> T>(new_size: usize, item_constructor: F) -> (r: Self)
        requires
            call_requires(item_constructor, ()),
        ensures
            r.wf(),
            r.spec_items().len() == new_size,
            forall|i: int|
                0 <= i < new_size ==> call_ensures(item_constructor, (), #[trigger] r.spec_items()[i]),
            r.spec_max_items() is None,
    {
        let mut pool = Vec::with_capacity(new_size);
        fill_with(&mut pool, new_size, &item_constructor);
        Pool { items: pool, lock_free_counter: new_size, max_items: None }
    }

    /// Takes all kept items out.
    pub fn take(&mut self) -> (r: Vec<T>)
        ensures
            r@ == old(self).spec_items(),
            final(self).spec_items() == Seq::<T>::empty(),
            final(self).spec_counter() == 0,
            final(self).wf(),
            final(self).spec_max_items() == old(self).spec_max_items(),
    {
        let mut res = Vec::new();
        std::mem::swap(&mut res, &mut self.items);
        self.lock_free_counter = 0;
        res
    }

    /// Puts an item back; beyond the limit the newest items are dropped.
    pub fn push(&mut self, item: T)
        ensures
            final(self).spec_items() == limited(old(self).spec_items().push(item), old(self).spec_max_items()),
            final(self).spec_counter() == final(self).spec_items().len(),
            final(self).wf(),
            final(self).spec_max_items() == old(self).spec_max_items(),
    {
        self.items.push(item);
        if let Some(max_items) = self.max_items {
            self.items.truncate(max_items);
        }
        self.lock_free_counter = self.items.len();
    }

    /// Gives an object back when it is no longer used: an object that came
    /// from a pool is reset and put back into this pool (beyond the limit
    /// it is dropped); one that belongs to no pool is dropped.
    pub fn recycle(&mut self, object: Recycle<T>)
        requires
            old(self).wf(),
        ensures
            final(self).spec_max_items() == old(self).spec_max_items(),
            final(self).spec_counter() == final(self).spec_items().len(),
            final(self).wf(),
            !object.spec_pooled() ==> final(self).spec_items() == old(self).spec_items(),
            object.spec_pooled() ==> exists|x: T|
                #[trigger] x.is_fresh() && final(self).spec_items() == limited(
                    old(self).spec_items().push(x),
                    old(self).spec_max_items(),
                ),
    {
        if object.is_pooled() {
            let mut item = object.into_inner();
            item.reset();
            let ghost x = item;
            self.push(item);
            assert(x.is_fresh());
        }
    }

    /// Takes the last kept item out, or makes a new one.
    pub fn get(&mut self) -> (r: T)
        requires
            old(self).wf(),
        ensures
            final(self).wf(),
            old(self).spec_items().len() > 0 ==> r == old(self).spec_items().last()
                && final(self).spec_items() == old(self).spec_items().drop_last(),
            old(self).spec_items().len() == 0 ==> final(self).spec_items() == Seq::<T>::empty()
                && r.is_fresh(),
            final(self).spec_max_items() == old(self).spec_max_items(),
    {
        match self.items.pop() {
            Some(item) => {
                self.lock_free_counter = self.lock_free_counter - 1;
                item
            },
            None => T::new(),
        }
    }

    /// Hands out the last kept item, or a new one when the pool is empty.
    pub fn new(&mut self) -> (r: Recycle<T>)
        requires
            old(self).wf(),
        ensures
            final(self).wf(),
            r.spec_pooled(),
            old(self).spec_items().len() > 0 ==> r.spec_item() == old(self).spec_items().last()
                && final(self).spec_items() == old(self).spec_items().drop_last(),
            old(self).spec_items().len() == 0 ==> final(self).spec_items() == Seq::<T>::empty()
                && r.spec_item().is_fresh(),
            final(self).spec_max_items() == old(self).spec_max_items(),
    {
        let item = self.get();
        Recycle::from_pool(item)
    }

    /// Whether the counter says the pool is empty.
    pub fn is_empty(&self) -> (r: bool)
        ensures
            r == (self.spec_counter() == 0),
            self.wf() ==> r == (self.spec_items().len() == 0),
    {
        self.lock_free_counter == 0
    }

    pub fn items_in_pool(&self) -> (r: usize)
        ensures
            r == self.spec_counter(),
            self.wf() ==> r == self.spec_items().len(),
    {
        self.lock_free_counter
    }
}

} // verus!
