//! Single threaded object pools: recycled objects are kept in a list and
//! handed out again (last in, first out) instead of being created anew.

use vstd::prelude::*;

use std::marker::PhantomData;

verus! {

/// Objects that can be kept in a pool: they can be created empty and be
/// reset to that state before they are handed out again.
pub trait Recyclable: Sized {
    /// Whether the object is as a pool hands out a new one; each kind of
    /// object says what that means for it.
    spec fn is_fresh(&self) -> bool;

    fn new() -> (r: Self)
        ensures
            r.is_fresh(),
    ;

    fn reset(&mut self)
        ensures
            final(self).is_fresh(),
    ;
}

/// An object handed out by a pool, or one that belongs to no pool.
pub struct Recycle<T> {
    pooled: bool,
    item: T,
}

impl<T> Recycle<T> {
    /// The held object.
    pub closed spec fn spec_item(&self) -> T {
        self.item
    }

    /// Whether the object came from a pool (and goes back to one).
    pub closed spec fn spec_pooled(&self) -> bool {
        self.pooled
    }

    /// An object that belongs to no pool.
    pub fn without_pool(item: T) -> (r: Self)
        ensures
            r.spec_item() == item,
            !r.spec_pooled(),
    {
        Recycle { pooled: false, item }
    }

    /// An object handed out by a pool.
    pub(crate) fn from_pool(item: T) -> (r: Self)
        ensures
            r.spec_item() == item,
            r.spec_pooled(),
    {
        Recycle { pooled: true, item }
    }

    pub fn item(&self) -> (r: &T)
        ensures
            *r == self.spec_item(),
    {
        &self.item
    }

    /// The held object, to change it.
    pub fn item_mut(&mut self) -> (r: &mut T)
        ensures
            *r == old(self).spec_item(),
            final(self).spec_item() == *final(r),
            final(self).spec_pooled() == old(self).spec_pooled(),
    {
        &mut self.item
    }

    pub fn is_pooled(&self) -> (r: bool)
        ensures
            r == self.spec_pooled(),
    {
        self.pooled
    }

    pub fn into_inner(self) -> (r: T)
        ensures
            r == self.spec_item(),
    {
        self.item
    }
}

/// Allows for a controlled allocation of the pool
pub struct PoolBuilder<T: Recyclable> {
    capacity: Option<usize>,
    max_items: Option<usize>,
    p: PhantomData<T>,
}

impl<T: Recyclable> PoolBuilder<T> {
    /// The capacity asked for, if any.
    pub closed spec fn spec_capacity(&self) -> Option<usize> {
        self.capacity
    }

    /// The most items the built pool keeps, if limited.
    pub closed spec fn spec_max_items(&self) -> Option<usize> {
        self.max_items
    }

    #[verifier::type_invariant]
    closed spec fn limit_positive(self) -> bool {
        self.max_items matches Some(m) ==> m > 0
    }

    pub fn build(self) -> (r: Pool<T>)
        ensures
            r.spec_items() == Seq::<T>::empty(),
            r.spec_max_items() == self.spec_max_items(),
    {
        proof {
            use_type_invariant(&self);
        }
        let pool = match self.capacity {
            Some(capacity) => Vec::with_capacity(capacity),
            None => Vec::new(),
        };
        Pool { items: pool, max_items: self.max_items }
    }

    /// Builds a pool that already holds `new_size` items made by
    /// `item_constructor`.
    pub fn build_sized<F: Fn() -> T>(self, new_size: usize, item_constructor: F) -> (r: Pool<T>)
        requires
            call_requires(item_constructor, ()),
        ensures
            r.spec_items().len() == new_size,
            forall|i: int|
                0 <= i < new_size ==> call_ensures(item_constructor, (), #[trigger] r.spec_items()[i]),
            r.spec_max_items() == self.spec_max_items(),
    {
        proof {
            use_type_invariant(&self);
        }
        let mut pool = match self.capacity {
            Some(capacity) => Vec::with_capacity(if capacity > new_size {
                capacity
            } else {
                new_size
            }),
            None => Vec::with_capacity(new_size),
        };
        fill_with(&mut pool, new_size, &item_constructor);
        Pool { items: pool, max_items: self.max_items }
    }

    /// If capacity is 0, the pool will not allocate memory for any elements, but will still create heap memory.
    pub fn with_capacity(self, capacity: usize) -> (r: Self)
        ensures
            r.spec_capacity() == Some(capacity),
            r.spec_max_items() == self.spec_max_items(),
    {
        proof {
            use_type_invariant(&self);
        }
        Self { capacity: Some(capacity), ..self }
    }

    /// If the limit is reached, then recycled items will not be pushed into the pool again.
    pub fn with_limit(self, max_items: usize) -> (r: Self)
        requires
            max_items > 0,
        ensures
            r.spec_max_items() == Some(max_items),
            r.spec_capacity() == self.spec_capacity(),
    {
        Self { max_items: Some(max_items), ..self }
    }
}

impl<T: Recyclable> Default for PoolBuilder<T> {
    fn default() -> (r: Self)
        ensures
            r.spec_capacity() is None,
            r.spec_max_items() is None,
    {
        PoolBuilder { capacity: None, max_items: None, p: PhantomData }
    }
}

/// Fills an empty vector with `n` items made by `f`.
pub(crate) fn fill_with<T, F: Fn() -> T>(v: &mut Vec<T>, n: usize, f: &F)
    requires
        old(v)@.len() == 0,
        call_requires(*f, ()),
    ensures
        final(v)@.len() == n,
        forall|i: int| 0 <= i < n ==> call_ensures(*f, (), #[trigger] final(v)@[i]),
{
    let mut i: usize = 0;
    while i < n
        invariant
            i <= n,
            v@.len() == i,
            call_requires(*f, ()),
            forall|j: int| 0 <= j < i ==> call_ensures(*f, (), #[trigger] v@[j]),
        decreases n - i,
    {
        let item = f();
        v.push(item);
        i = i + 1;
    }
}

/// The items a limited pool keeps after `items` were put into it.
pub open spec fn limited<T>(items: Seq<T>, max_items: Option<usize>) -> Seq<T> {
    match max_items {
        Some(m) => if items.len() <= m {
            items
        } else {
            items.take(m as int)
        },
        None => items,
    }
}

/// We want a pool with elements where T is trivially creatable,
/// so that we can store the whole object and pool as object
/// with automatic cleanup, no lifetimes etc.
///
/// The pool keeps recycled items in a list; [`Pool::new`] hands out the
/// last one, or a new item when the list is empty.
pub struct Pool<T: Recyclable> {
    items: Vec<T>,
    max_items: Option<usize>,
}

impl<T: Recyclable> Pool<T> {
    /// The items kept in the pool, the last one is handed out first.
    pub closed spec fn spec_items(&self) -> Seq<T> {
        self.items@
    }

    /// The most items the pool keeps, if limited.
    pub closed spec fn spec_max_items(&self) -> Option<usize> {
        self.max_items
    }

    pub fn builder() -> (r: PoolBuilder<T>)
        ensures
            r.spec_capacity() is None,
            r.spec_max_items() is None,
    {
        PoolBuilder::default()
    }

    pub fn with_capacity(capacity: usize) -> (r: Self)
        ensures
            r.spec_items() == Seq::<T>::empty(),
            r.spec_max_items() is None,
    {
        Pool { items: Vec::with_capacity(capacity), max_items: None }
    }

    pub fn with_sized<F: Fn() -> T>(new_size: usize, item_constructor: F) -> (r: Self)
        requires
            call_requires(item_constructor, ()),
        ensures
            r.spec_items().len() == new_size,
            forall|i: int|
                0 <= i < new_size ==> call_ensures(item_constructor, (), #[trigger] r.spec_items()[i]),
            r.spec_max_items() is None,
    {
        let mut pool = Vec::with_capacity(new_size);
        fill_with(&mut pool, new_size, &item_constructor);
        Pool { items: pool, max_items: None }
    }

    /// Hands out the last kept item, or a new one when the pool is empty.
    pub fn new(&mut self) -> (r: Recycle<T>)
        ensures
            r.spec_pooled(),
            old(self).spec_items().len() > 0 ==> r.spec_item() == old(self).spec_items().last()
                && final(self).spec_items() == old(self).spec_items().drop_last(),
            old(self).spec_items().len() == 0 ==> final(self).spec_items() == Seq::<T>::empty()
                && r.spec_item().is_fresh(),
            final(self).spec_max_items() == old(self).spec_max_items(),
    {
        match self.items.pop() {
            Some(item) => Recycle { pooled: true, item },
            None => Recycle { pooled: true, item: T::new() },
        }
    }

    /// Takes an item out of the pool, or makes a new one.
    pub fn get(&mut self) -> (r: T)
        ensures
            old(self).spec_items().len() > 0 ==> r == old(self).spec_items().last()
                && final(self).spec_items() == old(self).spec_items().drop_last(),
            old(self).spec_items().len() == 0 ==> final(self).spec_items() == Seq::<T>::empty()
                && r.is_fresh(),
            final(self).spec_max_items() == old(self).spec_max_items(),
    {
        match self.items.pop() {
            Some(item) => item,
            None => T::new(),
        }
    }

    /// Puts an item back; beyond the limit the newest items are dropped.
    pub fn push(&mut self, item: T)
        ensures
            final(self).spec_items() == limited(old(self).spec_items().push(item), old(self).spec_max_items()),
            final(self).spec_max_items() == old(self).spec_max_items(),
    {
        self.items.push(item);
        if let Some(max_items) = self.max_items {
            self.items.truncate(max_items);
        }
    }

    /// Puts all items of `other` back, emptying it.
    pub fn append(&mut self, other: &mut Vec<T>)
        ensures
            final(self).spec_items() == limited(old(self).spec_items() + old(other)@, old(self).spec_max_items()),
            final(self).spec_max_items() == old(self).spec_max_items(),
            final(other)@ == Seq::<T>::empty(),
    {
        self.items.append(other);
        if let Some(max_items) = self.max_items {
            self.items.truncate(max_items);
        }
    }

    pub fn items_in_pool(&self) -> (r: usize)
        ensures
            r == self.spec_items().len(),
    {
        self.items.len()
    }

    /// Gives an object back when it is no longer used: an object that came
    /// from a pool is reset and put back into this pool (beyond the limit
    /// it is dropped); one that belongs to no pool is dropped.
    pub fn recycle(&mut self, object: Recycle<T>)
        ensures
            final(self).spec_max_items() == old(self).spec_max_items(),
            !object.spec_pooled() ==> final(self).spec_items() == old(self).spec_items(),
            object.spec_pooled() ==> exists|x: T|
                #[trigger] x.is_fresh() && final(self).spec_items() == limited(
                    old(self).spec_items().push(x),
                    old(self).spec_max_items(),
                ),
    {
        if object.is_pooled() {
            let mut item = object.into_inner();
            item.reset();
            let ghost x = item;
            self.push(item);
            assert(x.is_fresh());
        }
    }
}

/// A pool never keeps more items than its limit once something was put
/// back into it: after `push`, the kept items are at most the limit.
pub proof fn lemma_limited_bound<T>(items: Seq<T>, max_items: usize)
    ensures
        limited(items, Some(max_items)).len() <= max_items,
        items.len() <= max_items ==> limited(items, Some(max_items)) == items,
{
}

/// What is put into a pool with room for it is the next thing handed out:
/// `push(x)` followed by `new()` gives `x` back and leaves the pool as it was.
pub proof fn lemma_push_then_take<T>(items: Seq<T>, max_items: Option<usize>, x: T)
    requires
        max_items matches Some(m) ==> items.len() < m,
    ensures
        limited(items.push(x), max_items).len() > 0,
        limited(items.push(x), max_items).last() == x,
        limited(items.push(x), max_items).drop_last() == items,
{
    assert(items.push(x).drop_last() =~= items);
}

} // verus!
