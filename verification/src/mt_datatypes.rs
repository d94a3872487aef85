//! Pooled data types that can also be made without a pool.

use vstd::prelude::*;

use std::borrow::Cow;

use crate::pool::Recycle;

verus! {

/// A pooled string.
pub type PoolString = Recycle<String>;

/// A pooled copy-on-write value.
pub type PoolCow<'a, T> = Recycle<Cow<'a, T>>;

impl PoolString {
    /// A copy of `string` that belongs to no pool.
    pub fn new_str_without_pool(string: &str) -> (r: Self)
        ensures
            r.spec_item()@ == string@,
            !r.spec_pooled(),
    {
        Recycle::without_pool(string.to_owned())
    }
}

impl<'a, T: Clone> PoolCow<'a, [T]> {
    /// Borrows `v` without copying it; the value belongs to no pool.
    pub fn new_cow_without_pool(v: &'a [T]) -> (r: Self)
        ensures
            r.spec_item() == Cow::<'a, [T]>::Borrowed(v),
            !r.spec_pooled(),
    {
        Recycle::without_pool(Cow::Borrowed(v))
    }
}

} // verus!
