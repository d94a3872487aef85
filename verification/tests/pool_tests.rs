use ddnet_core::mt_datatypes::{PoolCow, PoolString};
use ddnet_core::mt_pool;
use ddnet_core::pool::{Pool, PoolBuilder, Recyclable, Recycle};

#[derive(Debug, PartialEq)]
struct Item(u32);

impl Recyclable for Item {
    fn is_fresh(&self) -> bool {
        self.0 == 0
    }
    fn new() -> Self {
        Item(0)
    }
    fn reset(&mut self) {
        self.0 = 0;
    }
}

#[test]
fn pool_hands_out_last_recycled() {
    let mut pool: Pool<Item> = Pool::with_capacity(4);
    assert_eq!(pool.items_in_pool(), 0);
    assert_eq!(pool.get(), Item(0));
    pool.push(Item(1));
    pool.push(Item(2));
    assert_eq!(pool.items_in_pool(), 2);
    let r = pool.new();
    assert!(r.is_pooled());
    assert_eq!(r.into_inner(), Item(2));
    assert_eq!(pool.get(), Item(1));
    assert_eq!(pool.items_in_pool(), 0);
}

#[test]
fn pool_limit_drops_newest() {
    let mut pool: Pool<Item> = PoolBuilder::default().with_capacity(8).with_limit(2).build();
    pool.push(Item(1));
    pool.push(Item(2));
    pool.push(Item(3));
    assert_eq!(pool.items_in_pool(), 2);
    let mut more = vec![Item(4)];
    pool.append(&mut more);
    assert!(more.is_empty());
    assert_eq!(pool.get(), Item(2));
}

#[test]
fn pool_sized() {
    let pool: Pool<Item> = Pool::with_sized(3, || Item(7));
    assert_eq!(pool.items_in_pool(), 3);
    let pool: Pool<Item> = Pool::builder().with_limit(1).build_sized(2, || Item(1));
    assert_eq!(pool.items_in_pool(), 2);
}

#[test]
fn mt_pool_counter_follows_items() {
    let mut pool: mt_pool::Pool<Item> = mt_pool::Pool::builder().with_limit(2).build();
    assert!(pool.is_empty());
    pool.push(Item(5));
    pool.push(Item(6));
    pool.push(Item(7));
    assert_eq!(pool.items_in_pool(), 2);
    assert_eq!(pool.new().into_inner(), Item(6));
    assert_eq!(pool.items_in_pool(), 1);
    let taken = pool.take();
    assert_eq!(taken, vec![Item(5)]);
    assert!(pool.is_empty());
    assert_eq!(pool.get(), Item(0));
    let sized: mt_pool::Pool<Item> = mt_pool::Pool::with_sized(3, || Item(1));
    assert_eq!(sized.items_in_pool(), 3);
    let _c: mt_pool::Pool<Item> = mt_pool::Pool::with_capacity(3);
    let _b: mt_pool::Pool<Item> = mt_pool::PoolBuilder::default().with_capacity(2).build_sized(1, || Item(2));
}

#[test]
fn pooled_data_without_pool() {
    let s = PoolString::new_str_without_pool("hello");
    assert!(!s.is_pooled());
    assert_eq!(s.item(), "hello");
    let data = [1u8, 2, 3];
    let c = PoolCow::new_cow_without_pool(&data[..]);
    assert!(!c.is_pooled());
    assert!(matches!(c.item(), std::borrow::Cow::Borrowed(b) if *b == [1, 2, 3]));
}

#[test]
fn recycled_objects_are_reset_and_kept() {
    let mut pool: Pool<Item> = Pool::with_capacity(2);
    let mut r = pool.new();
    assert_eq!(r.item(), &Item(0));
    r.item_mut().0 = 7;
    assert_eq!(r.item(), &Item(7));
    pool.recycle(r);
    assert_eq!(pool.items_in_pool(), 1);
    assert_eq!(pool.get(), Item(0));
    pool.recycle(Recycle::without_pool(Item(3)));
    assert_eq!(pool.items_in_pool(), 0);
}
