use impenetrable::pool::Pool;

#[test]
fn pool_new_fills_every_slot_with_the_model() {
    let mut pool: Pool<u32> = Pool::new(3, 7);
    assert_eq!(pool.try_borrow(), Some(7));
    assert_eq!(pool.try_borrow(), Some(7));
    assert_eq!(pool.try_borrow(), Some(7));
    assert_eq!(pool.try_borrow(), None);
}

#[test]
fn pool_never_hands_out_more_than_its_capacity() {
    // With capacity N at most N items can be simultaneously checked out;
    // an exhausted pool reports absence rather than failing.
    let mut pool: Pool<u32> = Pool::init(2, |i| i as u32 * 10);
    let first = pool.try_borrow().unwrap();
    let second = pool.try_borrow().unwrap();
    assert_eq!(pool.try_borrow(), None);
    assert_eq!(pool.try_borrow(), None);

    // A release makes exactly one item available again.
    pool.release(first);
    assert!(pool.try_borrow().is_some());
    assert_eq!(pool.try_borrow(), None);
    pool.release(second);
    assert!(pool.try_borrow().is_some());
}

#[test]
fn pool_init_builds_each_slot_from_its_index() {
    let mut pool: Pool<u32> = Pool::init(3, |i| i as u32 + 100);
    let mut taken = Vec::new();
    while let Some(item) = pool.try_borrow() {
        taken.push(item);
    }
    taken.sort();
    assert_eq!(taken, vec![100, 101, 102]);
}

#[test]
fn pool_release_returns_the_item_itself() {
    let mut pool: Pool<String> = Pool::new(1, "conn".to_string());
    let item = pool.try_borrow().unwrap();
    assert_eq!(item, "conn");
    assert_eq!(pool.try_borrow(), None);
    pool.release(item);
    assert_eq!(pool.try_borrow(), Some("conn".to_string()));
}
