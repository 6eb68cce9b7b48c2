use keyring::cache::CacheCell;
use std::cell::Cell;

const SECOND: u64 = 1_000_000_000;

#[test]
fn fresh_value_is_reused_without_rerunning_the_initializer() {
    let calls = Cell::new(0);
    let mut cache: CacheCell<String> = CacheCell::new();
    let first = cache
        .get_or_try_init(0, 60 * SECOND, || {
            calls.set(calls.get() + 1);
            Ok::<_, ()>("value".to_owned())
        })
        .unwrap()
        .clone();
    let second = cache
        .get_or_try_init(10 * SECOND, 60 * SECOND, || {
            calls.set(calls.get() + 1);
            Ok::<_, ()>("fresh-value".to_owned())
        })
        .unwrap()
        .clone();
    assert_eq!(first, "value");
    assert_eq!(second, "value");
    assert_eq!(calls.get(), 1);
}

#[test]
fn expired_value_is_refreshed_and_failures_keep_the_old_entry() {
    let mut cache: CacheCell<u32> = CacheCell::new();
    assert_eq!(*cache.get_or_try_init(0, 5, || Ok::<_, &str>(1)).unwrap(), 1);
    assert_eq!(cache.fresh(4, 5), Some(&1));
    assert_eq!(cache.fresh(5, 5), None);
    assert_eq!(cache.get_or_try_init(9, 5, || Err::<u32, _>("offline")).unwrap_err(), "offline");
    assert_eq!(cache.entry, Some((1, 0)));
    assert_eq!(*cache.get_or_try_init(9, 5, || Ok::<_, &str>(2)).unwrap(), 2);
    assert_eq!(cache.entry, Some((2, 9)));
    // A clock that reads earlier than the stamp counts as no time elapsed.
    assert_eq!(cache.fresh(3, 1), Some(&2));
}
