use poe::Error;
use poe::guard::ensure_absent;
use poe::guard::ensure_distinct;
use poe::guard::ensure_owner;
use poe::guard::ensure_present;
use poe::store::Students;

#[test]
fn store_insert_get_remove() {
    let mut store = Students::new();
    let key_a = [5u8; 32];
    let key_b = [6u8; 32];
    assert!(!store.contains(&key_a));
    assert_eq!(store.get(&key_a), None);
    store.insert(key_a, (1, 10));
    assert!(store.contains(&key_a));
    assert_eq!(store.get(&key_a), Some((1, 10)));
    assert!(!store.contains(&key_b));
    store.insert(key_b, (2, 20));
    assert_eq!(store.get(&key_a), Some((1, 10)));
    assert_eq!(store.get(&key_b), Some((2, 20)));
    store.remove(&key_a);
    assert_eq!(store.get(&key_a), None);
    assert_eq!(store.get(&key_b), Some((2, 20)));
    store.remove(&key_a);
    assert_eq!(store.get(&key_b), Some((2, 20)));
}

#[test]
fn guards_pass_and_fail_exactly() {
    let mut store = Students::new();
    let key = [5u8; 32];
    assert_eq!(ensure_absent(&store, &key), Ok(()));
    assert_eq!(ensure_present(&store, &key), Err(Error::StudentNotExist));
    store.insert(key, (1, 10));
    assert_eq!(ensure_absent(&store, &key), Err(Error::StudentExist));
    assert_eq!(ensure_present(&store, &key), Ok((1, 10)));
    assert_eq!(ensure_owner((1, 10), 1), Ok(()));
    assert_eq!(ensure_owner((1, 10), 2), Err(Error::NotStudentOwner));
    assert_eq!(ensure_distinct(1, 2), Ok(()));
    assert_eq!(ensure_distinct(1, 1), Err(Error::TransferToSelf));
}
