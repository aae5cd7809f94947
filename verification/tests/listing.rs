//! The published list and the store model beneath it.

use paprika::{
    get_obj, get_str, put_obj, put_str, KvStore, PostsList, StoreKey, StoreVal,
};

#[test]
fn add_post_is_idempotent() {
    let mut store = KvStore::new();
    let list = PostsList::load(&store);
    assert!(list.add_post(&mut store, "u-1").is_ok());
    let list = PostsList::load(&store);
    assert_eq!(list.0, vec!["u-1".to_string()]);
    assert!(list.add_post(&mut store, "u-1").is_ok());
    let list = PostsList::load(&store);
    assert_eq!(list.0, vec!["u-1".to_string()]);
}

#[test]
fn add_post_inserts_at_the_front() {
    let mut store = KvStore::new();
    assert!(PostsList::load(&store).add_post(&mut store, "older").is_ok());
    assert!(PostsList::load(&store).add_post(&mut store, "newer").is_ok());
    assert_eq!(PostsList::load(&store).0, vec!["newer".to_string(), "older".to_string()]);
}

#[test]
fn remove_absent_post_is_a_noop() {
    let mut store = KvStore::new();
    assert!(PostsList::load(&store).add_post(&mut store, "kept").is_ok());
    let r = PostsList::load(&store).remove_post(&mut store, "never-there");
    assert!(r.is_ok());
    assert_eq!(PostsList::load(&store).0, vec!["kept".to_string()]);
}

#[test]
fn remove_post_strikes_every_occurrence() {
    let mut store = KvStore::new();
    let hand_edited = StoreVal::List(vec![
        "a".to_string(),
        "b".to_string(),
        "a".to_string(),
        "c".to_string(),
    ]);
    assert!(put_obj(&mut store, StoreKey::PublishedList, hand_edited).is_ok());
    assert!(PostsList::load(&store).remove_post(&mut store, "a").is_ok());
    assert_eq!(PostsList::load(&store).0, vec!["b".to_string(), "c".to_string()]);
}

#[test]
fn has_post_reports_membership() {
    let list = PostsList(vec!["x".to_string(), "y".to_string()]);
    assert!(list.has_post("x"));
    assert!(list.has_post("y"));
    assert!(!list.has_post("z"));
}

#[test]
fn corrupt_list_record_loads_as_empty() {
    let mut store = KvStore::new();
    assert!(put_str(&mut store, StoreKey::PublishedList, "oops".to_string()).is_ok());
    assert_eq!(PostsList::load(&store).0, Vec::<String>::new());
}

#[test]
fn store_put_get_delete_roundtrip() {
    let mut store = KvStore::new();
    let key = StoreKey::UrlMapping("a/b".to_string());
    assert_eq!(get_str(&store, &key).unwrap(), "");
    assert!(put_str(&mut store, key, "u-9".to_string()).is_ok());
    let key = StoreKey::UrlMapping("a/b".to_string());
    assert_eq!(get_str(&store, &key).unwrap(), "u-9");
    store.delete(&key);
    assert_eq!(get_str(&store, &key).unwrap(), "");
}

#[test]
fn get_obj_on_an_absent_key_is_a_fault() {
    let store = KvStore::new();
    let r = get_obj(&store, &StoreKey::PostByUuid("nope".to_string()));
    assert!(matches!(r, Err(paprika::Error::InternalError)));
}

#[test]
fn keys_do_not_collide_across_kinds() {
    let mut store = KvStore::new();
    assert!(put_str(&mut store, StoreKey::UrlMapping("k".to_string()), "m".to_string()).is_ok());
    assert!(put_str(&mut store, StoreKey::CacheWhitelist("k".to_string()), "Y".to_string())
        .is_ok());
    assert_eq!(get_str(&store, &StoreKey::UrlMapping("k".to_string())).unwrap(), "m");
    assert_eq!(get_str(&store, &StoreKey::CacheWhitelist("k".to_string())).unwrap(), "Y");
}
