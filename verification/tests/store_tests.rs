use pakv::pakv1;
use pakv::pakv2;
use pakv::serial::{KvOpe, KvOpeE};

#[test]
fn test_get_none() {
    let mut kvs = pakv1::KVStore::create();
    assert_eq!(kvs.get(("1").to_owned()), None);
    assert_eq!(kvs.get("2".to_owned()), None);
}

#[test]
fn test_add_get() {
    let mut kvs = pakv1::KVStore::create();
    kvs.set("1".to_owned(), "111".to_owned());
    kvs.set("2".to_owned(), "222".to_owned());
    assert_eq!(kvs.get("1".to_owned()).unwrap(), &"111".to_owned());
    assert_eq!(kvs.get("2".to_owned()).unwrap(), &"222".to_owned());
}

#[test]
fn test_del() {
    let mut kvs = pakv1::KVStore::create();
    kvs.set("1".to_owned(), "111".to_owned());
    kvs.set("2".to_owned(), "222".to_owned());
    kvs.del("1".to_owned());
    kvs.del("2".to_owned());
    assert_eq!(kvs.get("1".to_owned()), None);
    assert_eq!(kvs.get("2".to_owned()), None);
}

#[test]
fn pakv_test_get_none() {
    let kvs = pakv2::KVStore::create();
    assert_eq!(kvs.get(("1").to_owned()), None);
    assert_eq!(kvs.get("2".to_owned()), None);
}

#[test]
fn pakv_test_add_get() {
    let mut kvs = pakv2::KVStore::create();
    kvs.set("1".to_owned(), "111".to_owned());
    kvs.set("2".to_owned(), "222".to_owned());
    assert_eq!(kvs.get("1".to_owned()).unwrap(), &"111".to_owned());
    assert_eq!(kvs.get("2".to_owned()).unwrap(), &"222".to_owned());
}

#[test]
fn pakv_test_del() {
    let mut kvs = pakv2::KVStore::create();
    kvs.set("1".to_owned(), "111".to_owned());
    kvs.set("2".to_owned(), "222".to_owned());
    kvs.del("1".to_owned());
    kvs.del("2".to_owned());
    assert_eq!(kvs.get("1".to_owned()), None);
    assert_eq!(kvs.get("2".to_owned()), None);
}

#[test]
fn set_overwrites_earlier_value() {
    let mut kvs = pakv1::KVStore::create();
    kvs.set("k".to_owned(), "a".to_owned());
    kvs.set("k".to_owned(), "b".to_owned());
    assert_eq!(kvs.get("k".to_owned()).unwrap(), &"b".to_owned());
}

#[test]
fn del_returns_old_value_once() {
    let mut kvs = pakv1::KVStore::create();
    kvs.set("k".to_owned(), "v".to_owned());
    assert_eq!(kvs.del("k".to_owned()), Some("v".to_owned()));
    assert_eq!(kvs.del("k".to_owned()), None);
}

#[test]
fn del_leaves_other_keys() {
    let mut kvs = pakv2::KVStore::create();
    kvs.set("a".to_owned(), "1".to_owned());
    kvs.set("b".to_owned(), "2".to_owned());
    kvs.del("a".to_owned());
    assert_eq!(kvs.get("b".to_owned()).unwrap(), &"2".to_owned());
}

#[test]
fn do_ope_replays_log_to_last_write() {
    let mut kvs = pakv2::KVStore::create();
    let log = vec![
        KvOpe::create(KvOpeE::KvOpeSet { k: "a".to_owned(), v: "1".to_owned() }),
        KvOpe::create(KvOpeE::KvOpeSet { k: "b".to_owned(), v: "2".to_owned() }),
        KvOpe::create(KvOpeE::KvOpeSet { k: "a".to_owned(), v: "3".to_owned() }),
        KvOpe::create(KvOpeE::KvOpeDel { k: "b".to_owned() }),
    ];
    for op in &log {
        kvs.do_ope(op);
    }
    assert_eq!(kvs.get("a".to_owned()).unwrap(), &"3".to_owned());
    assert_eq!(kvs.get("b".to_owned()), None);
}
