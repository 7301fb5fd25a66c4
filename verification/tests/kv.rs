use rustlab::kv::entry::Entry;
use rustlab::kv::linked_list::LinkedList;
use rustlab::kv::scanner::ScanIterator;
use rustlab::kv::store::KvStore;
use rustlab::kv::value::Value;
use rustlab::kv::wal::WalOp;
use std::collections::HashMap;

#[test]
fn store_scenario_put_get_del_len() {
    let mut store = KvStore::new();
    store.put("name", Value::from_text("RustKV"), None);
    assert_eq!(store.get("name"), Some(Value::String("RustKV".into())));
    store.put("count", Value::from(42i64), None);
    assert!(store.del("name"));
    assert_eq!(store.len(), 1);
    assert_eq!(store.get("name"), None);
    assert!(!store.del("name"));
}

#[test]
fn store_put_overwrites_and_keeps_others() {
    let mut store = KvStore::new();
    store.put_at("a", Value::from(1i64), None, 100);
    store.put_at("b", Value::from(2i64), None, 100);
    store.put_at("a", Value::from(3i64), None, 200);
    assert_eq!(store.len(), 2);
    assert_eq!(store.get_at("a", 200), Some(Value::Ingeger(3)));
    assert_eq!(store.get_at("b", 200), Some(Value::Ingeger(2)));
}

#[test]
fn store_expiry_at_given_times() {
    let mut store = KvStore::new();
    store.put_at("t", Value::from_text("v"), Some(1000), 5000);
    assert_eq!(store.get_at("t", 5000), Some(Value::from_text("v")));
    assert_eq!(store.get_at("t", 6000), Some(Value::from_text("v")));
    assert_eq!(store.get_at("t", 6001), None);
    store.put_at("keep", Value::from_text("k"), None, 5000);
    store.purge_expired(7000);
    assert_eq!(store.len(), 1);
    assert_eq!(store.get_at("keep", 7000), Some(Value::from_text("k")));
}

#[test]
fn store_keys_by_prefix() {
    let mut store = KvStore::new();
    for k in ["user:1", "user:2", "order:1"] {
        store.put_at(k, Value::from(0i64), None, 0);
    }
    let mut keys = store.keys("user:");
    keys.sort();
    assert_eq!(keys, vec!["user:1".to_string(), "user:2".to_string()]);
    assert_eq!(store.keys("").len(), 3);
    assert!(store.keys("zzz").is_empty());
}

#[test]
fn scan_is_sorted_and_skips_expired() {
    let mut store = KvStore::new();
    store.put_at("k:b", Value::from(2i64), None, 0);
    store.put_at("k:a", Value::from(1i64), None, 0);
    store.put_at("k:c", Value::from(3i64), Some(10), 0);
    store.put_at("other", Value::from(4i64), None, 0);
    let mut scan = ScanIterator::new_at(&store, "k:", 100);
    assert_eq!(scan.next(), Some(("k:a".to_string(), Value::Ingeger(1))));
    assert_eq!(scan.next(), Some(("k:b".to_string(), Value::Ingeger(2))));
    assert_eq!(scan.next(), None);
    assert_eq!(scan.next(), None);
}

#[test]
fn scan_orders_by_characters() {
    let mut store = KvStore::new();
    for k in ["b", "ab", "a", "中", "B"] {
        store.put_at(k, Value::from(0i64), None, 0);
    }
    let mut scan = ScanIterator::new(&store, "");
    let mut seen = Vec::new();
    while let Some((k, _)) = scan.next() {
        seen.push(k);
    }
    assert_eq!(seen, vec!["B", "a", "ab", "b", "中"]);
}

#[test]
fn entry_expiry_and_age() {
    let e = Entry::new_at(Value::from(1i64), Some(50), 100);
    assert_eq!(e.created_at, 100);
    assert_eq!(e.expires_at, Some(150));
    assert!(!e.is_expired_at(150));
    assert!(e.is_expired_at(151));
    let forever = Entry::new(Value::from(1i64), None);
    assert!(!forever.is_expired());
    assert!(forever.age() < 60_000);
    let capped = Entry::new_at(Value::from(1i64), Some(u64::MAX), 10);
    assert_eq!(capped.expires_at, Some(u64::MAX));
}

#[test]
fn value_kind_names() {
    assert_eq!(Value::from_text("x").kind_name(), "String");
    assert_eq!(Value::from(7i64).kind_name(), "Ingeger");
    assert_eq!(Value::List(LinkedList::new()).kind_name(), "List");
    assert_eq!(Value::Hash(HashMap::new()).kind_name(), "Hash");
    assert_eq!(Value::from("s".to_string()), Value::String("s".to_string()));
}

#[test]
fn linked_list_push_pop_and_text() {
    let mut list = LinkedList::new();
    assert!(list.is_empty());
    assert_eq!(list.push("b".to_string()), 1);
    assert_eq!(list.push("a".to_string()), 2);
    assert_eq!(list.push2("c".to_string()), 3);
    assert_eq!(list.to_text(), "a b c");
    assert_eq!(list.pop(), Some("a".to_string()));
    assert_eq!(list.len(), 2);
    assert_eq!(list.pop(), Some("b".to_string()));
    assert_eq!(list.pop(), Some("c".to_string()));
    assert_eq!(list.pop(), None);
    assert_eq!(list.len(), 0);
}

#[test]
fn linked_list_from_vec_keeps_order() {
    let list = LinkedList::from_vec(&["x", "y", "z"]);
    assert_eq!(list.len(), 3);
    assert_eq!(list.to_text(), "x y z");
    let copy = list.clone();
    assert_eq!(copy, list);
    assert_eq!(LinkedList::new().to_text(), "");
    assert_eq!(LinkedList::default(), LinkedList::new());
}

#[test]
fn value_text_forms() {
    assert_eq!(Value::from_text("hi").to_text(), "hi");
    assert_eq!(Value::from(-42i64).to_text(), "-42");
    assert_eq!(Value::from(i64::MIN).to_text(), "-9223372036854775808");
    assert_eq!(Value::from(0i64).to_text(), "0");
    assert_eq!(Value::List(LinkedList::from_vec(&["a", "b"])).to_text(), "a b");
    let mut m = HashMap::new();
    m.insert("k".to_string(), "v".to_string());
    assert_eq!(Value::Hash(m).to_text(), "{k: v}");
    let mut two = HashMap::new();
    two.insert("a".to_string(), "1".to_string());
    two.insert("b".to_string(), "2".to_string());
    let text = Value::Hash(two).to_text();
    assert!(text == "{a: 1,b: 2}" || text == "{b: 2,a: 1}");
}

#[test]
fn wal_ops_carry_their_fields() {
    let op = WalOp::Put { key: "k".to_string(), value: Value::from(1i64), ttl_secs: Some(3) };
    match op {
        WalOp::Put { key, ttl_secs, .. } => {
            assert_eq!(key, "k");
            assert_eq!(ttl_secs, Some(3));
        }
        WalOp::Del { .. } => panic!("expected a put"),
    }
    let del = WalOp::Del { key: "k".to_string() };
    assert!(matches!(del, WalOp::Del { .. }));
}

#[test]
fn entry_age_at_given_times() {
    let e = Entry::new_at(Value::from(1i64), None, 1_000);
    assert_eq!(e.age_at(1_000), 0);
    assert_eq!(e.age_at(1_250), 250);
    assert_eq!(e.age_at(999), 0);
}

#[test]
fn purge_expired_now_keeps_live_entries() {
    let mut store = KvStore::new();
    store.put_at("old", Value::from(1i64), Some(1), 0);
    store.put_at("keep", Value::from(2i64), None, 0);
    store.purge_expired_now();
    assert_eq!(store.len(), 1);
    assert_eq!(store.get_at("keep", 0), Some(Value::Ingeger(2)));
    assert_eq!(store.get_at("old", 0), None);
}
