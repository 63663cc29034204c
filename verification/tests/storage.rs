use authcore::storage::KVStorage;

#[test]
fn new_store_is_empty() {
    let store = KVStorage::new();
    assert_eq!(store.len(), 0);
    assert!(store.get("a").is_none());
    assert!(!store.has("a"));
}

#[test]
fn set_then_get() {
    let mut store = KVStorage::new();
    store.set("a", vec![1, 2, 3]);
    assert_eq!(store.get("a"), Some(vec![1, 2, 3]));
    assert!(store.has("a"));
    assert_eq!(store.len(), 1);
    assert!(store.get("b").is_none());
}

#[test]
fn last_writer_wins() {
    let mut store = KVStorage::new();
    store.set("a", vec![1]);
    store.set("a", vec![2]);
    assert_eq!(store.get("a"), Some(vec![2]));
    assert_eq!(store.len(), 1);
}

#[test]
fn delete_removes_the_key() {
    let mut store = KVStorage::new();
    store.set("a", vec![1]);
    store.set("b", vec![2]);
    store.delete("a");
    assert!(store.get("a").is_none());
    assert_eq!(store.get("b"), Some(vec![2]));
    assert_eq!(store.len(), 1);
}

#[test]
fn deleting_an_absent_key_is_no_error() {
    let mut store = KVStorage::new();
    store.set("a", vec![1]);
    store.delete("zzz");
    store.delete("zzz");
    assert_eq!(store.get("a"), Some(vec![1]));
    assert_eq!(store.len(), 1);
}

#[test]
fn extract_reads_and_removes() {
    let mut store = KVStorage::new();
    store.set("a", vec![1]);
    store.set("b", vec![2]);
    store.set("c", vec![3]);
    assert_eq!(store.extract("b"), Some(vec![2]));
    assert_eq!(store.extract("b"), None);
    assert_eq!(store.get("a"), Some(vec![1]));
    assert_eq!(store.get("c"), Some(vec![3]));
    assert_eq!(store.len(), 2);
}

#[test]
fn keys_are_told_apart_character_by_character() {
    let mut store = KVStorage::new();
    store.set("session:a", vec![1]);
    store.set("session:b", vec![2]);
    store.set("session:", vec![3]);
    store.set("ſession:a", vec![4]);
    assert_eq!(store.get("session:a"), Some(vec![1]));
    assert_eq!(store.get("session:b"), Some(vec![2]));
    assert_eq!(store.get("session:"), Some(vec![3]));
    assert_eq!(store.get("ſession:a"), Some(vec![4]));
    assert_eq!(store.len(), 4);
}

#[test]
fn journal_records_every_change_in_order() {
    let mut store = KVStorage::new();
    store.set("a", vec![1]);
    store.delete("a");
    store.set("b", vec![2]);
    let log = store.take_journal();
    assert_eq!(log.len(), 3);
    assert_eq!(log[0].key, "a");
    assert_eq!(log[0].value, Some(vec![1]));
    assert_eq!(log[1].key, "a");
    assert_eq!(log[1].value, None);
    assert_eq!(log[2].key, "b");
    assert_eq!(log[2].value, Some(vec![2]));
    assert!(store.take_journal().is_empty());
    assert_eq!(store.get("b"), Some(vec![2]));
}

#[test]
fn replaying_the_journal_rebuilds_the_store() {
    let mut store = KVStorage::new();
    store.set("a", vec![1]);
    store.set("b", vec![2]);
    store.set("a", vec![3]);
    assert_eq!(store.extract("b"), Some(vec![2]));
    store.set("c", vec![4]);
    let log = store.take_journal();
    let mut copy = KVStorage::new();
    for mutation in log {
        match mutation.value {
            Some(value) => copy.set(&mutation.key, value),
            None => copy.delete(&mutation.key),
        }
    }
    assert_eq!(copy.len(), store.len());
    assert_eq!(copy.get("a"), Some(vec![3]));
    assert_eq!(copy.get("b"), None);
    assert_eq!(copy.get("c"), Some(vec![4]));
}

#[test]
fn committed_transaction_keeps_every_change() {
    let mut store = KVStorage::new();
    store.set("a", vec![1]);
    let mut tx = store.transaction();
    assert_eq!(tx.get("a"), Some(vec![1]));
    tx.set("b", vec![2]);
    tx.delete("a");
    assert!(tx.has("b"));
    assert!(!tx.has("a"));
    tx.commit();
    assert_eq!(store.get("a"), None);
    assert_eq!(store.get("b"), Some(vec![2]));
    assert_eq!(store.take_journal().len(), 3);
}

#[test]
fn transaction_touches_nothing_before_it_is_committed() {
    let mut store = KVStorage::new();
    store.set("a", vec![1]);
    let mut tx = store.transaction();
    tx.set("a", vec![2]);
    tx.set("b", vec![3]);
    assert_eq!(tx.storage.get("a"), Some(vec![1]));
    assert_eq!(tx.storage.get("b"), None);
    assert_eq!(tx.get("a"), Some(vec![2]));
    tx.commit();
    assert_eq!(store.get("a"), Some(vec![2]));
    assert_eq!(store.get("b"), Some(vec![3]));
}

#[test]
fn rolled_back_transaction_keeps_no_change() {
    let mut store = KVStorage::new();
    store.set("a", vec![1]);
    let mut tx = store.transaction();
    tx.set("b", vec![2]);
    tx.set("a", vec![9]);
    assert_eq!(tx.extract("a"), Some(vec![9]));
    assert_eq!(tx.extract("a"), None);
    tx.rollback();
    assert_eq!(store.get("a"), Some(vec![1]));
    assert_eq!(store.get("b"), None);
    assert_eq!(store.len(), 1);
    assert_eq!(store.take_journal().len(), 1);
}
