use monitoring_service::store::Store;
use monitoring_service::transaction::Transaction;

fn tx(id: &str, amount: &str) -> Transaction {
    Transaction {
        transaction_id: id.to_string(),
        user_id: 1,
        amount: amount.to_string(),
        currency: "USD".to_string(),
        metadata: "{}".to_string(),
        timestamp: "t".to_string(),
    }
}

#[test]
fn empty_store_misses() {
    let store = Store::new();
    assert_eq!(store.len(), 0);
    assert!(store.find_by_id("anything").is_none());
}

#[test]
fn insert_and_find() {
    let mut store = Store::new();
    store.insert(tx("A", "1.0"));
    assert_eq!(store.len(), 1);
    let found = store.find_by_id("A").expect("present");
    assert_eq!(found.transaction_id, "A");
    assert_eq!(found.amount, "1.0");
    assert!(store.find_by_id("B").is_none());
}

#[test]
fn duplicate_id_first_inserted_wins() {
    let mut store = Store::new();
    store.insert(tx("A", "1.0"));
    store.insert(tx("A", "2.0"));
    assert_eq!(store.len(), 2);
    let found = store.find_by_id("A").expect("present");
    assert_eq!(found.amount, "1.0");
}

#[test]
fn lookup_returns_a_copy() {
    let mut store = Store::new();
    store.insert(tx("A", "1.0"));
    let mut copy = store.find_by_id("A").expect("present");
    copy.amount = "9.9".to_string();
    let again = store.find_by_id("A").expect("present");
    assert_eq!(again.amount, "1.0");
}

#[test]
fn duplicate_method_copies_fields() {
    let t = tx("A", "1.0");
    let d = t.duplicate();
    assert_eq!(d.transaction_id, t.transaction_id);
    assert_eq!(d.user_id, t.user_id);
    assert_eq!(d.amount, t.amount);
    assert_eq!(d.currency, t.currency);
    assert_eq!(d.metadata, t.metadata);
    assert_eq!(d.timestamp, t.timestamp);
}
