use monitoring_service::dispatch::{
    get_id, handle_get_transaction, handle_index, handle_post_transaction, handle_request,
    request_with,
};
use monitoring_service::store::Store;

const OK: &str = "HTTP/1.1 200 OK\r\n\r\n";
const NOT_FOUND: &str = "HTTP/1.1 404 NOT FOUND\r\n\r\n";
const SERVER_ERROR: &str = "HTTP/1.1 500 INTERNAL SERVER ERROR\r\n\r\n";

fn post_request(body: &str) -> String {
    format!("POST /transactions HTTP/1.1\r\nContent-Type: application/json\r\n\r\n{}", body)
}

fn get_request(id: &str) -> String {
    format!("GET /transactions/{} HTTP/1.1\r\n\r\n", id)
}

const T1_BODY: &str = "{\"transaction_id\":\"T1\",\"user_id\":7,\"amount\":12.5,\"currency\":\"USD\",\"metadata\":{},\"timestamp\":\"2024-01-01T00:00:00Z\"}";

#[test]
fn index_route() {
    let mut store = Store::new();
    let (status, body) = handle_request(&mut store, "GET / HTTP/1.1\r\n\r\n");
    assert_eq!(status, "HTTP/1.1 200 OK\r\nContent-Type: application/json\r\n\r\n");
    assert!(body.contains("monitoring-service"));
    assert!(body.contains("\"path\": \"/transactions\""));
    assert!(body.contains("\"path\": \"/transactions/{id}\""));
    assert_eq!(store.len(), 0);
    let (s2, b2) = handle_index();
    assert_eq!(s2, status);
    assert_eq!(b2, body);
}

#[test]
fn insert_then_read() {
    let mut store = Store::new();
    let (status, body) = handle_request(&mut store, &post_request(T1_BODY));
    assert_eq!(status, OK);
    assert_eq!(body, T1_BODY);
    assert_eq!(store.len(), 1);

    let (status, body) = handle_request(&mut store, &get_request("T1"));
    assert_eq!(status, OK);
    assert_eq!(body, T1_BODY);

    let tx = store.find_by_id("T1").expect("stored record");
    assert_eq!(tx.transaction_id, "T1");
    assert_eq!(tx.user_id, 7);
    assert_eq!(tx.amount, "12.5");
    assert_eq!(tx.currency, "USD");
    assert_eq!(tx.metadata, "{}");
    assert_eq!(tx.timestamp, "2024-01-01T00:00:00Z");
}

#[test]
fn idempotent_read() {
    let mut store = Store::new();
    handle_request(&mut store, &post_request(T1_BODY));
    let first = handle_request(&mut store, &get_request("T1"));
    let second = handle_request(&mut store, &get_request("T1"));
    assert_eq!(first, second);
    let miss1 = handle_request(&mut store, &get_request("nope"));
    let miss2 = handle_request(&mut store, &get_request("nope"));
    assert_eq!(miss1, miss2);
}

#[test]
fn unknown_id() {
    let mut store = Store::new();
    let (status, body) = handle_request(&mut store, &get_request("does-not-exist"));
    assert_eq!(status, NOT_FOUND);
    assert_eq!(body, "Transaction Not Found");
}

#[test]
fn malformed_body() {
    let mut store = Store::new();
    let (status, body) = handle_request(&mut store, &post_request("not json"));
    assert_eq!(status, SERVER_ERROR);
    assert_eq!(body, "Invalid Transaction");
    assert_eq!(store.len(), 0);

    // An id mentioned inside the malformed payload is still a miss.
    let bad = "{\"transaction_id\":\"ghost\",";
    let (status, _) = handle_request(&mut store, &post_request(bad));
    assert_eq!(status, SERVER_ERROR);
    let (status, body) = handle_request(&mut store, &get_request("ghost"));
    assert_eq!(status, NOT_FOUND);
    assert_eq!(body, "Transaction Not Found");
}

#[test]
fn post_without_blank_line() {
    let mut store = Store::new();
    let (status, body) = handle_request(&mut store, "POST /transactions HTTP/1.1");
    assert_eq!(status, SERVER_ERROR);
    assert_eq!(body, "Invalid Transaction");
    assert_eq!(store.len(), 0);
}

#[test]
fn unknown_route() {
    let mut store = Store::new();
    let (status, body) = handle_request(&mut store, "GET /nonexistent HTTP/1.1\r\n\r\n");
    assert_eq!(status, NOT_FOUND);
    assert_eq!(body, "Not Found");
    let (status, body) = handle_request(&mut store, "DELETE /transactions/T1 HTTP/1.1\r\n\r\n");
    assert_eq!(status, NOT_FOUND);
    assert_eq!(body, "Not Found");
}

#[test]
fn distinct_inserts_all_found() {
    let mut store = Store::new();
    for (id, user) in [("A1", "1"), ("B2", "2"), ("C3", "3")] {
        let body = format!(
            "{{\"transaction_id\":\"{}\",\"user_id\":{},\"amount\":1.0,\"currency\":\"EUR\",\"metadata\":null,\"timestamp\":\"t\"}}",
            id, user
        );
        let (status, _) = handle_request(&mut store, &post_request(&body));
        assert_eq!(status, OK);
    }
    assert_eq!(store.len(), 3);
    for (id, user) in [("A1", 1u32), ("B2", 2), ("C3", 3)] {
        let tx = store.find_by_id(id).expect("record present");
        assert_eq!(tx.transaction_id, id);
        assert_eq!(tx.user_id, user);
    }
}

#[test]
fn first_match_wins() {
    let mut store = Store::new();
    let first = "{\"transaction_id\":\"D1\",\"user_id\":1,\"amount\":1.5,\"currency\":\"USD\",\"metadata\":{},\"timestamp\":\"t1\"}";
    let second = "{\"transaction_id\":\"D1\",\"user_id\":1,\"amount\":9.5,\"currency\":\"USD\",\"metadata\":{},\"timestamp\":\"t1\"}";
    handle_request(&mut store, &post_request(first));
    handle_request(&mut store, &post_request(second));
    assert_eq!(store.len(), 2);
    let tx = store.find_by_id("D1").expect("record present");
    assert_eq!(tx.amount, "1.5");
    let (status, body) = handle_request(&mut store, &get_request("D1"));
    assert_eq!(status, OK);
    assert_eq!(body, first);
}

#[test]
fn get_handler_reads_only() {
    let mut store = Store::new();
    handle_request(&mut store, &post_request(T1_BODY));
    let (status, body) = handle_get_transaction(&store, &get_request("T1"));
    assert_eq!(status, OK);
    assert_eq!(body, T1_BODY);
    assert_eq!(store.len(), 1);
}

#[test]
fn post_handler_direct() {
    let mut store = Store::new();
    let (status, body) = handle_post_transaction(&mut store, &post_request(T1_BODY));
    assert_eq!(status, OK);
    assert_eq!(body, T1_BODY);
    assert_eq!(store.len(), 1);
}

#[test]
fn request_with_prefixes() {
    assert!(request_with("GET / HTTP/1.1", "GET / "));
    assert!(request_with("POST /transactions HTTP/1.1", "POST /transactions"));
    assert!(!request_with("POST /transactions", "GET /transactions/"));
    assert!(!request_with("GET", "GET / "));
    assert!(request_with("anything", ""));
}

#[test]
fn get_id_extraction() {
    assert_eq!(get_id("GET /transactions/x1 HTTP/1.1"), "x1");
    assert_eq!(get_id("GET /transactions/does-not-exist HTTP/1.1"), "does-not-exist");
    assert_eq!(get_id("GET /transactions/abc/def HTTP/1.1"), "abc");
    assert_eq!(get_id("no slashes here"), "");
    assert_eq!(get_id("GET /transactions"), "");
    // The identifier is cut at the next slash or whitespace.
    assert_eq!(get_id("GET /transactions/ HTTP/1.1"), "HTTP");
}
