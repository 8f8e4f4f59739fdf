use monitoring_service::codec::{decode, encode, DecodeError};
use monitoring_service::transaction::Transaction;

fn tx(id: &str, user: u32, amount: &str, currency: &str, metadata: &str, ts: &str) -> Transaction {
    Transaction {
        transaction_id: id.to_string(),
        user_id: user,
        amount: amount.to_string(),
        currency: currency.to_string(),
        metadata: metadata.to_string(),
        timestamp: ts.to_string(),
    }
}

#[test]
fn decode_valid() {
    let body = "{\"transaction_id\":\"T1\",\"user_id\":7,\"amount\":12.5,\"currency\":\"USD\",\"metadata\":{},\"timestamp\":\"2024-01-01T00:00:00Z\"}";
    let t = decode(body).expect("valid document");
    assert_eq!(t.transaction_id, "T1");
    assert_eq!(t.user_id, 7);
    assert_eq!(t.amount, "12.5");
    assert_eq!(t.currency, "USD");
    assert_eq!(t.metadata, "{}");
    assert_eq!(t.timestamp, "2024-01-01T00:00:00Z");
}

#[test]
fn decode_whitespace_and_order() {
    let body = " {\n  \"user_id\" : 42 ,\n  \"transaction_id\" : \"a b\" ,\n  \"timestamp\" : \"t\" ,\n  \"metadata\" : [ 1 , 2 ] ,\n  \"currency\" : \"EUR\" ,\n  \"amount\" : -3.5e2\n} ";
    let t = decode(body).expect("valid document");
    assert_eq!(t.transaction_id, "a b");
    assert_eq!(t.user_id, 42);
    assert_eq!(t.amount, "-3.5e2");
    assert_eq!(t.currency, "EUR");
    assert_eq!(t.metadata, "[ 1 , 2 ]");
    assert_eq!(t.timestamp, "t");
}

#[test]
fn decode_unknown_fields_ignored() {
    let body = "{\"extra\":true,\"transaction_id\":\"X\",\"user_id\":0,\"amount\":0,\"currency\":\"C\",\"metadata\":null,\"timestamp\":\"s\",\"more\":[{}]}";
    let t = decode(body).expect("valid document");
    assert_eq!(t.transaction_id, "X");
    assert_eq!(t.user_id, 0);
    assert_eq!(t.amount, "0");
    assert_eq!(t.metadata, "null");
}

#[test]
fn decode_nested_metadata_kept_verbatim() {
    let meta = "{\"a\":{\"b\":[1,2,\"x, y\"],\"c\":\"}\"}}";
    let body = format!(
        "{{\"transaction_id\":\"N\",\"user_id\":1,\"amount\":2,\"currency\":\"C\",\"metadata\":{},\"timestamp\":\"s\"}}",
        meta
    );
    let t = decode(&body).expect("valid document");
    assert_eq!(t.metadata, meta);
}

#[test]
fn decode_missing_field() {
    let body = "{\"transaction_id\":\"T1\",\"user_id\":7,\"amount\":1,\"currency\":\"USD\",\"metadata\":{}}";
    assert!(matches!(decode(body), Err(DecodeError::MissingField)));
    assert!(matches!(decode("{}"), Err(DecodeError::MissingField)));
}

#[test]
fn decode_type_mismatch() {
    // user_id carried as a string.
    let body = "{\"transaction_id\":\"T1\",\"user_id\":\"7\",\"amount\":1,\"currency\":\"USD\",\"metadata\":{},\"timestamp\":\"t\"}";
    assert!(matches!(decode(body), Err(DecodeError::TypeMismatch)));
    // user_id too large for an unsigned 32-bit value.
    let body = "{\"transaction_id\":\"T1\",\"user_id\":4294967296,\"amount\":1,\"currency\":\"USD\",\"metadata\":{},\"timestamp\":\"t\"}";
    assert!(matches!(decode(body), Err(DecodeError::TypeMismatch)));
    // amount not a number token.
    let body = "{\"transaction_id\":\"T1\",\"user_id\":1,\"amount\":abc,\"currency\":\"USD\",\"metadata\":{},\"timestamp\":\"t\"}";
    assert!(matches!(decode(body), Err(DecodeError::TypeMismatch)));
    // currency not a string.
    let body = "{\"transaction_id\":\"T1\",\"user_id\":1,\"amount\":1,\"currency\":3,\"metadata\":{},\"timestamp\":\"t\"}";
    assert!(matches!(decode(body), Err(DecodeError::TypeMismatch)));
}

#[test]
fn decode_user_id_bounds() {
    let body = "{\"transaction_id\":\"T\",\"user_id\":4294967295,\"amount\":1,\"currency\":\"C\",\"metadata\":0,\"timestamp\":\"t\"}";
    let t = decode(body).expect("largest user id fits");
    assert_eq!(t.user_id, u32::MAX);
}

#[test]
fn decode_malformed() {
    assert!(matches!(decode("not json"), Err(DecodeError::Malformed)));
    assert!(matches!(decode(""), Err(DecodeError::Malformed)));
    assert!(matches!(decode("   "), Err(DecodeError::Malformed)));
    // Unterminated document.
    assert!(matches!(decode("{\"transaction_id\":\"T\""), Err(DecodeError::Malformed)));
    // Mismatched brackets inside the metadata document.
    let body = "{\"transaction_id\":\"T\",\"user_id\":1,\"amount\":1,\"currency\":\"C\",\"metadata\":[}],\"timestamp\":\"t\"}";
    assert!(matches!(decode(body), Err(DecodeError::Malformed)));
    // Trailing text after the closing brace.
    let body = "{\"transaction_id\":\"T\",\"user_id\":1,\"amount\":1,\"currency\":\"C\",\"metadata\":{},\"timestamp\":\"t\"} x";
    assert!(matches!(decode(body), Err(DecodeError::Malformed)));
    // An empty member value.
    assert!(matches!(decode("{\"transaction_id\":,}"), Err(DecodeError::Malformed)));
}

#[test]
fn decode_duplicate_key_first_wins() {
    let body = "{\"transaction_id\":\"first\",\"transaction_id\":\"second\",\"user_id\":1,\"amount\":1,\"currency\":\"C\",\"metadata\":{},\"timestamp\":\"t\"}";
    let t = decode(body).expect("document scans");
    assert_eq!(t.transaction_id, "first");
}

#[test]
fn encode_exact() {
    let t = tx("T1", 7, "12.5", "USD", "{}", "2024-01-01T00:00:00Z");
    assert_eq!(
        encode(&t),
        "{\"transaction_id\":\"T1\",\"user_id\":7,\"amount\":12.5,\"currency\":\"USD\",\"metadata\":{},\"timestamp\":\"2024-01-01T00:00:00Z\"}"
    );
    let t = tx("", 0, "0", "", "null", "");
    assert_eq!(
        encode(&t),
        "{\"transaction_id\":\"\",\"user_id\":0,\"amount\":0,\"currency\":\"\",\"metadata\":null,\"timestamp\":\"\"}"
    );
    let t = tx("a", 4294967295, "-1e9", "chf", "[[]]", "now");
    assert_eq!(
        encode(&t),
        "{\"transaction_id\":\"a\",\"user_id\":4294967295,\"amount\":-1e9,\"currency\":\"chf\",\"metadata\":[[]],\"timestamp\":\"now\"}"
    );
}

#[test]
fn encode_decode_round_trip() {
    let t = tx("R1", 99, "3.25", "GBP", "{\"k\":[true,null]}", "2020-05-05");
    let back = decode(&encode(&t)).expect("canonical text decodes");
    assert_eq!(back.transaction_id, t.transaction_id);
    assert_eq!(back.user_id, t.user_id);
    assert_eq!(back.amount, t.amount);
    assert_eq!(back.currency, t.currency);
    assert_eq!(back.metadata, t.metadata);
    assert_eq!(back.timestamp, t.timestamp);
}

#[test]
fn decode_rejects_escapes_in_required_strings() {
    // The wire grammar keeps strings plain: no backslash escapes.
    let body = "{\"transaction_id\":\"a\\\"b\",\"user_id\":1,\"amount\":1,\"currency\":\"C\",\"metadata\":{},\"timestamp\":\"t\"}";
    assert!(decode(body).is_err());
}

#[test]
fn decode_leading_zero_user_id() {
    let body = "{\"transaction_id\":\"T\",\"user_id\":007,\"amount\":1,\"currency\":\"C\",\"metadata\":{},\"timestamp\":\"t\"}";
    let t = decode(body).expect("digit run accepted");
    assert_eq!(t.user_id, 7);
}
