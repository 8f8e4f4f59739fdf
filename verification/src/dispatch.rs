//! The request dispatcher: classifies a raw request by method and path,
//! invokes the store through the codec, and produces a status-coded
//! response.
//!
//! A request is one exchange: the raw text read off the connection. Routes
//! are matched by prefix, in priority order: the index, transaction
//! creation, transaction lookup; anything else is not found. The whole
//! behaviour of an exchange is the spec function `spec_handle`, a function
//! of the store's contents and the request text alone.

use vstd::prelude::*;
use crate::codec::{is_ws, skip_ws, skip_ws_x, spec_decode, spec_encode, decode_chars, encode};
use crate::store::{Store, spec_find, lemma_insert_then_find};
use crate::strutil::{chars_of, string_of_chars, sub_vec};
use crate::transaction::{Transaction, TransactionView};

verus! {

/// Whether the raw request begins with the given route prefix.
pub fn request_with(request: &str, prefix: &str) -> (r: bool)
    ensures
        r == prefix@.is_prefix_of(request@),
{
    let rc = chars_of(request);
    let pc = chars_of(prefix);
    if pc.len() > rc.len() {
        return false;
    }
    let mut i: usize = 0;
    while i < pc.len()
        invariant
            pc@.len() <= rc@.len(),
            rc@ == request@,
            pc@ == prefix@,
            i <= pc@.len(),
            forall|j: int| 0 <= j < i ==> rc@[j] == pc@[j],
        decreases pc@.len() - i,
    {
        if rc[i] != pc[i] {
            assert(request@.subrange(0, prefix@.len() as int)[i as int] != prefix@[i as int]);
            return false;
        }
        i = i + 1;
    }
    assert(request@.subrange(0, prefix@.len() as int) =~= prefix@);
    true
}

/// Whether the blank line separating headers from body stands at `p`.
pub open spec fn is_sep_at(s: Seq<char>, p: int) -> bool {
    p + 4 <= s.len() && s[p] == '\r' && s[p + 1] == '\n' && s[p + 2] == '\r' && s[p + 3] == '\n'
}

/// The first position at or after `i` where the blank line stands.
pub open spec fn sep_pos(s: Seq<char>, i: int) -> Option<int>
    decreases s.len() - i,
        when 0 <= i <= s.len()
{
    if i + 4 > s.len() {
        None
    } else if is_sep_at(s, i) {
        Some(i)
    } else {
        sep_pos(s, i + 1)
    }
}

pub proof fn lemma_sep_pos_bounds(s: Seq<char>, i: int)
    requires
        0 <= i <= s.len(),
        sep_pos(s, i) is Some,
    ensures
        i <= sep_pos(s, i)->Some_0,
        sep_pos(s, i)->Some_0 + 4 <= s.len(),
    decreases s.len() - i,
{
    if i + 4 <= s.len() && !is_sep_at(s, i) {
        lemma_sep_pos_bounds(s, i + 1);
    }
}

/// The request body: everything after the blank line separating the
/// headers from it, or nothing if no blank line occurs.
pub open spec fn spec_body_of(s: Seq<char>) -> Option<Seq<char>> {
    match sep_pos(s, 0) {
        None => None,
        Some(p) => Some(s.subrange(p + 4, s.len() as int)),
    }
}

fn sep_pos_x(s: &Vec<char>, i: usize) -> (r: Option<usize>)
    requires
        i <= s@.len(),
    ensures
        (r is Some) == (sep_pos(s@, i as int) is Some),
        r matches Some(p) ==> p as int == sep_pos(s@, i as int)->Some_0 && i <= p && p + 4
            <= s@.len(),
    decreases s@.len() - i,
{
    if s.len() < 4 || i > s.len() - 4 {
        return None;
    }
    if s[i] == '\r' && s[i + 1] == '\n' && s[i + 2] == '\r' && s[i + 3] == '\n' {
        return Some(i);
    }
    sep_pos_x(s, i + 1)
}

/// The first position at or after `i` holding the character `c`.
pub open spec fn char_pos(s: Seq<char>, c: char, i: int) -> Option<int>
    decreases s.len() - i,
        when 0 <= i <= s.len()
{
    if i >= s.len() {
        None
    } else if s[i] == c {
        Some(i)
    } else {
        char_pos(s, c, i + 1)
    }
}

fn char_pos_x(s: &Vec<char>, c: char, i: usize) -> (r: Option<usize>)
    requires
        i <= s@.len(),
    ensures
        (r is Some) == (char_pos(s@, c, i as int) is Some),
        r matches Some(p) ==> p as int == char_pos(s@, c, i as int)->Some_0 && i <= p
            < s@.len(),
    decreases s@.len() - i,
{
    if i >= s.len() {
        return None;
    }
    if s[i] == c {
        return Some(i);
    }
    char_pos_x(s, c, i + 1)
}

/// The first position at or after `i` that holds whitespace, or the end.
pub open spec fn nonws_end(s: Seq<char>, i: int) -> int
    decreases s.len() - i,
        when 0 <= i <= s.len()
{
    if i < s.len() && !is_ws(s[i]) {
        nonws_end(s, i + 1)
    } else {
        i
    }
}

fn nonws_end_x(s: &Vec<char>, i: usize) -> (r: usize)
    requires
        i <= s@.len(),
    ensures
        r as int == nonws_end(s@, i as int),
        i <= r <= s@.len(),
    decreases s@.len() - i,
{
    if i < s.len() {
        let c = s[i];
        if !(c == ' ' || c == '\t' || c == '\r' || c == '\n') {
            return nonws_end_x(s, i + 1);
        }
    }
    i
}

/// The first whitespace-separated word of `seg`, after any leading
/// whitespace; empty if there is none.
pub open spec fn first_token(seg: Seq<char>) -> Seq<char> {
    let a = skip_ws(seg, 0);
    let b = nonws_end(seg, a);
    seg.subrange(a, b)
}

/// The identifier named by the request path: the text between the second
/// and third slash of the raw request (or its end), cut at whitespace.
pub open spec fn spec_get_id(s: Seq<char>) -> Seq<char> {
    match char_pos(s, '/', 0) {
        None => Seq::<char>::empty(),
        Some(p1) => match char_pos(s, '/', p1 + 1) {
            None => Seq::<char>::empty(),
            Some(p2) => {
                let end: int = match char_pos(s, '/', p2 + 1) {
                    None => s.len() as int,
                    Some(p3) => p3,
                };
                first_token(s.subrange(p2 + 1, end))
            },
        },
    }
}

/// Extracts the identifier from a raw lookup request.
pub fn get_id(request: &str) -> (r: String)
    ensures
        r@ == spec_get_id(request@),
{
    let rc = chars_of(request);
    match char_pos_x(&rc, '/', 0) {
        None => String::new(),
        Some(p1) => match char_pos_x(&rc, '/', p1 + 1) {
            None => String::new(),
            Some(p2) => {
                let end: usize = match char_pos_x(&rc, '/', p2 + 1) {
                    None => rc.len(),
                    Some(p3) => p3,
                };
                let seg = sub_vec(&rc, p2 + 1, end);
                let a = skip_ws_x(&seg, 0);
                let b = nonws_end_x(&seg, a);
                let tok = sub_vec(&seg, a, b);
                string_of_chars(&tok)
            },
        },
    }
}

/// The response status lines and fixed bodies.
pub open spec fn ok_status() -> Seq<char> {
    "HTTP/1.1 200 OK\r\n\r\n"@
}

pub open spec fn not_found_status() -> Seq<char> {
    "HTTP/1.1 404 NOT FOUND\r\n\r\n"@
}

pub open spec fn server_error_status() -> Seq<char> {
    "HTTP/1.1 500 INTERNAL SERVER ERROR\r\n\r\n"@
}

pub open spec fn index_status() -> Seq<char> {
    "HTTP/1.1 200 OK\r\nContent-Type: application/json\r\n\r\n"@
}

pub open spec fn index_body() -> Seq<char> {
    "{\n    \"service\": \"monitoring-service\",\n    \"status\": \"running\",\n    \"endpoints\": [\n        {\n            \"method\": \"POST\",\n            \"path\": \"/transactions\",\n            \"description\": \"Create a new transaction\"\n        },\n        {\n            \"method\": \"GET\",\n            \"path\": \"/transactions/{id}\",\n            \"description\": \"Get transaction by ID\"\n        }\n    ]\n}"@
}

/// The index response: a static capability description of the service.
pub fn handle_index() -> (r: (String, String))
    ensures
        r.0@ == index_status(),
        r.1@ == index_body(),
{
    (
        "HTTP/1.1 200 OK\r\nContent-Type: application/json\r\n\r\n".to_owned(),
        "{\n    \"service\": \"monitoring-service\",\n    \"status\": \"running\",\n    \"endpoints\": [\n        {\n            \"method\": \"POST\",\n            \"path\": \"/transactions\",\n            \"description\": \"Create a new transaction\"\n        },\n        {\n            \"method\": \"GET\",\n            \"path\": \"/transactions/{id}\",\n            \"description\": \"Get transaction by ID\"\n        }\n    ]\n}".to_owned(),
    )
}

/// Extracts and decodes the record carried by a creation request; nothing
/// if the request has no body or the body does not decode.
pub fn get_transaction_from_request(request: &str) -> (r: Option<Transaction>)
    ensures
        (match spec_body_of(request@) {
            None => r is None,
            Some(b) => match spec_decode(b) {
                Ok(tv) => r matches Some(t) && t@ == tv,
                Err(_) => r is None,
            },
        }),
{
    let rc = chars_of(request);
    match sep_pos_x(&rc, 0) {
        None => None,
        Some(p) => {
            let n = rc.len();
            let body = sub_vec(&rc, p + 4, n);
            match decode_chars(&body) {
                Ok(t) => Some(t),
                Err(_) => None,
            }
        },
    }
}

/// What handling a creation request does to the store and returns.
pub open spec fn spec_handle_post(st: Seq<TransactionView>, req: Seq<char>) -> (
    Seq<TransactionView>,
    Seq<char>,
    Seq<char>,
) {
    match spec_body_of(req) {
        None => (st, server_error_status(), "Invalid Transaction"@),
        Some(b) => match spec_decode(b) {
            Ok(tv) => (st.push(tv), ok_status(), spec_encode(tv)),
            Err(_) => (st, server_error_status(), "Invalid Transaction"@),
        },
    }
}

/// What handling a lookup request returns.
pub open spec fn spec_handle_get(st: Seq<TransactionView>, req: Seq<char>) -> (
    Seq<char>,
    Seq<char>,
) {
    match spec_find(st, spec_get_id(req)) {
        Some(tv) => (ok_status(), spec_encode(tv)),
        None => (not_found_status(), "Transaction Not Found"@),
    }
}

/// Handles a creation request: on decode success the record is appended to
/// the store and echoed back encoded; on failure the store is untouched
/// and the server-error status is returned with a fixed body.
pub fn handle_post_transaction(store: &mut Store, request: &str) -> (r: (String, String))
    ensures
        ({
            let out = spec_handle_post(old(store)@, request@);
            final(store)@ == out.0 && r.0@ == out.1 && r.1@ == out.2
        }),
{
    match get_transaction_from_request(request) {
        Some(tx) => {
            let body = encode(&tx);
            store.insert(tx);
            ("HTTP/1.1 200 OK\r\n\r\n".to_owned(), body)
        },
        None => (
            "HTTP/1.1 500 INTERNAL SERVER ERROR\r\n\r\n".to_owned(),
            "Invalid Transaction".to_owned(),
        ),
    }
}

/// Handles a lookup request: the first stored record with the named
/// identifier is returned encoded; a miss earns the not-found status with
/// a fixed body. The store is only read.
pub fn handle_get_transaction(store: &Store, request: &str) -> (r: (String, String))
    ensures
        ({
            let out = spec_handle_get(store@, request@);
            r.0@ == out.0 && r.1@ == out.1
        }),
{
    let id = get_id(request);
    match store.find_by_id(id.as_str()) {
        Some(tx) => ("HTTP/1.1 200 OK\r\n\r\n".to_owned(), encode(&tx)),
        None => (
            "HTTP/1.1 404 NOT FOUND\r\n\r\n".to_owned(),
            "Transaction Not Found".to_owned(),
        ),
    }
}

/// The whole behaviour of one exchange: the store after it, the status
/// line and the response body, as a function of the store's contents and
/// the raw request. Routes are matched by prefix in priority order.
pub open spec fn spec_handle(st: Seq<TransactionView>, req: Seq<char>) -> (
    Seq<TransactionView>,
    Seq<char>,
    Seq<char>,
) {
    if "GET / "@.is_prefix_of(req) {
        (st, index_status(), index_body())
    } else if "POST /transactions"@.is_prefix_of(req) {
        spec_handle_post(st, req)
    } else if "GET /transactions/"@.is_prefix_of(req) {
        let g = spec_handle_get(st, req);
        (st, g.0, g.1)
    } else {
        (st, not_found_status(), "Not Found"@)
    }
}

/// Classifies one raw request and handles it against the store, returning
/// the status line and the response body to write back.
pub fn handle_request(store: &mut Store, request: &str) -> (r: (String, String))
    ensures
        ({
            let out = spec_handle(old(store)@, request@);
            final(store)@ == out.0 && r.0@ == out.1 && r.1@ == out.2
        }),
{
    if request_with(request, "GET / ") {
        handle_index()
    } else if request_with(request, "POST /transactions") {
        handle_post_transaction(store, request)
    } else if request_with(request, "GET /transactions/") {
        handle_get_transaction(store, request)
    } else {
        ("HTTP/1.1 404 NOT FOUND\r\n\r\n".to_owned(), "Not Found".to_owned())
    }
}

/// Law: after a creation request whose record decodes and carries an
/// identifier not yet stored, a lookup of that identifier against the new
/// store returns exactly the created record, encoded, with the success
/// status.
pub proof fn lemma_insert_then_read(
    st: Seq<TransactionView>,
    req_post: Seq<char>,
    req_get: Seq<char>,
)
    requires
        spec_body_of(req_post) is Some,
        spec_decode(spec_body_of(req_post)->Some_0) is Ok,
        spec_get_id(req_get) == spec_decode(spec_body_of(req_post)->Some_0)->Ok_0.transaction_id,
        spec_find(st, spec_get_id(req_get)) is None,
    ensures
        ({
            let tv = spec_decode(spec_body_of(req_post)->Some_0)->Ok_0;
            spec_handle_post(st, req_post).0 == st.push(tv) && spec_handle_get(
                spec_handle_post(st, req_post).0,
                req_get,
            ) == (ok_status(), spec_encode(tv))
        }),
{
    let tv = spec_decode(spec_body_of(req_post)->Some_0)->Ok_0;
    lemma_insert_then_find(st, tv);
}

/// Law: a request that is not a transaction creation leaves the store as
/// it was, and repeating it with no intervening insert yields the
/// identical store and the identical response.
pub proof fn lemma_read_idempotent(st: Seq<TransactionView>, req: Seq<char>)
    requires
        !("POST /transactions"@.is_prefix_of(req)),
    ensures
        spec_handle(st, req).0 == st,
        spec_handle(spec_handle(st, req).0, req) == spec_handle(st, req),
{
}

} // verus!
