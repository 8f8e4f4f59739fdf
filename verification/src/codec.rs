//! The record codec: between wire text and the in-memory `Transaction`.
//!
//! The wire form of a record is a structured-text document: an object
//! `{ "key": value, ... }` whose keys and string values are quoted runs of
//! plain characters (no escape sequences, no control characters), whose
//! numbers are decimal tokens, and whose open metadata document is any
//! balanced span (strings atomic, brackets matched by kind). Decoding is
//! all-or-nothing: either every required field parses, or the whole
//! operation fails with a `DecodeError`. Encoding produces a canonical
//! document that reproduces every field, the metadata text verbatim.

use vstd::prelude::*;
use vstd::string::StringExecFns;
use crate::strutil::{chars_of, string_of_chars, sub_vec, chars_eq, dec_str, u32_to_string};
use crate::transaction::{Transaction, TransactionView};

verus! {

/// Why a wire document failed to decode.
#[derive(Clone, Copy, Debug, PartialEq, Eq, Structural)]
pub enum DecodeError {
    /// The document is not a well-formed object, or has trailing text.
    Malformed,
    /// A required field does not occur in the document.
    MissingField,
    /// A required field occurs but its value has the wrong shape.
    TypeMismatch,
}

/// Whether `c` is whitespace between tokens of a wire document:
/// space, tab, carriage return or line feed.
pub open spec fn is_ws(c: char) -> bool {
    c == ' ' || c == '\t' || c == '\r' || c == '\n'
}

/// Whether `c` is a decimal digit.
pub open spec fn is_digit(c: char) -> bool {
    48 <= c as u32 <= 57
}

/// Whether `c` may stand inside a quoted string: anything but the quote,
/// the backslash and the control characters.
pub open spec fn is_plain_str_char(c: char) -> bool {
    c != '"' && c != '\\' && c as u32 >= 32
}

/// The first position at or after `i` that does not hold whitespace.
pub open spec fn skip_ws(s: Seq<char>, i: int) -> int
    decreases s.len() - i,
        when 0 <= i <= s.len()
{
    if i < s.len() && is_ws(s[i]) {
        skip_ws(s, i + 1)
    } else {
        i
    }
}

pub proof fn lemma_skip_ws_bounds(s: Seq<char>, i: int)
    requires
        0 <= i <= s.len(),
    ensures
        i <= skip_ws(s, i) <= s.len(),
    decreases s.len() - i,
{
    if i < s.len() && is_ws(s[i]) {
        lemma_skip_ws_bounds(s, i + 1);
    }
}

/// The first position at or after `i` that does not hold a decimal digit.
pub open spec fn digits_end(s: Seq<char>, i: int) -> int
    decreases s.len() - i,
        when 0 <= i <= s.len()
{
    if i < s.len() && is_digit(s[i]) {
        digits_end(s, i + 1)
    } else {
        i
    }
}

/// The first position at or after `i` that does not hold a plain string
/// character.
pub open spec fn plain_end(s: Seq<char>, i: int) -> int
    decreases s.len() - i,
        when 0 <= i <= s.len()
{
    if i < s.len() && is_plain_str_char(s[i]) {
        plain_end(s, i + 1)
    } else {
        i
    }
}

/// Scans a quoted string whose opening quote stands just before `i`;
/// the result is the position after the closing quote, or `None` if the
/// string is unterminated or holds a character that may not stand in one.
pub open spec fn string_end(s: Seq<char>, i: int) -> Option<int>
    decreases s.len() - i,
        when 0 <= i <= s.len()
{
    if i >= s.len() {
        None
    } else if s[i] == '"' {
        Some(i + 1)
    } else if is_plain_str_char(s[i]) {
        string_end(s, i + 1)
    } else {
        None
    }
}

pub proof fn lemma_string_end_bounds(s: Seq<char>, i: int)
    requires
        0 <= i <= s.len(),
        string_end(s, i) is Some,
    ensures
        i + 1 <= string_end(s, i)->Some_0 <= s.len(),
    decreases s.len() - i,
{
    if i < s.len() && s[i] != '"' && is_plain_str_char(s[i]) {
        lemma_string_end_bounds(s, i + 1);
    }
}

/// Scans one balanced value span starting at `i`, with `stack` holding the
/// closers still owed and `in_str` telling whether a quoted string is open.
/// The span ends at the first `,` or `}` seen with nothing owed; the result
/// is that position. `None` means the span never completes: the text ends
/// first, a closer mismatches, or a string holds a forbidden character.
pub open spec fn value_end(s: Seq<char>, i: int, stack: Seq<char>, in_str: bool) -> Option<int>
    decreases s.len() - i,
        when 0 <= i <= s.len()
{
    if i >= s.len() {
        None
    } else {
        let c = s[i];
        if in_str {
            if c == '"' {
                value_end(s, i + 1, stack, false)
            } else if is_plain_str_char(c) {
                value_end(s, i + 1, stack, true)
            } else {
                None
            }
        } else if stack.len() == 0 && (c == ',' || c == '}') {
            Some(i)
        } else if c == '{' {
            value_end(s, i + 1, stack.push('}'), false)
        } else if c == '[' {
            value_end(s, i + 1, stack.push(']'), false)
        } else if c == '}' || c == ']' {
            if stack.len() > 0 && stack.last() == c {
                value_end(s, i + 1, stack.drop_last(), false)
            } else {
                None
            }
        } else if c == '"' {
            value_end(s, i + 1, stack, true)
        } else {
            value_end(s, i + 1, stack, false)
        }
    }
}

pub proof fn lemma_value_end_bounds(s: Seq<char>, i: int, stack: Seq<char>, in_str: bool)
    requires
        0 <= i <= s.len(),
        value_end(s, i, stack, in_str) is Some,
    ensures
        i <= value_end(s, i, stack, in_str)->Some_0 < s.len(),
        ({
            let e = value_end(s, i, stack, in_str)->Some_0;
            s[e] == ',' || s[e] == '}'
        }),
    decreases s.len() - i,
{
    let c = s[i];
    if in_str {
        if c == '"' {
            lemma_value_end_bounds(s, i + 1, stack, false);
        } else if is_plain_str_char(c) {
            lemma_value_end_bounds(s, i + 1, stack, true);
        }
    } else if stack.len() == 0 && (c == ',' || c == '}') {
    } else if c == '{' {
        lemma_value_end_bounds(s, i + 1, stack.push('}'), false);
    } else if c == '[' {
        lemma_value_end_bounds(s, i + 1, stack.push(']'), false);
    } else if c == '}' || c == ']' {
        if stack.len() > 0 && stack.last() == c {
            lemma_value_end_bounds(s, i + 1, stack.drop_last(), false);
        }
    } else if c == '"' {
        lemma_value_end_bounds(s, i + 1, stack, true);
    } else {
        lemma_value_end_bounds(s, i + 1, stack, false);
    }
}

/// The position `j` moved left past any whitespace, but not left of `a`.
pub open spec fn trim_from(s: Seq<char>, a: int, j: int) -> int
    decreases j - a,
        when 0 <= a <= j <= s.len()
{
    if j > a && is_ws(s[j - 1]) {
        trim_from(s, a, j - 1)
    } else {
        j
    }
}

/// The numeric value of a digit character.
pub open spec fn digit_val(c: char) -> nat {
    (c as u32 - 48) as nat
}

/// The value of a run of decimal digits, most significant first.
pub open spec fn uint_val(s: Seq<char>) -> nat
    decreases s.len(),
{
    if s.len() == 0 {
        0
    } else {
        uint_val(s.drop_last()) * 10 + digit_val(s.last())
    }
}

/// Whether `v` is a run of one or more decimal digits.
pub open spec fn is_uint_token(v: Seq<char>) -> bool {
    v.len() >= 1 && digits_end(v, 0) == v.len()
}

/// Whether `v` is a whole quoted string of plain characters.
pub open spec fn is_string_token(v: Seq<char>) -> bool {
    v.len() >= 2 && v[0] == '"' && plain_end(v, 1) == v.len() - 1 && v[v.len() - 1] == '"'
}

/// The characters between the quotes of a string token.
pub open spec fn str_content(v: Seq<char>) -> Seq<char> {
    v.subrange(1, v.len() - 1)
}

/// Whether the tail of a number token starting at `j` is a well-formed
/// exponent part, or nothing.
pub open spec fn exp_part_ok(v: Seq<char>, j: int) -> bool {
    if j == v.len() {
        true
    } else if v[j] == 'e' || v[j] == 'E' {
        let k: int = if j + 1 < v.len() && (v[j + 1] == '+' || v[j + 1] == '-') {
            j + 2
        } else {
            j + 1
        };
        digits_end(v, k) == v.len() && digits_end(v, k) > k
    } else {
        false
    }
}

/// Whether the tail of a number token starting at `j` is a well-formed
/// fraction part followed by an exponent part, or just an exponent part.
pub open spec fn after_int_ok(v: Seq<char>, j: int) -> bool {
    if j == v.len() {
        true
    } else if v[j] == '.' {
        let d2 = digits_end(v, j + 1);
        j + 1 <= v.len() && d2 > j + 1 && exp_part_ok(v, d2)
    } else {
        exp_part_ok(v, j)
    }
}

/// Whether `v` is a decimal number token: an optional minus sign, digits,
/// an optional fraction and an optional exponent.
pub open spec fn is_number_token(v: Seq<char>) -> bool {
    let i: int = if v.len() >= 1 && v[0] == '-' {
        1
    } else {
        0
    };
    let d1 = digits_end(v, i);
    i < v.len() && d1 > i && after_int_ok(v, d1)
}

/// The raw text spans of the required fields, as far as a scan of the
/// document has seen them; the first occurrence of a key wins.
pub struct RawTx {
    pub transaction_id: Option<Seq<char>>,
    pub user_id: Option<Seq<char>>,
    pub amount: Option<Seq<char>>,
    pub currency: Option<Seq<char>>,
    pub metadata: Option<Seq<char>>,
    pub timestamp: Option<Seq<char>>,
}

pub open spec fn raw_empty() -> RawTx {
    RawTx {
        transaction_id: None,
        user_id: None,
        amount: None,
        currency: None,
        metadata: None,
        timestamp: None,
    }
}

/// Folds one scanned member into the record of field spans; an unknown key
/// is ignored, a repeated key keeps its first value.
pub open spec fn fold_member(acc: RawTx, key: Seq<char>, val: Seq<char>) -> RawTx {
    if key == "transaction_id"@ {
        if acc.transaction_id is None {
            RawTx { transaction_id: Some(val), ..acc }
        } else {
            acc
        }
    } else if key == "user_id"@ {
        if acc.user_id is None {
            RawTx { user_id: Some(val), ..acc }
        } else {
            acc
        }
    } else if key == "amount"@ {
        if acc.amount is None {
            RawTx { amount: Some(val), ..acc }
        } else {
            acc
        }
    } else if key == "currency"@ {
        if acc.currency is None {
            RawTx { currency: Some(val), ..acc }
        } else {
            acc
        }
    } else if key == "metadata"@ {
        if acc.metadata is None {
            RawTx { metadata: Some(val), ..acc }
        } else {
            acc
        }
    } else if key == "timestamp"@ {
        if acc.timestamp is None {
            RawTx { timestamp: Some(val), ..acc }
        } else {
            acc
        }
    } else {
        acc
    }
}

/// Scans the members of the top-level object from position `i` (just after
/// the opening brace or a separating comma), folding each `"key": value`
/// pair into `acc`; the result holds the folded fields and the position
/// after the closing brace. `first` tells whether a closing brace may come
/// before any member.
pub open spec fn members_scan(s: Seq<char>, i: int, first: bool, acc: RawTx) -> Option<
    (RawTx, int),
>
    decreases s.len() - i,
        when 0 <= i <= s.len()
        via members_scan_dec
{
    let j = skip_ws(s, i);
    if j >= s.len() {
        None
    } else if first && s[j] == '}' {
        Some((acc, j + 1))
    } else if s[j] != '"' {
        None
    } else {
        match string_end(s, j + 1) {
            None => None,
            Some(ke) => {
                let key = s.subrange(j + 1, ke - 1);
                let k = skip_ws(s, ke);
                if k >= s.len() || s[k] != ':' {
                    None
                } else {
                    let v0 = skip_ws(s, k + 1);
                    match value_end(s, v0, Seq::empty(), false) {
                        None => None,
                        Some(ve) => {
                            let te = trim_from(s, v0, ve);
                            if te <= v0 {
                                None
                            } else {
                                let acc2 = fold_member(acc, key, s.subrange(v0, te));
                                if s[ve] == ',' {
                                    members_scan(s, ve + 1, false, acc2)
                                } else {
                                    Some((acc2, ve + 1))
                                }
                            }
                        },
                    }
                }
            },
        }
    }
}

#[via_fn]
proof fn members_scan_dec(s: Seq<char>, i: int, first: bool, acc: RawTx) {
    lemma_skip_ws_bounds(s, i);
    let j = skip_ws(s, i);
    if j < s.len() && !(first && s[j] == '}') && s[j] == '"' {
        if string_end(s, j + 1) is Some {
            lemma_string_end_bounds(s, j + 1);
            let ke = string_end(s, j + 1)->Some_0;
            lemma_skip_ws_bounds(s, ke);
            let k = skip_ws(s, ke);
            if k < s.len() && s[k] == ':' {
                lemma_skip_ws_bounds(s, k + 1);
                let v0 = skip_ws(s, k + 1);
                if value_end(s, v0, Seq::<char>::empty(), false) is Some {
                    lemma_value_end_bounds(s, v0, Seq::<char>::empty(), false);
                }
            }
        }
    }
}

/// Checks the shape of each required field span and reads the record out
/// of it; the metadata span is kept verbatim, unexamined beyond its scan.
pub open spec fn typed_fields(raw: RawTx) -> Result<TransactionView, DecodeError> {
    if raw.transaction_id is None || raw.user_id is None || raw.amount is None
        || raw.currency is None || raw.metadata is None || raw.timestamp is None {
        Err(DecodeError::MissingField)
    } else {
        let id = raw.transaction_id->Some_0;
        let uid = raw.user_id->Some_0;
        let amt = raw.amount->Some_0;
        let cur = raw.currency->Some_0;
        let ts = raw.timestamp->Some_0;
        if !is_string_token(id) || !is_uint_token(uid) || uint_val(uid) > 0xffff_ffff
            || !is_number_token(amt) || !is_string_token(cur) || !is_string_token(ts) {
            Err(DecodeError::TypeMismatch)
        } else {
            Ok(
                TransactionView {
                    transaction_id: str_content(id),
                    user_id: uint_val(uid) as u32,
                    amount: amt,
                    currency: str_content(cur),
                    metadata: raw.metadata->Some_0,
                    timestamp: str_content(ts),
                },
            )
        }
    }
}

/// What decoding the wire text `s` yields: the record, or the error that
/// the document earns. The document must be a single object, possibly
/// surrounded by whitespace, holding every required field.
pub open spec fn spec_decode(s: Seq<char>) -> Result<TransactionView, DecodeError> {
    let j = skip_ws(s, 0);
    if j >= s.len() || s[j] != '{' {
        Err(DecodeError::Malformed)
    } else {
        match members_scan(s, j + 1, true, raw_empty()) {
            None => Err(DecodeError::Malformed),
            Some((raw, e)) => {
                if 0 <= e <= s.len() && skip_ws(s, e) == s.len() {
                    typed_fields(raw)
                } else {
                    Err(DecodeError::Malformed)
                }
            },
        }
    }
}

/// The canonical wire text of a record: every field in a fixed order, the
/// amount and metadata texts spliced in verbatim.
pub open spec fn spec_encode(t: TransactionView) -> Seq<char> {
    "{\"transaction_id\":\""@ + t.transaction_id + "\",\"user_id\":"@ + dec_str(t.user_id as nat)
        + ",\"amount\":"@ + t.amount + ",\"currency\":\""@ + t.currency + "\",\"metadata\":"@
        + t.metadata + ",\"timestamp\":\""@ + t.timestamp + "\"}"@
}

fn ws_char(c: char) -> (r: bool)
    ensures
        r == is_ws(c),
{
    c == ' ' || c == '\t' || c == '\r' || c == '\n'
}

fn is_digit_char(c: char) -> (r: bool)
    ensures
        r == is_digit(c),
{
    let u = c as u32;
    48 <= u && u <= 57
}

fn plain_char(c: char) -> (r: bool)
    ensures
        r == is_plain_str_char(c),
{
    c != '"' && c != '\\' && c as u32 >= 32
}

pub(crate) fn skip_ws_x(s: &Vec<char>, i: usize) -> (r: usize)
    requires
        i <= s@.len(),
    ensures
        r as int == skip_ws(s@, i as int),
        i <= r <= s@.len(),
    decreases s@.len() - i,
{
    if i < s.len() {
        let c = s[i];
        if ws_char(c) {
            return skip_ws_x(s, i + 1);
        }
    }
    i
}

fn digits_end_x(s: &Vec<char>, i: usize) -> (r: usize)
    requires
        i <= s@.len(),
    ensures
        r as int == digits_end(s@, i as int),
        i <= r <= s@.len(),
    decreases s@.len() - i,
{
    if i < s.len() {
        let c = s[i];
        if is_digit_char(c) {
            return digits_end_x(s, i + 1);
        }
    }
    i
}

fn plain_end_x(s: &Vec<char>, i: usize) -> (r: usize)
    requires
        i <= s@.len(),
    ensures
        r as int == plain_end(s@, i as int),
        i <= r <= s@.len(),
    decreases s@.len() - i,
{
    if i < s.len() {
        let c = s[i];
        if plain_char(c) {
            return plain_end_x(s, i + 1);
        }
    }
    i
}

fn string_end_x(s: &Vec<char>, i: usize) -> (r: Option<usize>)
    requires
        i <= s@.len(),
    ensures
        (r is Some) == (string_end(s@, i as int) is Some),
        r matches Some(e) ==> e as int == string_end(s@, i as int)->Some_0 && i + 1 <= e
            <= s@.len(),
    decreases s@.len() - i,
{
    if i >= s.len() {
        return None;
    }
    let c = s[i];
    if c == '"' {
        Some(i + 1)
    } else if plain_char(c) {
        string_end_x(s, i + 1)
    } else {
        None
    }
}

fn value_end_x(s: &Vec<char>, i: usize, stack: Vec<char>, in_str: bool) -> (r: Option<usize>)
    requires
        i <= s@.len(),
    ensures
        (r is Some) == (value_end(s@, i as int, stack@, in_str) is Some),
        r matches Some(e) ==> e as int == value_end(s@, i as int, stack@, in_str)->Some_0 && i
            <= e < s@.len(),
    decreases s@.len() - i,
{
    if i >= s.len() {
        return None;
    }
    let c = s[i];
    if in_str {
        if c == '"' {
            value_end_x(s, i + 1, stack, false)
        } else if plain_char(c) {
            value_end_x(s, i + 1, stack, true)
        } else {
            None
        }
    } else if stack.len() == 0 && (c == ',' || c == '}') {
        Some(i)
    } else if c == '{' {
        let mut st = stack;
        st.push('}');
        value_end_x(s, i + 1, st, false)
    } else if c == '[' {
        let mut st = stack;
        st.push(']');
        value_end_x(s, i + 1, st, false)
    } else if c == '}' || c == ']' {
        if stack.len() > 0 && stack[stack.len() - 1] == c {
            let ghost st0 = stack@;
            let mut st = stack;
            st.pop();
            proof {
                assert(st@ =~= st0.drop_last());
            }
            value_end_x(s, i + 1, st, false)
        } else {
            None
        }
    } else if c == '"' {
        value_end_x(s, i + 1, stack, true)
    } else {
        value_end_x(s, i + 1, stack, false)
    }
}

fn trim_from_x(s: &Vec<char>, a: usize, j: usize) -> (r: usize)
    requires
        a <= j <= s@.len(),
    ensures
        r as int == trim_from(s@, a as int, j as int),
        a <= r <= j,
    decreases j - a,
{
    if j > a {
        let c = s[j - 1];
        if ws_char(c) {
            return trim_from_x(s, a, j - 1);
        }
    }
    j
}

pub proof fn lemma_digits_before_end(s: Seq<char>, i: int)
    requires
        0 <= i <= s.len(),
    ensures
        forall|j: int| i <= j < digits_end(s, i) ==> is_digit(s[j]),
    decreases s.len() - i,
{
    if i < s.len() && is_digit(s[i]) {
        lemma_digits_before_end(s, i + 1);
    }
}

pub proof fn lemma_uint_val_mono(s: Seq<char>, i: int)
    requires
        0 <= i <= s.len(),
    ensures
        uint_val(s) >= uint_val(s.take(i)),
    decreases s.len() - i,
{
    if i == s.len() {
        assert(s.take(i) =~= s);
    } else {
        assert(s.take(i + 1).drop_last() =~= s.take(i));
        assert(s.take(i + 1).last() == s[i]);
        assert(uint_val(s.take(i + 1)) == uint_val(s.take(i)) * 10 + digit_val(s[i]));
        lemma_uint_val_mono(s, i + 1);
    }
}

/// The value of a digit run, if `v` is one and it fits a `u32`.
pub open spec fn spec_parse_u32(v: Seq<char>) -> Option<u32> {
    if is_uint_token(v) && uint_val(v) <= 0xffff_ffff {
        Some(uint_val(v) as u32)
    } else {
        None
    }
}

fn parse_u32(v: &Vec<char>) -> (r: Option<u32>)
    ensures
        r == spec_parse_u32(v@),
{
    let de = digits_end_x(v, 0);
    if v.len() == 0 || de != v.len() {
        return None;
    }
    proof {
        lemma_digits_before_end(v@, 0);
    }
    let mut acc: u32 = 0;
    assert(v@.take(0) =~= Seq::<char>::empty());
    let mut i: usize = 0;
    while i < v.len()
        invariant
            i <= v@.len(),
            forall|j: int| 0 <= j < v@.len() ==> is_digit(v@[j]),
            acc as nat == uint_val(v@.take(i as int)),
        decreases v@.len() - i,
    {
        let c = v[i];
        proof {
            assert(is_digit(v@[i as int]));
        }
        let d: u32 = (c as u32) - 48;
        proof {
            assert(d == digit_val(v@[i as int]));
            assert(v@.take(i as int + 1).drop_last() =~= v@.take(i as int));
            assert(v@.take(i as int + 1).last() == v@[i as int]);
            assert(uint_val(v@.take(i as int + 1)) == acc as nat * 10 + d);
        }
        let big: u64 = (acc as u64) * 10 + (d as u64);
        if big > 0xffff_ffffu64 {
            proof {
                lemma_uint_val_mono(v@, i as int + 1);
            }
            return None;
        }
        acc = big as u32;
        i = i + 1;
    }
    proof {
        assert(v@.take(v@.len() as int) =~= v@);
    }
    Some(acc)
}

fn exp_part_x(v: &Vec<char>, j: usize) -> (r: bool)
    requires
        j <= v@.len(),
    ensures
        r == exp_part_ok(v@, j as int),
{
    if j == v.len() {
        true
    } else {
        let c = v[j];
        if c == 'e' || c == 'E' {
            let k: usize = if j + 1 < v.len() && (v[j + 1] == '+' || v[j + 1] == '-') {
                j + 2
            } else {
                j + 1
            };
            let de = digits_end_x(v, k);
            de == v.len() && de > k
        } else {
            false
        }
    }
}

fn after_int_x(v: &Vec<char>, j: usize) -> (r: bool)
    requires
        j <= v@.len(),
    ensures
        r == after_int_ok(v@, j as int),
{
    if j == v.len() {
        true
    } else {
        let c = v[j];
        if c == '.' {
            let d2 = digits_end_x(v, j + 1);
            if d2 > j + 1 {
                exp_part_x(v, d2)
            } else {
                false
            }
        } else {
            exp_part_x(v, j)
        }
    }
}

fn number_token_x(v: &Vec<char>) -> (r: bool)
    ensures
        r == is_number_token(v@),
{
    let i: usize = if v.len() >= 1 && v[0] == '-' {
        1
    } else {
        0
    };
    if i >= v.len() {
        return false;
    }
    let d1 = digits_end_x(v, i);
    if d1 == i {
        return false;
    }
    after_int_x(v, d1)
}

fn string_token_x(v: &Vec<char>) -> (r: Option<Vec<char>>)
    ensures
        (r is Some) == is_string_token(v@),
        r matches Some(c) ==> c@ == str_content(v@),
{
    if v.len() < 2 {
        return None;
    }
    let c0 = v[0];
    if c0 != '"' {
        return None;
    }
    let pe = plain_end_x(v, 1);
    if pe != v.len() - 1 {
        return None;
    }
    let cl = v[v.len() - 1];
    if cl != '"' {
        return None;
    }
    Some(sub_vec(v, 1, v.len() - 1))
}

/// The raw field spans as owned character vectors, the executable twin of
/// `RawTx`.
struct RawFields {
    transaction_id: Option<Vec<char>>,
    user_id: Option<Vec<char>>,
    amount: Option<Vec<char>>,
    currency: Option<Vec<char>>,
    metadata: Option<Vec<char>>,
    timestamp: Option<Vec<char>>,
}

pub open spec fn opt_chars_view(o: Option<Vec<char>>) -> Option<Seq<char>> {
    match o {
        None => None,
        Some(v) => Some(v@),
    }
}

impl View for RawFields {
    type V = RawTx;

    closed spec fn view(&self) -> RawTx {
        RawTx {
            transaction_id: opt_chars_view(self.transaction_id),
            user_id: opt_chars_view(self.user_id),
            amount: opt_chars_view(self.amount),
            currency: opt_chars_view(self.currency),
            metadata: opt_chars_view(self.metadata),
            timestamp: opt_chars_view(self.timestamp),
        }
    }
}

fn fold_member_x(rf: RawFields, key: Vec<char>, val: Vec<char>) -> (r: RawFields)
    ensures
        r@ == fold_member(rf@, key@, val@),
{
    let k_tid = chars_of("transaction_id");
    let k_uid = chars_of("user_id");
    let k_amt = chars_of("amount");
    let k_cur = chars_of("currency");
    let k_met = chars_of("metadata");
    let k_ts = chars_of("timestamp");
    if chars_eq(&key, &k_tid) {
        if rf.transaction_id.is_none() {
            RawFields { transaction_id: Some(val), ..rf }
        } else {
            rf
        }
    } else if chars_eq(&key, &k_uid) {
        if rf.user_id.is_none() {
            RawFields { user_id: Some(val), ..rf }
        } else {
            rf
        }
    } else if chars_eq(&key, &k_amt) {
        if rf.amount.is_none() {
            RawFields { amount: Some(val), ..rf }
        } else {
            rf
        }
    } else if chars_eq(&key, &k_cur) {
        if rf.currency.is_none() {
            RawFields { currency: Some(val), ..rf }
        } else {
            rf
        }
    } else if chars_eq(&key, &k_met) {
        if rf.metadata.is_none() {
            RawFields { metadata: Some(val), ..rf }
        } else {
            rf
        }
    } else if chars_eq(&key, &k_ts) {
        if rf.timestamp.is_none() {
            RawFields { timestamp: Some(val), ..rf }
        } else {
            rf
        }
    } else {
        rf
    }
}

fn members_scan_x(s: &Vec<char>, i: usize, first: bool, rf: RawFields) -> (r: Option<
    (RawFields, usize),
>)
    requires
        i <= s@.len(),
    ensures
        (r is Some) == (members_scan(s@, i as int, first, rf@) is Some),
        r matches Some(p) ==> members_scan(s@, i as int, first, rf@) == Some(
            (p.0@, p.1 as int),
        ) && p.1 <= s@.len(),
    decreases s@.len() - i,
{
    let ghost acc0 = rf@;
    let j = skip_ws_x(s, i);
    if j >= s.len() {
        return None;
    }
    let cj = s[j];
    if first && cj == '}' {
        return Some((rf, j + 1));
    }
    if cj != '"' {
        return None;
    }
    match string_end_x(s, j + 1) {
        None => None,
        Some(ke) => {
            let key = sub_vec(s, j + 1, ke - 1);
            let k = skip_ws_x(s, ke);
            if k >= s.len() {
                return None;
            }
            let ck = s[k];
            if ck != ':' {
                return None;
            }
            let v0 = skip_ws_x(s, k + 1);
            let empty_stack: Vec<char> = Vec::new();
            assert(empty_stack@ =~= Seq::<char>::empty());
            match value_end_x(s, v0, empty_stack, false) {
                None => None,
                Some(ve) => {
                    let te = trim_from_x(s, v0, ve);
                    if te <= v0 {
                        return None;
                    }
                    let val = sub_vec(s, v0, te);
                    let rf2 = fold_member_x(rf, key, val);
                    proof {
                        assert(rf2@ == fold_member(
                            acc0,
                            s@.subrange(j + 1, ke - 1),
                            s@.subrange(v0 as int, te as int),
                        ));
                    }
                    let cv = s[ve];
                    if cv == ',' {
                        members_scan_x(s, ve + 1, false, rf2)
                    } else {
                        Some((rf2, ve + 1))
                    }
                },
            }
        },
    }
}

fn typed_extract(rf: RawFields) -> (r: Result<Transaction, DecodeError>)
    ensures
        (match typed_fields(rf@) {
            Ok(tv) => r matches Ok(t) && t@ == tv,
            Err(e) => r matches Err(e2) && e2 == e,
        }),
{
    let ghost raw = rf@;
    let RawFields { transaction_id, user_id, amount, currency, metadata, timestamp } = rf;
    if transaction_id.is_none() || user_id.is_none() || amount.is_none() || currency.is_none()
        || metadata.is_none() || timestamp.is_none() {
        return Err(DecodeError::MissingField);
    }
    let idv = transaction_id.unwrap();
    let uidv = user_id.unwrap();
    let amtv = amount.unwrap();
    let curv = currency.unwrap();
    let metv = metadata.unwrap();
    let tsv = timestamp.unwrap();
    let id_ct = string_token_x(&idv);
    let uid_val = parse_u32(&uidv);
    let amt_ok = number_token_x(&amtv);
    let cur_ct = string_token_x(&curv);
    let ts_ct = string_token_x(&tsv);
    if id_ct.is_none() || uid_val.is_none() || !amt_ok || cur_ct.is_none() || ts_ct.is_none() {
        return Err(DecodeError::TypeMismatch);
    }
    Ok(
        Transaction {
            transaction_id: string_of_chars(&id_ct.unwrap()),
            user_id: uid_val.unwrap(),
            amount: string_of_chars(&amtv),
            currency: string_of_chars(&cur_ct.unwrap()),
            metadata: string_of_chars(&metv),
            timestamp: string_of_chars(&ts_ct.unwrap()),
        },
    )
}

/// Decodes one wire document, given as its characters, into a record.
pub fn decode_chars(body: &Vec<char>) -> (r: Result<Transaction, DecodeError>)
    ensures
        (match spec_decode(body@) {
            Ok(tv) => r matches Ok(t) && t@ == tv,
            Err(e) => r matches Err(e2) && e2 == e,
        }),
{
    let j = skip_ws_x(body, 0);
    if j >= body.len() {
        return Err(DecodeError::Malformed);
    }
    let cj = body[j];
    if cj != '{' {
        return Err(DecodeError::Malformed);
    }
    let rf0 = RawFields {
        transaction_id: None,
        user_id: None,
        amount: None,
        currency: None,
        metadata: None,
        timestamp: None,
    };
    assert(rf0@ == raw_empty());
    match members_scan_x(body, j + 1, true, rf0) {
        None => Err(DecodeError::Malformed),
        Some((rf, e)) => {
            let t = skip_ws_x(body, e);
            if t != body.len() {
                return Err(DecodeError::Malformed);
            }
            typed_extract(rf)
        },
    }
}

/// Parses a wire document into a `Transaction`. Fails with the exact
/// `DecodeError` that `spec_decode` assigns: either every required field
/// parses, or nothing is returned.
pub fn decode(body: &str) -> (r: Result<Transaction, DecodeError>)
    ensures
        (match spec_decode(body@) {
            Ok(tv) => r matches Ok(t) && t@ == tv,
            Err(e) => r matches Err(e2) && e2 == e,
        }),
{
    let bc = chars_of(body);
    decode_chars(&bc)
}

/// Produces the canonical wire text of `tx`, reproducing all fields,
/// the metadata document verbatim.
pub fn encode(tx: &Transaction) -> (r: String)
    ensures
        r@ == spec_encode(tx@),
{
    let mut out: String = "{\"transaction_id\":\"".to_owned();
    out.append(tx.transaction_id.as_str());
    out.append("\",\"user_id\":");
    let uid = u32_to_string(tx.user_id);
    out.append(uid.as_str());
    out.append(",\"amount\":");
    out.append(tx.amount.as_str());
    out.append(",\"currency\":\"");
    out.append(tx.currency.as_str());
    out.append("\",\"metadata\":");
    out.append(tx.metadata.as_str());
    out.append(",\"timestamp\":\"");
    out.append(tx.timestamp.as_str());
    out.append("\"}");
    assert(out@ =~= spec_encode(tx@));
    out
}

} // verus!
