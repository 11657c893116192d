//! Passwords and tokens as requests carry them.
use axum::http::HeaderMap;
use vstd::prelude::*;
use vstd::utf8::*;

use crate::outside::{header_text, header_texts, lossy_text, utf8_lossy};
use crate::text::{
    lemma_utf8_injective, opt_text, split, split_on, strip_prefix, stripped, texts_view,
};

verus! {

/// Compares two texts in a time that depends on their lengths alone.
pub fn constant_time_eq(a: &str, b: &str) -> (r: bool)
    ensures
        r == (a@ == b@),
{
    proof {
        lemma_utf8_injective(a@, b@);
    }
    let x = a.as_bytes();
    let y = b.as_bytes();
    if x.len() != y.len() {
        return false;
    }
    let mut diff: u8 = 0;
    let mut i: usize = 0;
    while i < x.len()
        invariant
            i <= x.len(),
            x.len() == y.len(),
            diff == 0 <==> forall|j: int| 0 <= j < i ==> #[trigger] x@[j] == y@[j],
        decreases x.len() - i,
    {
        let p: u8 = x[i];
        let q: u8 = y[i];
        let before: u8 = diff;
        assert((before | (p ^ q)) == 0 <==> before == 0 && p == q) by (bit_vector);
        diff = diff | (p ^ q);
        i = i + 1;
    }
    proof {
        if diff == 0 {
            assert(x@ =~= y@);
        }
    }
    diff == 0
}

/// What bytes are read as: what they encode, if they are UTF-8.
pub open spec fn utf8_text(data: Seq<u8>) -> Seq<char> {
    if valid_utf8(data) {
        decode_utf8(data)
    } else {
        lossy_text(data)
    }
}

/// Reads bytes as text, whatever they hold.
pub fn read_text(data: &[u8]) -> (r: String)
    ensures
        r@ == utf8_text(data@),
{
    utf8_lossy(data)
}

/// The value of a hexadecimal digit of either case.
pub open spec fn hex_value(b: u8) -> Option<u8> {
    if 48 <= b <= 57 {
        Some((b - 48) as u8)
    } else if 65 <= b <= 70 {
        Some((b - 55) as u8)
    } else if 97 <= b <= 102 {
        Some((b - 87) as u8)
    } else {
        None
    }
}

pub fn hex_digit(b: u8) -> (r: Option<u8>)
    ensures
        r == hex_value(b),
{
    if 48 <= b && b <= 57 {
        Some(b - 48)
    } else if 65 <= b && b <= 70 {
        Some(b - 55)
    } else if 97 <= b && b <= 102 {
        Some(b - 87)
    } else {
        None
    }
}

/// The bytes that a query value stands for: `%` and two hexadecimal digits for the byte they name,
/// `+` for a space, every other byte for itself.
pub open spec fn decoded_bytes(b: Seq<u8>) -> Seq<u8>
    decreases b.len(),
{
    if b.len() == 0 {
        Seq::empty()
    } else if b[0] == 37 && b.len() > 2 && hex_value(b[1]) is Some && hex_value(b[2]) is Some {
        seq![(hex_value(b[1])->0 * 16 + hex_value(b[2])->0) as u8] + decoded_bytes(b.skip(3))
    } else if b[0] == 43 {
        seq![32u8] + decoded_bytes(b.skip(1))
    } else {
        seq![b[0]] + decoded_bytes(b.skip(1))
    }
}

/// The text that a query value stands for.
pub open spec fn url_decoded(s: Seq<char>) -> Seq<char> {
    utf8_text(decoded_bytes(encode_utf8(s)))
}

pub fn url_decode(s: &str) -> (r: String)
    ensures
        r@ == url_decoded(s@),
{
    let bytes = s.as_bytes();
    let ghost all = bytes@;
    let mut result: Vec<u8> = Vec::new();
    let mut i: usize = 0;
    assert(all.skip(0) =~= all);
    assert(result@ + decoded_bytes(all) =~= decoded_bytes(all));
    while i < bytes.len()
        invariant
            i <= bytes@.len(),
            all == bytes@,
            result@ + decoded_bytes(all.skip(i as int)) == decoded_bytes(all),
        decreases bytes@.len() - i,
    {
        let ghost rest = all.skip(i as int);
        let ghost done = result@;
        let mut step: usize = 1;
        let mut out: u8 = bytes[i];
        if out == 43 {
            out = 32;
        }
        if bytes[i] == 37 && bytes.len() - i > 2 {
            if let (Some(hi), Some(lo)) = (hex_digit(bytes[i + 1]), hex_digit(bytes[i + 2])) {
                out = hi * 16 + lo;
                step = 3;
            }
        }
        result.push(out);
        proof {
            assert(rest.skip(step as int) =~= all.skip(i + step));
            assert(done + (seq![out] + decoded_bytes(rest.skip(step as int))) =~= result@
                + decoded_bytes(all.skip(i + step)));
        }
        i = i + step;
    }
    assert(all.skip(i as int) =~= Seq::<u8>::empty());
    assert(result@ + Seq::<u8>::empty() =~= result@);
    read_text(result.as_slice())
}

/// The value of the first pair named `token`.
pub open spec fn first_token(pairs: Seq<Seq<char>>) -> Option<Seq<char>>
    decreases pairs.len(),
{
    if pairs.len() == 0 {
        None
    } else {
        match stripped(pairs[0], "token="@) {
            Some(v) => Some(v),
            None => first_token(pairs.skip(1)),
        }
    }
}

/// The token that a query string carries.
pub open spec fn query_token(query: Seq<char>) -> Option<Seq<char>> {
    match first_token(split_on(query, '&')) {
        Some(v) => Some(url_decoded(v)),
        None => None,
    }
}

/// The token of a query string: the decoded value of its first pair named `token`.
pub fn extract_token_from_query(query: &str) -> (r: Option<String>)
    ensures
        opt_text(r) == query_token(query@),
{
    let pairs = split(query, '&');
    let ghost all = texts_view(pairs@);
    let mut i: usize = 0;
    assert(all.skip(0) =~= all);
    while i < pairs.len()
        invariant
            i <= pairs@.len(),
            all == texts_view(pairs@),
            all == split_on(query@, '&'),
            first_token(all.skip(i as int)) == first_token(all),
        decreases pairs@.len() - i,
    {
        assert(all.skip(i as int)[0] == pairs@[i as int]@);
        assert(all.skip(i as int).skip(1) =~= all.skip(i + 1));
        match strip_prefix(pairs[i].as_str(), "token=") {
            Some(v) => {
                return Some(url_decode(v));
            },
            None => {},
        }
        i = i + 1;
    }
    None
}

/// The token of an `Authorization` value: what follows `Bearer `, unless nothing does.
pub open spec fn bearer(value: Seq<char>) -> Option<Seq<char>> {
    match stripped(value, "Bearer "@) {
        Some(t) => if t.len() == 0 {
            None
        } else {
            Some(t)
        },
        None => None,
    }
}

/// The text of a header, if there is one.
pub open spec fn header(headers: HeaderMap, name: Seq<char>) -> Option<Seq<char>> {
    if header_texts(headers).contains_key(name) {
        Some(header_texts(headers)[name])
    } else {
        None
    }
}

/// The token that the `Authorization` header carries.
pub open spec fn header_bearer(headers: HeaderMap) -> Option<Seq<char>> {
    match header(headers, "authorization"@) {
        Some(v) => bearer(v),
        None => None,
    }
}

pub fn bearer_token(value: &str) -> (r: Option<String>)
    ensures
        opt_text(r) == bearer(value@),
{
    match strip_prefix(value, "Bearer ") {
        Some(t) => if t.is_empty() {
            None
        } else {
            Some(t.to_owned())
        },
        None => None,
    }
}

/// The token that the `Authorization` header carries as `Bearer`.
pub fn extract_bearer_token(headers: &HeaderMap) -> (r: Option<String>)
    ensures
        opt_text(r) == header_bearer(*headers),
{
    match header_text(headers, "authorization") {
        Some(value) => bearer_token(value.as_str()),
        None => None,
    }
}

/// The token that a request carries: the one in its header, or else the one in its query.
pub fn extract_token_from_headers_or_query(
    headers: &HeaderMap,
    query_token: Option<&String>,
) -> (r: Option<String>)
    ensures
        opt_text(r) == match header_bearer(*headers) {
            Some(t) => Some(t),
            None => match query_token {
                Some(t) => Some(t@),
                None => None,
            },
        },
{
    match extract_bearer_token(headers) {
        Some(t) => Some(t),
        None => match query_token {
            Some(t) => Some(t.clone()),
            None => None,
        },
    }
}

/// The address that a request comes from.
pub open spec fn client(headers: HeaderMap) -> Seq<char> {
    match header(headers, "x-forwarded-for"@) {
        Some(a) => a,
        None => "unknown"@,
    }
}

/// The address that a request was forwarded for.
pub fn client_address(headers: &HeaderMap) -> (r: String)
    ensures
        r@ == client(*headers),
{
    match header_text(headers, "x-forwarded-for") {
        Some(a) => a,
        None => "unknown".to_owned(),
    }
}

/// The text of a header, as an empty one where there is none.
pub fn header_or_empty(headers: &HeaderMap, name: &str) -> (r: String)
    ensures
        r@ == match header(*headers, name@) {
            Some(v) => v,
            None => Seq::empty(),
        },
{
    match header_text(headers, name) {
        Some(v) => v,
        None => String::new(),
    }
}

} // verus!
