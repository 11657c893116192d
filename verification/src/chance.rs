//! Fresh tokens and ids.
use vstd::prelude::*;

use crate::outside::{hex_encode, hex_text, is_hex_digit, random_byte};

verus! {

/// A text of `n` lower-case hexadecimal digits.
pub open spec fn is_hex(s: Seq<char>, n: nat) -> bool {
    &&& s.len() == n
    &&& forall|i: int| 0 <= i < s.len() ==> is_hex_digit(#[trigger] s[i])
}

/// `n` bytes drawn at random.
fn random_bytes(n: usize) -> (v: Vec<u8>)
    ensures
        v@.len() == n,
{
    let mut v: Vec<u8> = Vec::new();
    while v.len() < n
        invariant
            v@.len() <= n,
        decreases n - v@.len(),
    {
        v.push(random_byte());
    }
    v
}

proof fn lemma_hex_text(data: Seq<u8>)
    ensures
        is_hex(hex_text(data), 2 * data.len()),
{
    let s = hex_text(data);
    assert forall|i: int| 0 <= i < s.len() implies is_hex_digit(#[trigger] s[i]) by {
        let b = data[i / 2] as int;
        assert(0 <= b / 16 < 16 && 0 <= b % 16 < 16);
    }
}

/// A fresh token: 32 random bytes in hexadecimal.
pub fn generate_token() -> (t: String)
    ensures
        is_hex(t@, 64),
{
    let bytes = random_bytes(32);
    proof {
        lemma_hex_text(bytes@);
    }
    hex_encode(bytes.as_slice())
}

/// A fresh session id: 4 random bytes in hexadecimal.
pub fn generate_session_id() -> (t: String)
    ensures
        is_hex(t@, 8),
{
    let bytes = random_bytes(4);
    proof {
        lemma_hex_text(bytes@);
    }
    hex_encode(bytes.as_slice())
}

} // verus!
