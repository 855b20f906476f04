//! Password hashing: SHA-256 of the password's UTF-8 bytes, written as lower-case hex.

use sha2::Digest;
use vstd::prelude::*;
use crate::text::push_char;

verus! {

/// The SHA-256 digest of `data`.
pub uninterp spec fn sha256_digest(data: Seq<u8>) -> Seq<u8>;

/// Calls sha2's `Digest::digest` for `Sha256` on `data`. The contract names the
/// digest and states that it is 32 bytes long, as the output type `U32` fixes.
#[verifier::external_body]
fn sha256(data: &[u8]) -> (r: Vec<u8>)
    ensures
        r@ == sha256_digest(data@),
        r@.len() == 32,
{
    sha2::Sha256::digest(data).to_vec()
}

/// The lower-case hexadecimal digit of a value below 16.
pub open spec fn hex_digit(n: int) -> char {
    if n < 10 {
        (48 + n) as char
    } else {
        (87 + n) as char
    }
}

/// The lower-case hexadecimal text of `bytes`, two digits per byte, high nibble first.
pub open spec fn hex_lower(bytes: Seq<u8>) -> Seq<char>
    decreases bytes.len(),
{
    if bytes.len() == 0 {
        Seq::empty()
    } else {
        hex_lower(bytes.drop_last()).push(hex_digit(bytes.last() as int / 16)).push(
            hex_digit(bytes.last() as int % 16),
        )
    }
}

/// Whether `c` is a lower-case hexadecimal digit.
pub open spec fn is_hex_digit(c: char) -> bool {
    ('0' <= c <= '9') || ('a' <= c <= 'f')
}

/// The hex text of `bytes` has two digits per byte, each a lower-case hex digit.
pub proof fn lemma_hex_lower_shape(bytes: Seq<u8>)
    ensures
        hex_lower(bytes).len() == 2 * bytes.len(),
        forall|i: int| 0 <= i < hex_lower(bytes).len() ==> is_hex_digit(#[trigger] hex_lower(bytes)[i]),
    decreases bytes.len(),
{
    if bytes.len() > 0 {
        lemma_hex_lower_shape(bytes.drop_last());
    }
}

fn hex_digit_char(n: u8) -> (c: char)
    requires
        n < 16,
    ensures
        c == hex_digit(n as int),
{
    if n < 10 {
        (48 + n) as char
    } else {
        (87 + n) as char
    }
}

/// Writes `bytes` as lower-case hexadecimal.
pub fn to_hex_lower(bytes: &[u8]) -> (r: String)
    ensures
        r@ == hex_lower(bytes@),
{
    let n = bytes.len();
    let mut out = String::new();
    let mut i: usize = 0;
    while i < n
        invariant
            i <= n,
            n == bytes@.len(),
            out@ == hex_lower(bytes@.take(i as int)),
        decreases n - i,
    {
        let b = bytes[i];
        assert(bytes@.take(i + 1).drop_last() =~= bytes@.take(i as int));
        push_char(&mut out, hex_digit_char(b / 16));
        push_char(&mut out, hex_digit_char(b % 16));
        i += 1;
    }
    assert(bytes@.take(n as int) =~= bytes@);
    out
}

/// The stored form of a password: the hex text of the SHA-256 digest of its UTF-8 bytes.
pub open spec fn spec_hash_password(password: Seq<char>) -> Seq<char> {
    hex_lower(sha256_digest(vstd::utf8::encode_utf8(password)))
}

/// A stored password hash holds no `:`.
pub proof fn lemma_hash_has_no_colon(password: Seq<char>)
    ensures
        !spec_hash_password(password).contains(':'),
{
    let h = spec_hash_password(password);
    lemma_hex_lower_shape(sha256_digest(vstd::utf8::encode_utf8(password)));
    if h.contains(':') {
        let j = choose|j: int| 0 <= j < h.len() && h[j] == ':';
        assert(is_hex_digit(h[j]));
    }
}

/// Hashes a password into the form in which it is stored.
pub fn hash_password(password: &str) -> (r: String)
    ensures
        r@ == spec_hash_password(password@),
        r@.len() == 64,
{
    let digest = sha256(password.as_bytes());
    let r = to_hex_lower(digest.as_slice());
    proof {
        lemma_hex_lower_shape(digest@);
    }
    r
}

} // verus!
