//! The session identity: 128 random bits written in 22 characters of the
//! URL-safe base64 alphabet, without padding.
use vstd::prelude::*;

verus! {

/// Characters of a session identity.
pub const SESSION_ID_LEN: usize = 22;

/// Bytes of randomness behind a session identity.
pub const SESSION_ID_BYTES: usize = 16;

/// The URL-safe base64 encoding, without padding, of `b`.
pub uninterp spec fn base64_url_of(b: Seq<u8>) -> Seq<char>;

/// `c` belongs to the URL-safe base64 alphabet.
pub open spec fn is_url_safe_char(c: char) -> bool {
    ('A' <= c && c <= 'Z') || ('a' <= c && c <= 'z') || ('0' <= c && c <= '9') || c == '-' || c
        == '_'
}

/// Length of the unpadded base64 encoding of `n` bytes.
pub open spec fn unpadded_len(n: nat) -> nat {
    (4 * n + 2) / 3
}

/// Relies on `base64::encode_config` with `URL_SAFE_NO_PAD`: four characters
/// of the URL-safe alphabet for each three bytes, two or three for a
/// remainder of one or two bytes, no padding.
#[verifier::external_body]
fn encode_url_safe(b: &[u8]) -> (r: String)
    requires
        b@.len() <= 0x1000_0000,
    ensures
        r@ == base64_url_of(b@),
        r@.len() == unpadded_len(b@.len() as nat),
        forall|i: int| 0 <= i < r@.len() ==> is_url_safe_char(#[trigger] r@[i]),
{
    base64::encode_config(b, base64::URL_SAFE_NO_PAD)
}

/// Relies on `uuid::Uuid::new_v4`: sixteen bytes, most of them random.
#[verifier::external_body]
fn random_uuid_bytes() -> (r: [u8; 16]) {
    *uuid::Uuid::new_v4().as_bytes()
}

/// The session identity made from the sixteen bytes `b`.
pub fn session_id_from_bytes(b: &[u8; 16]) -> (r: String)
    ensures
        r@ == base64_url_of(b@),
        r@.len() == SESSION_ID_LEN,
        forall|i: int| 0 <= i < r@.len() ==> is_url_safe_char(#[trigger] r@[i]),
{
    encode_url_safe(b.as_slice())
}

/// A fresh session identity: the encoding of sixteen random bytes, exactly
/// 22 characters long, all of them from the URL-safe alphabet.
pub fn new_session_id() -> (r: String)
    ensures
        exists|b: Seq<u8>| b.len() == SESSION_ID_BYTES && r@ == base64_url_of(b),
        r@.len() == SESSION_ID_LEN,
        forall|i: int| 0 <= i < r@.len() ==> is_url_safe_char(#[trigger] r@[i]),
{
    let bytes = random_uuid_bytes();
    let r = session_id_from_bytes(&bytes);
    proof {
        assert(bytes@.len() == SESSION_ID_BYTES);
    }
    r
}

} // verus!
