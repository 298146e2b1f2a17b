//! Endpoint identities: 32 byte Ed25519 public keys.
use vstd::prelude::*;
use vstd::utf8::encode_utf8;

use crate::cli::update::{decode_hex, encode_hex, hex_decoded, hex_encoded, to_array_32};

verus! {

/// An endpoint's identity: the 32 bytes of its Ed25519 public key.
pub type EndpointId = [u8; 32];

/// True when `VerifyingKey::from_bytes` of `ed25519-dalek` accepts `bytes` as
/// a public key: they decompress to a point on the curve.
pub uninterp spec fn valid_ed25519_key(bytes: Seq<u8>) -> bool;

/// `ed25519_dalek::VerifyingKey::from_bytes`: whether the 32 bytes decompress
/// to a valid public key, which the contract names without stating.
#[verifier::external_body]
pub(crate) fn is_valid_public_key(bytes: &[u8; 32]) -> (r: bool)
    ensures
        r == valid_ed25519_key(bytes@),
{
    ed25519_dalek::VerifyingKey::from_bytes(bytes).is_ok()
}

/// The Ed25519 public key that belongs to a 32 byte secret key, as
/// `ed25519-dalek` derives it.
pub uninterp spec fn derived_public_key(secret: Seq<u8>) -> Seq<u8>;

/// `ed25519_dalek::SigningKey::from_bytes(secret).verifying_key()`: the public
/// half of a secret key, which the contract names without stating.
#[verifier::external_body]
pub(crate) fn public_key_of(secret: &[u8; 32]) -> (r: [u8; 32])
    ensures
        r@ == derived_public_key(secret@),
{
    ed25519_dalek::SigningKey::from_bytes(secret).verifying_key().to_bytes()
}

/// The identity that a secret key gives this endpoint: the public half of the
/// key.
pub fn endpoint_id_of(secret: &[u8; 32]) -> (r: EndpointId)
    ensures
        r@ == derived_public_key(secret@),
{
    public_key_of(secret)
}

/// An identity as the database stores it: its 32 bytes in lowercase hex.
pub fn key_text(id: &EndpointId) -> (r: String)
    ensures
        r@ == hex_encoded(id@),
{
    encode_hex(id)
}

/// The identity a stored key text holds: lowercase hex of exactly 32 bytes,
/// or nothing.
pub fn key_from_text(text: &str) -> (r: Option<EndpointId>)
    requires
        encode_utf8(text@).len() <= usize::MAX / 8,
    ensures
        r is Some <==> (hex_decoded(encode_utf8(text@)) is Some && hex_decoded(
            encode_utf8(text@),
        )->Some_0.len() == 32),
        r matches Some(k) ==> k@ == hex_decoded(encode_utf8(text@))->Some_0,
{
    match decode_hex(text.as_bytes()) {
        Some(bytes) => {
            if bytes.len() == 32 {
                Some(to_array_32(&bytes))
            } else {
                None
            }
        },
        None => None,
    }
}

/// True when two identities are the same key.
pub fn same_key(a: &EndpointId, b: &EndpointId) -> (r: bool)
    ensures
        r == (a@ == b@),
{
    let mut i: usize = 0;
    while i < 32
        invariant
            a@.len() == 32,
            b@.len() == 32,
            i <= 32,
            forall|j: int| 0 <= j < i ==> a@[j] == b@[j],
        decreases 32 - i,
    {
        if a[i] != b[i] {
            return false;
        }
        i = i + 1;
    }
    assert(a@ =~= b@);
    true
}

/// The lowercase hex digit for `n`, which is below 16.
pub open spec fn hex_digit(n: u8) -> char {
    if n < 10 {
        ('0' as u8 + n) as char
    } else {
        ('a' as u8 + n - 10) as char
    }
}

/// Lowercase hex of the bytes, two digits each.
pub open spec fn hex_of(bytes: Seq<u8>) -> Seq<char>
    decreases bytes.len(),
{
    if bytes.len() == 0 {
        Seq::empty()
    } else {
        hex_of(bytes.drop_last()) + seq![
            hex_digit(bytes.last() / 16),
            hex_digit(bytes.last() % 16),
        ]
    }
}

/// The short form of an identity shown to people: its first five bytes in
/// lowercase hex.
pub open spec fn short_id_spec(id: EndpointId) -> Seq<char> {
    hex_of(id@.subrange(0, 5))
}

fn hex_char(n: u8) -> (c: char)
    requires
        n < 16,
    ensures
        c == hex_digit(n),
{
    let digits: [char; 16] = [
        '0', '1', '2', '3', '4', '5', '6', '7', '8', '9', 'a', 'b', 'c', 'd', 'e', 'f',
    ];
    let c = digits[n as usize];
    assert(c == hex_digit(n)) by {
        assert(digits@ =~= seq![
            '0', '1', '2', '3', '4', '5', '6', '7', '8', '9', 'a', 'b', 'c', 'd', 'e', 'f',
        ]);
    }
    c
}

/// The short form of an identity: its first five bytes in lowercase hex.
pub fn short_id(id: &EndpointId) -> (r: String)
    ensures
        r@ == short_id_spec(*id),
{
    let mut out = String::new();
    let mut i: usize = 0;
    while i < 5
        invariant
            i <= 5,
            id@.len() == 32,
            out@ == hex_of(id@.subrange(0, i as int)),
        decreases 5 - i,
    {
        proof {
            assert(id@.subrange(0, i + 1).drop_last() =~= id@.subrange(0, i as int));
        }
        let b = id[i];
        crate::text::push_char(&mut out, hex_char(b / 16));
        crate::text::push_char(&mut out, hex_char(b % 16));
        i = i + 1;
        assert(out@ =~= hex_of(id@.subrange(0, i as int)));
    }
    out
}

} // verus!
