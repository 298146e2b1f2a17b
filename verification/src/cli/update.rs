//! The decisions behind `swivel update`: reading a release version, deciding
//! whether a release is newer, and checking a download against the release
//! key; and behind the maintainer's release commands: making a signing key
//! and signing a release with it.
//!
//! The signature check is the point, not an ornament. This program opens
//! microphones. A compromised update channel is remote microphone access, so
//! an update must prove it was signed with the project's release key.
use vstd::prelude::*;
use vstd::array::*;

use vstd::utf8::encode_utf8;

use crate::keys::{derived_public_key, is_valid_public_key, public_key_of, same_key, valid_ed25519_key};
use crate::text::{trim, trimmed};
use crate::text::{chars_of, parse_u64, parse_u64_spec, push_all, string_of};

verus! {

/// This build's version, as the package declares it.
pub const CURRENT: &'static str = "0.1.0";

/// Why an update cannot go ahead.
#[derive(Debug, Clone, Copy, PartialEq, Eq, Structural)]
pub enum UpdateError {
    /// This build's own version is not three numbers.
    OwnVersionMalformed,
    /// The latest release tag is not a version.
    TagNotAVersion,
    /// The compiled-in release key is not lowercase hex.
    KeyNotHex,
    /// The compiled-in release key is not 32 bytes.
    KeyWrongLength,
    /// The compiled-in release key is not a valid Ed25519 point.
    KeyInvalid,
    /// The signature file is not lowercase hex.
    SignatureNotHex,
    /// The signature is not 64 bytes.
    SignatureWrongLength,
    /// The download does not match the release signature.
    SignatureMismatch,
    /// The signing key file is not lowercase hex.
    SigningKeyNotHex,
    /// The signing key is not 32 bytes.
    SigningKeyWrongLength,
    /// The signing key is not the one whose public half the binary embeds.
    SigningKeyMismatch,
}

/// The text after an optional leading `v`.
pub open spec fn strip_v(t: Seq<char>) -> Seq<char> {
    if t.len() > 0 && t[0] == 'v' {
        t.drop_first()
    } else {
        t
    }
}

/// The pieces of `t` between separators, as `str::split` yields them: there
/// is always at least one piece, and two adjacent separators give an empty
/// one.
pub open spec fn split_on(t: Seq<char>, sep: char) -> Seq<Seq<char>>
    decreases t.len(),
{
    if t.len() == 0 {
        seq![Seq::<char>::empty()]
    } else {
        let rest = split_on(t.drop_last(), sep);
        if t.last() == sep {
            rest.push(Seq::<char>::empty())
        } else {
            rest.update(rest.len() - 1, rest.last().push(t.last()))
        }
    }
}

/// What a version text means: `v0.2.1` or `0.2.1` is a triple, anything but
/// exactly three dot-separated numbers is nothing.
pub open spec fn parse_version_spec(text: Seq<char>) -> Option<(u64, u64, u64)> {
    let parts = split_on(strip_v(text), '.');
    if parts.len() == 3 && parse_u64_spec(parts[0]) is Some && parse_u64_spec(parts[1]) is Some
        && parse_u64_spec(parts[2]) is Some {
        Some(
            (
                parse_u64_spec(parts[0])->Some_0,
                parse_u64_spec(parts[1])->Some_0,
                parse_u64_spec(parts[2])->Some_0,
            ),
        )
    } else {
        None
    }
}

proof fn lemma_split_len(t: Seq<char>, sep: char)
    ensures
        split_on(t, sep).len() >= 1,
    decreases t.len(),
{
    if t.len() > 0 {
        lemma_split_len(t.drop_last(), sep);
    }
}

/// Splits `text` on `sep`.
fn split_chars(text: &[char], sep: char) -> (parts: Vec<Vec<char>>)
    ensures
        parts@.len() == split_on(text@, sep).len(),
        forall|i: int| 0 <= i < parts@.len() ==> #[trigger] parts@[i]@ == split_on(text@, sep)[i],
{
    let mut parts: Vec<Vec<char>> = Vec::new();
    let mut current: Vec<char> = Vec::new();
    let mut i: usize = 0;
    while i < text.len()
        invariant
            i <= text@.len(),
            parts@.len() + 1 == split_on(text@.subrange(0, i as int), sep).len(),
            forall|j: int|
                0 <= j < parts@.len() ==> #[trigger] parts@[j]@ == split_on(
                    text@.subrange(0, i as int),
                    sep,
                )[j],
            current@ == split_on(text@.subrange(0, i as int), sep).last(),
        decreases text@.len() - i,
    {
        let ghost before = split_on(text@.subrange(0, i as int), sep);
        proof {
            lemma_split_len(text@.subrange(0, i as int), sep);
            assert(text@.subrange(0, i + 1).drop_last() =~= text@.subrange(0, i as int));
        }
        let c = text[i];
        if c == sep {
            let finished = current;
            parts.push(finished);
            current = Vec::new();
        } else {
            current.push(c);
        }
        i = i + 1;
        proof {
            let after = split_on(text@.subrange(0, i as int), sep);
            assert forall|j: int| 0 <= j < parts@.len() implies #[trigger] parts@[j]@ == after[j] by {
                if j < parts@.len() - 1 || c != sep {
                    assert(parts@[j]@ == before[j]);
                }
            }
        }
    }
    let ghost all = split_on(text@.subrange(0, i as int), sep);
    parts.push(current);
    assert(text@.subrange(0, text@.len() as int) =~= text@);
    assert forall|j: int| 0 <= j < parts@.len() implies #[trigger] parts@[j]@ == split_on(
        text@,
        sep,
    )[j] by {
        if j < parts@.len() - 1 {
            assert(parts@[j]@ == all[j]);
        }
    }
    parts
}

/// `v0.2.1` or `0.2.1` to a comparable triple.
pub fn parse_version(text: &str) -> (r: Option<(u64, u64, u64)>)
    ensures
        r == parse_version_spec(text@),
{
    let chars = chars_of(text);
    let body: Vec<char> = if chars.len() > 0 && chars[0] == 'v' {
        let mut rest: Vec<char> = Vec::new();
        let mut i: usize = 1;
        while i < chars.len()
            invariant
                1 <= i <= chars@.len(),
                rest@ == chars@.subrange(1, i as int),
            decreases chars@.len() - i,
        {
            rest.push(chars[i]);
            i = i + 1;
            assert(rest@ =~= chars@.subrange(1, i as int));
        }
        assert(rest@ =~= chars@.drop_first());
        rest
    } else {
        chars
    };
    assert(body@ == strip_v(text@));
    let parts = split_chars(body.as_slice(), '.');
    if parts.len() != 3 {
        return None;
    }
    let major = match parse_u64(parts[0].as_slice()) {
        Some(v) => v,
        None => return None,
    };
    let minor = match parse_u64(parts[1].as_slice()) {
        Some(v) => v,
        None => return None,
    };
    let patch = match parse_u64(parts[2].as_slice()) {
        Some(v) => v,
        None => return None,
    };
    Some((major, minor, patch))
}

/// True when version `a` comes after version `b`, comparing the three
/// numbers in order as semantic versions do.
pub open spec fn version_after(a: (u64, u64, u64), b: (u64, u64, u64)) -> bool {
    a.0 > b.0 || (a.0 == b.0 && (a.1 > b.1 || (a.1 == b.1 && a.2 > b.2)))
}

/// True when version `a` comes after version `b`.
pub fn is_newer(a: (u64, u64, u64), b: (u64, u64, u64)) -> (r: bool)
    ensures
        r == version_after(a, b),
{
    if a.0 != b.0 {
        a.0 > b.0
    } else if a.1 != b.1 {
        a.1 > b.1
    } else {
        a.2 > b.2
    }
}

/// Whether the release tagged `tag` should replace this build, whose version
/// is `current`: the build's own version must parse, the tag must parse, and
/// the answer is true exactly when the tag is newer.
pub fn update_available(current: &str, tag: &str) -> (r: Result<bool, UpdateError>)
    ensures
        parse_version_spec(current@) is None ==> r == Err::<bool, UpdateError>(
            UpdateError::OwnVersionMalformed,
        ),
        parse_version_spec(current@) is Some && parse_version_spec(tag@) is None ==> r == Err::<
            bool,
            UpdateError,
        >(UpdateError::TagNotAVersion),
        parse_version_spec(current@) is Some && parse_version_spec(tag@) is Some ==> r == Ok::<
            bool,
            UpdateError,
        >(version_after(parse_version_spec(tag@)->Some_0, parse_version_spec(current@)->Some_0)),
{
    let now = match parse_version(current) {
        Some(v) => v,
        None => return Err(UpdateError::OwnVersionMalformed),
    };
    let latest = match parse_version(tag) {
        Some(v) => v,
        None => return Err(UpdateError::TagNotAVersion),
    };
    Ok(is_newer(latest, now))
}

/// Versions are ordered: no version comes after itself, and one of two
/// different versions always comes after the other, and never both ways.
pub proof fn lemma_version_order(a: (u64, u64, u64), b: (u64, u64, u64), c: (u64, u64, u64))
    ensures
        !version_after(a, a),
        a != b ==> (version_after(a, b) || version_after(b, a)),
        !(version_after(a, b) && version_after(b, a)),
        version_after(a, b) && version_after(b, c) ==> version_after(a, c),
{
}

/// The name of the signature file for an artifact: `.sig` appended, never
/// substituted, because `swivel` has no extension and a dotted name must not
/// lose part of itself.
pub fn file_with_sig_extension(file: &str) -> (r: String)
    ensures
        r@ == file@ + seq!['.', 's', 'i', 'g'],
{
    let mut out = string_of(chars_of(file).as_slice());
    let suffix: Vec<char> = vec!['.', 's', 'i', 'g'];
    push_all(&mut out, suffix.as_slice());
    assert(suffix@ =~= seq!['.', 's', 'i', 'g']);
    out
}

/// The value of a lowercase hex digit, given as its ASCII byte.
pub open spec fn hex_digit(b: u8) -> Option<u8> {
    if 48 <= b && b <= 57 {
        Some((b - 48) as u8)
    } else if 97 <= b && b <= 102 {
        Some((b - 87) as u8)
    } else {
        None
    }
}

/// What `HEXLOWER.decode` of `data-encoding` produces from `input`: for an
/// even number of the symbols `0` to `9` and `a` to `f`, one byte for each
/// pair, high half first; for anything else, nothing.
pub open spec fn hex_decoded(input: Seq<u8>) -> Option<Seq<u8>> {
    if input.len() % 2 == 0 && forall|i: int| 0 <= i < input.len() ==> (#[trigger] hex_digit(input[i])) is Some {
        Some(
            Seq::new(
                input.len() / 2,
                |k: int| (16 * hex_digit(input[2 * k])->Some_0 + hex_digit(input[2 * k + 1])->Some_0) as u8,
            ),
        )
    } else {
        None
    }
}

/// The lowercase hex symbol for a value below sixteen.
pub open spec fn hex_symbol(v: u8) -> char {
    if v < 10 {
        ((v as u32) + 48) as char
    } else {
        ((v as u32) + 87) as char
    }
}

/// What `HEXLOWER.encode` of `data-encoding` writes for `bytes`: two
/// lowercase symbols for each byte, high half first.
pub open spec fn hex_encoded(bytes: Seq<u8>) -> Seq<char> {
    Seq::new(
        2 * bytes.len(),
        |i: int|
            if i % 2 == 0 {
                hex_symbol(bytes[i / 2] / 16)
            } else {
                hex_symbol(bytes[i / 2] % 16)
            },
    )
}

/// True when `VerifyingKey::verify_strict` of `ed25519-dalek` accepts
/// `signature` over `message` for the public key `key`.
pub uninterp spec fn strict_signature_ok(key: Seq<u8>, message: Seq<u8>, signature: Seq<u8>) -> bool;

/// The 64 byte Ed25519 signature that `ed25519-dalek` makes of `message` with
/// the 32 byte secret key `secret`.
pub uninterp spec fn ed25519_signature(secret: Seq<u8>, message: Seq<u8>) -> Seq<u8>;

/// `data_encoding::HEXLOWER.decode`: the decoded bytes, or nothing for input
/// that is not lowercase hex of even length. The bound is the one
/// `decode_len` asserts.
#[verifier::external_body]
pub(crate) fn decode_hex(input: &[u8]) -> (r: Option<Vec<u8>>)
    requires
        input@.len() <= usize::MAX / 8,
    ensures
        r is Some <==> hex_decoded(input@) is Some,
        r matches Some(v) ==> v@ == hex_decoded(input@)->Some_0,
{
    data_encoding::HEXLOWER.decode(input).ok()
}

/// `data_encoding::HEXLOWER.encode`: two lowercase hex symbols a byte. The
/// bound is the one `encode_len` asserts.
#[verifier::external_body]
pub(crate) fn encode_hex(bytes: &[u8]) -> (r: String)
    requires
        bytes@.len() <= usize::MAX / 512,
    ensures
        r@ == hex_encoded(bytes@),
{
    data_encoding::HEXLOWER.encode(bytes)
}

/// `ed25519_dalek::VerifyingKey::verify_strict` on the key that `key` holds:
/// whether `signature` is a valid strict signature of `message`, which the
/// contract names without stating. A key that does not decompress verifies
/// nothing.
#[verifier::external_body]
fn verify_strict(key: &[u8; 32], message: &[u8], signature: &[u8; 64]) -> (r: bool)
    ensures
        r == (valid_ed25519_key(key@) && strict_signature_ok(key@, message@, signature@)),
{
    match ed25519_dalek::VerifyingKey::from_bytes(key) {
        Ok(k) => k.verify_strict(message, &ed25519_dalek::Signature::from_bytes(signature)).is_ok(),
        Err(_) => false,
    }
}

/// `ed25519_dalek::SigningKey::from_bytes(secret).sign(message)`: the
/// signature's 64 bytes, which the contract names without stating. Signing
/// with a `SigningKey` cannot fail.
#[verifier::external_body]
fn sign(secret: &[u8; 32], message: &[u8]) -> (s: [u8; 64])
    ensures
        s@ == ed25519_signature(secret@, message@),
{
    let key = ed25519_dalek::SigningKey::from_bytes(secret);
    let signature: ed25519_dalek::Signature = ed25519_dalek::Signer::sign(&key, message);
    signature.to_bytes()
}

/// `rand::random`: 32 bytes from the thread's generator. Every value is
/// possible, so the contract states nothing of them.
#[verifier::external_body]
fn random_secret() -> (r: [u8; 32]) {
    rand::random::<[u8; 32]>()
}

/// Copies 32 bytes into an array.
pub(crate) fn to_array_32(v: &Vec<u8>) -> (a: [u8; 32])
    requires
        v@.len() == 32,
    ensures
        a@ == v@,
{
    let mut a = array_fill_for_copy_types::<u8, 32>(0);
    let mut i: usize = 0;
    while i < 32
        invariant
            v@.len() == 32,
            i <= 32,
            a@.len() == 32,
            forall|j: int| 0 <= j < i ==> a@[j] == v@[j],
        decreases 32 - i,
    {
        a[i] = v[i];
        i = i + 1;
    }
    assert(a@ =~= v@);
    a
}

/// Copies 64 bytes into an array.
fn to_array_64(v: &Vec<u8>) -> (a: [u8; 64])
    requires
        v@.len() == 64,
    ensures
        a@ == v@,
{
    let mut a = array_fill_for_copy_types::<u8, 64>(0);
    let mut i: usize = 0;
    while i < 64
        invariant
            v@.len() == 64,
            i <= 64,
            a@.len() == 64,
            forall|j: int| 0 <= j < i ==> a@[j] == v@[j],
        decreases 64 - i,
    {
        a[i] = v[i];
        i = i + 1;
    }
    assert(a@ =~= v@);
    a
}

/// The release key that hex text holds, or why it holds none: it must be
/// lowercase hex of 32 bytes that decompress to a valid public key.
pub open spec fn release_key_spec(key_hex: Seq<char>) -> Result<Seq<u8>, UpdateError> {
    match hex_decoded(encode_utf8(key_hex)) {
        None => Err(UpdateError::KeyNotHex),
        Some(k) => if k.len() != 32 {
            Err(UpdateError::KeyWrongLength)
        } else if !valid_ed25519_key(k) {
            Err(UpdateError::KeyInvalid)
        } else {
            Ok(k)
        },
    }
}

/// The compiled-in release public key, read from its hex text.
pub fn release_key(key_hex: &str) -> (r: Result<[u8; 32], UpdateError>)
    requires
        encode_utf8(key_hex@).len() <= usize::MAX / 8,
    ensures
        match r {
            Ok(k) => release_key_spec(key_hex@) == Ok::<Seq<u8>, UpdateError>(k@),
            Err(e) => release_key_spec(key_hex@) == Err::<Seq<u8>, UpdateError>(e),
        },
{
    let key_bytes = match decode_hex(key_hex.as_bytes()) {
        Some(k) => k,
        None => return Err(UpdateError::KeyNotHex),
    };
    if key_bytes.len() != 32 {
        return Err(UpdateError::KeyWrongLength);
    }
    let key = to_array_32(&key_bytes);
    if !is_valid_public_key(&key) {
        return Err(UpdateError::KeyInvalid);
    }
    Ok(key)
}

/// What checking a download against the release key answers, from the hex
/// key, the hex signature and the downloaded bytes.
pub open spec fn verify_release_spec(key_hex: Seq<char>, signature_hex: Seq<char>, bytes: Seq<u8>) -> Result<
    (),
    UpdateError,
> {
    let sig = hex_decoded(encode_utf8(signature_hex));
    match release_key_spec(key_hex) {
        Err(e) => Err(e),
        Ok(key) => if sig is None {
            Err(UpdateError::SignatureNotHex)
        } else if sig->Some_0.len() != 64 {
            Err(UpdateError::SignatureWrongLength)
        } else if !strict_signature_ok(key, bytes, sig->Some_0) {
            Err(UpdateError::SignatureMismatch)
        } else {
            Ok(())
        },
    }
}

/// Checks a download against the release key.
///
/// The key is checked first, so a broken build says so before any download
/// is blamed.
pub fn verify_release(key_hex: &str, signature_hex: &str, bytes: &[u8]) -> (r: Result<
    (),
    UpdateError,
>)
    requires
        encode_utf8(key_hex@).len() <= usize::MAX / 8,
        encode_utf8(signature_hex@).len() <= usize::MAX / 8,
    ensures
        r == verify_release_spec(key_hex@, signature_hex@, bytes@),
{
    let key = match release_key(key_hex) {
        Ok(k) => k,
        Err(e) => return Err(e),
    };
    let sig_bytes = match decode_hex(signature_hex.as_bytes()) {
        Some(s) => s,
        None => return Err(UpdateError::SignatureNotHex),
    };
    if sig_bytes.len() != 64 {
        return Err(UpdateError::SignatureWrongLength);
    }
    let signature = to_array_64(&sig_bytes);
    if !verify_strict(&key, bytes, &signature) {
        return Err(UpdateError::SignatureMismatch);
    }
    Ok(())
}

/// What signing a release answers, from the signing key file's text, the
/// compiled-in release key and the file's bytes: the file's signature in
/// lowercase hex, made with the secret key that the trimmed key file holds in
/// hex, provided that key's public half is the release key. A release signed
/// with any other key would be refused by every client.
pub open spec fn release_signature_spec(key_file: Seq<char>, embedded_key_hex: Seq<char>, file: Seq<u8>) -> Result<
    Seq<char>,
    UpdateError,
> {
    match hex_decoded(encode_utf8(trimmed(key_file))) {
        None => Err(UpdateError::SigningKeyNotHex),
        Some(secret) => if secret.len() != 32 {
            Err(UpdateError::SigningKeyWrongLength)
        } else {
            match release_key_spec(embedded_key_hex) {
                Err(e) => Err(e),
                Ok(key) => if derived_public_key(secret) != key {
                    Err(UpdateError::SigningKeyMismatch)
                } else {
                    Ok(hex_encoded(ed25519_signature(secret, file)))
                },
            }
        },
    }
}

/// Signs a release file: the text for its `.sig` file.
pub fn release_signature(key_file: &str, embedded_key_hex: &str, file: &[u8]) -> (r: Result<
    String,
    UpdateError,
>)
    requires
        encode_utf8(trimmed(key_file@)).len() <= usize::MAX / 8,
        encode_utf8(embedded_key_hex@).len() <= usize::MAX / 8,
    ensures
        match r {
            Ok(s) => release_signature_spec(key_file@, embedded_key_hex@, file@) == Ok::<
                Seq<char>,
                UpdateError,
            >(s@),
            Err(e) => release_signature_spec(key_file@, embedded_key_hex@, file@) == Err::<
                Seq<char>,
                UpdateError,
            >(e),
        },
{
    let secret_bytes = match decode_hex(trim(key_file).as_bytes()) {
        Some(b) => b,
        None => return Err(UpdateError::SigningKeyNotHex),
    };
    if secret_bytes.len() != 32 {
        return Err(UpdateError::SigningKeyWrongLength);
    }
    let secret = to_array_32(&secret_bytes);
    let embedded = match release_key(embedded_key_hex) {
        Ok(k) => k,
        Err(e) => return Err(e),
    };
    let public = public_key_of(&secret);
    if !same_key(&public, &embedded) {
        return Err(UpdateError::SigningKeyMismatch);
    }
    let signature = sign(&secret, file);
    Ok(encode_hex(&signature))
}

/// The two texts a new signing key is kept and published as: the secret key
/// in lowercase hex, for the key file, and its public half in lowercase hex,
/// for the release key the binary embeds.
pub fn signing_key_texts(secret: [u8; 32]) -> (r: (String, String))
    ensures
        r.0@ == hex_encoded(secret@),
        r.1@ == hex_encoded(derived_public_key(secret@)),
{
    let public = public_key_of(&secret);
    (encode_hex(&secret), encode_hex(&public))
}

/// A new release signing key, as the texts `signing_key_texts` gives for a
/// secret drawn at random.
pub fn new_signing_key() -> (r: (String, String))
    ensures
        exists|secret: Seq<u8>|
            secret.len() == 32 && r.0@ == hex_encoded(secret) && r.1@ == hex_encoded(
                derived_public_key(secret),
            ),
{
    let secret = random_secret();
    signing_key_texts(secret)
}

/// True when `needle` occurs in `s` starting at `i`.
pub open spec fn occurs_at(s: Seq<char>, needle: Seq<char>, i: int) -> bool {
    0 <= i && i + needle.len() <= s.len() && s.subrange(i, i + needle.len()) == needle
}

/// The marker before a release tag in a release page address.
pub open spec fn tag_marker() -> Seq<char> {
    seq!['/', 't', 'a', 'g', '/']
}

/// The release tag a release address names: the text after its last
/// `/tag/`, when there is such text.
pub open spec fn tag_of_spec(s: Seq<char>) -> Option<Seq<char>> {
    if exists|i: int| #[trigger] occurs_at(s, tag_marker(), i) {
        let i = choose|i: int|
            #[trigger] occurs_at(s, tag_marker(), i) && forall|j: int|
                i < j ==> !#[trigger] occurs_at(s, tag_marker(), j);
        let t = s.subrange(i + 5, s.len() as int);
        if t.len() > 0 {
            Some(t)
        } else {
            None
        }
    } else {
        None
    }
}

fn marker_at(s: &Vec<char>, k: usize) -> (r: bool)
    requires
        k + 5 <= s@.len(),
    ensures
        r == occurs_at(s@, tag_marker(), k as int),
{
    let marker: [char; 5] = ['/', 't', 'a', 'g', '/'];
    assert(marker@ =~= tag_marker());
    let n = s.len();
    let mut c: usize = 0;
    while c < 5
        invariant
            n == s@.len(),
            k + 5 <= s@.len(),
            c <= 5,
            marker@ == tag_marker(),
            forall|d: int| 0 <= d < c ==> s@[k + d] == tag_marker()[d],
        decreases 5 - c,
    {
        if s[k + c] != marker[c] {
            proof {
                if occurs_at(s@, tag_marker(), k as int) {
                    assert(s@.subrange(k as int, k + 5)[c as int] == tag_marker()[c as int]);
                }
            }
            return false;
        }
        c = c + 1;
    }
    assert(s@.subrange(k as int, k + 5) =~= tag_marker());
    true
}

/// The start of the last marker in `s`, if any.
fn last_marker(s: &Vec<char>) -> (r: Option<usize>)
    ensures
        r is None ==> forall|i: int| !#[trigger] occurs_at(s@, tag_marker(), i),
        r matches Some(k) ==> occurs_at(s@, tag_marker(), k as int) && forall|j: int|
            k < j ==> !#[trigger] occurs_at(s@, tag_marker(), j),
{
    if s.len() < 5 {
        return None;
    }
    let mut i: usize = s.len() - 4;
    while i > 0
        invariant
            s@.len() >= 5,
            i <= s@.len() - 4,
            forall|j: int| i <= j ==> !#[trigger] occurs_at(s@, tag_marker(), j),
        decreases i,
    {
        if marker_at(s, i - 1) {
            return Some(i - 1);
        }
        i = i - 1;
    }
    None
}

proof fn lemma_last_marker_is_chosen(s: Seq<char>, k: int)
    requires
        occurs_at(s, tag_marker(), k),
        forall|j: int| k < j ==> !#[trigger] occurs_at(s, tag_marker(), j),
    ensures
        tag_of_spec(s) == (if k + 5 < s.len() {
            Some(s.subrange(k + 5, s.len() as int))
        } else {
            None::<Seq<char>>
        }),
{
    let w = choose|w: int|
        #[trigger] occurs_at(s, tag_marker(), w) && forall|j: int| w < j ==> !#[trigger] occurs_at(s, tag_marker(), j);
    assert(occurs_at(s, tag_marker(), w));
    if w < k {
        assert(!occurs_at(s, tag_marker(), k));
    } else if w > k {
        assert(!occurs_at(s, tag_marker(), w));
    }
}

/// The release tag that the address of the latest release names, from the
/// redirect the release host answers with; white space around it is
/// ignored. `None` when it names no release.
pub fn tag_from_redirect(redirect: &str) -> (r: Option<String>)
    ensures
        r is Some <==> tag_of_spec(crate::text::trimmed(redirect@)) is Some,
        r matches Some(t) ==> t@ == tag_of_spec(crate::text::trimmed(redirect@))->Some_0,
{
    let s = chars_of(crate::text::trim(redirect));
    match last_marker(&s) {
        None => None,
        Some(k) => {
            proof {
                lemma_last_marker_is_chosen(s@, k as int);
            }
            let n = s.len();
            assert(k + 5 <= n);
            let mut tag: Vec<char> = Vec::new();
            let mut p: usize = k + 5;
            while p < s.len()
                invariant
                    k + 5 <= p <= s@.len(),
                    tag@ == s@.subrange(k + 5, p as int),
                decreases s@.len() - p,
            {
                tag.push(s[p]);
                p = p + 1;
                assert(tag@ =~= s@.subrange(k + 5, p as int));
            }
            if tag.len() == 0 {
                None
            } else {
                Some(string_of(tag.as_slice()))
            }
        },
    }
}

} // verus!
