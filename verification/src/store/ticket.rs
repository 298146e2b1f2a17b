//! The shareable key, called a ticket.
//!
//! A ticket carries a public key and a display name. You send it to a friend
//! over any channel. It contains no secret. Its text is the prefix `wt1` and
//! the body in lowercase unpadded base32; the body is the format version, the
//! key and the name, as `postcard` lays them out.
use vstd::prelude::*;

use vstd::utf8::{encode_utf8, is_ascii_chars, is_ascii_chars_encode_utf8};

use crate::keys::{is_valid_public_key, valid_ed25519_key, EndpointId};
use crate::text::{
    append, is_ascii_alnum, ascii_alnum, lemma_trim_of_ascii, ascii_lower, ascii_upper, strip_spaces, decimal, decimal_string, chars_of, lowercase, push_all, starts_with, string_of, to_lowercase, to_uppercase, trim,
    trimmed, uppercase,
};

verus! {

/// The ticket format version this build writes and reads.
pub const TICKET_VERSION: u8 = 1;

/// The text that starts every ticket.
pub open spec fn prefix_lower() -> Seq<char> {
    seq!['w', 't', '1']
}

/// The prefix as a chat application may have reformatted it.
pub open spec fn prefix_upper() -> Seq<char> {
    seq!['W', 'T', '1']
}

/// The text `BASE32_NOPAD.encode` of `data-encoding` produces for `bytes`.
pub uninterp spec fn base32_encoded(bytes: Seq<u8>) -> Seq<char>;

/// The bytes `BASE32_NOPAD.decode` of `data-encoding` produces from the UTF-8
/// bytes of `text`, or nothing when `text` is not valid unpadded base32.
pub uninterp spec fn base32_decoded(text: Seq<char>) -> Option<Seq<u8>>;

/// A symbol of the unpadded base32 alphabet: `A` to `Z` and `2` to `7`.
pub open spec fn is_base32_symbol(c: char) -> bool {
    ('A' <= c && c <= 'Z') || ('2' <= c && c <= '7')
}

/// `data_encoding::BASE32_NOPAD.encode`: the base32 text of `bytes`, which
/// the contract names. It states what the crate documents and its source
/// shows: the text is `ceil(8n / 5)` symbols of the alphabet
/// `ABCDEFGHIJKLMNOPQRSTUVWXYZ234567`, and decoding it gives the bytes back.
/// The bound is the one `encode_len` asserts.
#[verifier::external_body]
fn base32_encode(bytes: &[u8]) -> (r: String)
    requires
        bytes@.len() <= usize::MAX / 512,
    ensures
        r@ == base32_encoded(bytes@),
        r@.len() == (8 * bytes@.len() + 4) / 5,
        forall|i: int| 0 <= i < r@.len() ==> is_base32_symbol(#[trigger] r@[i]),
        base32_decoded(r@) == Some(bytes@),
{
    data_encoding::BASE32_NOPAD.encode(bytes)
}

/// `data_encoding::BASE32_NOPAD.decode` on the UTF-8 bytes of `text`: the
/// decoded bytes, or nothing for text that is not valid base32, which the
/// contract names without stating. The bound on the UTF-8 length is the one
/// `decode_len` asserts.
#[verifier::external_body]
fn base32_decode(text: &str) -> (r: Option<Vec<u8>>)
    requires
        encode_utf8(text@).len() <= usize::MAX / 8,
    ensures
        r is Some <==> base32_decoded(text@) is Some,
        r matches Some(v) ==> v@ == base32_decoded(text@)->Some_0,
{
    data_encoding::BASE32_NOPAD.decode(text.as_bytes()).ok()
}

/// The bytes `postcard::to_allocvec` writes for the fields of a ticket body:
/// the format version, the key, and the name.
pub uninterp spec fn postcard_ticket_bytes(version: u8, key: Seq<u8>, name: Seq<char>) -> Seq<u8>;

/// The fields `postcard::from_bytes` reads from `bytes` as a ticket body, or
/// nothing when they do not hold one.
pub uninterp spec fn postcard_ticket_fields(bytes: Seq<u8>) -> Option<(u8, Seq<u8>, Seq<char>)>;

/// `postcard::to_allocvec` on the fields of a ticket body, which the contract
/// names. Its source writes the version as one byte, the 32 key bytes as they
/// are, then the name's UTF-8 length as a varint of at most ten bytes and the
/// UTF-8 bytes, at most four a character; into a growing vector it cannot
/// fail. It states that layout's first bytes and its length bound, and that
/// `postcard::from_bytes` reads the same fields back; the varint and UTF-8
/// bytes it leaves unsaid.
#[verifier::external_body]
fn postcard_encode_ticket(version: u8, key: [u8; 32], name: &str) -> (r: Vec<u8>)
    ensures
        r@ == postcard_ticket_bytes(version, key@, name@),
        r@.len() >= 33,
        r@.len() <= 43 + encode_utf8(name@).len(),
        r@[0] == version,
        r@.subrange(1, 33) == key@,
        postcard_ticket_fields(r@) == Some((version, key@, name@)),
{
    postcard::to_allocvec(&(version, key, name)).expect("writing to a vector cannot fail")
}

/// `postcard::from_bytes` reading the fields of a ticket body, which the
/// contract names: the version, the key and the name, or nothing when the
/// bytes are too short or the name is not UTF-8.
#[verifier::external_body]
fn postcard_decode_ticket(bytes: &[u8]) -> (r: Option<(u8, [u8; 32], String)>)
    ensures
        r is None <==> postcard_ticket_fields(bytes@) is None,
        r matches Some((v, k, n)) ==> postcard_ticket_fields(bytes@) == Some((v, k@, n@)),
{
    postcard::from_bytes::<(u8, [u8; 32], String)>(bytes).ok()
}

/// Why a ticket text was refused.
#[derive(Debug, Clone, Copy, PartialEq, Eq, Structural)]
pub enum TicketError {
    /// The text does not start with the ticket prefix.
    MissingPrefix,
    /// The body holds a character that is not base32.
    BadCharacter,
    /// The body is truncated or damaged.
    Damaged,
    /// The ticket is a format version this build does not read.
    Version(u8),
    /// The body does not hold a valid public key.
    BadKey,
}

/// The body of a ticket text, before it is decoded: the trimmed text after
/// the prefix, in either case, upper-cased.
pub open spec fn ticket_body_text(s: Seq<char>) -> Option<Seq<char>> {
    let t = trimmed(s);
    if t.len() >= 3 && t.subrange(0, 3) == prefix_lower() {
        Some(uppercase(t.subrange(3, t.len() as int)))
    } else if t.len() >= 3 && t.subrange(0, 3) == prefix_upper() {
        Some(uppercase(t.subrange(3, t.len() as int)))
    } else {
        None
    }
}

/// What a ticket's text decodes to, for text whose spaces at both ends are
/// already off and which is ASCII letters and digits: the prefix `wt1` in
/// either case, then the body in base32, in any case.
pub open spec fn ticket_decode_spec(t: Seq<char>) -> Result<Seq<u8>, TicketError> {
    if t.len() >= 3 && (t.subrange(0, 3) == prefix_lower() || t.subrange(0, 3) == prefix_upper()) {
        let body = ascii_upper(t.subrange(3, t.len() as int));
        if encode_utf8(body).len() > usize::MAX / 8 {
            Err(TicketError::Damaged)
        } else {
            match base32_decoded(body) {
                Some(b) => Ok(b),
                None => Err(TicketError::BadCharacter),
            }
        }
    } else {
        Err(TicketError::MissingPrefix)
    }
}

/// Reads the bytes a ticket text carries.
///
/// The text is trimmed and case is ignored, because a ticket travels through
/// chat applications that reformat text. A body too long to be any key is
/// refused as damaged.
pub fn ticket_body(s: &str) -> (r: Result<Vec<u8>, TicketError>)
    ensures
        ticket_body_text(s@) is None ==> r == Err::<Vec<u8>, TicketError>(
            TicketError::MissingPrefix,
        ),
        ticket_body_text(s@) matches Some(b) ==> {
            &&& encode_utf8(b).len() > usize::MAX / 8 ==> r == Err::<Vec<u8>, TicketError>(TicketError::Damaged)
            &&& (encode_utf8(b).len() <= usize::MAX / 8 && base32_decoded(b) is None) ==> r == Err::<
                Vec<u8>,
                TicketError,
            >(TicketError::BadCharacter)
            &&& (encode_utf8(b).len() <= usize::MAX / 8 && base32_decoded(b) is Some) ==> (match r {
                Ok(v) => v@ == base32_decoded(b)->Some_0,
                _ => false,
            })
        },
        ascii_alnum(strip_spaces(s@)) ==> match r {
            Ok(v) => ticket_decode_spec(strip_spaces(s@)) == Ok::<Seq<u8>, TicketError>(v@),
            Err(e) => ticket_decode_spec(strip_spaces(s@)) == Err::<Seq<u8>, TicketError>(e),
        },
{
    let t = chars_of(trim(s));
    proof {
        if ascii_alnum(strip_spaces(s@)) {
            lemma_trim_of_ascii(s@);
            assert(t@ == strip_spaces(s@));
            if t@.len() >= 3 {
                assert(ascii_alnum(t@.subrange(3, t@.len() as int)));
            }
        }
    }
    let lower: Vec<char> = vec!['w', 't', '1'];
    let upper: Vec<char> = vec!['W', 'T', '1'];
    assert(lower@ == prefix_lower());
    assert(upper@ == prefix_upper());
    if !starts_with(t.as_slice(), lower.as_slice()) && !starts_with(t.as_slice(), upper.as_slice()) {
        return Err(TicketError::MissingPrefix);
    }
    let mut rest: Vec<char> = Vec::new();
    let mut i: usize = 3;
    while i < t.len()
        invariant
            3 <= i <= t@.len(),
            rest@ == t@.subrange(3, i as int),
        decreases t@.len() - i,
    {
        rest.push(t[i]);
        i = i + 1;
        assert(rest@ =~= t@.subrange(3, i as int));
    }
    let body = to_uppercase(string_of(rest.as_slice()).as_str());
    if body.as_str().as_bytes().len() > usize::MAX / 8 {
        return Err(TicketError::Damaged);
    }
    match base32_decode(body.as_str()) {
        Some(bytes) => Ok(bytes),
        None => Err(TicketError::BadCharacter),
    }
}

/// The text of a ticket whose body is `bytes`.
pub open spec fn ticket_text_spec(bytes: Seq<u8>) -> Seq<char> {
    prefix_lower() + lowercase(base32_encoded(bytes))
}

/// Encodes a ticket body as a `wt1…` string.
pub fn ticket_text(bytes: &[u8]) -> (r: String)
    requires
        bytes@.len() <= usize::MAX / 512,
    ensures
        r@ == ticket_text_spec(bytes@),
        r@ == prefix_lower() + ascii_lower(base32_encoded(bytes@)),
        ascii_alnum(r@),
        ticket_decode_spec(r@) == Ok::<Seq<u8>, TicketError>(bytes@),
{
    let encoded = base32_encode(bytes);
    proof {
        assert(ascii_alnum(encoded@));
    }
    let lower = to_lowercase(encoded.as_str());
    proof {
        let e = encoded@;
        assert(ascii_upper(ascii_lower(e)) =~= e) by {
            assert forall|i: int| 0 <= i < e.len() implies ascii_upper(ascii_lower(e))[i] == e[i] by {
                assert(is_base32_symbol(e[i]));
            }
        }
        assert(ascii_alnum(ascii_lower(e))) by {
            assert forall|i: int| 0 <= i < e.len() implies is_ascii_alnum(#[trigger] ascii_lower(e)[i]) by {
                assert(is_base32_symbol(e[i]));
            }
        }
    }
    let mut out = String::new();
    let prefix: Vec<char> = vec!['w', 't', '1'];
    push_all(&mut out, prefix.as_slice());
    push_all(&mut out, chars_of(lower.as_str()).as_slice());
    proof {
        let e = encoded@;
        assert(out@.subrange(0, 3) =~= prefix_lower());
        assert(out@.subrange(3, out@.len() as int) =~= ascii_lower(e));
        assert(is_ascii_chars(ascii_lower(e))) by {
            assert forall|i: int| 0 <= i < ascii_lower(e).len() implies '\0' <= #[trigger] ascii_lower(e)[i] <= '\u{7f}' by {
                assert(is_base32_symbol(e[i]));
            }
        }
        assert(is_ascii_chars(ascii_upper(ascii_lower(e))));
        is_ascii_chars_encode_utf8(ascii_upper(ascii_lower(e)));
        assert(ascii_alnum(out@)) by {
            assert forall|i: int| 0 <= i < out@.len() implies is_ascii_alnum(#[trigger] out@[i]) by {
                if i >= 3 {
                    assert(out@[i] == ascii_lower(e)[i - 3]);
                }
            }
        }
    }
    out
}

/// A ticket's text reads the same in capitals: writing a `wt1` or `WT1`
/// text all in capitals, or all in small letters, does not change what it
/// decodes to. (A text whose prefix is mixed, like `Wt1`, is no ticket, and
/// capitals would make it one.)
pub proof fn lemma_ticket_case_does_not_matter(t: Seq<char>)
    requires
        ascii_alnum(t),
        t.len() >= 3,
        t.subrange(0, 3) == prefix_lower() || t.subrange(0, 3) == prefix_upper(),
    ensures
        ticket_decode_spec(ascii_upper(t)) == ticket_decode_spec(t),
        ticket_decode_spec(ascii_lower(t)) == ticket_decode_spec(t),
{
    let rest = t.subrange(3, t.len() as int);
    assert(ascii_upper(t).subrange(0, 3) =~= prefix_upper());
    assert(ascii_lower(t).subrange(0, 3) =~= prefix_lower());
    assert(ascii_upper(ascii_upper(t).subrange(3, t.len() as int)) =~= ascii_upper(rest)) by {
        assert forall|i: int| 0 <= i < rest.len() implies ascii_upper(ascii_upper(t).subrange(3, t.len() as int))[i] == ascii_upper(rest)[i] by {
            assert(is_ascii_alnum(t[i + 3]));
        }
    }
    assert(ascii_upper(ascii_lower(t).subrange(3, t.len() as int)) =~= ascii_upper(rest)) by {
        assert forall|i: int| 0 <= i < rest.len() implies ascii_upper(ascii_lower(t).subrange(3, t.len() as int))[i] == ascii_upper(rest)[i] by {
            assert(is_ascii_alnum(t[i + 3]));
        }
    }
}

/// `n` spaces.
pub open spec fn spaces(n: nat) -> Seq<char> {
    Seq::new(n, |i: int| ' ')
}

/// Spaces around a ticket's text are taken off before it is read, so a
/// ticket pasted with spaces around it reads the same.
pub proof fn lemma_spaces_around_a_ticket_do_not_matter(t: Seq<char>, before: nat, after: nat)
    requires
        ascii_alnum(t),
        t.len() > 0,
    ensures
        strip_spaces(spaces(before) + t + spaces(after)) == t,
        ascii_alnum(strip_spaces(spaces(before) + t + spaces(after))),
    decreases before + after,
{
    let s = spaces(before) + t + spaces(after);
    assert(is_ascii_alnum(t[0]));
    assert(is_ascii_alnum(t.last()));
    if before > 0 {
        assert(s[0] == ' ');
        assert(s.drop_first() =~= spaces((before - 1) as nat) + t + spaces(after));
        lemma_spaces_around_a_ticket_do_not_matter(t, (before - 1) as nat, after);
    } else if after > 0 {
        assert(s[0] == t[0]);
        assert(s.last() == ' ');
        assert(s.drop_last() =~= spaces(0) + t + spaces((after - 1) as nat));
        lemma_spaces_around_a_ticket_do_not_matter(t, 0, (after - 1) as nat);
    } else {
        assert(s =~= t);
        assert(s[0] == t[0]);
        assert(s.last() == t.last());
    }
}

/// The bytes a ticket text carries, or why it was refused: what `ticket_body`
/// returns.
pub open spec fn body_bytes(s: Seq<char>) -> Result<Seq<u8>, TicketError> {
    match ticket_body_text(s) {
        None => Err(TicketError::MissingPrefix),
        Some(b) => if encode_utf8(b).len() > usize::MAX / 8 {
            Err(TicketError::Damaged)
        } else {
            match base32_decoded(b) {
                Some(x) => Ok(x),
                None => Err(TicketError::BadCharacter),
            }
        },
    }
}

/// The key and name a ticket body holds, or why it was refused.
pub open spec fn ticket_fields(bytes: Seq<u8>) -> Result<(Seq<u8>, Seq<char>), TicketError> {
    match postcard_ticket_fields(bytes) {
        None => Err(TicketError::Damaged),
        Some((v, k, n)) => if v != TICKET_VERSION {
            Err(TicketError::Version(v))
        } else if !valid_ed25519_key(k) {
            Err(TicketError::BadKey)
        } else {
            Ok((k, n))
        },
    }
}

/// The key and name behind a body that was read, or the error that stopped it.
pub open spec fn then_fields(body: Result<Seq<u8>, TicketError>) -> Result<
    (Seq<u8>, Seq<char>),
    TicketError,
> {
    match body {
        Ok(b) => ticket_fields(b),
        Err(e) => Err(e),
    }
}

/// A ticket survives a round trip: a text that reads as a ticket, as every
/// text `Ticket::encode` writes does, reads as the same key and name in
/// capitals, in small letters, and with spaces around it.
pub proof fn lemma_ticket_round_trip(t: Seq<char>, before: nat, after: nat)
    requires
        ascii_alnum(t),
        t.len() >= 3,
        t.subrange(0, 3) == prefix_lower() || t.subrange(0, 3) == prefix_upper(),
    ensures
        ascii_alnum(strip_spaces(spaces(before) + ascii_upper(t) + spaces(after))),
        then_fields(ticket_decode_spec(strip_spaces(spaces(before) + ascii_upper(t) + spaces(after))))
            == then_fields(ticket_decode_spec(t)),
        ascii_alnum(strip_spaces(spaces(before) + ascii_lower(t) + spaces(after))),
        then_fields(ticket_decode_spec(strip_spaces(spaces(before) + ascii_lower(t) + spaces(after))))
            == then_fields(ticket_decode_spec(t)),
{
    lemma_ticket_case_does_not_matter(t);
    assert(ascii_alnum(ascii_upper(t))) by {
        assert forall|i: int| 0 <= i < t.len() implies is_ascii_alnum(#[trigger] ascii_upper(t)[i]) by {
            assert(is_ascii_alnum(t[i]));
        }
    }
    assert(ascii_alnum(ascii_lower(t))) by {
        assert forall|i: int| 0 <= i < t.len() implies is_ascii_alnum(#[trigger] ascii_lower(t)[i]) by {
            assert(is_ascii_alnum(t[i]));
        }
    }
    lemma_spaces_around_a_ticket_do_not_matter(ascii_upper(t), before, after);
    lemma_spaces_around_a_ticket_do_not_matter(ascii_lower(t), before, after);
}

/// A decoded ticket.
#[derive(Debug, Clone)]
pub struct Ticket {
    pub endpoint_id: EndpointId,
    pub name: String,
}

impl Ticket {
    /// Builds a ticket for an identity.
    pub fn new(endpoint_id: EndpointId, name: &str) -> (t: Ticket)
        ensures
            t.endpoint_id == endpoint_id,
            t.name@ == name@,
    {
        Ticket { endpoint_id, name: string_of(chars_of(name).as_slice()) }
    }

    /// The text `encode` writes for this ticket.
    pub open spec fn spec_encode(self) -> Seq<char> {
        ticket_text_spec(postcard_ticket_bytes(TICKET_VERSION, self.endpoint_id@, self.name@))
    }

    /// Encodes the ticket as a `wt1…` string: the current format version, the
    /// key and the name, in lowercase base32 after the prefix. The text reads
    /// back as the same key and name whenever the key is a valid public key.
    /// The bound on the name's UTF-8 length is where the base32 encoder
    /// would assert on the body.
    pub fn encode(&self) -> (r: String)
        requires
            encode_utf8(self.name@).len() <= usize::MAX / 512 - 43,
        ensures
            r@ == self.spec_encode(),
            ascii_alnum(r@),
            r@.len() >= 3 && r@.subrange(0, 3) == prefix_lower(),
            ticket_decode_spec(r@) == Ok::<Seq<u8>, TicketError>(
                postcard_ticket_bytes(TICKET_VERSION, self.endpoint_id@, self.name@),
            ),
            valid_ed25519_key(self.endpoint_id@) ==> then_fields(ticket_decode_spec(r@)) == Ok::<
                (Seq<u8>, Seq<char>),
                TicketError,
            >((self.endpoint_id@, self.name@)),
    {
        let bytes = postcard_encode_ticket(TICKET_VERSION, self.endpoint_id, self.name.as_str());
        let text = ticket_text(bytes.as_slice());
        assert(text@.subrange(0, 3) =~= prefix_lower());
        text
    }

    /// Decodes a `wt1…` string.
    ///
    /// The input is trimmed and case is ignored, because a ticket travels
    /// through chat applications that reformat text. A body that does not hold
    /// the fields is damaged; then the version and the key are checked.
    pub fn decode(s: &str) -> (r: Result<Ticket, TicketError>)
        ensures
            match r {
                Ok(t) => then_fields(body_bytes(s@)) == Ok::<(Seq<u8>, Seq<char>), TicketError>(
                    (t.endpoint_id@, t.name@),
                ),
                Err(e) => then_fields(body_bytes(s@)) == Err::<(Seq<u8>, Seq<char>), TicketError>(
                    e,
                ),
            },
            ascii_alnum(strip_spaces(s@)) ==> match r {
                Ok(t) => then_fields(ticket_decode_spec(strip_spaces(s@))) == Ok::<
                    (Seq<u8>, Seq<char>),
                    TicketError,
                >((t.endpoint_id@, t.name@)),
                Err(e) => then_fields(ticket_decode_spec(strip_spaces(s@))) == Err::<
                    (Seq<u8>, Seq<char>),
                    TicketError,
                >(e),
            },
    {
        let bytes = match ticket_body(s) {
            Ok(b) => b,
            Err(e) => return Err(e),
        };
        match postcard_decode_ticket(bytes.as_slice()) {
            None => Err(TicketError::Damaged),
            Some((version, key, name)) => Ticket::from_fields(version, key, name),
        }
    }

    /// Checks the fields a ticket body carried: the format version must be
    /// the one this build reads, and the key must be a valid public key.
    pub fn from_fields(version: u8, key: [u8; 32], name: String) -> (r: Result<Ticket, TicketError>)
        ensures
            version != TICKET_VERSION ==> r == Err::<Ticket, TicketError>(
                TicketError::Version(version),
            ),
            version == TICKET_VERSION && !valid_ed25519_key(key@) ==> r == Err::<
                Ticket,
                TicketError,
            >(TicketError::BadKey),
            version == TICKET_VERSION && valid_ed25519_key(key@) ==> (match r {
                Ok(t) => t.endpoint_id == key && t.name@ == name@,
                _ => false,
            }),
    {
        if version != TICKET_VERSION {
            return Err(TicketError::Version(version));
        }
        if !is_valid_public_key(&key) {
            return Err(TicketError::BadKey);
        }
        Ok(Ticket { endpoint_id: key, name })
    }
}


impl TicketError {
    /// What the user is told.
    pub open spec fn message_spec(self) -> Seq<char> {
        match self {
            TicketError::MissingPrefix => "a key starts with `wt1`"@,
            TicketError::BadCharacter => "the key contains a character that is not valid"@,
            TicketError::Damaged => "the key is truncated or damaged"@,
            TicketError::Version(v) => "the key is format version "@ + decimal(v as nat)
                + ", and this build reads version 1. Use a newer walkie."@,
            TicketError::BadKey => "the key does not contain a valid public key"@,
        }
    }

    /// What the user is told.
    pub fn message(&self) -> (r: String)
        ensures
            r@ == self.message_spec(),
    {
        let mut out = String::new();
        match self {
            TicketError::MissingPrefix => append(&mut out, "a key starts with `wt1`"),
            TicketError::BadCharacter => append(
                &mut out,
                "the key contains a character that is not valid",
            ),
            TicketError::Damaged => append(&mut out, "the key is truncated or damaged"),
            TicketError::Version(v) => {
                append(&mut out, "the key is format version ");
                append(&mut out, decimal_string(*v as u64).as_str());
                append(&mut out, ", and this build reads version 1. Use a newer walkie.");
            },
            TicketError::BadKey => append(&mut out, "the key does not contain a valid public key"),
        }
        out
    }
}

} // verus!
