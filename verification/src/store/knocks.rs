//! Knocks.
//!
//! A knock is a connection attempt from an endpoint you have not approved.
//! It is recorded, refused, and shown in the roster.
use vstd::prelude::*;

use crate::text::{
    chars_equal, chars_of, lowercase, starts_with, starts_with_spec, string_of, to_lowercase, trim,
    trimmed,
};

verus! {

/// What the accept loop should do with an inbound connection.
#[derive(Debug, Clone, Copy, PartialEq, Eq, Structural)]
pub enum Admission {
    /// An approved contact. Register the connection.
    Contact,
    /// Not approved. Record a knock and refuse.
    Knock,
    /// Rejected before. Drop it with no record and no user interface noise.
    Blocked,
}

/// Decides what to do with an inbound connection, from whether the endpoint
/// is a contact and, if it knocked before, whether it is blocked. A contact
/// is always let in; a blocked knock stays blocked.
pub fn admission(is_contact: bool, knock_blocked: Option<bool>) -> (r: Admission)
    ensures
        is_contact ==> r == Admission::Contact,
        !is_contact && knock_blocked == Some(true) ==> r == Admission::Blocked,
        !is_contact && knock_blocked != Some(true) ==> r == Admission::Knock,
{
    if is_contact {
        return Admission::Contact;
    }
    match knock_blocked {
        Some(true) => Admission::Blocked,
        _ => Admission::Knock,
    }
}

/// The name an approved knock becomes a contact under: the name given at
/// approval, else the name it claimed, else its short key.
pub fn approval_name(given: Option<&str>, claimed: Option<&str>, short_key: &str) -> (r: String)
    ensures
        r@ == match given {
            Some(g) => g@,
            None => match claimed {
                Some(c) => c@,
                None => short_key@,
            },
        },
{
    let chosen = match given {
        Some(g) => g,
        None => match claimed {
            Some(c) => c,
            None => short_key,
        },
    };
    string_of(chars_of(chosen).as_slice())
}

/// A waiting endpoint, as the lookup reads it: its key in lowercase hex, and
/// the name it claimed when it knocked.
pub struct KnockEntry {
    pub key_text: String,
    pub claimed: Option<String>,
}

/// True when the lowercase `needle` picks knock `k`: it starts the key, or,
/// when names count, it is the claimed name ignoring case.
pub open spec fn knock_matches(needle: Seq<char>, k: KnockEntry, by_name: bool) -> bool {
    starts_with_spec(k.key_text@, needle) || (by_name && k.claimed is Some && lowercase(
        k.claimed->Some_0@,
    ) == needle)
}

/// The position of the first knock the needle picks, if any.
pub open spec fn first_knock_match(ks: Seq<KnockEntry>, needle: Seq<char>, by_name: bool) -> Option<
    int,
> {
    if exists|i: int| 0 <= i < ks.len() && knock_matches(needle, #[trigger] ks[i], by_name) {
        Some(
            choose|i: int|
                0 <= i < ks.len() && knock_matches(needle, #[trigger] ks[i], by_name) && forall|
                    j: int,
                | 0 <= j < i ==> !knock_matches(needle, #[trigger] ks[j], by_name),
        )
    } else {
        None
    }
}

/// Finds the waiting endpoint that `who` names: the first whose key starts
/// with it, or, when `by_name` holds, whose claimed name it is. The needle is
/// trimmed and case does not matter.
pub fn find_waiting(knocks: &[KnockEntry], who: &str, by_name: bool) -> (r: Option<usize>)
    ensures
        r is Some <==> first_knock_match(knocks@, lowercase(trimmed(who@)), by_name) is Some,
        r matches Some(i) ==> i == first_knock_match(
            knocks@,
            lowercase(trimmed(who@)),
            by_name,
        )->Some_0,
{
    let lower = to_lowercase(trim(who));
    let needle = chars_of(lower.as_str());
    let mut i: usize = 0;
    while i < knocks.len()
        invariant
            i <= knocks@.len(),
            needle@ == lowercase(trimmed(who@)),
            forall|j: int| 0 <= j < i ==> !knock_matches(needle@, #[trigger] knocks@[j], by_name),
        decreases knocks@.len() - i,
    {
        let k = &knocks[i];
        let key = chars_of(k.key_text.as_str());
        let mut hit = starts_with(key.as_slice(), needle.as_slice());
        if !hit && by_name {
            match &k.claimed {
                Some(c) => {
                    let claimed = to_lowercase(c.as_str());
                    hit = chars_equal(chars_of(claimed.as_str()).as_slice(), needle.as_slice());
                },
                None => {},
            }
        }
        proof {
            assert(hit == knock_matches(needle@, knocks@[i as int], by_name));
        }
        if hit {
            proof {
                let c = first_knock_match(knocks@, needle@, by_name)->Some_0;
                if c < i {
                    assert(knock_matches(needle@, knocks@[c], by_name));
                } else if c > i {
                    assert(knock_matches(needle@, knocks@[i as int], by_name));
                }
            }
            return Some(i);
        }
        i = i + 1;
    }
    None
}

} // verus!
