//! Identity management decisions.
//!
//! Identities map a channel-specific `provider:provider_id` pair to one
//! internal user.  The store that persists them lives with the caller; the
//! decisions — when to auto-create a user, when a link attempt conflicts,
//! and the short link codes users pass between channels — are here.

use vstd::prelude::*;
use vstd::string::*;

use crate::text::{has_prefix, split_on, views_of};

verus! {

/// The lowercase form of a text, a function of its characters alone.
pub uninterp spec fn lower_of(s: Seq<char>) -> Seq<char>;

/// Relies on `str::to_lowercase`: the lowercase mapping depends on the
/// characters alone, and an empty text stays empty.
#[verifier::external_body]
pub(crate) fn to_lowercase(s: &str) -> (r: String)
    ensures
        r@ == lower_of(s@),
        s@.len() == 0 ==> r@.len() == 0,
{
    s.to_lowercase()
}

/// The uppercase form of one character, within the basic alphabet.
pub open spec fn ascii_upper(c: char) -> char {
    if 'a' <= c && c <= 'z' {
        ((c as u32 - 32) as u8) as char
    } else {
        c
    }
}

/// Uppercases the basic alphabet, leaving everything else alone.
fn ascii_upper_string(s: &str) -> (r: String)
    ensures
        r@.len() == s@.len(),
        forall|i: int| 0 <= i < s@.len() ==> r@[i] == ascii_upper(#[trigger] s@[i]),
{
    let cs = crate::text::str_to_chars(s);
    let mut out: Vec<char> = Vec::new();
    let mut i: usize = 0;
    while i < cs.len()
        invariant
            i <= cs@.len(),
            cs@ == s@,
            out@.len() == i,
            forall|j: int| 0 <= j < i ==> out@[j] == ascii_upper(#[trigger] s@[j]),
        decreases cs@.len() - i,
    {
        let c = cs[i];
        let u = c as u32;
        if 97 <= u && u <= 122 {
            out.push(((u - 32) as u8) as char);
        } else {
            out.push(c);
        }
        i = i + 1;
    }
    crate::text::chars_to_string(&out)
}

/// A character of the uppercased URL-safe alphabet the random part of a
/// link code draws from.
pub open spec fn is_upper_link_char(c: char) -> bool {
    c == '_' || c == '-' || ('0' <= c && c <= '9') || ('A' <= c && c <= 'Z')
}

/// A short-lived cross-channel link code: `LINK-`, the first eight
/// characters of the user id, a dash, and eight random characters from
/// the uppercased URL-safe alphabet.
pub fn generate_link_code(user_id: &str) -> (r: String)
    requires
        user_id@.len() >= 8,
    ensures
        r@.len() == 22,
        has_prefix(r@, "LINK-"@ + user_id@.subrange(0, 8)),
        r@[13] == '-',
        forall|i: int| 14 <= i < 22 ==> is_upper_link_char(#[trigger] r@[i]),
{
    let random = crate::runner::nanoid_string(8);
    let code = ascii_upper_string(random.as_str());
    let prefix = user_id.substring_char(0, 8);
    let mut out = String::from_str("LINK-");
    proof {
        reveal_strlit("LINK-");
    }
    out.append(prefix);
    out.append("-");
    proof {
        reveal_strlit("-");
        assert("-"@.len() == 1);
        assert("-"@[0] == '-');
    }
    out.append(code.as_str());
    proof {
        assert(out@.subrange(0, 13) =~= "LINK-"@ + user_id@.subrange(0, 8));
        assert forall|i: int| 14 <= i < 22 implies is_upper_link_char(#[trigger] out@[i]) by {
            assert(out@[i] == code@[i - 14]);
            assert(code@[i - 14] == ascii_upper(random@[i - 14]));
            assert(crate::runner::url_safe_char(random@[i - 14]));
        }
    }
    out
}

/// What a link code names: it must open with `LINK-` and hold exactly
/// three dash-separated parts; the middle part, lowercased, is the user id
/// prefix.
pub open spec fn parsed_link_code(code: Seq<char>) -> Option<Seq<char>> {
    if !has_prefix(code, "LINK-"@) {
        Option::None
    } else {
        let parts = split_on(code, '-');
        if parts.len() != 3 {
            Option::None
        } else {
            Option::Some("user_"@ + lower_of(parts[1]))
        }
    }
}

/// Verifies and parses a link code.
pub fn parse_link_code(code: &str) -> (r: Option<String>)
    ensures
        match r {
            Option::Some(u) => parsed_link_code(code@) == Option::Some(u@),
            Option::None => parsed_link_code(code@) is None,
        },
{
    if !crate::text::str_has_prefix(code, "LINK-") {
        return Option::None;
    }
    let cs = crate::text::str_to_chars(code);
    let parts = crate::text::split_chars(&cs, '-');
    let ghost sparts = split_on(code@, '-');
    assert(sparts.len() == parts@.len());
    if parts.len() != 3 {
        return Option::None;
    }
    assert(views_of(parts@)[1] == parts@[1]@);
    let mid = crate::text::chars_to_string(&parts[1]);
    let lowered = to_lowercase(mid.as_str());
    let mut out = String::from_str("user_");
    out.append(lowered.as_str());
    Option::Some(out)
}

/// How a channel identity resolves.
pub enum ResolveDecision {
    Found { user_id: String },
    CreateAndLink { user_id: String },
    Refuse { error: String },
}

/// A fresh internal user id: `user_` and twelve random characters.
pub fn new_user_id() -> (r: String)
    ensures
        r@.len() == 17,
        has_prefix(r@, "user_"@),
{
    let random = crate::runner::nanoid_string(12);
    let mut out = String::from_str("user_");
    proof {
        reveal_strlit("user_");
    }
    out.append(random.as_str());
    assert(out@.subrange(0, 5) =~= "user_"@);
    out
}

/// Decides a resolution: a known identity resolves to its user; an
/// unknown one creates and links a fresh user when auto-creation is on,
/// and is refused otherwise.
pub fn resolve_decision(existing: Option<String>, auto_create: bool) -> (r: ResolveDecision)
    ensures
        existing matches Option::Some(u) ==> (r matches ResolveDecision::Found { user_id }
            && user_id@ == u@),
        existing is None && !auto_create ==> (r matches ResolveDecision::Refuse { error } && error@
            == "Identity not found and auto_create is disabled"@),
        existing is None && auto_create ==> (r matches ResolveDecision::CreateAndLink { user_id }
            && user_id@.len() == 17 && has_prefix(user_id@, "user_"@)),
{
    match existing {
        Option::Some(u) => ResolveDecision::Found { user_id: u },
        Option::None => {
            if auto_create {
                ResolveDecision::CreateAndLink { user_id: new_user_id() }
            } else {
                ResolveDecision::Refuse {
                    error: String::from_str("Identity not found and auto_create is disabled"),
                }
            }
        },
    }
}

/// Decides a link attempt: the user must exist, an identity owned by
/// another user conflicts, one already owned by this user is a no-op, and
/// anything else links.
pub fn link_decision(
    user_exists: bool,
    existing_owner: Option<String>,
    user_id: &str,
    provider: &str,
    provider_id: &str,
) -> (r: Result<bool, String>)
    ensures
        !user_exists ==> (r matches Result::Err(e) && e@ == "User not found: "@ + user_id@),
        user_exists ==> (existing_owner matches Option::Some(o) ==> (if o@ != user_id@ {
            r matches Result::Err(e) && e@ == "Identity "@ + provider@ + ":"@ + provider_id@
                + " is already linked to user "@ + o@
        } else {
            r == Result::<bool, String>::Ok(false)
        })),
        user_exists && existing_owner is None ==> r == Result::<bool, String>::Ok(true),
{
    if !user_exists {
        let mut e = String::from_str("User not found: ");
        e.append(user_id);
        return Result::Err(e);
    }
    match existing_owner {
        Option::Some(owner) => {
            if !crate::text::str_eq(owner.as_str(), user_id) {
                let mut e = String::from_str("Identity ");
                e.append(provider);
                e.append(":");
                e.append(provider_id);
                e.append(" is already linked to user ");
                e.append(owner.as_str());
                return Result::Err(e);
            }
            Result::Ok(false)
        },
        Option::None => Result::Ok(true),
    }
}

} // verus!
