//! The checks made on an ingestion request before its event is stored.

use crate::errors::ApplicationError;
use crate::event::{json_member, string_member};
use vstd::prelude::*;

verus! {

/// Bodies announced larger than this many bytes are refused.
pub const MAX_BODY_BYTES: u64 = 1024;

/// Whether `pat` occurs in `s` starting at `i`.
pub open spec fn occurs_at(s: Seq<char>, pat: Seq<char>, i: int) -> bool {
    0 <= i && i + pat.len() <= s.len() && s.subrange(i, i + pat.len()) == pat
}

/// Whether `pat` occurs anywhere in `s`.
pub open spec fn occurs_in(s: Seq<char>, pat: Seq<char>) -> bool {
    exists|i: int| occurs_at(s, pat, i)
}

fn occurs_at_exec(s: &str, pat: &str, i: usize) -> (r: bool)
    requires
        i + pat@.len() <= s@.len(),
    ensures
        r == occurs_at(s@, pat@, i as int),
{
    let n = s.unicode_len();
    let m = pat.unicode_len();
    let mut k: usize = 0;
    while k < m
        invariant
            n == s@.len(),
            m == pat@.len(),
            i + m <= s@.len(),
            k <= m,
            forall|q: int| 0 <= q < k ==> s@[i + q] == pat@[q],
        decreases m - k,
    {
        if s.get_char(i + k) != pat.get_char(k) {
            assert(s@.subrange(i as int, i + m)[k as int] != pat@[k as int]);
            return false;
        }
        k += 1;
    }
    assert(s@.subrange(i as int, i + m) =~= pat@);
    true
}

/// Whether `pat` occurs in `s`.
pub fn contains_text(s: &str, pat: &str) -> (r: bool)
    ensures
        r == occurs_in(s@, pat@),
{
    let n = s.unicode_len();
    let m = pat.unicode_len();
    if m > n {
        return false;
    }
    let mut i: usize = 0;
    loop
        invariant
            n == s@.len(),
            m == pat@.len(),
            m <= n,
            i <= n - m,
            forall|q: int| 0 <= q < i ==> !occurs_at(s@, pat@, q),
        decreases n - m - i,
    {
        if occurs_at_exec(s, pat, i) {
            return true;
        }
        if i == n - m {
            return false;
        }
        i += 1;
    }
}

/// Whether a body whose size is at least `lower_bound` bytes is refused.
pub fn body_too_large(lower_bound: u64) -> (r: bool)
    ensures
        r == (lower_bound > MAX_BODY_BYTES),
{
    lower_bound > MAX_BODY_BYTES
}

/// Checks the request's content type: it must be present and name JSON or
/// plain text.
pub fn check_content_type(content_type: Option<&str>) -> (r: Result<(), ApplicationError>)
    ensures
        match content_type {
            None => r matches Err(ApplicationError::InvalidPayload(m)) && m@
                == "Missing Content-Type header"@,
            Some(ct) => if occurs_in(ct@, "application/json"@) || occurs_in(ct@, "text/plain"@) {
                r is Ok
            } else {
                r matches Err(ApplicationError::InvalidPayload(m)) && m@
                    == "Invalid Content-Type header"@
            },
        },
{
    match content_type {
        None => Err(ApplicationError::InvalidPayload(String::from_str("Missing Content-Type header"))),
        Some(ct) => if contains_text(ct, "application/json") || contains_text(ct, "text/plain") {
            Ok(())
        } else {
            Err(ApplicationError::InvalidPayload(String::from_str("Invalid Content-Type header")))
        },
    }
}

/// The tenant of an ingested payload: its `appId` string member.
pub fn recorded_by_of(payload: &str) -> (r: Result<String, ApplicationError>)
    ensures
        match json_member(payload@, "appId"@) {
            Some(Some(a)) => r matches Ok(s) && s@ == a,
            _ => r matches Err(ApplicationError::InvalidPayload(m)) && m@
                == "Missing 'recorded_by' field"@,
        },
{
    match string_member(payload, "appId") {
        Some(Some(a)) => Ok(a),
        _ => Err(ApplicationError::InvalidPayload(String::from_str("Missing 'recorded_by' field"))),
    }
}

} // verus!
