//! What this library takes on trust from code that is not verified here.

use vstd::prelude::*;
use chrono::DateTime;
use regex::Regex;

verus! {

/// `String::push` appends one character to the end of the string.
pub assume_specification[ String::push ](s: &mut String, c: char)
    ensures
        final(s)@ == old(s)@.push(c),
;

/// The text chrono shows for the instant `nanos` nanoseconds after `secs`
/// seconds since the start of 1970 in UTC, or `None` where chrono has no
/// such instant.
pub uninterp spec fn utc_text(secs: int, nanos: int) -> Option<Seq<char>>;

/// Calls chrono's `DateTime::from_timestamp` and, where that gives an
/// instant, its `to_string`. The contract names the outcome `utc_text` and
/// claims one fact of it: the start of 1970 is an instant chrono has.
#[verifier::external_body]
pub(crate) fn render_utc(secs: i64, nanos: u32) -> (r: Option<String>)
    ensures
        r is Some <==> utc_text(secs as int, nanos as int) is Some,
        r matches Some(s) ==> s@ == utc_text(secs as int, nanos as int)->0,
        secs == 0 && nanos == 0 ==> r is Some,
{
    match DateTime::from_timestamp(secs, nanos) {
        Some(t) => Some(t.to_string()),
        None => None,
    }
}

/// What the regex crate makes of `text` when every match of `pattern` in it
/// is replaced by `rep`, or `None` where the crate rejects `pattern`.
pub uninterp spec fn regex_replaced(pattern: Seq<char>, text: Seq<char>, rep: Seq<char>) -> Option<
    Seq<char>,
>;

/// Calls `Regex::new` on `pattern` and, where that compiles, `replace_all`
/// on `text` with `rep`. The contract names the outcome `regex_replaced`
/// and claims nothing more of it.
#[verifier::external_body]
pub(crate) fn regex_replace_all(pattern: &str, text: &str, rep: &str) -> (r: Option<String>)
    ensures
        r is Some <==> regex_replaced(pattern@, text@, rep@) is Some,
        r matches Some(s) ==> s@ == regex_replaced(pattern@, text@, rep@)->0,
{
    match Regex::new(pattern) {
        Ok(re) => Some(re.replace_all(text, rep).into_owned()),
        Err(_) => None,
    }
}

} // verus!
