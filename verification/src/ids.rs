//! Identifiers that are used once.

use crate::text::{cat2, cat3};
use vstd::prelude::*;

verus! {

/// Whether a character is a lower-case hexadecimal digit.
pub open spec fn is_hex(c: char) -> bool {
    ('0' <= c && c <= '9') || ('a' <= c && c <= 'f')
}

/// Whether a text is made of 32 hexadecimal digits.
pub open spec fn is_simple_id(s: Seq<char>) -> bool {
    &&& s.len() == 32
    &&& forall|i: int| 0 <= i < s.len() ==> is_hex(#[trigger] s[i])
}

/// Whether a hyphen stands at a place of a hyphenated identifier.
pub open spec fn is_hyphen_place(i: int) -> bool {
    i == 8 || i == 13 || i == 18 || i == 23
}

/// Whether a text is made of hexadecimal digits in five groups.
pub open spec fn is_hyphenated_id(s: Seq<char>) -> bool {
    &&& s.len() == 36
    &&& forall|i: int|
        0 <= i < s.len() ==> if is_hyphen_place(i) {
            #[trigger] s[i] == '-'
        } else {
            is_hex(s[i])
        }
}

/// A random identifier: `uuid::Uuid::new_v4`, printed without hyphens by
/// `uuid::fmt::Simple`. Its 128 bits are printed as 32 lower-case hexadecimal
/// digits; which ones is left to chance. The call panics where the system has
/// no random bytes to give.
#[verifier::external_body]
fn random_simple_id() -> (r: String)
    ensures
        is_simple_id(r@),
{
    uuid::Uuid::new_v4().simple().to_string()
}

/// A random identifier: `uuid::Uuid::new_v4`, printed with hyphens by
/// `uuid::fmt::Hyphenated`. Its 128 bits are printed as lower-case hexadecimal
/// digits in groups of 8, 4, 4, 4 and 12; which ones is left to chance. The
/// call panics where the system has no random bytes to give.
#[verifier::external_body]
fn random_hyphenated_id() -> (r: String)
    ensures
        is_hyphenated_id(r@),
{
    uuid::Uuid::new_v4().hyphenated().to_string()
}

/// A name for a new session.
pub fn new_session_id() -> (r: String)
    ensures
        is_hyphenated_id(r@),
{
    random_hyphenated_id()
}

/// A new identifier without hyphens.
pub fn new_unique_id() -> (r: String)
    ensures
        is_simple_id(r@),
{
    random_simple_id()
}

/// The name of a confirmation, from an identifier that is used once.
pub fn confirmation_id(unique: &str) -> (r: String)
    ensures
        r@ == "c_"@ + unique@,
{
    cat2("c_", unique)
}

/// A name for a new confirmation.
pub fn new_confirmation_id() -> (r: String)
    ensures
        exists|unique: Seq<char>| #[trigger] is_simple_id(unique) && r@ == "c_"@ + unique,
{
    let unique = random_simple_id();
    confirmation_id(unique.as_str())
}

/// A name for a new box of activity.
pub fn new_activity_id() -> (r: String)
    ensures
        exists|unique: Seq<char>|
            #[trigger] is_hyphenated_id(unique) && r@ == crate::activity::box_id(unique),
{
    let unique = random_hyphenated_id();
    cat2("runtime:activity:", unique.as_str())
}

/// The name of a run, from the time it began and an identifier that is used
/// once.
pub fn run_id(now: &str, unique: &str) -> (r: String)
    ensures
        r@ == crate::automation::sanitized(now@) + "-"@ + unique@,
{
    let stamp = crate::automation::sanitize_filename(now);
    cat3(stamp.as_str(), "-", unique)
}

/// A name for a new run.
pub fn new_run_id(now: &str) -> (r: String)
    ensures
        exists|unique: Seq<char>|
            #[trigger] is_simple_id(unique) && r@ == crate::automation::sanitized(now@) + "-"@
                + unique,
{
    let unique = random_simple_id();
    run_id(now, unique.as_str())
}

/// The secret that a channel is entered with: a prefix and two random
/// identifiers.
pub fn token(prefix: &str, first: &str, second: &str) -> (r: String)
    ensures
        r@ == prefix@ + first@ + second@,
{
    cat3(prefix, first, second)
}

/// A new secret for a channel.
pub fn new_token(prefix: &str) -> (r: String)
    ensures
        exists|first: Seq<char>, second: Seq<char>|
            #[trigger] is_simple_id(first) && #[trigger] is_simple_id(second) && r@ == prefix@
                + first + second,
        r@.len() == prefix@.len() + 64,
{
    let first = random_simple_id();
    let second = random_simple_id();
    token(prefix, first.as_str(), second.as_str())
}

} // verus!
