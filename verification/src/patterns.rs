//! Regular expressions.

use vstd::prelude::*;

verus! {

/// The pattern of kebab-case names.
pub const KEBAB_CASE: &'static str = r"^[a-z0-9]+(?:-[a-z0-9]+)*$";

/// Whether a character may stand in a kebab-case name besides the hyphen.
pub open spec fn is_name_char(c: char) -> bool {
    'a' <= c <= 'z' || '0' <= c <= '9'
}

/// Whether a name is kebab-case: words of lower case letters and digits with
/// single hyphens between them.
pub open spec fn is_kebab(s: Seq<char>) -> bool {
    &&& s.len() > 0
    &&& is_name_char(s[0])
    &&& is_name_char(s.last())
    &&& forall|i: int| 0 <= i < s.len() ==> is_name_char(#[trigger] s[i]) || s[i] == '-'
    &&& forall|i: int|
        0 <= i < s.len() - 1 ==> is_name_char(#[trigger] s[i]) || is_name_char(s[i + 1])
}

/// Whether `regex::Regex::is_match` finds the pattern in the text; `None`
/// where `regex::Regex::new` refuses the pattern.
pub uninterp spec fn regex_match(pattern: Seq<char>, text: Seq<char>) -> Option<bool>;

/// `regex::Regex::new` compiles the pattern and `is_match` tells whether it
/// matches anywhere in the text; both depend on their arguments alone. The
/// pattern of kebab-case names is accepted, and as it is anchored at both ends
/// it matches where the whole text is such a name.
#[verifier::external_body]
pub(crate) fn regex_is_match(pattern: &str, text: &str) -> (r: Option<bool>)
    ensures
        r == regex_match(pattern@, text@),
        pattern@ == KEBAB_CASE@ ==> r == Some(is_kebab(text@)),
{
    match regex::Regex::new(pattern) {
        Ok(compiled) => Some(compiled.is_match(text)),
        Err(_) => None,
    }
}

} // verus!
