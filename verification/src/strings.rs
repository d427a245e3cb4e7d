//! Normalised texts of fields.

use crate::json::{json_views, lemma_json_views, text_field_or, Json, Jv};
use crate::text::{cat2, is_blank, opt_str, opt_text, str_eq, trim, trim_of};
use vstd::prelude::*;

verus! {

/// A text without surrounding white space; a blank one is refused.
pub open spec fn required(value: Seq<char>, name: Seq<char>) -> Result<Seq<char>, Seq<char>> {
    if is_blank(value) {
        Err(name + " cannot be empty"@)
    } else {
        Ok(trim_of(value))
    }
}

/// An optional text without surrounding white space; a blank one is refused.
pub open spec fn optional(value: Option<Seq<char>>, name: Seq<char>) -> Result<
    Option<Seq<char>>,
    Seq<char>,
> {
    match value {
        None => Ok(None),
        Some(s) => match required(s, name) {
            Ok(t) => Ok(Some(t)),
            Err(e) => Err(e),
        },
    }
}

/// Takes the white space around a text off; a blank text is refused.
pub fn normalize_required_str(value: &str, field_name: &str) -> (r: Result<String, String>)
    ensures
        match r {
            Ok(s) => required(value@, field_name@) == Ok::<Seq<char>, Seq<char>>(s@),
            Err(e) => required(value@, field_name@) == Err::<Seq<char>, Seq<char>>(e@),
        },
{
    let parsed = trim(value);
    if parsed.is_empty() {
        Err(cat2(field_name, " cannot be empty"))
    } else {
        Ok(parsed.to_owned())
    }
}

/// Takes the white space around an optional text off; a blank text is refused.
pub fn normalize_optional_str(value: Option<&str>, field_name: &str) -> (r: Result<
    Option<String>,
    String,
>)
    ensures
        match r {
            Ok(s) => optional(opt_str(value), field_name@) == Ok::<Option<Seq<char>>, Seq<char>>(
                opt_text(s),
            ),
            Err(e) => optional(opt_str(value), field_name@) == Err::<Option<Seq<char>>, Seq<char>>(
                e@,
            ),
        },
{
    match value {
        None => Ok(None),
        Some(s) => match normalize_required_str(s, field_name) {
            Ok(t) => Ok(Some(t)),
            Err(e) => Err(e),
        },
    }
}

/// The text of a text block that holds one.
pub open spec fn block_text(v: Jv) -> Option<Seq<char>> {
    let text = trim_of(text_field_or(v, "text"@, ""@));
    if v is Object && trim_of(text_field_or(v, "type"@, ""@)) == "text"@ && text.len() > 0 {
        Some(text)
    } else {
        None
    }
}

/// The text of the first block from `i` on that holds one.
pub open spec fn first_block_text(items: Seq<Jv>, i: int) -> Option<Seq<char>>
    decreases items.len() - i,
{
    if i < 0 || i >= items.len() {
        None
    } else {
        match block_text(items[i]) {
            Some(s) => Some(s),
            None => first_block_text(items, i + 1),
        }
    }
}

/// The first text of an input: the input itself, or its first text block.
pub open spec fn first_text(v: Jv) -> Option<Seq<char>> {
    match v {
        Jv::Text(s) => if is_blank(s) {
            None
        } else {
            Some(trim_of(s))
        },
        Jv::Array(items) => first_block_text(items, 0),
        _ => None,
    }
}

/// The first text among blocks.
pub fn first_text_of_blocks(items: &Vec<Json>) -> (r: Option<String>)
    ensures
        opt_text(r) == first_block_text(json_views(items@), 0),
{
    let ghost all = json_views(items@);
    proof {
        lemma_json_views(items@);
    }
    let mut i: usize = 0;
    while i < items.len()
        invariant
            i <= items@.len(),
            all == json_views(items@),
            all.len() == items@.len(),
            forall|k: int| 0 <= k < items@.len() ==> #[trigger] all[k] == items@[k]@,
            first_block_text(all, i as int) == first_block_text(all, 0),
        decreases items@.len() - i,
    {
        let item = &items[i];
        proof {
            assert(all[i as int] == item@);
        }
        if item.as_object().is_some() && str_eq(trim(item.str_or("type", "")), "text") {
            let text = trim(item.str_or("text", ""));
            if !text.is_empty() {
                return Some(text.to_owned());
            }
        }
        i += 1;
    }
    None
}

/// The first non-empty text of a text or a list of blocks.
pub fn extract_first_text(value: &Json) -> (r: Option<String>)
    ensures
        opt_text(r) == first_text(value@),
{
    match value {
        Json::Text(s) => {
            let trimmed = trim(s.as_str());
            if trimmed.is_empty() {
                None
            } else {
                Some(trimmed.to_owned())
            }
        },
        Json::Array(items) => first_text_of_blocks(items),
        _ => None,
    }
}

/// A value that must be there is trimmed, and refused by its name where it is blank;
/// one that may be missing is only checked where it is there.
pub proof fn law_required_values_are_trimmed(value: Seq<char>, name: Seq<char>)
    ensures
        !is_blank(value) ==> required(value, name) == Ok::<Seq<char>, Seq<char>>(trim_of(value)),
        is_blank(value) ==> required(value, name) == Err::<Seq<char>, Seq<char>>(
            name + " cannot be empty"@,
        ),
        optional(None, name) == Ok::<Option<Seq<char>>, Seq<char>>(None),
        !is_blank(value) ==> optional(Some(value), name) == Ok::<Option<Seq<char>>, Seq<char>>(
            Some(trim_of(value)),
        ),
        is_blank(value) ==> optional(Some(value), name) is Err,
{
}

/// The first text of a message is its text, or that of its first text block that says
/// something.
pub proof fn law_first_text_is_the_first_said(items: Seq<Jv>, from: int, i: int, s: Seq<char>)
    requires
        0 <= from <= i < items.len(),
        text_field_or(items[i], "type"@, ""@) == "text"@,
        text_field_or(items[i], "text"@, ""@) == s,
        items[i] is Object,
        !is_blank(s),
        forall|k: int|
            from <= k < i ==> text_field_or(#[trigger] items[k], "type"@, ""@) == "image_url"@
                || is_blank(text_field_or(items[k], "text"@, ""@)),
    ensures
        first_block_text(items, from) == Some(trim_of(s)),
    decreases i - from,
{
    reveal_strlit("text");
    reveal_strlit("image_url");
    let t = "text"@;
    assert(t.len() == 4 && t[0] == 't' && t[3] == 't');
    crate::text::law_trim_keeps_what_is_between(Seq::empty(), t, Seq::empty());
    assert(Seq::<char>::empty() + t + Seq::<char>::empty() =~= t);
    assert(crate::text::trim_start_of(Seq::<char>::empty()).len() == 0);
    assert(trim_of(t) =~= t);
    let u = "image_url"@;
    assert(u.len() == 9 && u[0] == 'i' && u[8] == 'l');
    crate::text::law_trim_keeps_what_is_between(Seq::empty(), u, Seq::empty());
    assert(Seq::<char>::empty() + u + Seq::<char>::empty() =~= u);
    assert(trim_of(u) =~= u);
    if from < i {
        assert(block_text(items[from]) is None);
        law_first_text_is_the_first_said(items, from + 1, i, s);
    }
}

/// A message that is a text is that text.
pub proof fn law_text_is_its_own_first_text(s: Seq<char>)
    ensures
        !is_blank(s) ==> first_text(Jv::Text(s)) == Some(trim_of(s)),
        is_blank(s) ==> first_text(Jv::Text(s)) is None,
        first_text(Jv::Array(Seq::empty())) is None,
        first_text(Jv::Null) is None,
{
}

} // verus!
