//! What the bytes and texts of configuration files stand for.

use crate::file_edit::utf8_text;
use crate::json::{
    fields, is_read_as, json_read, no_members, parse_json, parse_yaml, pretty_json, pretty_text,
    read_result, reads_back, tree, yaml_read, Json, Jv, Member,
};
use crate::text::{cat2, cat3, chars_of, is_blank, string_from, trim};
use vstd::prelude::*;
use vstd::utf8::{decode_utf8, valid_utf8};

verus! {

/// A text without a byte order mark in front.
pub open spec fn unmarked(s: Seq<char>) -> Seq<char> {
    if s.len() > 0 && s[0] == '\u{feff}' {
        s.skip(1)
    } else {
        s
    }
}

/// The text of a file; `display` names the file in the error.
pub fn decode_utf8_text(bytes: &Vec<u8>, display: &str) -> (r: Result<String, String>)
    ensures
        if valid_utf8(bytes@) {
            r matches Ok(s) && s@ == unmarked(decode_utf8(bytes@))
        } else {
            r matches Err(e) && e@ == "File is not UTF-8: "@ + display@
                + ". On Windows, save this file as UTF-8."@
        },
{
    match utf8_text(bytes) {
        None => Err(
            cat3("File is not UTF-8: ", display, ". On Windows, save this file as UTF-8."),
        ),
        Some(text) => {
            let v = chars_of(text.as_str());
            if v.len() > 0 && v[0] == '\u{feff}' {
                proof {
                    assert(v@.subrange(1, v@.len() as int) =~= v@.skip(1));
                }
                Ok(string_from(&v, 1, v.len()))
            } else {
                Ok(text)
            }
        },
    }
}

/// What the text of a JSON file holds, by what was read of it: an object.
pub open spec fn json_object(read: Result<Jv, Seq<char>>, display: Seq<char>) -> Result<
    Map<Seq<char>, Jv>,
    Seq<char>,
> {
    match read {
        Err(e) => Err("parse JSON in "@ + display + ": "@ + e),
        Ok(Jv::Object(m)) => Ok(m),
        Ok(_) => Err("Invalid JSON root in "@ + display + ": must be object"@),
    }
}

/// What reading an object gave.
pub open spec fn object_result(r: Result<Vec<Member>, String>) -> Result<
    Map<Seq<char>, Jv>,
    Seq<char>,
> {
    match r {
        Ok(m) => Ok(fields(m@)),
        Err(e) => Err(e@),
    }
}

/// Takes the object out of what was read of a JSON file.
pub fn check_json_root(read: Result<Json, String>, display: &str) -> (r: Result<
    Vec<Member>,
    String,
>)
    ensures
        object_result(r) == json_object(read_result(read), display@),
{
    match read {
        Err(e) => Err(cat2(cat3("parse JSON in ", display, ": ").as_str(), e.as_str())),
        Ok(Json::Object(m)) => Ok(m),
        Ok(_) => Err(cat3("Invalid JSON root in ", display, ": must be object")),
    }
}

/// Reads the object of a JSON file; `display` names the file in an error.
pub fn read_json_object(text: &str, display: &str) -> (r: Result<Vec<Member>, String>)
    ensures
        object_result(r) == json_object(json_read(text@), display@),
{
    check_json_root(parse_json(text), display)
}

/// The text that a JSON file gets for a value.
pub fn json_file_text(payload: &Json) -> (r: String)
    ensures
        r@ == pretty_text(tree(*payload)),
        reads_back(tree(*payload)) ==> is_read_as(r@, payload@),
{
    pretty_json(payload)
}

/// An object that is written to a JSON file is the object of the file.
pub proof fn law_written_object_is_read_back(
    text: Seq<char>,
    payload: Map<Seq<char>, Jv>,
    display: Seq<char>,
)
    requires
        is_read_as(text, Jv::Object(payload)),
    ensures
        json_object(json_read(text), display) == Ok::<Map<Seq<char>, Jv>, Seq<char>>(payload),
{
}

/// What the text of a YAML file holds, by what was read of it: an object;
/// nothing stands for an empty one.
pub open spec fn yaml_object(read: Result<Jv, Seq<char>>, display: Seq<char>) -> Result<
    Map<Seq<char>, Jv>,
    Seq<char>,
> {
    match read {
        Err(e) => Err("parse YAML in "@ + display + ": "@ + e),
        Ok(Jv::Null) => Ok(Map::empty()),
        Ok(Jv::Object(m)) => Ok(m),
        Ok(_) => Err("Invalid YAML root in "@ + display + ": must be object"@),
    }
}

/// Takes the object out of what was read of a YAML file.
pub fn check_yaml_root(read: Result<Json, String>, display: &str) -> (r: Result<
    Vec<Member>,
    String,
>)
    ensures
        object_result(r) == yaml_object(read_result(read), display@),
{
    match read {
        Err(e) => Err(cat2(cat3("parse YAML in ", display, ": ").as_str(), e.as_str())),
        Ok(Json::Null) => Ok(no_members()),
        Ok(Json::Object(m)) => Ok(m),
        Ok(_) => Err(cat3("Invalid YAML root in ", display, ": must be object")),
    }
}

/// Reads the object of a YAML file; a blank file holds an empty one. `display`
/// names the file in an error.
pub fn read_yaml_object(text: &str, display: &str) -> (r: Result<Vec<Member>, String>)
    ensures
        object_result(r) == if is_blank(text@) {
            Ok(Map::empty())
        } else {
            yaml_object(yaml_read(text@), display@)
        },
{
    if trim(text).is_empty() {
        return Ok(no_members());
    }
    check_yaml_root(parse_yaml(text), display)
}

/// A mark in front of a text is not part of it; nothing else is cut off.
pub proof fn law_only_the_mark_is_cut_off(s: Seq<char>)
    ensures
        unmarked(seq!['\u{feff}'] + s) == s,
        s.len() > 0 && s[0] != '\u{feff}' ==> unmarked(s) == s,
        unmarked(Seq::empty()).len() == 0,
{
    assert((seq!['\u{feff}'] + s).skip(1) =~= s);
}

/// A settings file is an object, or nothing where it may be; any other is refused.
pub proof fn law_settings_are_objects(read: Result<Jv, Seq<char>>, display: Seq<char>)
    ensures
        read matches Ok(Jv::Object(m)) ==> json_object(read, display) == Ok::<
            Map<Seq<char>, Jv>,
            Seq<char>,
        >(m) && yaml_object(read, display) == Ok::<Map<Seq<char>, Jv>, Seq<char>>(m),
        read matches Ok(v) ==> (!(v is Object) ==> json_object(read, display) is Err),
        read matches Ok(v) ==> (!(v is Object) && !(v is Null) ==> yaml_object(
            read,
            display,
        ) is Err),
        read matches Ok(Jv::Null) ==> yaml_object(read, display) == Ok::<
            Map<Seq<char>, Jv>,
            Seq<char>,
        >(Map::empty()),
        read is Err ==> json_object(read, display) is Err && yaml_object(read, display) is Err,
{
}

} // verus!
