//! How models are asked to think, and the tool calls that they ask for.

use crate::json::{
    field, fields, json_read, lemma_json_views, no_members, parse_json, put, put_text, read_result,
    text_field, text_field_or, Json, Jv, Member,
};
use crate::subagent::or_null;
use crate::text::{cat2, is_blank, opt_text, str_eq, trim, trim_of};
use crate::turn::{call_views, CallView, ToolCall};
use vstd::prelude::*;

verus! {

/// How a DeepSeek model is asked to think.
#[derive(Debug, Clone, Copy)]
pub struct DeepSeekReasoning;

/// The part of a request that switches thinking on or off.
pub open spec fn thinking(kind: Seq<char>) -> Jv {
    Jv::Object(
        Map::<Seq<char>, Jv>::empty().insert(
            "thinking"@,
            Jv::Object(Map::<Seq<char>, Jv>::empty().insert("type"@, Jv::Text(kind))),
        ),
    )
}

/// The parts of a request that ask for an effort.
pub open spec fn effort(level: Seq<char>) -> Map<Seq<char>, Jv> {
    Map::<Seq<char>, Jv>::empty().insert("extra_body"@, thinking("enabled"@)).insert(
        "reasoning_effort"@,
        Jv::Text(level),
    )
}

/// What a request says for a reasoning mode; none stands for `auto`.
pub open spec fn kwargs_of(reasoning_mode: Seq<char>) -> Result<Map<Seq<char>, Jv>, Seq<char>> {
    let mode = trim_of(reasoning_mode);
    if mode.len() == 0 || mode == "auto"@ {
        Ok(Map::empty())
    } else if mode == "nonthink"@ {
        Ok(Map::<Seq<char>, Jv>::empty().insert("extra_body"@, thinking("disabled"@)))
    } else if mode == "high"@ {
        Ok(effort("high"@))
    } else if mode == "max"@ {
        Ok(effort("max"@))
    } else {
        Err("Unsupported DeepSeek reasoning_mode: "@ + mode)
    }
}

fn thinking_json(kind: &str) -> (r: Json)
    ensures
        r@ == thinking(kind@),
{
    let mut inner = no_members();
    put_text(&mut inner, "type", kind);
    let mut outer = no_members();
    put(&mut outer, "thinking", Json::Object(inner));
    Json::Object(outer)
}

impl DeepSeekReasoning {
    /// What a request says for a reasoning mode.
    pub fn reasoning_kwargs(&self, reasoning_mode: &str) -> (r: Result<Vec<Member>, String>)
        ensures
            match kwargs_of(reasoning_mode@) {
                Ok(m) => r matches Ok(v) && fields(v@) == m,
                Err(e) => r matches Err(error) && error@ == e,
            },
    {
        let mode = trim(reasoning_mode);
        let mut kwargs = no_members();
        if mode.is_empty() || str_eq(mode, "auto") {
            return Ok(kwargs);
        }
        if str_eq(mode, "nonthink") {
            put(&mut kwargs, "extra_body", thinking_json("disabled"));
            return Ok(kwargs);
        }
        if str_eq(mode, "high") || str_eq(mode, "max") {
            put(&mut kwargs, "extra_body", thinking_json("enabled"));
            put_text(&mut kwargs, "reasoning_effort", mode);
            return Ok(kwargs);
        }
        Err(cat2("Unsupported DeepSeek reasoning_mode: ", mode))
    }
}

/// The service that a model is reached through.
#[derive(Debug, Clone, Copy, PartialEq, Eq, Structural)]
pub enum ModelProvider {
    DeepSeek,
}

/// The service of a name.
pub fn parse_provider(provider: &str) -> (r: Result<ModelProvider, String>)
    ensures
        if trim_of(provider@) == "deepseek"@ {
            r matches Ok(p) && p is DeepSeek
        } else {
            r matches Err(e) && e@ == "Unsupported model provider: "@ + trim_of(provider@)
        },
{
    let name = trim(provider);
    if str_eq(name, "deepseek") {
        Ok(ModelProvider::DeepSeek)
    } else {
        Err(cat2("Unsupported model provider: ", name))
    }
}

/// Every reasoning mode that a session can have is known to DeepSeek.
pub proof fn law_every_session_mode_is_known(mode: crate::models::ReasoningMode)
    ensures
        kwargs_of(crate::models::reasoning_name(mode)) is Ok,
{
    reveal_strlit("auto");
    reveal_strlit("nonthink");
    reveal_strlit("high");
    reveal_strlit("max");
    assert(trim_of("auto"@) == "auto"@);
    assert(trim_of("nonthink"@) == "nonthink"@);
    assert(trim_of("high"@) == "high"@);
    assert(trim_of("max"@) == "max"@);
}

/// The arguments of a tool call by what was read of their text, and why they
/// could not be read; a blank text stands for no arguments.
pub open spec fn arguments_of(read: Result<Jv, Seq<char>>, raw: Seq<char>) -> (
    Map<Seq<char>, Jv>,
    Option<Seq<char>>,
) {
    match read {
        Ok(Jv::Object(m)) => (m, None),
        Ok(_) => (Map::empty(), Some("tool arguments must be an object"@)),
        Err(e) => if is_blank(raw) {
            (Map::empty(), None)
        } else {
            (Map::empty(), Some(e))
        },
    }
}

/// Takes the arguments of a tool call out of what was read of their text.
pub fn check_arguments(read: Result<Json, String>, raw: &str) -> (r: (Vec<Member>, Option<String>))
    ensures
        (fields(r.0@), opt_text(r.1)) == arguments_of(read_result(read), raw@),
{
    match read {
        Ok(Json::Object(m)) => (m, None),
        Ok(_) => (no_members(), Some("tool arguments must be an object".to_owned())),
        Err(e) => if trim(raw).is_empty() {
            (no_members(), None)
        } else {
            (no_members(), Some(e))
        },
    }
}

/// A tool call as a message of the model holds it.
pub open spec fn call_of(call: Jv) -> CallView {
    let function = or_null(field(call, "function"@));
    let raw = text_field_or(function, "arguments"@, ""@);
    let read = arguments_of(json_read(raw), raw);
    CallView {
        id: text_field_or(call, "id"@, ""@),
        name: text_field_or(function, "name"@, ""@),
        arguments: read.0,
        parse_error: read.1,
    }
}

fn read_call(call: &Json) -> (r: ToolCall)
    ensures
        r@ == call_of(call@),
{
    let nothing = Json::Null;
    let function = match call.get("function") {
        Some(f) => f,
        None => &nothing,
    };
    let raw = function.str_or("arguments", "");
    let (arguments, parse_error) = check_arguments(parse_json(raw), raw);
    ToolCall {
        id: call.str_or("id", "").to_owned(),
        name: function.str_or("name", "").to_owned(),
        arguments,
        parse_error,
    }
}

/// The tool calls that a message of the model holds.
pub open spec fn calls_of(message: Jv) -> Seq<CallView> {
    match field(message, "tool_calls"@) {
        Some(Jv::Array(items)) => Seq::new(items.len(), |i: int| call_of(items[i])),
        _ => Seq::empty(),
    }
}

/// Reads the tool calls that a message of the model holds.
pub fn parse_tool_calls(message: &Json) -> (r: Vec<ToolCall>)
    ensures
        call_views(r@) == calls_of(message@),
{
    let mut out: Vec<ToolCall> = Vec::new();
    if let Some(Json::Array(items)) = message.get("tool_calls") {
        proof {
            lemma_json_views(items@);
        }
        let mut i: usize = 0;
        while i < items.len()
            invariant
                i <= items@.len(),
                out@.len() == i,
                forall|k: int| 0 <= k < i ==> (#[trigger] out@[k])@ == call_of(items@[k]@),
            decreases items@.len() - i,
        {
            out.push(read_call(&items[i]));
            i += 1;
        }
    }
    proof {
        assert(call_views(out@) =~= calls_of(message@));
    }
    out
}

/// A reasoning mode is passed on as the provider wants it.
pub proof fn law_reasoning_is_passed_on(mode: Seq<char>)
    ensures
        is_blank(mode) || trim_of(mode) == "auto"@ ==> kwargs_of(mode) == Ok::<
            Map<Seq<char>, Jv>,
            Seq<char>,
        >(Map::empty()),
        trim_of(mode) == "nonthink"@ ==> kwargs_of(mode) == Ok::<Map<Seq<char>, Jv>, Seq<char>>(
            map![
                "extra_body"@ => Jv::Object(
                    map!["thinking"@ => Jv::Object(map!["type"@ => Jv::Text("disabled"@)])],
                ),
            ],
        ),
        trim_of(mode) == "high"@ || trim_of(mode) == "max"@ ==> kwargs_of(mode) == Ok::<
            Map<Seq<char>, Jv>,
            Seq<char>,
        >(
            map![
                "extra_body"@ => Jv::Object(
                    map!["thinking"@ => Jv::Object(map!["type"@ => Jv::Text("enabled"@)])],
                ),
                "reasoning_effort"@ => Jv::Text(trim_of(mode)),
            ],
        ),
        trim_of(mode).len() > 0 && trim_of(mode) != "auto"@ && trim_of(mode) != "nonthink"@
            && trim_of(mode) != "high"@ && trim_of(mode) != "max"@ ==> kwargs_of(mode) is Err,
{
    reveal_strlit("auto");
    reveal_strlit("nonthink");
    reveal_strlit("high");
    reveal_strlit("max");
    assert("auto"@.len() == 4 && "auto"@[0] == 'a');
    assert("nonthink"@.len() == 8);
    assert("high"@.len() == 4 && "high"@[0] == 'h');
    assert("max"@.len() == 3);
}

/// The arguments of a call are the object that was written; nothing at all stands for
/// no arguments, and anything else is an error.
pub proof fn law_arguments_are_the_object_written(read: Result<Jv, Seq<char>>, raw: Seq<char>)
    ensures
        read matches Ok(Jv::Object(m)) ==> arguments_of(read, raw) == (m, None::<Seq<char>>),
        read matches Ok(v) ==> (!(v is Object) ==> arguments_of(read, raw).1 is Some),
        read is Err && is_blank(raw) ==> arguments_of(read, raw).1 is None,
        read matches Err(e) ==> (!is_blank(raw) ==> arguments_of(read, raw).1 == Some(e)),
        !(read matches Ok(Jv::Object(_))) ==> arguments_of(read, raw).0.dom() == Set::<
            Seq<char>,
        >::empty(),
{
    assert(Map::<Seq<char>, Jv>::empty().dom() =~= Set::empty());
}

/// The calls of a message are read in their order, each with its own id, name and
/// arguments.
pub proof fn law_calls_are_read_in_order(message: Jv, items: Seq<Jv>, i: int)
    requires
        field(message, "tool_calls"@) == Some(Jv::Array(items)),
        0 <= i < items.len(),
    ensures
        calls_of(message).len() == items.len(),
        text_field(items[i], "id"@) matches Some(id) ==> calls_of(message)[i].id == id,
        field(items[i], "function"@) matches Some(f) ==> {
            &&& text_field(f, "name"@) matches Some(name) ==> calls_of(message)[i].name == name
            &&& text_field(f, "arguments"@) matches Some(raw) ==> {
                &&& json_read(raw) matches Ok(Jv::Object(m)) ==> calls_of(message)[i].arguments == m
                    && calls_of(message)[i].parse_error is None
                &&& json_read(raw) is Err && !is_blank(raw) ==> calls_of(
                    message,
                )[i].parse_error is Some
            }
        },
{
}

} // verus!
