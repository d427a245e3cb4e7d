//! Programs of code mode: when they run, and what is told of them.

use crate::acp::{truncate_text, truncated};
use crate::json::{field, no_members, put, put_text, Json, Jv};
use crate::text::{is_blank, trim, trim_of};
use vstd::prelude::*;

verus! {

/// Why a program cannot run, if so. `has_time` tells that it is given time.
pub open spec fn program_problem(code: Seq<char>, has_time: bool, output_limit: nat) -> Option<
    Seq<char>,
> {
    if is_blank(code) {
        Some("code must be non-empty"@)
    } else if !has_time {
        Some("timeout must be > 0"@)
    } else if output_limit == 0 {
        Some("outputlimit must be >= 1"@)
    } else {
        None
    }
}

/// Checks that a program can run.
pub fn check_program(code: &str, has_time: bool, output_limit: usize) -> (r: Result<(), String>)
    ensures
        match program_problem(code@, has_time, output_limit as nat) {
            None => r is Ok,
            Some(e) => r matches Err(error) && error@ == e,
        },
{
    if trim(code).is_empty() {
        return Err("code must be non-empty".to_owned());
    }
    if !has_time {
        return Err("timeout must be > 0".to_owned());
    }
    if output_limit == 0 {
        return Err("outputlimit must be >= 1".to_owned());
    }
    Ok(())
}

/// What a program printed, as far as it is shown.
pub fn program_output(output: &str, output_limit: usize) -> (r: Json)
    ensures
        r@ == Jv::Object(
            Map::<Seq<char>, Jv>::empty().insert(
                "output"@,
                Jv::Text(truncated(output@, output_limit as nat)),
            ),
        ),
{
    let text = truncate_text(output, output_limit);
    let mut m = no_members();
    put_text(&mut m, "output", text.as_str());
    Json::Object(m)
}

/// The name of a run: the one that is given, or an identifier that is used
/// once.
pub fn run_name<'a>(run_id: Option<&'a str>, unique: &'a str) -> (r: &'a str)
    ensures
        r@ == match run_id {
            Some(s) => if is_blank(s@) {
                unique@
            } else {
                trim_of(s@)
            },
            None => unique@,
        },
{
    match run_id {
        Some(s) => {
            let t = trim(s);
            if t.is_empty() {
                unique
            } else {
                t
            }
        },
        None => unique,
    }
}

/// What is told of a run in a status.
pub open spec fn run_fields(id: Seq<char>, status: Seq<char>) -> Map<Seq<char>, Jv> {
    Map::<Seq<char>, Jv>::empty().insert("toolcall_id"@, Jv::Text(id)).insert(
        "runtime"@,
        Jv::Object(
            Map::<Seq<char>, Jv>::empty().insert("kind"@, Jv::Text("codemode"@)).insert(
                "id"@,
                Jv::Text(id),
            ).insert("status"@, Jv::Text(status)),
        ),
    ).insert("status"@, Jv::Text(status)).insert("done"@, Jv::Bool(true))
}

/// What is told of a run that ended.
pub open spec fn run_view(id: Seq<char>, outcome: Result<Jv, Seq<char>>) -> Jv {
    Jv::Object(
        match outcome {
            Ok(v) => run_fields(id, "completed_success"@).insert("result"@, v),
            Err(e) => run_fields(id, "completed_error"@).insert(
                "error"@,
                Jv::Text(
                    if e.len() == 0 {
                        "error"@
                    } else {
                        e
                    },
                ),
            ),
        },
    )
}

/// What is told of a run that ended.
pub fn run_output(id: &str, outcome: Result<Json, String>) -> (r: Json)
    ensures
        r@ == run_view(
            id@,
            match outcome {
                Ok(v) => Ok(v@),
                Err(e) => Err(e@),
            },
        ),
{
    let status = if outcome.is_ok() {
        "completed_success"
    } else {
        "completed_error"
    };
    let mut runtime = no_members();
    put_text(&mut runtime, "kind", "codemode");
    put_text(&mut runtime, "id", id);
    put_text(&mut runtime, "status", status);
    let mut m = no_members();
    put_text(&mut m, "toolcall_id", id);
    put(&mut m, "runtime", Json::Object(runtime));
    put_text(&mut m, "status", status);
    put(&mut m, "done", Json::Bool(true));
    match outcome {
        Ok(v) => put(&mut m, "result", v),
        Err(e) => if e.as_str().is_empty() {
            put_text(&mut m, "error", "error")
        } else {
            put(&mut m, "error", Json::Text(e))
        },
    }
    Json::Object(m)
}

/// How a run is listed.
pub fn run_list_item(id: &str, done: bool) -> (r: Json)
    ensures
        r@ == Jv::Object(
            Map::<Seq<char>, Jv>::empty().insert("id"@, Jv::Text(id@)).insert(
                "kind"@,
                Jv::Text("codemode"@),
            ).insert(
                "status"@,
                Jv::Text(
                    if done {
                        "completed_success"@
                    } else {
                        "running"@
                    },
                ),
            ).insert("done"@, Jv::Bool(done)),
        ),
{
    let mut m = no_members();
    put_text(&mut m, "id", id);
    put_text(&mut m, "kind", "codemode");
    put_text(
        &mut m,
        "status",
        if done {
            "completed_success"
        } else {
            "running"
        },
    );
    put(&mut m, "done", Json::Bool(done));
    Json::Object(m)
}

/// A program runs if and only if it has code, time and room for its output.
pub proof fn law_program_that_can_run(code: Seq<char>, has_time: bool, output_limit: nat)
    ensures
        program_problem(code, has_time, output_limit) is None <==> !is_blank(code) && has_time
            && output_limit > 0,
{
}

/// A run that is over says under its id what it gave, or what went wrong.
pub proof fn law_run_says_what_it_gave(id: Seq<char>, outcome: Result<Jv, Seq<char>>)
    ensures
        ({
            let r = run_view(id, outcome);
            &&& field(r, "toolcall_id"@) == Some(Jv::Text(id))
            &&& field(r, "done"@) == Some(Jv::Bool(true))
            &&& outcome matches Ok(v) ==> field(r, "result"@) == Some(v) && field(r, "status"@)
                == Some(Jv::Text("completed_success"@)) && field(r, "error"@) is None
            &&& outcome matches Err(e) ==> field(r, "status"@) == Some(
                Jv::Text("completed_error"@),
            ) && field(r, "result"@) is None && (e.len() > 0 ==> field(r, "error"@) == Some(
                Jv::Text(e),
            ))
            &&& field(r, "runtime"@) matches Some(t) && field(t, "id"@) == Some(Jv::Text(id))
                && field(t, "kind"@) == Some(Jv::Text("codemode"@))
        }),
{
    reveal_strlit("toolcall_id");
    reveal_strlit("runtime");
    reveal_strlit("status");
    reveal_strlit("done");
    reveal_strlit("result");
    reveal_strlit("error");
    reveal_strlit("id");
    reveal_strlit("kind");
    assert("toolcall_id"@.len() == 11);
    assert("runtime"@.len() == 7);
    assert("status"@.len() == 6 && "status"@[0] == 's');
    assert("result"@.len() == 6 && "result"@[0] == 'r');
    assert("done"@.len() == 4);
    assert("error"@.len() == 5);
    assert("id"@.len() == 2);
    assert("kind"@.len() == 4);
}

} // verus!
