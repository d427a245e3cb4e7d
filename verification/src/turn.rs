//! How a prompt is worked on: turns of the model, and the tool calls of a
//! turn.

use crate::constants::{
    cancelled_output_tree, cancelled_output_view, cancelled_tool_output, STOP_CANCELLED,
    STOP_COMPLETED, STOP_MAX_TURNS,
};
use crate::json::{
    clone_members, compact_json, compact_text, field, fields, json_views, lemma_json_views,
    lemma_json_views_push, lemma_member, member_of, no_members, put, put_text, tree, Json, Jv, Member,
};
use crate::manager::{ConversationContextManager, ConversationView};
use crate::policy::{
    mode_error, mode_of, resolve_permission_decision, resolve_tool_policy, tool_action,
    ActionView, ToolPolicyAction, ToolPolicyConfig, PERMISSION_ALLOW_ONCE, PERMISSION_CANCELLED,
    PERMISSION_REJECT_ONCE,
};
use crate::text::{
    ascii_lower, cat3, decimal, decimal_text, lemma_texts_push, opt_str, opt_text, str_eq, texts,
    to_ascii_lower, trim, trim_of,
};
use vstd::prelude::*;

verus! {

/// How the work on a prompt ended.
#[derive(Debug, PartialEq, Eq)]
pub struct TurnResult {
    pub stop_reason: String,
}

/// A tool call as the model asked for it. `parse_error` tells that its
/// arguments could not be read.
#[derive(Debug)]
pub struct ToolCall {
    pub id: String,
    pub name: String,
    pub arguments: Vec<Member>,
    pub parse_error: Option<String>,
}

/// What a tool call says.
#[verifier::ext_equal]
pub ghost struct CallView {
    pub id: Seq<char>,
    pub name: Seq<char>,
    pub arguments: Map<Seq<char>, Jv>,
    pub parse_error: Option<Seq<char>>,
}

impl View for ToolCall {
    type V = CallView;

    open spec fn view(&self) -> CallView {
        CallView {
            id: self.id@,
            name: self.name@,
            arguments: fields(self.arguments@),
            parse_error: opt_text(self.parse_error),
        }
    }
}

/// What tool calls say.
pub open spec fn call_views(calls: Seq<ToolCall>) -> Seq<CallView> {
    Seq::new(calls.len(), |i: int| calls[i]@)
}

/// Whether the model stopped because its answer grew too long.
pub open spec fn is_output_limit(finish_reason: Option<Seq<char>>) -> bool {
    match finish_reason {
        None => false,
        Some(s) => {
            let reason = ascii_lower(trim_of(s));
            reason == "length"@ || reason == "max_tokens"@ || reason == "max_output_tokens"@
        },
    }
}

/// Whether the model stopped because its answer grew too long.
pub fn finish_reason_is_output_limit(finish_reason: Option<&str>) -> (r: bool)
    ensures
        r == is_output_limit(opt_str(finish_reason)),
{
    match finish_reason {
        None => false,
        Some(s) => {
            let reason = to_ascii_lower(trim(s));
            str_eq(reason.as_str(), "length") || str_eq(reason.as_str(), "max_tokens") || str_eq(
                reason.as_str(),
                "max_output_tokens",
            )
        },
    }
}

/// What is said about an answer that grew too long.
pub open spec fn limit_notice(max_tokens: Option<u32>) -> Seq<char> {
    match max_tokens {
        Some(limit) => "Model output hit max_tokens="@ + decimal(limit as nat)
            + "; tool arguments were incomplete and likely truncated."@,
        None =>
            "Model output hit its length limit; tool arguments were incomplete and likely truncated."@,
    }
}

/// What is said about an answer that grew too long.
pub fn output_limit_notice(max_tokens: Option<u32>) -> (r: String)
    ensures
        r@ == limit_notice(max_tokens),
{
    match max_tokens {
        Some(limit) => cat3(
            "Model output hit max_tokens=",
            decimal_text(limit as u64).as_str(),
            "; tool arguments were incomplete and likely truncated.",
        ),
        None =>
            "Model output hit its length limit; tool arguments were incomplete and likely truncated.".to_owned(),
    }
}

/// A call whose arguments could not be read because the answer grew too long
/// says so.
pub open spec fn annotated(call: CallView, finish_reason: Option<Seq<char>>, max_tokens: Option<u32>) -> CallView {
    if is_output_limit(finish_reason) && call.parse_error is Some {
        CallView { parse_error: Some(limit_notice(max_tokens)), ..call }
    } else {
        call
    }
}

/// Calls whose arguments could not be read because the answer grew too long
/// say so.
pub open spec fn annotated_all(
    calls: Seq<CallView>,
    finish_reason: Option<Seq<char>>,
    max_tokens: Option<u32>,
) -> Seq<CallView> {
    Seq::new(calls.len(), |i: int| annotated(calls[i], finish_reason, max_tokens))
}

/// Replaces the reason for which arguments could not be read, where the answer
/// grew too long.
pub fn annotate_tool_arg_parse_errors(
    calls: Vec<ToolCall>,
    finish_reason: Option<&str>,
    max_tokens: Option<u32>,
) -> (r: Vec<ToolCall>)
    ensures
        call_views(r@) == annotated_all(call_views(calls@), opt_str(finish_reason), max_tokens),
{
    let ghost want = annotated_all(call_views(calls@), opt_str(finish_reason), max_tokens);
    let limit = finish_reason_is_output_limit(finish_reason);
    if !limit {
        proof {
            assert(want =~= call_views(calls@));
        }
        return calls;
    }
    let notice = output_limit_notice(max_tokens);
    let mut left = calls;
    let mut out: Vec<ToolCall> = Vec::new();
    let n = left.len();
    let mut i: usize = 0;
    let ghost all = calls@;
    while i < n
        invariant
            i <= n,
            n == all.len(),
            notice@ == limit_notice(max_tokens),
            is_output_limit(opt_str(finish_reason)),
            want == annotated_all(call_views(all), opt_str(finish_reason), max_tokens),
            left@ == all.skip(i as int),
            call_views(out@) == want.take(i as int),
        decreases n - i,
    {
        let call = left.remove(0);
        let parse_error = match call.parse_error {
            Some(_) => Some(notice.clone()),
            None => None,
        };
        let next = ToolCall {
            id: call.id,
            name: call.name,
            arguments: call.arguments,
            parse_error,
        };
        let ghost before = out@;
        out.push(next);
        proof {
            assert(left@ =~= all.skip(i + 1));
            assert(call == all[i as int]);
            assert(next@ =~= want[i as int]);
            assert(call_views(out@) =~= call_views(before).push(next@));
            assert(want.take(i + 1) =~= want.take(i as int).push(want[i as int]));
        }
        i += 1;
    }
    proof {
        assert(want.take(n as int) =~= want);
    }
    out
}

/// The output of a call that failed.
pub open spec fn error_output(error: Seq<char>) -> Jv {
    Jv::Object(
        Map::<Seq<char>, Jv>::empty().insert("status"@, Jv::Text("completed_error"@)).insert(
            "error"@,
            Jv::Text(error),
        ),
    )
}

/// The output of a call whose arguments could not be read.
pub fn tool_arg_parse_error_output(error: &str) -> (r: Json)
    ensures
        r@ == error_output(error@),
{
    let mut m = no_members();
    put_text(&mut m, "status", "completed_error");
    put_text(&mut m, "error", error);
    Json::Object(m)
}

/// What is said of a call whose output got lost.
pub open spec fn lost_output() -> Jv {
    error_output("Tool output missing due to interrupted execution."@)
}

/// The output of a call that may not run.
pub open spec fn blocked_view(mode: Seq<char>, message: Seq<char>) -> Jv {
    Jv::Object(
        Map::<Seq<char>, Jv>::empty().insert("status"@, Jv::Text("blocked_by_policy"@)).insert(
            "mode"@,
            Jv::Text(mode),
        ).insert("message"@, Jv::Text(message)),
    )
}

fn blocked_output(mode: &str, message: &str) -> (r: Json)
    ensures
        r@ == blocked_view(mode@, message@),
{
    let mut m = no_members();
    put_text(&mut m, "status", "blocked_by_policy");
    put_text(&mut m, "mode", mode);
    put_text(&mut m, "message", message);
    Json::Object(m)
}

/// What becomes of a tool call.
#[derive(Debug)]
pub enum CallVerdict {
    /// It runs.
    Execute,
    /// It does not run, and this is its output, reported under a status.
    Output { status: String, output: Json },
    /// The user decides.
    Ask,
}

/// What a verdict says.
#[verifier::ext_equal]
pub ghost enum VerdictView {
    Execute,
    Output { status: Seq<char>, output: Jv },
    Ask,
}

impl View for CallVerdict {
    type V = VerdictView;

    open spec fn view(&self) -> VerdictView {
        match *self {
            CallVerdict::Execute => VerdictView::Execute,
            CallVerdict::Output { status, output } => VerdictView::Output {
                status: status@,
                output: output@,
            },
            CallVerdict::Ask => VerdictView::Ask,
        }
    }
}

impl CallVerdict {
    /// A copy.
    pub fn copy(&self) -> (r: Self)
        ensures
            r@ == self@,
    {
        match self {
            CallVerdict::Execute => CallVerdict::Execute,
            CallVerdict::Output { status, output } => CallVerdict::Output {
                status: status.clone(),
                output: output.copy(),
            },
            CallVerdict::Ask => CallVerdict::Ask,
        }
    }
}

/// What verdicts say.
pub open spec fn verdict_views(v: Seq<CallVerdict>) -> Seq<VerdictView> {
    Seq::new(v.len(), |i: int| v[i]@)
}

/// What becomes of a call that was refused.
pub open spec fn refused(mode: Seq<char>, message: Seq<char>) -> VerdictView {
    VerdictView::Output { status: "completed"@, output: blocked_view(mode, message) }
}

/// What becomes of a call in a mode: one whose arguments could not be read
/// fails, whatever the mode.
pub open spec fn verdict_of(call: CallView, mode_id: Seq<char>, policy: ToolPolicyConfig) -> Result<
    VerdictView,
    Seq<char>,
> {
    match call.parse_error {
        Some(e) => Ok(VerdictView::Output { status: "failed"@, output: error_output(e) }),
        None => match mode_of(mode_id) {
            None => Err(mode_error(mode_id)),
            Some(mode) => match tool_action(
                mode,
                call.name,
                Jv::Object(call.arguments),
                policy.terminal,
            ) {
                ActionView::Allow => Ok(VerdictView::Execute),
                ActionView::Reject(reason) => Ok(refused(mode_id, reason)),
                ActionView::Confirm => Ok(VerdictView::Ask),
            },
        },
    }
}

/// Judges a tool call.
pub fn judge_call(call: &ToolCall, mode_id: &str, policy: &ToolPolicyConfig) -> (r: Result<
    CallVerdict,
    String,
>)
    ensures
        match verdict_of(call@, mode_id@, *policy) {
            Ok(v) => r matches Ok(verdict) && verdict@ == v,
            Err(e) => r matches Err(error) && error@ == e,
        },
{
    if let Some(e) = &call.parse_error {
        return Ok(
            CallVerdict::Output {
                status: "failed".to_owned(),
                output: tool_arg_parse_error_output(e.as_str()),
            },
        );
    }
    match resolve_tool_policy(mode_id, call.name.as_str(), &call.arguments, policy) {
        Err(e) => Err(e),
        Ok(ToolPolicyAction::Allow) => Ok(CallVerdict::Execute),
        Ok(ToolPolicyAction::Confirm) => Ok(CallVerdict::Ask),
        Ok(ToolPolicyAction::Reject(reason)) => Ok(
            CallVerdict::Output {
                status: "completed".to_owned(),
                output: blocked_output(mode_id, reason.as_str()),
            },
        ),
    }
}

/// What ends a turn before its time.
#[derive(Debug)]
pub enum TurnFailure {
    /// The user interrupted it; the outputs of its calls, where there are any.
    Cancelled { tool_outputs: Option<Vec<Json>> },
    /// An error.
    Error(String),
}

/// What becomes of a call that the user decided on. An answer that came
/// because of an interruption ends the turn.
pub open spec fn answered(mode_id: Seq<char>, decision: Seq<char>, cancelled: bool) -> Result<
    VerdictView,
    Option<Seq<char>>,
> {
    if decision == PERMISSION_ALLOW_ONCE@ {
        Ok(VerdictView::Execute)
    } else if decision == PERMISSION_CANCELLED@ && cancelled {
        Err(None)
    } else if decision == PERMISSION_REJECT_ONCE@ || decision == PERMISSION_CANCELLED@ {
        Ok(refused(mode_id, "Tool call blocked by session mode policy."@))
    } else {
        Err(Some("Invalid permission decision: "@ + decision))
    }
}

/// Takes the user's answer about a tool call.
pub fn judge_answer(mode_id: &str, decision: &str, cancelled: bool) -> (r: Result<
    CallVerdict,
    TurnFailure,
>)
    ensures
        match answered(mode_id@, decision@, cancelled) {
            Ok(v) => r matches Ok(verdict) && verdict@ == v,
            Err(None) => r matches Err(TurnFailure::Cancelled { tool_outputs: None }),
            Err(Some(e)) => r matches Err(TurnFailure::Error(error)) && error@ == e,
        },
{
    proof {
        reveal_strlit("allow_once");
        reveal_strlit("cancelled");
        assert("allow_once"@.len() == 10);
        assert("cancelled"@.len() == 9);
    }
    let outcome = match resolve_permission_decision(decision) {
        Ok(o) => o,
        Err(e) => return Err(TurnFailure::Error(e)),
    };
    if str_eq(decision, PERMISSION_CANCELLED) && cancelled {
        return Err(TurnFailure::Cancelled { tool_outputs: None });
    }
    if outcome.allowed {
        Ok(CallVerdict::Execute)
    } else {
        Ok(
            CallVerdict::Output {
                status: "completed".to_owned(),
                output: blocked_output(mode_id, "Tool call blocked by session mode policy."),
            },
        )
    }
}

/// How many of the first `n` calls run.
pub open spec fn running(verdicts: Seq<VerdictView>, n: int) -> int
    decreases n,
{
    if n <= 0 || n > verdicts.len() {
        0
    } else {
        running(verdicts, n - 1) + (if verdicts[n - 1] is Execute {
            1int
        } else {
            0int
        })
    }
}

/// How a call is handed to the tools.
pub open spec fn request_view(call: CallView) -> Jv {
    Jv::Object(
        Map::<Seq<char>, Jv>::empty().insert("tool_call_id"@, Jv::Text(call.id)).insert(
            "name"@,
            Jv::Text(call.name),
        ).insert("arguments"@, Jv::Object(call.arguments)),
    )
}

/// The calls among the first `n` that run, as they are handed to the tools.
pub open spec fn batch_view(calls: Seq<CallView>, verdicts: Seq<VerdictView>, n: int) -> Seq<Jv>
    decreases n,
{
    if n <= 0 || n > calls.len() {
        Seq::empty()
    } else if verdicts[n - 1] is Execute {
        batch_view(calls, verdicts, n - 1).push(request_view(calls[n - 1]))
    } else {
        batch_view(calls, verdicts, n - 1)
    }
}

fn batch_of(calls: &Vec<ToolCall>, verdicts: &Vec<CallVerdict>) -> (r: Vec<Json>)
    requires
        verdicts@.len() <= calls@.len(),
    ensures
        json_views(r@) == batch_view(
            call_views(calls@),
            verdict_views(verdicts@),
            verdicts@.len() as int,
        ),
{
    let ghost cs = call_views(calls@);
    let ghost vs = verdict_views(verdicts@);
    let mut r: Vec<Json> = Vec::new();
    let mut i: usize = 0;
    proof {
        lemma_json_views(r@);
        assert(json_views(r@) =~= Seq::empty());
    }
    while i < verdicts.len()
        invariant
            i <= verdicts@.len() <= calls@.len(),
            cs == call_views(calls@),
            vs == verdict_views(verdicts@),
            json_views(r@) == batch_view(cs, vs, i as int),
        decreases verdicts@.len() - i,
    {
        proof {
            assert(vs[i as int] == verdicts@[i as int]@);
            assert(cs[i as int] == calls@[i as int]@);
        }
        if let CallVerdict::Execute = &verdicts[i] {
            let mut m = no_members();
            put_text(&mut m, "tool_call_id", calls[i].id.as_str());
            put_text(&mut m, "name", calls[i].name.as_str());
            put(&mut m, "arguments", Json::Object(clone_members(&calls[i].arguments)));
            let request = Json::Object(m);
            proof {
                lemma_json_views_push(r@, request);
            }
            r.push(request);
        }
        i += 1;
    }
    r
}

/// The output of the `i`-th call: of one that ran, what the tools gave back
/// for it, or `missing`.
pub open spec fn output_at(verdicts: Seq<VerdictView>, outputs: Seq<Jv>, i: int, missing: Jv) -> Jv {
    match verdicts[i] {
        VerdictView::Output { output, .. } => output,
        VerdictView::Execute => if running(verdicts, i) < outputs.len() {
            outputs[running(verdicts, i)]
        } else {
            missing
        },
        VerdictView::Ask => missing,
    }
}

/// The outputs of all calls.
pub open spec fn all_outputs(verdicts: Seq<VerdictView>, outputs: Seq<Jv>, missing: Jv) -> Seq<Jv> {
    Seq::new(verdicts.len(), |i: int| output_at(verdicts, outputs, i, missing))
}

fn lost_tool_output() -> (r: Json)
    ensures
        r@ == lost_output(),
{
    tool_arg_parse_error_output("Tool output missing due to interrupted execution.")
}

proof fn lemma_running(verdicts: Seq<VerdictView>, n: int)
    requires
        0 <= n <= verdicts.len(),
    ensures
        0 <= running(verdicts, n) <= n,
    decreases n,
{
    if n > 0 {
        lemma_running(verdicts, n - 1);
    }
}

fn outputs_of(verdicts: &Vec<CallVerdict>, outputs: &Vec<Json>, cancelled: bool) -> (r:
    Result<Vec<Json>, TurnFailure>)
    ensures
        ({
            let vs = verdict_views(verdicts@);
            if cancelled && running(vs, vs.len() as int) > 0 {
                r matches Err(TurnFailure::Cancelled { tool_outputs: Some(all) }) && json_views(
                    all@,
                ) == all_outputs(vs, json_views(outputs@), cancelled_output_view())
            } else {
                r matches Ok(all) && json_views(all@) == all_outputs(
                    vs,
                    json_views(outputs@),
                    lost_output(),
                )
            }
        }),
{
    let ghost vs = verdict_views(verdicts@);
    let ghost given = json_views(outputs@);
    let mut ran = false;
    let mut i: usize = 0;
    while i < verdicts.len()
        invariant
            i <= verdicts@.len(),
            vs == verdict_views(verdicts@),
            running(vs, i as int) >= 0,
            ran == (running(vs, i as int) > 0),
        decreases verdicts@.len() - i,
    {
        proof {
            assert(vs[i as int] == verdicts@[i as int]@);
        }
        if let CallVerdict::Execute = &verdicts[i] {
            ran = true;
        }
        i += 1;
    }
    let interrupted = cancelled && ran;
    let ghost missing = if interrupted {
        cancelled_output_view()
    } else {
        lost_output()
    };
    let ghost want = all_outputs(vs, given, missing);
    let mut all: Vec<Json> = Vec::new();
    let mut next: usize = 0;
    i = 0;
    proof {
        lemma_json_views(outputs@);
        lemma_json_views(all@);
        assert(json_views(all@) =~= want.take(0));
    }
    while i < verdicts.len()
        invariant
            i <= verdicts@.len(),
            vs == verdict_views(verdicts@),
            given == json_views(outputs@),
            given.len() == outputs@.len(),
            forall|k: int| 0 <= k < outputs@.len() ==> #[trigger] given[k] == outputs@[k]@,
            missing == (if interrupted {
                cancelled_output_view()
            } else {
                lost_output()
            }),
            want == all_outputs(vs, given, missing),
            next == running(vs, i as int),
            json_views(all@) == want.take(i as int),
        decreases verdicts@.len() - i,
    {
        proof {
            assert(vs[i as int] == verdicts@[i as int]@);
            lemma_running(vs, i as int);
            assert(verdicts.len() == verdicts@.len());
        }
        let output = match &verdicts[i] {
            CallVerdict::Output { output, .. } => output.copy(),
            CallVerdict::Execute => {
                let slot = next;
                next = next + 1;
                if slot < outputs.len() {
                    outputs[slot].copy()
                } else if interrupted {
                    cancelled_tool_output()
                } else {
                    lost_tool_output()
                }
            },
            CallVerdict::Ask => if interrupted {
                cancelled_tool_output()
            } else {
                lost_tool_output()
            },
        };
        proof {
            lemma_json_views_push(all@, output);
            assert(output@ == want[i as int]);
            assert(want.take(i + 1) =~= want.take(i as int).push(want[i as int]));
        }
        all.push(output);
        i += 1;
    }
    proof {
        assert(want.take(vs.len() as int) =~= want);
    }
    if interrupted {
        Err(TurnFailure::Cancelled { tool_outputs: Some(all) })
    } else {
        Ok(all)
    }
}

/// How a call was ruled on: by the mode of the session, or by the user, where
/// the mode leaves it to the user.
#[derive(Debug)]
pub enum Ruling {
    Mode(String),
    Answer { mode_id: String, decision: String, cancelled: bool },
}

/// How a call was ruled on.
#[verifier::ext_equal]
pub ghost enum RulingView {
    Mode(Seq<char>),
    Answer { mode_id: Seq<char>, decision: Seq<char>, cancelled: bool },
}

impl View for Ruling {
    type V = RulingView;

    open spec fn view(&self) -> RulingView {
        match *self {
            Ruling::Mode(mode_id) => RulingView::Mode(mode_id@),
            Ruling::Answer { mode_id, decision, cancelled } => RulingView::Answer {
                mode_id: mode_id@,
                decision: decision@,
                cancelled,
            },
        }
    }
}

/// What rulings say.
pub open spec fn ruling_views(v: Seq<Ruling>) -> Seq<RulingView> {
    Seq::new(v.len(), |i: int| v[i]@)
}

/// What becomes of a call by a ruling; a ruling that does not settle the call
/// gives nothing.
pub open spec fn ruled(call: CallView, ruling: RulingView, policy: ToolPolicyConfig) -> Option<
    VerdictView,
> {
    match ruling {
        RulingView::Mode(mode_id) => match verdict_of(call, mode_id, policy) {
            Ok(v) => if v is Ask {
                None
            } else {
                Some(v)
            },
            Err(_) => None,
        },
        RulingView::Answer { mode_id, decision, cancelled } => match verdict_of(
            call,
            mode_id,
            policy,
        ) {
            Ok(VerdictView::Ask) => match answered(mode_id, decision, cancelled) {
                Ok(v) => Some(v),
                Err(_) => None,
            },
            _ => None,
        },
    }
}

/// The calls of one answer of the model, ruled on one after the other.
#[derive(Debug)]
pub struct CallRound<'a> {
    calls: &'a Vec<ToolCall>,
    policy: &'a ToolPolicyConfig,
    rulings: Vec<Ruling>,
    verdicts: Vec<CallVerdict>,
    asking: Option<String>,
}

/// How far the calls of an answer are ruled on; `asking` is the mode in which
/// the user is asked about the next call.
#[verifier::ext_equal]
pub ghost struct RoundView {
    pub calls: Seq<CallView>,
    pub policy: ToolPolicyConfig,
    pub rulings: Seq<RulingView>,
    pub asking: Option<Seq<char>>,
}

/// What becomes of the calls that are ruled on.
pub open spec fn round_verdicts(v: RoundView) -> Seq<VerdictView> {
    Seq::new(v.rulings.len(), |i: int| ruled(v.calls[i], v.rulings[i], v.policy)->Some_0)
}

/// Whether each ruling settles its call, and the user is asked only where the
/// mode says so.
pub open spec fn round_holds(v: RoundView) -> bool {
    &&& v.rulings.len() <= v.calls.len()
    &&& forall|i: int|
        0 <= i < v.rulings.len() ==> ruled(v.calls[i], #[trigger] v.rulings[i], v.policy) is Some
    &&& v.asking matches Some(mode_id) ==> v.rulings.len() < v.calls.len() && verdict_of(
        v.calls[v.rulings.len() as int],
        mode_id,
        v.policy,
    ) == Ok::<VerdictView, Seq<char>>(VerdictView::Ask)
}

impl<'a> View for CallRound<'a> {
    type V = RoundView;

    closed spec fn view(&self) -> RoundView {
        RoundView {
            calls: call_views(self.calls@),
            policy: *self.policy,
            rulings: ruling_views(self.rulings@),
            asking: opt_text(self.asking),
        }
    }
}

/// A round with one more ruling.
pub open spec fn with_ruling(v: RoundView, ruling: RulingView) -> RoundView {
    RoundView { rulings: v.rulings.push(ruling), asking: None, ..v }
}

impl<'a> CallRound<'a> {
    /// Whether the verdicts are those of the rulings.
    pub closed spec fn wf(&self) -> bool {
        &&& round_holds(self@)
        &&& verdict_views(self.verdicts@) == round_verdicts(self@)
    }

    /// Begins with the calls of an answer.
    pub fn begin(calls: &'a Vec<ToolCall>, policy: &'a ToolPolicyConfig) -> (r: Self)
        ensures
            r.wf(),
            r@ == (RoundView {
                calls: call_views(calls@),
                policy: *policy,
                rulings: Seq::empty(),
                asking: None,
            }),
    {
        let r = CallRound {
            calls,
            policy,
            rulings: Vec::new(),
            verdicts: Vec::new(),
            asking: None,
        };
        proof {
            assert(r@.rulings =~= Seq::empty());
            assert(verdict_views(r.verdicts@) =~= round_verdicts(r@));
        }
        r
    }

    /// The call to rule on next.
    pub fn next_call(&self) -> (r: Option<&'a ToolCall>)
        requires
            self.wf(),
        ensures
            match r {
                Some(call) => self@.rulings.len() < self@.calls.len() && call@
                    == self@.calls[self@.rulings.len() as int],
                None => self@.rulings.len() == self@.calls.len(),
            },
    {
        if self.rulings.len() < self.calls.len() {
            Some(&self.calls[self.rulings.len()])
        } else {
            None
        }
    }

    fn settle(&mut self, ruling: Ruling, verdict: CallVerdict)
        requires
            old(self).wf(),
            old(self)@.rulings.len() < old(self)@.calls.len(),
            ruled(
                old(self)@.calls[old(self)@.rulings.len() as int],
                ruling@,
                old(self)@.policy,
            ) == Some(verdict@),
        ensures
            final(self).wf(),
            final(self)@ == with_ruling(old(self)@, ruling@),
    {
        let ghost before = self@;
        let ghost rulings = self.rulings@;
        let ghost verdicts = self.verdicts@;
        self.rulings.push(ruling);
        self.verdicts.push(verdict);
        self.asking = None;
        proof {
            assert(ruling_views(self.rulings@) =~= ruling_views(rulings).push(ruling@));
            assert(self@ =~= with_ruling(before, ruling@));
            assert(verdict_views(self.verdicts@) =~= verdict_views(verdicts).push(verdict@));
            assert forall|i: int| 0 <= i < self@.rulings.len() implies ruled(
                self@.calls[i],
                #[trigger] self@.rulings[i],
                self@.policy,
            ) is Some by {
                if i < before.rulings.len() {
                    assert(self@.rulings[i] == before.rulings[i]);
                }
            }
            assert(round_verdicts(self@) =~= round_verdicts(before).push(verdict@));
        }
    }

    /// Rules on the next call by the mode of the session. Where the mode leaves
    /// it to the user, the call waits for an answer.
    pub fn judge(&mut self, mode_id: &str) -> (r: Result<CallVerdict, String>)
        requires
            old(self).wf(),
            old(self)@.rulings.len() < old(self)@.calls.len(),
        ensures
            final(self).wf(),
            match verdict_of(
                old(self)@.calls[old(self)@.rulings.len() as int],
                mode_id@,
                old(self)@.policy,
            ) {
                Err(e) => (r matches Err(error) && error@ == e) && final(self)@ == old(self)@,
                Ok(VerdictView::Ask) => {
                    &&& r matches Ok(verdict) && verdict@ == VerdictView::Ask
                    &&& final(self)@ == (RoundView { asking: Some(mode_id@), ..old(self)@ })
                },
                Ok(v) => {
                    &&& r matches Ok(verdict) && verdict@ == v
                    &&& final(self)@ == with_ruling(old(self)@, RulingView::Mode(mode_id@))
                },
            },
    {
        let call = &self.calls[self.rulings.len()];
        let verdict = match judge_call(call, mode_id, self.policy) {
            Ok(v) => v,
            Err(e) => return Err(e),
        };
        if let CallVerdict::Ask = &verdict {
            let ghost before = self@;
            self.asking = Some(mode_id.to_owned());
            proof {
                assert(self@ == RoundView { asking: Some(mode_id@), ..before });
                assert(round_verdicts(self@) =~= round_verdicts(before));
            }
            return Ok(verdict);
        }
        let kept = verdict.copy();
        self.settle(Ruling::Mode(mode_id.to_owned()), kept);
        Ok(verdict)
    }

    /// Rules on the next call by the answer of the user that was asked.
    pub fn answer(&mut self, decision: &str, cancelled: bool) -> (r: Result<CallVerdict, TurnFailure>)
        requires
            old(self).wf(),
            old(self)@.asking is Some,
        ensures
            final(self).wf(),
            ({
                let mode_id = old(self)@.asking->Some_0;
                match answered(mode_id, decision@, cancelled) {
                    Ok(v) => {
                        &&& r matches Ok(verdict) && verdict@ == v
                        &&& final(self)@ == with_ruling(
                            old(self)@,
                            RulingView::Answer { mode_id, decision: decision@, cancelled },
                        )
                    },
                    Err(None) => {
                        &&& r matches Err(TurnFailure::Cancelled { tool_outputs: None })
                        &&& final(self)@ == old(self)@
                    },
                    Err(Some(e)) => {
                        &&& r matches Err(TurnFailure::Error(error)) && error@ == e
                        &&& final(self)@ == old(self)@
                    },
                }
            }),
    {
        let mode_id = match &self.asking {
            Some(m) => m.clone(),
            None => String::new(),
        };
        let verdict = match judge_answer(mode_id.as_str(), decision, cancelled) {
            Ok(v) => v,
            Err(f) => return Err(f),
        };
        let kept = verdict.copy();
        self.settle(Ruling::Answer { mode_id, decision: decision.to_owned(), cancelled }, kept);
        Ok(verdict)
    }

    /// The calls that run, as they are handed to the tools.
    pub fn build_batch(&self) -> (r: Vec<Json>)
        requires
            self.wf(),
        ensures
            round_holds(self@),
            json_views(r@) == batch_view(
                self@.calls,
                round_verdicts(self@),
                self@.rulings.len() as int,
            ),
    {
        proof {
            assert(verdict_views(self.verdicts@).len() == self@.rulings.len());
        }
        batch_of(self.calls, &self.verdicts)
    }

    /// Collects the outputs of all calls that are ruled on, in the order of the
    /// calls; `outputs` are those of the calls that ran. Where the user
    /// interrupted calls that ran, the turn is over.
    pub fn collect_outputs(&self, outputs: &Vec<Json>, cancelled: bool) -> (r: Result<
        Vec<Json>,
        TurnFailure,
    >)
        requires
            self.wf(),
        ensures
            round_holds(self@),
            ({
                let vs = round_verdicts(self@);
                if cancelled && running(vs, vs.len() as int) > 0 {
                    r matches Err(TurnFailure::Cancelled { tool_outputs: Some(all) }) && json_views(
                        all@,
                    ) == all_outputs(vs, json_views(outputs@), cancelled_output_view())
                } else {
                    r matches Ok(all) && json_views(all@) == all_outputs(
                        vs,
                        json_views(outputs@),
                        lost_output(),
                    )
                }
            }),
    {
        outputs_of(&self.verdicts, outputs, cancelled)
    }
}

/// What the model sees of an output: the part that is meant for it, where
/// there is one.
pub open spec fn model_part(output: Jv) -> Jv {
    match field(output, "model_result"@) {
        Some(Jv::Object(m)) => Jv::Object(m),
        _ => output,
    }
}

/// The value that the model sees of an output.
pub open spec fn model_value(output: Json) -> Json {
    match member_of(output, "model_result"@) {
        Some(Json::Object(m)) => Json::Object(m),
        _ => output,
    }
}

/// What the model sees of an output.
pub fn tool_output_for_model(output: &Json) -> (r: &Json)
    ensures
        r@ == model_part(output@),
        *r == model_value(*output),
{
    match output.get("model_result") {
        Some(v) => if v.as_object().is_some() {
            v
        } else {
            output
        },
        None => output,
    }
}

/// The compact JSON texts of what the model sees of outputs.
pub open spec fn model_texts(outputs: Seq<Json>) -> Seq<Seq<char>> {
    Seq::new(outputs.len(), |i: int| compact_text(tree(model_value(outputs[i]))))
}

fn write_outputs(outputs: &Vec<Json>) -> (r: Vec<String>)
    ensures
        texts(r@) == model_texts(outputs@),
{
    let ghost want = model_texts(outputs@);
    let mut out: Vec<String> = Vec::new();
    let mut i: usize = 0;
    proof {
        assert(texts(out@) =~= want.take(0));
    }
    while i < outputs.len()
        invariant
            i <= outputs@.len(),
            want == model_texts(outputs@),
            texts(out@) == want.take(i as int),
        decreases outputs@.len() - i,
    {
        let s = compact_json(tool_output_for_model(&outputs[i]));
        proof {
            lemma_texts_push(out@, s);
            assert(want.take(i + 1) =~= want.take(i as int).push(want[i as int]));
        }
        out.push(s);
        i += 1;
    }
    proof {
        assert(want.take(want.len() as int) =~= want);
    }
    out
}

/// The texts that an interrupted turn records: those of the outputs that
/// came, or of a note for each of `n` calls.
pub open spec fn texts_after_cancel(tool_outputs: Option<Vec<Json>>, n: nat) -> Seq<Seq<char>> {
    match tool_outputs {
        Some(v) if v@.len() > 0 => model_texts(v@),
        _ => Seq::new(n, |i: int| compact_text(cancelled_output_tree())),
    }
}

proof fn lemma_no_model_result(output: Json)
    requires
        output@ == cancelled_output_view(),
    ensures
        model_value(output) == output,
{
    reveal_strlit("model_result");
    reveal_strlit("status");
    reveal_strlit("message");
    assert("status"@.len() == 6 && "message"@.len() == 7 && "model_result"@.len() == 12);
    if let Json::Object(members) = output {
        lemma_member(members@, members@.len(), "model_result"@);
    }
}

/// The messages that record the outputs of the first `n` calls.
pub open spec fn tool_messages(calls: Seq<CallView>, contents: Seq<Seq<char>>, n: int) -> Seq<Jv>
    decreases n,
{
    if n <= 0 || n > calls.len() || n > contents.len() {
        Seq::empty()
    } else {
        tool_messages(calls, contents, n - 1).push(
            crate::manager::tool_message_view(calls[n - 1].id, calls[n - 1].name, contents[n - 1]),
        )
    }
}

/// How many calls have a content to record.
pub open spec fn recorded(calls: Seq<CallView>, contents: Seq<Seq<char>>) -> int {
    if calls.len() <= contents.len() {
        calls.len() as int
    } else {
        contents.len() as int
    }
}

/// A conversation with the outputs of calls.
pub open spec fn with_tool_results(
    c: ConversationView,
    calls: Seq<CallView>,
    contents: Seq<Seq<char>>,
) -> ConversationView {
    ConversationView {
        messages: c.messages + tool_messages(calls, contents, recorded(calls, contents)),
        ..c
    }
}

/// Records the outputs of calls; `contents` are the compact JSON texts of what
/// the model sees of them.
pub fn add_tool_results(
    context: &mut ConversationContextManager,
    calls: &Vec<ToolCall>,
    contents: &Vec<String>,
)
    ensures
        final(context)@ == with_tool_results(
            old(context)@,
            call_views(calls@),
            texts(contents@),
        ),
{
    let ghost before = context@;
    let ghost cs = call_views(calls@);
    let ghost ts = texts(contents@);
    let mut i: usize = 0;
    proof {
        assert(before.messages + tool_messages(cs, ts, 0) =~= before.messages);
    }
    while i < calls.len() && i < contents.len()
        invariant
            i <= calls@.len(),
            i <= contents@.len(),
            cs == call_views(calls@),
            ts == texts(contents@),
            context@ == (ConversationView {
                messages: before.messages + tool_messages(cs, ts, i as int),
                ..before
            }),
        decreases calls@.len() - i,
    {
        proof {
            assert(cs[i as int] == calls@[i as int]@);
            assert(ts[i as int] == contents@[i as int]@);
        }
        let ghost was = context@;
        context.add_tool_text(
            calls[i].id.as_str(),
            calls[i].name.as_str(),
            contents[i].as_str(),
        );
        proof {
            assert(context@.messages =~= before.messages + tool_messages(cs, ts, i + 1));
        }
        i += 1;
    }
}

/// What the loop over a prompt's turns does next.
#[derive(Debug, PartialEq, Eq)]
pub enum TurnAction {
    /// It is over.
    Stop(TurnResult),
    /// The model is asked.
    RequestModel,
}

/// The loop over a prompt's turns.
#[derive(Debug)]
pub struct TurnLoop {
    max_running_turn: Option<u32>,
    completed_turns: u32,
    stable_message_count: usize,
    calls: Vec<ToolCall>,
}

/// Where the loop over a prompt's turns is.
#[verifier::ext_equal]
pub ghost struct LoopView {
    pub limit: Option<u32>,
    pub completed: u32,
    pub stable: nat,
    pub calls: Seq<CallView>,
}

impl View for TurnLoop {
    type V = LoopView;

    closed spec fn view(&self) -> LoopView {
        LoopView {
            limit: self.max_running_turn,
            completed: self.completed_turns,
            stable: self.stable_message_count as nat,
            calls: call_views(self.calls@),
        }
    }
}

/// Whether the limit of turns is kept.
pub open spec fn limit_kept(l: LoopView) -> bool {
    match l.limit {
        Some(limit) => l.completed <= limit,
        None => true,
    }
}

/// A conversation cut back to `count` messages.
pub open spec fn cut_back(c: ConversationView, count: nat) -> ConversationView {
    ConversationView {
        messages: if count >= c.messages.len() {
            c.messages
        } else {
            c.messages.take(count as int)
        },
        ..c
    }
}

/// The messages of a conversation after messages of watchers and a prompt.
pub open spec fn opened(c: ConversationView, pending: Seq<Jv>, user_input: Jv) -> ConversationView {
    ConversationView {
        messages: match crate::content_block::stored_content(user_input) {
            Some(v) => (c.messages + pending).push(crate::manager::user_message_view(v)),
            None => c.messages + pending,
        },
        ..c
    }
}

/// Puts the messages of watchers into a conversation.
pub fn inject_pending_watcher_content(
    context: &mut ConversationContextManager,
    pending: Vec<Json>,
)
    ensures
        final(context)@ == (ConversationView {
            messages: old(context)@.messages + json_views(pending@),
            ..old(context)@
        }),
{
    let ghost before = context@;
    let ghost all = json_views(pending@);
    let mut i: usize = 0;
    proof {
        lemma_json_views(pending@);
        assert(before.messages + all.take(0) =~= before.messages);
    }
    while i < pending.len()
        invariant
            i <= pending@.len(),
            all == json_views(pending@),
            all.len() == pending@.len(),
            forall|k: int| 0 <= k < pending@.len() ==> #[trigger] all[k] == pending@[k]@,
            context@ == (ConversationView {
                messages: before.messages + all.take(i as int),
                ..before
            }),
        decreases pending@.len() - i,
    {
        context.add_watcher_content(pending[i].copy());
        proof {
            assert(all[i as int] == pending@[i as int]@);
            assert(context@.messages =~= before.messages + all.take(i + 1));
        }
        i += 1;
    }
    proof {
        assert(all.take(all.len() as int) =~= all);
    }
}

impl TurnLoop {
    /// Begins the work on a prompt: what watchers have to say comes before it.
    pub fn begin(
        context: &mut ConversationContextManager,
        pending: Vec<Json>,
        user_input: &Json,
        max_running_turn: Option<u32>,
    ) -> (r: Result<TurnLoop, String>)
        ensures
            final(context)@ == opened(old(context)@, json_views(pending@), user_input@),
            match crate::content_block::stored_content(user_input@) {
                Some(_) => r matches Ok(l) && l@.limit == max_running_turn && l@.completed == 0
                    && l@.stable == 0 && l@.calls.len() == 0,
                None => r matches Err(e) && e@
                    == "User content must be a string or list of content blocks."@,
            },
    {
        inject_pending_watcher_content(context, pending);
        match context.add_user(user_input) {
            Ok(()) => {},
            Err(e) => return Err(e),
        }
        Ok(
            TurnLoop {
                max_running_turn,
                completed_turns: 0,
                stable_message_count: 0,
                calls: Vec::new(),
            },
        )
    }

    /// Begins a turn, unless the user interrupted or the turns are used up.
    pub fn next_step(&mut self, context: &ConversationContextManager, cancelled: bool) -> (r:
        TurnAction)
        ensures
            if cancelled {
                (r matches TurnAction::Stop(t) && t.stop_reason@ == STOP_CANCELLED@) && final(self)@ == old(self)@
            } else if old(self)@.limit matches Some(limit) && old(self)@.completed >= limit {
                (r matches TurnAction::Stop(t) && t.stop_reason@ == STOP_MAX_TURNS@) && final(self)@ == old(self)@
            } else {
                r is RequestModel && final(self)@ == (LoopView {
                    stable: context@.messages.len(),
                    calls: Seq::empty(),
                    ..old(self)@
                })
            },
    {
        if cancelled {
            return TurnAction::Stop(TurnResult { stop_reason: STOP_CANCELLED.to_owned() });
        }
        if let Some(limit) = self.max_running_turn {
            if self.completed_turns >= limit {
                return TurnAction::Stop(TurnResult { stop_reason: STOP_MAX_TURNS.to_owned() });
            }
        }
        let messages = context.messages();
        proof {
            lemma_json_views(messages@);
        }
        self.stable_message_count = messages.len();
        self.calls = Vec::new();
        proof {
            assert(call_views(self.calls@) =~= Seq::empty());
        }
        TurnAction::RequestModel
    }

    /// Takes the model's answer into the conversation.
    pub fn accept_reply(
        &self,
        context: &mut ConversationContextManager,
        message: Json,
        total_tokens: u64,
    )
        ensures
            final(context)@ == (ConversationView {
                messages: old(context)@.messages.push(message@),
                used: if total_tokens > u32::MAX {
                    u32::MAX
                } else {
                    total_tokens as u32
                },
                ..old(context)@
            }),
    {
        context.sync_token_usage(total_tokens);
        context.add_assistant(message);
    }

    /// Takes the tool calls of the model's answer; the result tells whether
    /// there are any.
    pub fn accept_calls(
        &mut self,
        calls: Vec<ToolCall>,
        finish_reason: Option<&str>,
        max_tokens: Option<u32>,
    ) -> (r: bool)
        ensures
            r == (calls@.len() > 0),
            final(self)@ == (LoopView {
                calls: annotated_all(call_views(calls@), opt_str(finish_reason), max_tokens),
                ..old(self)@
            }),
    {
        let any = calls.len() > 0;
        self.calls = annotate_tool_arg_parse_errors(calls, finish_reason, max_tokens);
        any
    }

    /// The tool calls of the turn.
    pub fn calls(&self) -> (r: &Vec<ToolCall>)
        ensures
            call_views(r@) == self@.calls,
    {
        &self.calls
    }

    /// Records the outputs of the turn's calls, as the model sees them.
    pub fn accept_outputs(&self, context: &mut ConversationContextManager, outputs: &Vec<Json>)
        ensures
            final(context)@ == with_tool_results(
                old(context)@,
                self@.calls,
                model_texts(outputs@),
            ),
    {
        self.accept_texts(context, &write_outputs(outputs));
    }

    /// Records the outputs of the turn's calls; `contents` are the compact JSON
    /// texts of what the model sees of them.
    pub fn accept_texts(&self, context: &mut ConversationContextManager, contents: &Vec<String>)
        ensures
            final(context)@ == with_tool_results(old(context)@, self@.calls, texts(contents@)),
    {
        add_tool_results(context, &self.calls, contents);
    }

    /// Ends a turn: without calls the prompt is answered.
    pub fn end_step(&mut self) -> (r: Option<TurnResult>)
        requires
            old(self)@.limit matches Some(limit) ==> old(self)@.completed < limit,
        ensures
            if old(self)@.calls.len() == 0 {
                (r matches Some(t) && t.stop_reason@ == STOP_COMPLETED@) && final(self)@ == old(self)@
            } else {
                r is None && final(self)@ == (LoopView {
                    completed: if old(self)@.limit is Some {
                        (old(self)@.completed + 1) as u32
                    } else {
                        old(self)@.completed
                    },
                    ..old(self)@
                })
            },
            limit_kept(final(self)@),
    {
        if self.calls.len() == 0 {
            return Some(TurnResult { stop_reason: STOP_COMPLETED.to_owned() });
        }
        if self.max_running_turn.is_some() {
            self.completed_turns = self.completed_turns + 1;
        }
        None
    }

    /// The outputs that an interrupted turn records: those that came, or a
    /// note for each call.
    pub fn outputs_after_cancel(&self, tool_outputs: Option<Vec<Json>>) -> (r: Vec<Json>)
        ensures
            match tool_outputs {
                Some(v) if v@.len() > 0 => r == v,
                _ => {
                    &&& json_views(r@) == Seq::new(
                        self@.calls.len(),
                        |i: int| cancelled_output_view(),
                    )
                    &&& model_texts(r@) == Seq::new(
                        self@.calls.len(),
                        |i: int| compact_text(cancelled_output_tree()),
                    )
                },
            },
    {
        if let Some(v) = tool_outputs {
            if v.len() > 0 {
                return v;
            }
        }
        let ghost want = Seq::new(self@.calls.len(), |i: int| cancelled_output_view());
        let mut r: Vec<Json> = Vec::new();
        let mut i: usize = 0;
        proof {
            lemma_json_views(r@);
            assert(json_views(r@) =~= want.take(0));
        }
        while i < self.calls.len()
            invariant
                i <= self.calls@.len(),
                want == Seq::new(self.calls@.len(), |i: int| cancelled_output_view()),
                json_views(r@) == want.take(i as int),
                r@.len() == i,
                forall|k: int|
                    0 <= k < i ==> compact_text(tree(model_value(#[trigger] r@[k])))
                        == compact_text(cancelled_output_tree()),
            decreases self.calls@.len() - i,
        {
            let output = cancelled_tool_output();
            proof {
                lemma_no_model_result(output);
                lemma_json_views_push(r@, output);
                assert(want.take(i + 1) =~= want.take(i as int).push(output@));
            }
            r.push(output);
            i += 1;
        }
        proof {
            assert(want.take(want.len() as int) =~= want);
            assert(model_texts(r@) =~= Seq::new(
                self@.calls.len(),
                |i: int| compact_text(cancelled_output_tree()),
            ));
        }
        r
    }

    /// Ends a turn that was interrupted or failed. An error cuts the
    /// conversation back to what it was before the turn, and so does an
    /// interruption of a turn without calls; the calls of another interrupted
    /// turn are answered with the outputs that came, or with a note each.
    pub fn abort(&self, context: &mut ConversationContextManager, failure: TurnFailure) -> (r:
        Result<TurnResult, String>)
        ensures
            match failure {
                TurnFailure::Error(e) => {
                    &&& r matches Err(error) && error@ == e@
                    &&& final(context)@ == cut_back(old(context)@, self@.stable)
                },
                TurnFailure::Cancelled { tool_outputs } => {
                    &&& r matches Ok(t) && t.stop_reason@ == STOP_CANCELLED@
                    &&& final(context)@ == if self@.calls.len() > 0 {
                        with_tool_results(
                            old(context)@,
                            self@.calls,
                            texts_after_cancel(tool_outputs, self@.calls.len()),
                        )
                    } else {
                        cut_back(old(context)@, self@.stable)
                    }
                },
            },
    {
        match failure {
            TurnFailure::Error(e) => self.abort_with_texts(
                context,
                TurnFailure::Error(e),
                &Vec::new(),
            ),
            TurnFailure::Cancelled { tool_outputs } => {
                let contents = write_outputs(&self.outputs_after_cancel(tool_outputs));
                self.abort_with_texts(
                    context,
                    TurnFailure::Cancelled { tool_outputs: None },
                    &contents,
                )
            },
        }
    }

    /// Ends a turn that was interrupted or failed. `contents` are the compact
    /// JSON texts of what the model sees of the outputs of the turn's calls.
    /// An error cuts the conversation back to what it was before the turn, and
    /// so does an interruption of a turn without calls.
    pub fn abort_with_texts(
        &self,
        context: &mut ConversationContextManager,
        failure: TurnFailure,
        contents: &Vec<String>,
    ) -> (r: Result<TurnResult, String>)
        ensures
            match failure {
                TurnFailure::Error(e) => {
                    &&& r matches Err(error) && error@ == e@
                    &&& final(context)@ == cut_back(old(context)@, self@.stable)
                },
                TurnFailure::Cancelled { .. } => {
                    &&& r matches Ok(t) && t.stop_reason@ == STOP_CANCELLED@
                    &&& final(context)@ == if self@.calls.len() > 0 {
                        with_tool_results(old(context)@, self@.calls, texts(contents@))
                    } else {
                        cut_back(old(context)@, self@.stable)
                    }
                },
            },
    {
        match failure {
            TurnFailure::Error(e) => {
                context.truncate_messages(self.stable_message_count);
                Err(e)
            },
            TurnFailure::Cancelled { .. } => {
                if self.calls.len() > 0 {
                    add_tool_results(context, &self.calls, contents);
                } else {
                    context.truncate_messages(self.stable_message_count);
                }
                Ok(TurnResult { stop_reason: STOP_CANCELLED.to_owned() })
            },
        }
    }
}

/// A turn that fails leaves the conversation as it was before the turn,
/// whatever the turn added to it.
pub proof fn law_failed_turn_leaves_no_trace(c: ConversationView, added: Seq<Jv>)
    ensures
        cut_back(
            ConversationView { messages: c.messages + added, ..c },
            c.messages.len(),
        ) == c,
{
    let d = ConversationView { messages: c.messages + added, ..c };
    assert(cut_back(d, c.messages.len()).messages =~= c.messages);
}

/// Every call gets one output, and a call that ran gets what it gave back.
pub proof fn law_every_call_is_answered(verdicts: Seq<VerdictView>, outputs: Seq<Jv>, missing: Jv, i: int)
    requires
        0 <= i < verdicts.len(),
        verdicts[i] is Execute,
        outputs.len() == running(verdicts, verdicts.len() as int),
    ensures
        all_outputs(verdicts, outputs, missing).len() == verdicts.len(),
        0 <= running(verdicts, i) < outputs.len(),
        all_outputs(verdicts, outputs, missing)[i] == outputs[running(verdicts, i)],
{
    lemma_running(verdicts, i);
    lemma_running_grows(verdicts, i + 1, verdicts.len() as int);
}

proof fn lemma_running_grows(verdicts: Seq<VerdictView>, a: int, b: int)
    requires
        0 <= a <= b <= verdicts.len(),
    ensures
        running(verdicts, a) <= running(verdicts, b),
    decreases b,
{
    if a < b {
        lemma_running_grows(verdicts, a, b - 1);
    }
}

/// What is handed to the tools are the calls that may run, no others.
pub proof fn law_only_allowed_calls_run(calls: Seq<CallView>, verdicts: Seq<VerdictView>, n: int)
    requires
        0 <= n <= calls.len(),
        n <= verdicts.len(),
    ensures
        batch_view(calls, verdicts, n).len() == running(verdicts, n),
        forall|i: int|
            0 <= i < n && (#[trigger] verdicts[i]) is Execute ==> running(verdicts, i)
                < batch_view(calls, verdicts, n).len() && batch_view(calls, verdicts, n)[running(
                verdicts,
                i,
            )] == request_view(calls[i]),
    decreases n,
{
    if n > 0 {
        law_only_allowed_calls_run(calls, verdicts, n - 1);
        assert forall|i: int| 0 <= i < n && (#[trigger] verdicts[i]) is Execute implies running(
            verdicts,
            i,
        ) < batch_view(calls, verdicts, n).len() && batch_view(calls, verdicts, n)[running(
            verdicts,
            i,
        )] == request_view(calls[i]) by {
            lemma_running(verdicts, i);
            if i < n - 1 {
                lemma_running_grows(verdicts, i + 1, n - 1);
            }
        }
    }
}

/// Whether the `k`-th request that is handed to the tools is the `j`-th call,
/// which may run.
pub open spec fn hands_over(calls: Seq<CallView>, verdicts: Seq<VerdictView>, n: int, k: int, j: int) -> bool {
    &&& 0 <= j < n
    &&& verdicts[j] is Execute
    &&& batch_view(calls, verdicts, n)[k] == request_view(calls[j])
}

proof fn lemma_handed_over(calls: Seq<CallView>, verdicts: Seq<VerdictView>, n: int, k: int)
    requires
        0 <= n <= calls.len(),
        n <= verdicts.len(),
        0 <= k < batch_view(calls, verdicts, n).len(),
    ensures
        exists|j: int| hands_over(calls, verdicts, n, k, j),
    decreases n,
{
    let before = batch_view(calls, verdicts, n - 1);
    if k < before.len() {
        lemma_handed_over(calls, verdicts, n - 1, k);
        let m = n - 1;
        let j = choose|j: int| hands_over(calls, verdicts, m, k, j);
        assert(hands_over(calls, verdicts, n, k, j));
    } else {
        assert(hands_over(calls, verdicts, n, k, n - 1));
    }
}

/// Whether a request that is handed to the tools is that of a call other than
/// the `i`-th, which may run.
pub open spec fn hands_over_another(calls: Seq<CallView>, verdicts: Seq<VerdictView>, n: int, k: int, i: int) -> bool {
    exists|j: int| j != i && #[trigger] hands_over(calls, verdicts, n, k, j)
}

/// A call that was refused is answered by its refusal and never handed to the
/// tools: every request that is handed over is that of another call, which the
/// mode or the user allowed.
pub proof fn law_refused_call_is_answered_by_its_refusal(
    v: RoundView,
    outputs: Seq<Jv>,
    missing: Jv,
    i: int,
    k: int,
)
    requires
        round_holds(v),
        0 <= i < v.rulings.len(),
        ruled(v.calls[i], v.rulings[i], v.policy) matches Some(VerdictView::Output { .. }),
    ensures
        all_outputs(round_verdicts(v), outputs, missing)[i] == ruled(
            v.calls[i],
            v.rulings[i],
            v.policy,
        )->Some_0->output,
        0 <= k < batch_view(v.calls, round_verdicts(v), v.rulings.len() as int).len()
            ==> hands_over_another(
            v.calls,
            round_verdicts(v),
            v.rulings.len() as int,
            k,
            i,
        ),
{
    let verdicts = round_verdicts(v);
    let n = v.rulings.len() as int;
    assert(verdicts[i] is Output);
    if 0 <= k < batch_view(v.calls, verdicts, n).len() {
        lemma_handed_over(v.calls, verdicts, n, k);
        let j = choose|j: int| hands_over(v.calls, verdicts, n, k, j);
        assert(j != i && hands_over(v.calls, verdicts, n, k, j));
    }
}

/// A call that the policy denies never runs, whatever the user answers.
pub proof fn law_denied_call_is_blocked(call: CallView, mode_id: Seq<char>, policy: ToolPolicyConfig)
    requires
        call.parse_error is None,
        mode_of(mode_id) matches Some(mode) && tool_action(
            mode,
            call.name,
            Jv::Object(call.arguments),
            policy.terminal,
        ) is Reject,
    ensures
        verdict_of(call, mode_id, policy) matches Ok(v) && v is Output,
{
}

proof fn lemma_message_keys()
    ensures
        "role"@ != "tool_call_id"@,
        "role"@ != "name"@,
        "role"@ != "content"@,
        "tool_call_id"@ != "name"@,
        "tool_call_id"@ != "content"@,
        "name"@ != "content"@,
        "name"@ != "arguments"@,
        "tool_call_id"@ != "arguments"@,
{
    reveal_strlit("role");
    reveal_strlit("tool_call_id");
    reveal_strlit("name");
    reveal_strlit("content");
    reveal_strlit("arguments");
    assert("role"@[0] == 'r' && "tool_call_id"@[0] == 't' && "name"@[0] == 'n');
    assert("content"@[0] == 'c' && "arguments"@[0] == 'a');
}

proof fn lemma_tool_messages(calls: Seq<CallView>, contents: Seq<Seq<char>>, n: int, i: int)
    requires
        0 <= i < n <= calls.len(),
        n <= contents.len(),
    ensures
        tool_messages(calls, contents, n).len() == n,
        ({
            let m = tool_messages(calls, contents, n)[i];
            &&& m is Object
            &&& field(m, "role"@) == Some(Jv::Text("tool"@))
            &&& field(m, "tool_call_id"@) == Some(Jv::Text(calls[i].id))
            &&& field(m, "name"@) == Some(Jv::Text(calls[i].name))
            &&& field(m, "content"@) == Some(Jv::Text(contents[i]))
        }),
    decreases n,
{
    lemma_message_keys();
    if i < n - 1 {
        lemma_tool_messages(calls, contents, n - 1, i);
    } else if n > 1 {
        lemma_tool_messages(calls, contents, n - 1, 0);
    } else {
        assert(tool_messages(calls, contents, 0).len() == 0);
    }
}

/// Every call's own output goes back to the model under its id: behind the
/// conversation comes one message for each call, in the order of the calls,
/// which names the call and holds the text of its output and no other.
pub proof fn law_outputs_go_back_under_their_calls(
    c: ConversationView,
    calls: Seq<CallView>,
    contents: Seq<Seq<char>>,
    i: int,
)
    requires
        calls.len() <= contents.len(),
        0 <= i < calls.len(),
    ensures
        ({
            let after = with_tool_results(c, calls, contents);
            let n = c.messages.len();
            &&& after.messages.len() == n + calls.len()
            &&& after.messages.take(n as int) == c.messages
            &&& after == (ConversationView { messages: after.messages, ..c })
            &&& field(after.messages[n + i], "role"@) == Some(Jv::Text("tool"@))
            &&& field(after.messages[n + i], "tool_call_id"@) == Some(Jv::Text(calls[i].id))
            &&& field(after.messages[n + i], "name"@) == Some(Jv::Text(calls[i].name))
            &&& field(after.messages[n + i], "content"@) == Some(Jv::Text(contents[i]))
        }),
{
    let after = with_tool_results(c, calls, contents);
    lemma_tool_messages(calls, contents, calls.len() as int, i);
    assert(after.messages.take(c.messages.len() as int) =~= c.messages);
}

/// The model sees of an output the part that is meant for it, where that is an
/// object, and elsewhere the whole output; each as its compact text.
pub proof fn law_model_sees_its_own_output(outputs: Seq<Json>, i: int)
    requires
        0 <= i < outputs.len(),
    ensures
        model_texts(outputs).len() == outputs.len(),
        member_of(outputs[i], "model_result"@) matches Some(part) && part is Object
            ==> model_texts(outputs)[i] == compact_text(
            tree(member_of(outputs[i], "model_result"@)->Some_0),
        ),
        !(member_of(outputs[i], "model_result"@) matches Some(Json::Object(_)))
            ==> model_texts(outputs)[i] == compact_text(tree(outputs[i])),
{
}

/// A call that is handed to the tools carries its own id, name and arguments.
pub proof fn law_request_carries_its_call(call: CallView)
    ensures
        field(request_view(call), "tool_call_id"@) == Some(Jv::Text(call.id)),
        field(request_view(call), "name"@) == Some(Jv::Text(call.name)),
        field(request_view(call), "arguments"@) == Some(Jv::Object(call.arguments)),
{
    lemma_message_keys();
}

proof fn lemma_batch_order(calls: Seq<CallView>, verdicts: Seq<VerdictView>, n: int)
    requires
        0 <= n <= calls.len(),
        n <= verdicts.len(),
    ensures
        batch_view(calls, verdicts, n).len() <= n,
        (forall|k: int| 0 <= k < n ==> (#[trigger] verdicts[k]) is Execute) ==> batch_view(
            calls,
            verdicts,
            n,
        ) == Seq::new(n as nat, |k: int| request_view(calls[k])),
        (forall|k: int| 0 <= k < n ==> !((#[trigger] verdicts[k]) is Execute)) ==> batch_view(
            calls,
            verdicts,
            n,
        ).len() == 0,
    decreases n,
{
    if n > 0 {
        lemma_batch_order(calls, verdicts, n - 1);
        if forall|k: int| 0 <= k < n ==> (#[trigger] verdicts[k]) is Execute {
            assert(batch_view(calls, verdicts, n) =~= Seq::new(
                n as nat,
                |k: int| request_view(calls[k]),
            ));
        }
    } else {
        assert(batch_view(calls, verdicts, n) =~= Seq::new(
            n as nat,
            |k: int| request_view(calls[k]),
        ));
    }
}

/// Where all calls run, they are handed over in their order and get back the
/// outputs in that order; where none runs, nothing is handed over.
pub proof fn law_calls_that_run_keep_their_order(
    calls: Seq<CallView>,
    verdicts: Seq<VerdictView>,
    outputs: Seq<Jv>,
    missing: Jv,
)
    requires
        calls.len() == verdicts.len(),
        outputs.len() == calls.len(),
    ensures
        (forall|k: int| 0 <= k < verdicts.len() ==> (#[trigger] verdicts[k]) is Execute) ==> {
            &&& batch_view(calls, verdicts, calls.len() as int) == Seq::new(
                calls.len(),
                |k: int| request_view(calls[k]),
            )
            &&& all_outputs(verdicts, outputs, missing) == outputs
        },
        (forall|k: int| 0 <= k < verdicts.len() ==> !((#[trigger] verdicts[k]) is Execute))
            ==> batch_view(calls, verdicts, calls.len() as int).len() == 0,
{
    lemma_batch_order(calls, verdicts, calls.len() as int);
    if forall|k: int| 0 <= k < verdicts.len() ==> (#[trigger] verdicts[k]) is Execute {
        assert forall|i: int| 0 <= i < verdicts.len() implies all_outputs(verdicts, outputs, missing)[i]
            == outputs[i] by {
            lemma_all_running(verdicts, i);
        }
        assert(all_outputs(verdicts, outputs, missing) =~= outputs);
    }
}

proof fn lemma_all_running(verdicts: Seq<VerdictView>, n: int)
    requires
        0 <= n <= verdicts.len(),
        forall|k: int| 0 <= k < verdicts.len() ==> (#[trigger] verdicts[k]) is Execute,
    ensures
        running(verdicts, n) == n,
    decreases n,
{
    if n > 0 {
        lemma_all_running(verdicts, n - 1);
    }
}

/// A call whose arguments could not be read is answered by the reason and never
/// runs, in every mode; any other call runs, is refused or is asked about as the
/// policy says.
pub proof fn law_verdict_follows_the_policy(
    call: CallView,
    mode: crate::policy::Mode,
    mode_id: Seq<char>,
    policy: ToolPolicyConfig,
)
    requires
        mode_of(mode_id) == Some(mode),
    ensures
        call.parse_error matches Some(e) ==> {
            &&& verdict_of(call, mode_id, policy) matches Ok(VerdictView::Output { status, output })
            &&& status == "failed"@
            &&& field(output, "status"@) == Some(Jv::Text("completed_error"@))
            &&& field(output, "error"@) == Some(Jv::Text(e))
        },
        call.parse_error is None ==> {
            let action = tool_action(mode, call.name, Jv::Object(call.arguments), policy.terminal);
            &&& verdict_of(call, mode_id, policy) == Ok::<VerdictView, Seq<char>>(
                VerdictView::Execute,
            ) <==> action is Allow
            &&& verdict_of(call, mode_id, policy) == Ok::<VerdictView, Seq<char>>(VerdictView::Ask)
                <==> action is Confirm
            &&& action matches ActionView::Reject(reason) ==> {
                &&& verdict_of(call, mode_id, policy) matches Ok(
                    VerdictView::Output { status, output },
                )
                &&& status == "completed"@
                &&& field(output, "status"@) == Some(Jv::Text("blocked_by_policy"@))
                &&& field(output, "mode"@) == Some(Jv::Text(mode_id))
                &&& field(output, "message"@) == Some(Jv::Text(reason))
            }
        },
{
    lemma_output_keys();
}

proof fn lemma_output_keys()
    ensures
        "status"@ != "error"@,
        "status"@ != "mode"@,
        "status"@ != "message"@,
        "mode"@ != "message"@,
{
    reveal_strlit("status");
    reveal_strlit("error");
    reveal_strlit("mode");
    reveal_strlit("message");
    assert("status"@[0] == 's' && "error"@[0] == 'e' && "mode"@.len() == 4 && "message"@.len() == 7);
}

/// A call that the user was asked about runs if and only if the user allowed it;
/// a refusal is told as one, an interruption ends the turn, and any other answer
/// is an error.
pub proof fn law_user_decides_alone(mode_id: Seq<char>, decision: Seq<char>, cancelled: bool)
    ensures
        answered(mode_id, decision, cancelled) == Ok::<VerdictView, Option<Seq<char>>>(
            VerdictView::Execute,
        ) <==> decision == "allow_once"@,
        decision == "reject_once"@ || (decision == "cancelled"@ && !cancelled) ==> {
            &&& answered(mode_id, decision, cancelled) matches Ok(
                VerdictView::Output { status, output },
            )
            &&& status == "completed"@
            &&& field(output, "status"@) == Some(Jv::Text("blocked_by_policy"@))
            &&& field(output, "mode"@) == Some(Jv::Text(mode_id))
        },
        answered(mode_id, decision, cancelled) == Err::<VerdictView, Option<Seq<char>>>(None) <==> (
        decision == "cancelled"@ && cancelled),
        decision != "allow_once"@ && decision != "reject_once"@ && decision != "cancelled"@ ==> (
        answered(mode_id, decision, cancelled) matches Err(Some(_))),
{
    lemma_output_keys();
    reveal_strlit("allow_once");
    reveal_strlit("reject_once");
    reveal_strlit("cancelled");
    assert("allow_once"@.len() == 10 && "reject_once"@.len() == 11 && "cancelled"@.len() == 9);
}

/// What an answer that grew too long leaves behind is told in the calls whose
/// arguments could not be read; every call keeps its id, name and arguments, and
/// no call is added or lost.
pub proof fn law_annotation_only_explains(
    calls: Seq<CallView>,
    reason: Option<Seq<char>>,
    max_tokens: Option<u32>,
    i: int,
)
    requires
        0 <= i < calls.len(),
    ensures
        ({
            let after = annotated_all(calls, reason, max_tokens);
            &&& after.len() == calls.len()
            &&& after[i].id == calls[i].id
            &&& after[i].name == calls[i].name
            &&& after[i].arguments == calls[i].arguments
            &&& (after[i].parse_error is Some) == (calls[i].parse_error is Some)
            &&& reason is None ==> after == calls
            &&& calls[i].parse_error is Some && (reason == Some("length"@) || reason == Some(
                "max_tokens"@,
            ) || reason == Some("max_output_tokens"@)) ==> after[i].parse_error == Some(
                limit_notice(max_tokens),
            )
            &&& reason == Some("stop"@) || reason == Some("tool_calls"@) ==> after == calls
        }),
{
    let after = annotated_all(calls, reason, max_tokens);
    lemma_reason("length"@);
    lemma_reason("max_tokens"@);
    lemma_reason("max_output_tokens"@);
    lemma_reason("stop"@);
    lemma_reason("tool_calls"@);
    reveal_strlit("length");
    reveal_strlit("max_tokens");
    reveal_strlit("max_output_tokens");
    reveal_strlit("stop");
    reveal_strlit("tool_calls");
    assert("stop"@[0] == 's' && "tool_calls"@[0] == 't');
    assert("length"@[0] == 'l' && "max_tokens"@[0] == 'm' && "max_output_tokens"@[0] == 'm');
    if reason is None || reason == Some("stop"@) || reason == Some("tool_calls"@) {
        assert(after =~= calls);
    }
}

proof fn lemma_reason(s: Seq<char>)
    requires
        s == "length"@ || s == "max_tokens"@ || s == "max_output_tokens"@ || s == "stop"@ || s
            == "tool_calls"@,
    ensures
        ascii_lower(trim_of(s)) == s,
{
    reveal_strlit("length");
    reveal_strlit("max_tokens");
    reveal_strlit("max_output_tokens");
    reveal_strlit("stop");
    reveal_strlit("tool_calls");
    assert(crate::text::trim_start_of(s) == s);
    assert(trim_of(s) == s);
    assert(ascii_lower(s) =~= s);
}

/// A prompt comes last, behind what watchers had to say, which comes behind the
/// conversation. A text is stored as one text block.
pub proof fn law_prompt_comes_last(c: ConversationView, pending: Seq<Jv>, text: Seq<char>)
    ensures
        ({
            let after = opened(c, pending, Jv::Text(text));
            let n = c.messages.len() + pending.len();
            &&& after == (ConversationView { messages: after.messages, ..c })
            &&& after.messages.len() == n + 1
            &&& after.messages.take(n as int) == c.messages + pending
            &&& field(after.messages[n as int], "role"@) == Some(Jv::Text("user"@))
            &&& field(after.messages[n as int], "content"@) matches Some(Jv::Array(blocks))
                && blocks.len() == 1 && field(blocks[0], "type"@) == Some(Jv::Text("text"@))
                && field(blocks[0], "text"@) == Some(Jv::Text(text))
        }),
{
    let after = opened(c, pending, Jv::Text(text));
    let n = c.messages.len() + pending.len();
    lemma_message_keys();
    reveal_strlit("type");
    reveal_strlit("text");
    assert("type"@[1] == 'y' && "text"@[1] == 'e');
    assert(after.messages.take(n as int) =~= c.messages + pending);
}

/// An output that is lost says that it is missing; one that fails or is blocked says
/// why.
pub proof fn law_failures_say_what_happened(mode: Seq<char>, message: Seq<char>)
    ensures
        lost_output() == Jv::Object(
            map![
                "status"@ => Jv::Text("completed_error"@),
                "error"@ => Jv::Text("Tool output missing due to interrupted execution."@),
            ],
        ),
        error_output(message) == Jv::Object(
            map!["status"@ => Jv::Text("completed_error"@), "error"@ => Jv::Text(message)],
        ),
        blocked_view(mode, message) == Jv::Object(
            map![
                "status"@ => Jv::Text("blocked_by_policy"@),
                "mode"@ => Jv::Text(mode),
                "message"@ => Jv::Text(message),
            ],
        ),
{
}

/// The model gets the part of an output that is meant for it, or the whole of it.
pub proof fn law_model_gets_its_part(output: Jv, m: Map<Seq<char>, Jv>)
    ensures
        field(output, "model_result"@) == Some(Jv::Object(m)) ==> model_part(output) == Jv::Object(
            m,
        ),
        field(output, "model_result"@) is None ==> model_part(output) == output,
{
}

/// After a cancellation every call is answered: by the outputs that there are, or each
/// by the cancellation.
pub proof fn law_cancelled_calls_are_answered(outputs: Vec<Json>, n: nat, i: int)
    requires
        0 <= i < n,
    ensures
        outputs@.len() > 0 ==> texts_after_cancel(Some(outputs), n) == model_texts(outputs@),
        texts_after_cancel(None, n).len() == n,
        texts_after_cancel(None, n)[i] == compact_text(cancelled_output_tree()),
        outputs@.len() == 0 ==> texts_after_cancel(Some(outputs), n) == texts_after_cancel(None, n),
{
}

/// The model ran out of room if it says so in one of these ways.
pub proof fn law_model_ran_out_of_room(s: Seq<char>)
    ensures
        is_output_limit(Some(s)) <==> (ascii_lower(trim_of(s)) == "length"@ || ascii_lower(
            trim_of(s),
        ) == "max_tokens"@ || ascii_lower(trim_of(s)) == "max_output_tokens"@),
        !is_output_limit(None),
{
}

/// The rounds of a turn stay within its limit where it has one.
pub proof fn law_rounds_stay_within_the_limit(l: LoopView, limit: int)
    ensures
        l.limit is None ==> limit_kept(l),
        (l.limit matches Some(k) && k == limit) ==> (limit_kept(l) <==> l.completed <= limit),
{
}

/// A call is ruled by the policy alone where that decides, and by the user where it
/// asks.
pub proof fn law_call_is_ruled_by_policy_or_user(
    call: CallView,
    policy: ToolPolicyConfig,
    mode_id: Seq<char>,
    decision: Seq<char>,
    cancelled: bool,
)
    ensures
        ({
            let alone = ruled(call, RulingView::Mode(mode_id), policy);
            let asked = ruled(call, RulingView::Answer { mode_id, decision, cancelled }, policy);
            match verdict_of(call, mode_id, policy) {
                Ok(VerdictView::Ask) => alone is None && (match answered(
                    mode_id,
                    decision,
                    cancelled,
                ) {
                    Ok(v) => asked == Some(v),
                    Err(_) => asked is None,
                }),
                Ok(v) => alone == Some(v) && asked is None,
                Err(_) => alone is None && asked is None,
            }
        }),
{
}

} // verus!
