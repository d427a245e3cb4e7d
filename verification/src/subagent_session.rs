//! The life of a subagent: its turns, its messages, its outputs.

use crate::activity::{
    member_text, ActivityEvent, ToolCallEvent, ToolCallUpdateEvent, EVENT_AGENT_MESSAGE_CHUNK,
    EVENT_AGENT_THOUGHT_CHUNK, EVENT_TOOL_CALL,
};
use crate::constants::{STOP_CANCELLED, STOP_COMPLETED, STOP_MAX_TURNS};
use crate::content_block::{text as text_block, text_view};
use crate::json::{
    as_count, field, fields, json_views, lemma_json_views, lemma_json_views_push, lookup,
    member, no_members, opt_pretty, opt_view, pretty_member, put, put_text, text_field,
    text_field_or, Json, Jv,
    Member,
};
use crate::models::AgentState;
use crate::subagent::{
    card_text, card_tool_status, card_with_call, card_with_status, card_with_text, card_with_user,
    extract_last_assistant_response, extract_update_text, last_answer, new_card, public_status,
    session_slice, slice_view, subagent_public_status, tool_status, update_text, CardView,
    FlowKind, SubagentCardState,
};
use crate::text::{cat2, cat5, is_blank, opt_str, opt_text, str_eq, trim, trim_of};
use vstd::prelude::*;

verus! {

/// A subagent.
#[derive(Debug)]
pub struct SubagentSession {
    session_id: String,
    session_name: String,
    task: String,
    policy: String,
    status: String,
    last_result: String,
    error: String,
    card: SubagentCardState,
    turn_running: bool,
}

/// What a subagent is.
#[verifier::ext_equal]
pub ghost struct SubagentView {
    pub id: Seq<char>,
    pub name: Seq<char>,
    pub task: Seq<char>,
    pub policy: Seq<char>,
    pub status: Seq<char>,
    pub last_result: Seq<char>,
    pub error: Seq<char>,
    pub card: CardView,
    pub running: bool,
}

impl View for SubagentSession {
    type V = SubagentView;

    closed spec fn view(&self) -> SubagentView {
        SubagentView {
            id: self.session_id@,
            name: self.session_name@,
            task: self.task@,
            policy: self.policy@,
            status: self.status@,
            last_result: self.last_result@,
            error: self.error@,
            card: self.card@,
            running: self.turn_running,
        }
    }
}

/// The content of a tool call that shows a card.
pub open spec fn card_content(text: Seq<char>) -> Jv {
    Jv::Array(
        seq![
            Jv::Object(
                Map::<Seq<char>, Jv>::empty().insert("type"@, Jv::Text("content"@)).insert(
                    "content"@,
                    text_view(text),
                ),
            ),
        ],
    )
}

fn build_card_content(text: &str) -> (r: Json)
    ensures
        r@ == card_content(text@),
{
    let mut m = no_members();
    put_text(&mut m, "type", "content");
    put(&mut m, "content", text_block(text));
    let item = Json::Object(m);
    let mut items: Vec<Json> = Vec::new();
    proof {
        lemma_json_views(items@);
        lemma_json_views_push(items@, item);
    }
    items.push(item);
    proof {
        assert(json_views(items@) =~= seq![item@]);
    }
    Json::Array(items)
}

/// Whether an event shows the card of a new subagent.
pub open spec fn shows_start(e: ActivityEvent, s: SubagentView) -> bool {
    e matches ActivityEvent::ToolCall(t) && {
        &&& t.tool_call_id@ == s.id
        &&& t.title@ == "subagent:"@ + s.name
        &&& t.kind@ == "other"@
        &&& t.status@ == "in_progress"@
        &&& t.raw_input is None
        &&& t.raw_output is None
        &&& opt_view(t.content) == Some(card_content(card_text(s.card)))
    }
}

/// Whether an event shows the card of a subagent under a status.
pub open spec fn shows_card(e: ActivityEvent, s: SubagentView, status: Seq<char>) -> bool {
    e matches ActivityEvent::ToolCallUpdate(t) && {
        &&& t.tool_call_id@ == s.id
        &&& t.status@ == status
        &&& opt_text(t.title) == Some("subagent:"@ + s.name)
        &&& t.kind is None
        &&& t.raw_input is None
        &&& t.raw_output is None
        &&& opt_view(t.content) == Some(card_content(card_text(s.card)))
    }
}

/// The status and the error with which a turn ends.
pub open spec fn turn_end(outcome: Result<String, String>) -> (Seq<char>, Seq<char>) {
    match outcome {
        Ok(reason) => if reason@ == "completed"@ {
            ("waiting_input"@, ""@)
        } else if reason@ == "cancelled"@ {
            ("cancelled"@, "subagent was cancelled"@)
        } else if reason@ == "max_turns"@ {
            ("failed"@, "subagent reached max turns"@)
        } else {
            ("failed"@, "subagent stopped with reason: "@ + reason@)
        },
        Err(e) => ("failed"@, e@),
    }
}

/// A subagent after a turn.
pub open spec fn after_turn(s: SubagentView, outcome: Result<String, String>, messages: Seq<Jv>) -> SubagentView {
    let (status, error) = turn_end(outcome);
    let told = public_status(status, error);
    if error.len() > 0 {
        SubagentView {
            status,
            error,
            card: card_with_status(card_with_text(s.card, FlowKind::Response, error), told),
            running: false,
            ..s
        }
    } else {
        SubagentView {
            status,
            last_result: last_answer(messages, messages.len() as int),
            card: card_with_status(s.card, told),
            running: false,
            ..s
        }
    }
}

/// A subagent that starts a turn with a message.
pub open spec fn in_turn(s: SubagentView, message: Seq<char>) -> SubagentView {
    SubagentView {
        status: "running"@,
        card: card_with_user(card_with_status(s.card, "running"@), message),
        running: true,
        ..s
    }
}

/// The members that every output of a subagent has.
pub open spec fn output_fields(s: SubagentView, tool: Seq<char>, status: Seq<char>) -> Map<
    Seq<char>,
    Jv,
> {
    Map::<Seq<char>, Jv>::empty().insert("tool"@, Jv::Text(tool)).insert(
        "kind"@,
        Jv::Text("subagent"@),
    ).insert("name"@, Jv::Text(s.name)).insert("id"@, Jv::Text(s.id)).insert(
        "status"@,
        Jv::Text(status),
    )
}

/// The same with what the subagent is for.
pub open spec fn task_fields(s: SubagentView, tool: Seq<char>, status: Seq<char>) -> Map<
    Seq<char>,
    Jv,
> {
    output_fields(s, tool, status).insert("task"@, Jv::Text(s.task)).insert(
        "policy"@,
        Jv::Text(s.policy),
    )
}

/// The output of a spawn.
pub open spec fn spawn_view(s: SubagentView) -> Jv {
    Jv::Object(task_fields(s, "spawn_subagent"@, public_status(s.status, ""@)))
}

/// What is told of a subagent's status.
pub open spec fn status_view(s: SubagentView, tool: Seq<char>, over: Option<Seq<char>>) -> Jv {
    let status = match over {
        Some(o) => o,
        None => public_status(s.status, s.error),
    };
    let m = output_fields(s, tool, status);
    Jv::Object(
        if s.error.len() > 0 {
            m.insert("error"@, Jv::Text(s.error))
        } else {
            m
        },
    )
}

/// The error that a checkout tells of.
pub open spec fn told_error(s: SubagentView, error: Option<Seq<char>>) -> Seq<char> {
    match error {
        Some(e) => if e.len() > 0 {
            e
        } else {
            s.error
        },
        None => s.error,
    }
}

/// What a checkout shows: the result of a subagent that is done, the end of
/// its conversation elsewhere.
pub open spec fn checkout_view(
    s: SubagentView,
    tool: Seq<char>,
    messages: Seq<Jv>,
    message_num: int,
    error: Option<Seq<char>>,
) -> Jv {
    let e = told_error(s, error);
    let status = public_status(s.status, e);
    let m = task_fields(s, tool, status);
    let n = if status == "completed"@ && !is_blank(s.last_result) {
        m.insert("result"@, Jv::Text(s.last_result))
    } else {
        m.insert("session_slice"@, slice_view(messages, message_num))
    };
    Jv::Object(
        if e.len() > 0 {
            n.insert("error"@, Jv::Text(e))
        } else {
            n
        },
    )
}

/// What becomes of a message to a subagent.
#[derive(Debug)]
pub enum SendPlan {
    /// It is refused, and this is the output.
    Refuse(Json),
    /// The current turn is cancelled, and the message starts the next.
    Interrupt,
    /// The message starts a turn.
    Start,
}

/// The output of a message that was refused.
pub open spec fn refusal_view(s: SubagentView, tool: Seq<char>, error: Seq<char>) -> Jv {
    Jv::Object(output_fields(s, tool, "error"@).insert("error"@, Jv::Text(error)))
}

/// Why a message is refused, if so.
pub open spec fn send_problem(s: SubagentView, message: Seq<char>, interrupt: bool) -> Option<
    Seq<char>,
> {
    if is_blank(message) {
        Some("message cannot be empty"@)
    } else if s.status == "closed"@ {
        Some("subagent is closed"@)
    } else if (s.status == "running"@ || s.running) && !interrupt {
        Some(
            "subagent is already running; set interrupt=true to replace the current turn"@,
        )
    } else {
        None
    }
}

/// The card of a subagent after it reported something, where that is shown.
pub open spec fn card_after_update(c: CardView, m: Map<Seq<char>, Jv>, input: Option<Seq<char>>) -> Option<
    CardView,
> {
    let kind = member_text(m, "session_update"@);
    let text = update_text(m);
    let running = card_with_status(c, "running"@);
    if kind == "agent_thought_chunk"@ {
        if text.len() == 0 {
            None
        } else {
            Some(card_with_text(running, FlowKind::Thinking, text))
        }
    } else if kind == "agent_message_chunk"@ {
        if text.len() == 0 {
            None
        } else {
            Some(card_with_text(running, FlowKind::Response, text))
        }
    } else if kind == "tool_call"@ {
        Some(card_with_call(running, text_field_or(Jv::Object(m), "title"@, "tool"@), input))
    } else {
        None
    }
}

/// What the parent's user is asked about a tool call of a subagent.
pub open spec fn permission_of(s: SubagentView, m: Map<Seq<char>, Jv>) -> Map<Seq<char>, Jv> {
    m.insert(
        "title"@,
        Jv::Text(
            "[subagent:"@ + s.name + "] "@ + text_field_or(Jv::Object(m), "title"@, "tool"@),
        ),
    )
}

fn str_member<'a>(members: &'a Vec<Member>, key: &str, default: &'a str) -> (r: &'a str)
    ensures
        r@ == text_field_or(Jv::Object(fields(members@)), key@, default@),
{
    match lookup(members, key) {
        Some(v) => match v.as_str() {
            Some(s) => s,
            None => default,
        },
        None => default,
    }
}

impl SubagentSession {
    /// A subagent that has not started.
    pub fn new(session_id: &str, session_name: &str, task: &str, policy: &str) -> (r: Self)
        ensures
            r@ == (SubagentView {
                id: session_id@,
                name: session_name@,
                task: task@,
                policy: policy@,
                status: "created"@,
                last_result: ""@,
                error: ""@,
                card: new_card(session_name@, policy@),
                running: false,
            }),
    {
        SubagentSession {
            session_id: session_id.to_owned(),
            session_name: session_name.to_owned(),
            task: task.to_owned(),
            policy: policy.to_owned(),
            status: "created".to_owned(),
            last_result: "".to_owned(),
            error: "".to_owned(),
            card: SubagentCardState::new(session_name, policy),
            turn_running: false,
        }
    }

    fn record_event(&self, status: &str) -> (r: ActivityEvent)
        ensures
            shows_card(r, self@, status@),
    {
        let rendered = self.card.render();
        let mut event = ToolCallUpdateEvent::new(self.session_id.as_str(), status);
        event.title = Some(cat2("subagent:", self.session_name.as_str()));
        event.content = Some(build_card_content(rendered.as_str()));
        ActivityEvent::ToolCallUpdate(event)
    }

    fn begin_turn(&mut self, message: &str)
        ensures
            final(self)@ == in_turn(old(self)@, message@),
    {
        self.card.set_status("running");
        self.card.append_user(message);
        self.status = "running".to_owned();
        self.turn_running = true;
    }

    /// Starts a subagent on its task; one that has started stays as it is.
    pub fn start(&mut self) -> (r: Option<ActivityEvent>)
        ensures
            if old(self)@.status == "created"@ {
                &&& final(self)@ == in_turn(old(self)@, old(self)@.task)
                &&& r matches Some(e) && shows_start(e, final(self)@)
            } else {
                r is None && final(self)@ == old(self)@
            },
    {
        if !str_eq(self.status.as_str(), "created") {
            return None;
        }
        let task = self.task.clone();
        self.begin_turn(task.as_str());
        let rendered = self.card.render();
        let title = cat2("subagent:", self.session_name.as_str());
        let mut event = ToolCallEvent::new(self.session_id.as_str(), title.as_str());
        event.status = "in_progress".to_owned();
        event.content = Some(build_card_content(rendered.as_str()));
        Some(ActivityEvent::ToolCall(event))
    }

    /// Ends a turn; `messages` is the conversation of the subagent.
    pub fn finish_turn(&mut self, outcome: Result<String, String>, messages: &Vec<Json>) -> (r:
        ActivityEvent)
        ensures
            final(self)@ == after_turn(old(self)@, outcome, json_views(messages@)),
            shows_card(
                r,
                final(self)@,
                tool_status(public_status(turn_end(outcome).0, turn_end(outcome).1)),
            ),
    {
        let (status_text, error_text) = match outcome {
            Ok(reason) => if str_eq(reason.as_str(), STOP_COMPLETED) {
                ("waiting_input".to_owned(), "".to_owned())
            } else if str_eq(reason.as_str(), STOP_CANCELLED) {
                ("cancelled".to_owned(), "subagent was cancelled".to_owned())
            } else if str_eq(reason.as_str(), STOP_MAX_TURNS) {
                ("failed".to_owned(), "subagent reached max turns".to_owned())
            } else {
                (
                    "failed".to_owned(),
                    cat2("subagent stopped with reason: ", reason.as_str()),
                )
            },
            Err(e) => ("failed".to_owned(), e),
        };
        proof {
            reveal_strlit("");
            lemma_json_views(messages@);
        }
        let public = subagent_public_status(status_text.as_str(), error_text.as_str());
        self.status = status_text;
        if !error_text.as_str().is_empty() {
            self.card.append_response(error_text.as_str());
            self.error = error_text;
        } else {
            self.last_result = extract_last_assistant_response(messages);
        }
        self.turn_running = false;
        self.card.set_status(public);
        self.record_event(card_tool_status(public))
    }

    /// Ends the current turn with a status.
    pub fn cancel_turn(&mut self, target_status: &str) -> (r: ActivityEvent)
        ensures
            final(self)@ == (SubagentView {
                status: target_status@,
                card: card_with_status(old(self)@.card, target_status@),
                ..old(self)@
            }),
            shows_card(r, final(self)@, tool_status(target_status@)),
    {
        self.status = target_status.to_owned();
        self.card.set_status(target_status);
        self.record_event(card_tool_status(target_status))
    }

    /// Closes the subagent, once.
    pub fn close(&mut self) -> (r: Option<ActivityEvent>)
        ensures
            if old(self)@.status == "closed"@ {
                r is None && final(self)@ == old(self)@
            } else {
                &&& final(self)@ == (SubagentView {
                    status: "closed"@,
                    card: card_with_status(old(self)@.card, "closed"@),
                    ..old(self)@
                })
                &&& r matches Some(e) && shows_card(e, final(self)@, tool_status("closed"@))
            },
    {
        if str_eq(self.status.as_str(), "closed") {
            return None;
        }
        Some(self.cancel_turn("closed"))
    }

    /// Decides about a message.
    pub fn plan_send(&self, message: &str, interrupt: bool) -> (r: SendPlan)
        ensures
            match send_problem(self@, message@, interrupt) {
                Some(e) => r matches SendPlan::Refuse(v) && v@ == refusal_view(
                    self@,
                    "send_subagent"@,
                    e,
                ),
                None => if self@.status == "running"@ || self@.running {
                    r is Interrupt
                } else {
                    r is Start
                },
            },
    {
        if trim(message).is_empty() {
            return SendPlan::Refuse(self.error_output("send_subagent", "message cannot be empty"));
        }
        if str_eq(self.status.as_str(), "closed") {
            return SendPlan::Refuse(self.error_output("send_subagent", "subagent is closed"));
        }
        if str_eq(self.status.as_str(), "running") || self.turn_running {
            if !interrupt {
                return SendPlan::Refuse(
                    self.error_output(
                        "send_subagent",
                        "subagent is already running; set interrupt=true to replace the current turn",
                    ),
                );
            }
            return SendPlan::Interrupt;
        }
        SendPlan::Start
    }

    /// Starts a turn with a message.
    pub fn begin_send(&mut self, message: &str) -> (r: ActivityEvent)
        ensures
            final(self)@ == in_turn(
                SubagentView { error: ""@, ..old(self)@ },
                trim_of(message@),
            ),
            shows_card(r, final(self)@, "in_progress"@),
    {
        self.error = "".to_owned();
        self.begin_turn(trim(message));
        self.record_event("in_progress")
    }

    /// Shows on the card what the subagent reports, with the arguments of a
    /// tool call written out.
    pub fn record_update(&mut self, update: &Vec<Member>) -> (r: Option<ActivityEvent>)
        ensures
            match card_after_update(
                old(self)@.card,
                fields(update@),
                opt_pretty(member(update@, "raw_input"@)),
            ) {
                Some(c) => {
                    &&& final(self)@ == (SubagentView { card: c, ..old(self)@ })
                    &&& r matches Some(e) && shows_card(e, final(self)@, "in_progress"@)
                },
                None => r is None && final(self)@ == old(self)@,
            },
    {
        match pretty_member(update, "raw_input") {
            Some(text) => self.record_update_text(update, Some(text.as_str())),
            None => self.record_update_text(update, None),
        }
    }

    /// Shows on the card what the subagent reports; `input` is the indented
    /// JSON text of a tool call's arguments.
    pub fn record_update_text(&mut self, update: &Vec<Member>, input: Option<&str>) -> (r: Option<
        ActivityEvent,
    >)
        ensures
            match card_after_update(old(self)@.card, fields(update@), opt_str(input)) {
                Some(c) => {
                    &&& final(self)@ == (SubagentView { card: c, ..old(self)@ })
                    &&& r matches Some(e) && shows_card(e, final(self)@, "in_progress"@)
                },
                None => r is None && final(self)@ == old(self)@,
            },
    {
        let kind = str_member(update, "session_update", "");
        if str_eq(kind, EVENT_AGENT_THOUGHT_CHUNK) {
            let text = extract_update_text(update);
            if text.as_str().is_empty() {
                return None;
            }
            self.card.set_status("running");
            self.card.append_thinking(text.as_str());
        } else if str_eq(kind, EVENT_AGENT_MESSAGE_CHUNK) {
            let text = extract_update_text(update);
            if text.as_str().is_empty() {
                return None;
            }
            self.card.set_status("running");
            self.card.append_response(text.as_str());
        } else if str_eq(kind, EVENT_TOOL_CALL) {
            let title = str_member(update, "title", "tool");
            self.card.set_status("running");
            self.card.append_tool_text(title, input);
        } else {
            return None;
        }
        Some(self.record_event("in_progress"))
    }

    /// Shows on the card that the user is asked, and says what about.
    pub fn record_permission(&mut self, payload: Vec<Member>) -> (r: (ActivityEvent, Vec<Member>))
        ensures
            final(self)@ == (SubagentView {
                card: card_with_status(old(self)@.card, "waiting_user_confirm"@),
                ..old(self)@
            }),
            shows_card(r.0, final(self)@, "pending"@),
            fields(r.1@) == permission_of(old(self)@, fields(payload@)),
    {
        self.card.set_status("waiting_user_confirm");
        let event = self.record_event("pending");
        let title = cat5(
            "[subagent:",
            self.session_name.as_str(),
            "] ",
            str_member(&payload, "title", "tool"),
            "",
        );
        proof {
            reveal_strlit("");
            assert("[subagent:"@ + self.session_name@ + "] "@ + text_field_or(
                Jv::Object(fields(payload@)),
                "title"@,
                "tool"@,
            ) + ""@ =~= "[subagent:"@ + self.session_name@ + "] "@ + text_field_or(
                Jv::Object(fields(payload@)),
                "title"@,
                "tool"@,
            ));
        }
        let mut out = payload;
        put(&mut out, "title", Json::Text(title));
        (event, out)
    }

    /// Shows on the card whether the subagent waits for the user.
    pub fn record_state(&mut self, state: AgentState) -> (r: ActivityEvent)
        ensures
            ({
                let waits = state is WaitingUserConfirm;
                &&& final(self)@ == (SubagentView {
                    card: card_with_status(
                        old(self)@.card,
                        if waits {
                            "waiting_user_confirm"@
                        } else {
                            "running"@
                        },
                    ),
                    ..old(self)@
                })
                &&& shows_card(
                    r,
                    final(self)@,
                    if waits {
                        "pending"@
                    } else {
                        "in_progress"@
                    },
                )
            }),
    {
        if state == AgentState::WaitingUserConfirm {
            self.card.set_status("waiting_user_confirm");
            self.record_event("pending")
        } else {
            self.card.set_status("running");
            self.record_event("in_progress")
        }
    }

    fn output(&self, tool: &str, status: &str) -> (r: Vec<Member>)
        ensures
            fields(r@) == output_fields(self@, tool@, status@),
    {
        let mut m = no_members();
        put_text(&mut m, "tool", tool);
        put_text(&mut m, "kind", "subagent");
        put_text(&mut m, "name", self.session_name.as_str());
        put_text(&mut m, "id", self.session_id.as_str());
        put_text(&mut m, "status", status);
        m
    }

    /// The output of a spawn.
    pub fn spawn_output(&self) -> (r: Json)
        ensures
            r@ == spawn_view(self@),
    {
        proof {
            reveal_strlit("");
        }
        let mut m = self.output(
            "spawn_subagent",
            subagent_public_status(self.status.as_str(), ""),
        );
        put_text(&mut m, "task", self.task.as_str());
        put_text(&mut m, "policy", self.policy.as_str());
        Json::Object(m)
    }

    /// What is told of the subagent's status.
    pub fn status_output(&self, tool: &str, status_override: Option<&str>) -> (r: Json)
        ensures
            r@ == status_view(self@, tool@, opt_str(status_override)),
    {
        let status = match status_override {
            Some(s) => s,
            None => subagent_public_status(self.status.as_str(), self.error.as_str()),
        };
        let mut m = self.output(tool, status);
        if !self.error.as_str().is_empty() {
            put_text(&mut m, "error", self.error.as_str());
        }
        Json::Object(m)
    }

    /// What a checkout shows; `messages` is the conversation of the subagent.
    pub fn checkout_output(
        &self,
        tool: &str,
        messages: &Vec<Json>,
        message_num: usize,
        error: Option<&str>,
    ) -> (r: Json)
        ensures
            r@ == checkout_view(
                self@,
                tool@,
                json_views(messages@),
                message_num as int,
                opt_str(error),
            ),
    {
        let final_error = match error {
            Some(e) => if e.is_empty() {
                self.error.as_str()
            } else {
                e
            },
            None => self.error.as_str(),
        };
        let status = subagent_public_status(self.status.as_str(), final_error);
        let mut m = self.output(tool, status);
        put_text(&mut m, "task", self.task.as_str());
        put_text(&mut m, "policy", self.policy.as_str());
        if str_eq(status, "completed") && !trim(self.last_result.as_str()).is_empty() {
            put_text(&mut m, "result", self.last_result.as_str());
        } else {
            put(&mut m, "session_slice", session_slice(messages, message_num));
        }
        if !final_error.is_empty() {
            put_text(&mut m, "error", final_error);
        }
        Json::Object(m)
    }

    /// The output of a request that was refused.
    pub fn error_output(&self, tool: &str, error: &str) -> (r: Json)
        ensures
            r@ == refusal_view(self@, tool@, error@),
    {
        let mut m = self.output(tool, "error");
        put_text(&mut m, "error", error);
        Json::Object(m)
    }

    /// The output of a request that was accepted.
    pub fn ok_output(&self, tool: &str) -> (r: Json)
        ensures
            r@ == Jv::Object(output_fields(self@, tool@, "ok"@)),
    {
        Json::Object(self.output(tool, "ok"))
    }

    /// Whether no turn is under way.
    pub fn is_done(&self) -> (r: bool)
        ensures
            r == (self@.status != "created"@ && self@.status != "running"@),
    {
        !str_eq(self.status.as_str(), "created") && !str_eq(self.status.as_str(), "running")
    }

    /// How the subagent is listed.
    pub fn list_item(&self) -> (r: Json)
        ensures
            r@ == Jv::Object(
                Map::<Seq<char>, Jv>::empty().insert("id"@, Jv::Text(self@.id)).insert(
                    "name"@,
                    Jv::Text(self@.name),
                ).insert("kind"@, Jv::Text("subagent"@)).insert(
                    "status"@,
                    Jv::Text(public_status(self@.status, ""@)),
                ).insert("task"@, Jv::Text(self@.task)).insert(
                    "policy"@,
                    Jv::Text(self@.policy),
                ),
            ),
    {
        proof {
            reveal_strlit("");
        }
        let mut m = no_members();
        put_text(&mut m, "id", self.session_id.as_str());
        put_text(&mut m, "name", self.session_name.as_str());
        put_text(&mut m, "kind", "subagent");
        put_text(&mut m, "status", subagent_public_status(self.status.as_str(), ""));
        put_text(&mut m, "task", self.task.as_str());
        put_text(&mut m, "policy", self.policy.as_str());
        Json::Object(m)
    }
}

/// What a checkout asks for: the tool it is reported as, and how many items.
pub open spec fn checkout_request(m: Map<Seq<char>, Jv>) -> (Seq<char>, int) {
    (
        text_field_or(Jv::Object(m), "tool"@, "checkout_subagent"@),
        match as_count(field(Jv::Object(m), "message_num"@)) {
            Some(n) => if (n as u64 as usize) > 0 {
                n as u64 as usize as int
            } else {
                20
            },
            None => 20,
        },
    )
}

/// Reads what a checkout asks for.
pub fn read_checkout(args: &Vec<Member>) -> (r: (String, usize))
    ensures
        (r.0@, r.1 as int) == checkout_request(fields(args@)),
{
    let tool = str_member(args, "tool", "checkout_subagent").to_owned();
    let wanted: usize = match lookup(args, "message_num") {
        Some(v) => match v.as_u64() {
            Some(n) => {
                let k = n as usize;
                if k > 0 {
                    k
                } else {
                    20
                }
            },
            None => 20,
        },
        None => 20,
    };
    (tool, wanted)
}

/// A spawned subagent's name, task and policy.
#[derive(Debug)]
pub struct SpawnSubagentPayload {
    pub subagent_name: Option<String>,
    pub task: String,
    pub policy: Option<String>,
}

impl SpawnSubagentPayload {
    /// Takes the white space around the texts off; a task is needed, and a
    /// blank policy is none.
    pub fn checked(self) -> (r: Result<Self, String>)
        ensures
            if is_blank(self.task@) {
                r matches Err(e) && e@ == "subagent task cannot be empty"@
            } else {
                r matches Ok(p) && p.subagent_name == self.subagent_name && p.task@ == trim_of(
                    self.task@,
                ) && opt_text(p.policy) == (
                match self.policy {
                    Some(s) => if is_blank(s@) {
                        None
                    } else {
                        Some(trim_of(s@))
                    },
                    None => None,
                })
            },
    {
        let task = trim(self.task.as_str());
        if task.is_empty() {
            return Err("subagent task cannot be empty".to_owned());
        }
        let policy = match &self.policy {
            Some(p) => {
                let trimmed = trim(p.as_str());
                if trimmed.is_empty() {
                    None
                } else {
                    Some(trimmed.to_owned())
                }
            },
            None => None,
        };
        let task = task.to_owned();
        Ok(SpawnSubagentPayload { subagent_name: self.subagent_name, task, policy })
    }
}

/// The name of a subagent's run.
#[derive(Debug)]
pub struct SubagentIdPayload {
    pub subagent_run_id: String,
}

impl SubagentIdPayload {
    /// Takes the white space around the name off; a name is needed.
    pub fn checked(self) -> (r: Result<Self, String>)
        ensures
            if is_blank(self.subagent_run_id@) {
                r matches Err(e) && e@ == "subagent_run_id cannot be empty"@
            } else {
                r matches Ok(p) && p.subagent_run_id@ == trim_of(self.subagent_run_id@)
            },
    {
        let id = trim(self.subagent_run_id.as_str());
        if id.is_empty() {
            return Err("subagent_run_id cannot be empty".to_owned());
        }
        Ok(SubagentIdPayload { subagent_run_id: id.to_owned() })
    }
}

/// A message to a subagent's run.
#[derive(Debug)]
pub struct SendSubagentPayload {
    pub subagent_run_id: String,
    pub message: String,
    pub interrupt: bool,
}

impl SendSubagentPayload {
    /// Takes the white space around the texts off; both are needed.
    pub fn checked(self) -> (r: Result<Self, String>)
        ensures
            if is_blank(self.subagent_run_id@) {
                r matches Err(e) && e@ == "subagent_run_id cannot be empty"@
            } else if is_blank(self.message@) {
                r matches Err(e) && e@ == "message cannot be empty"@
            } else {
                r matches Ok(p) && p.subagent_run_id@ == trim_of(self.subagent_run_id@)
                    && p.message@ == trim_of(self.message@) && p.interrupt == self.interrupt
            },
    {
        let id = trim(self.subagent_run_id.as_str());
        let message = trim(self.message.as_str());
        if id.is_empty() {
            return Err("subagent_run_id cannot be empty".to_owned());
        }
        if message.is_empty() {
            return Err("message cannot be empty".to_owned());
        }
        Ok(
            SendSubagentPayload {
                subagent_run_id: id.to_owned(),
                message: message.to_owned(),
                interrupt: self.interrupt,
            },
        )
    }
}

/// What is told of a run that does not exist.
pub open spec fn not_found_view(id: Seq<char>) -> Jv {
    Jv::Object(
        Map::<Seq<char>, Jv>::empty().insert("subagent_run_id"@, Jv::Text(id)).insert(
            "runtime"@,
            Jv::Object(
                Map::<Seq<char>, Jv>::empty().insert("kind"@, Jv::Text("subagent"@)).insert(
                    "id"@,
                    Jv::Text(id),
                ).insert("status"@, Jv::Text("not_found"@)),
            ),
        ).insert("status"@, Jv::Text("not_found"@)).insert("done"@, Jv::Bool(true)).insert(
            "error"@,
            Jv::Text("subagent not found"@),
        ),
    )
}

/// What is told of a run that does not exist.
pub fn subagent_not_found(subagent_run_id: &str) -> (r: Json)
    ensures
        r@ == not_found_view(subagent_run_id@),
{
    let mut runtime = no_members();
    put_text(&mut runtime, "kind", "subagent");
    put_text(&mut runtime, "id", subagent_run_id);
    put_text(&mut runtime, "status", "not_found");
    let mut m = no_members();
    put_text(&mut m, "subagent_run_id", subagent_run_id);
    put(&mut m, "runtime", Json::Object(runtime));
    put_text(&mut m, "status", "not_found");
    put(&mut m, "done", Json::Bool(true));
    put_text(&mut m, "error", "subagent not found");
    Json::Object(m)
}

/// A closed subagent takes no message, and is told of as cancelled.
pub proof fn law_closed_subagent_takes_no_message(s: SubagentView, message: Seq<char>, interrupt: bool)
    requires
        s.status == "closed"@,
    ensures
        send_problem(s, message, interrupt) is Some,
        public_status(s.status, ""@) == "cancelled"@,
{
    reveal_strlit("");
    reveal_strlit("closed");
    reveal_strlit("created");
    reveal_strlit("running");
    reveal_strlit("waiting_input");
    reveal_strlit("failed");
    reveal_strlit("cancelled");
    assert("closed"@.len() == 6);
    assert("closed"@[0] == 'c');
    assert("failed"@[0] == 'f');
}

/// A subagent that answered is told to be completed, and its checkout shows
/// the answer.
pub proof fn law_answer_reaches_the_parent(s: SubagentView, messages: Seq<Jv>, reason: String, n: int)
    requires
        reason@ == "completed"@,
        s.error.len() == 0,
        !is_blank(last_answer(messages, messages.len() as int)),
    ensures
        ({
            let t = after_turn(s, Ok::<String, String>(reason), messages);
            let m = checkout_view(t, "checkout_subagent"@, messages, n, None);
            &&& public_status(t.status, t.error) == "completed"@
            &&& field(m, "result"@) == Some(
                Jv::Text(last_answer(messages, messages.len() as int)),
            )
            &&& field(m, "session_slice"@) is None
        }),
{
    reveal_strlit("");
    reveal_strlit("completed");
    reveal_strlit("created");
    reveal_strlit("running");
    reveal_strlit("waiting_input");
    reveal_strlit("result");
    reveal_strlit("session_slice");
    reveal_strlit("tool");
    reveal_strlit("kind");
    reveal_strlit("name");
    reveal_strlit("id");
    reveal_strlit("status");
    reveal_strlit("task");
    reveal_strlit("policy");
    assert("waiting_input"@.len() == 13);
    assert("created"@.len() == 7);
    assert("running"@.len() == 7);
    assert("session_slice"@.len() == 13);
    assert("tool"@.len() == 4);
    assert("kind"@.len() == 4);
    assert("name"@.len() == 4);
    assert("id"@.len() == 2);
    assert("status"@.len() == 6);
    assert("task"@.len() == 4);
    assert("policy"@.len() == 6);
    assert("result"@.len() == 6);
}

/// A turn that completed leaves a subagent waiting for input with the last answer
/// as its result; one that was cancelled, ran out of turns or failed leaves it
/// with an error. Who the subagent is and what its task is stays.
pub proof fn law_turn_ends_as_it_went(
    s: SubagentView,
    outcome: Result<String, String>,
    messages: Seq<Jv>,
)
    ensures
        ({
            let a = after_turn(s, outcome, messages);
            &&& a.id == s.id && a.name == s.name && a.task == s.task && a.policy == s.policy
            &&& !a.running
            &&& (outcome matches Ok(reason) && reason@ == "completed"@) ==> a.status
                == "waiting_input"@ && a.last_result == last_answer(
                messages,
                messages.len() as int,
            ) && a.error == s.error
            &&& (outcome matches Ok(reason) && reason@ == "cancelled"@) ==> a.status == "cancelled"@
                && a.error.len() > 0
            &&& (outcome matches Ok(reason) && reason@ == "max_turns"@) ==> a.status == "failed"@
                && a.error.len() > 0
            &&& outcome matches Err(e) ==> (e@.len() > 0 ==> a.status == "failed"@ && a.error
                == e@)
            &&& !(outcome matches Ok(reason) && reason@ == "completed"@) && !(outcome matches Err(
                e,
            ) && e@.len() == 0) ==> a.last_result == s.last_result
        }),
{
    reveal_strlit("completed");
    reveal_strlit("cancelled");
    reveal_strlit("max_turns");
    reveal_strlit("");
    reveal_strlit("subagent was cancelled");
    reveal_strlit("subagent reached max turns");
    reveal_strlit("subagent stopped with reason: ");
    assert("completed"@[1] == 'o' && "cancelled"@[1] == 'a' && "max_turns"@[0] == 'm');
    assert("completed"@[0] == 'c' && "cancelled"@[0] == 'c');
}

/// A message starts a turn of a subagent that waits; it is refused where it is
/// blank, where the subagent is closed, and, unless it interrupts, while a turn
/// runs.
pub proof fn law_message_reaches_a_subagent_that_waits(
    s: SubagentView,
    message: Seq<char>,
    interrupt: bool,
)
    ensures
        is_blank(message) ==> send_problem(s, message, interrupt) is Some,
        s.status == "closed"@ ==> send_problem(s, message, interrupt) is Some,
        (s.status == "running"@ || s.running) && !interrupt ==> send_problem(s, message, interrupt)
            is Some,
        !is_blank(message) && s.status != "closed"@ && s.status != "running"@ && !s.running
            ==> send_problem(s, message, interrupt) is None,
        !is_blank(message) && s.status != "closed"@ && interrupt ==> send_problem(
            s,
            message,
            interrupt,
        ) is None,
{
}

/// A turn that starts is shown on the card by its message, and the subagent runs.
pub proof fn law_turn_starts_with_its_message(s: SubagentView, message: Seq<char>)
    requires
        !is_blank(message),
    ensures
        ({
            let a = in_turn(s, message);
            &&& a.status == "running"@ && a.running
            &&& a.id == s.id && a.name == s.name && a.task == s.task && a.policy == s.policy
            &&& a.last_result == s.last_result && a.error == s.error
            &&& a.card.flow.len() == s.card.flow.len() + 1
            &&& a.card.flow.drop_last() == s.card.flow
            &&& a.card.flow.last().kind is User
            &&& a.card.flow.last().text == trim_of(message)
            &&& a.card.status == "running"@
        }),
{
    let a = in_turn(s, message);
    assert(a.card.flow.drop_last() =~= s.card.flow);
    lemma_running_name();
}

proof fn lemma_running_name()
    ensures
        trim_of("running"@) == "running"@,
        !is_blank("running"@),
{
    reveal_strlit("running");
    assert(crate::text::trim_start_of("running"@) == "running"@);
}

/// A checkout names the subagent, its task and its policy, and shows its result
/// where it is done and has one, and the end of its conversation elsewhere. An
/// error is told.
pub proof fn law_checkout_shows_the_result(
    s: SubagentView,
    tool: Seq<char>,
    messages: Seq<Jv>,
    message_num: int,
    error: Option<Seq<char>>,
)
    ensures
        ({
            let v = checkout_view(s, tool, messages, message_num, error);
            let m = v->Object_0;
            let e = match error {
                Some(t) if t.len() > 0 => t,
                _ => s.error,
            };
            &&& v is Object
            &&& m.dom().contains("id"@) && m["id"@] == Jv::Text(s.id)
            &&& m.dom().contains("name"@) && m["name"@] == Jv::Text(s.name)
            &&& m.dom().contains("task"@) && m["task"@] == Jv::Text(s.task)
            &&& m.dom().contains("policy"@) && m["policy"@] == Jv::Text(s.policy)
            &&& e.len() == 0 && s.status == "waiting_input"@ && !is_blank(s.last_result) ==> {
                &&& m.dom().contains("result"@) && m["result"@] == Jv::Text(s.last_result)
                &&& m["status"@] == Jv::Text("completed"@)
            }
            &&& e.len() > 0 || s.status != "waiting_input"@ || is_blank(s.last_result) ==> m.dom().contains(
                "session_slice"@,
            ) && m["session_slice"@] == slice_view(messages, message_num)
            &&& e.len() > 0 ==> m.dom().contains("error"@) && m["error"@] == Jv::Text(e)
                && m["status"@] == Jv::Text("error"@)
        }),
{
    lemma_checkout_keys();
    crate::subagent::law_parent_is_told_the_state(s.status, told_error(s, error));
}

proof fn lemma_checkout_keys()
    ensures
        "tool"@.len() == 4 && "tool"@[0] == 't' && "tool"@[1] == 'o',
        "kind"@.len() == 4 && "kind"@[0] == 'k',
        "name"@.len() == 4 && "name"@[0] == 'n',
        "id"@.len() == 2,
        "status"@.len() == 6 && "status"@[0] == 's',
        "task"@.len() == 4 && "task"@[0] == 't' && "task"@[1] == 'a',
        "policy"@.len() == 6 && "policy"@[0] == 'p',
        "result"@.len() == 6 && "result"@[0] == 'r',
        "session_slice"@.len() == 13,
        "error"@.len() == 5,
        "completed"@.len() == 9,
        "running"@.len() == 7,
{
    reveal_strlit("tool");
    reveal_strlit("kind");
    reveal_strlit("name");
    reveal_strlit("id");
    reveal_strlit("status");
    reveal_strlit("task");
    reveal_strlit("policy");
    reveal_strlit("result");
    reveal_strlit("session_slice");
    reveal_strlit("error");
    reveal_strlit("completed");
    reveal_strlit("running");
}

/// What a tool tells of a subagent names it, and its state.
pub proof fn law_outputs_name_the_subagent(s: SubagentView, tool: Seq<char>, status: Seq<char>, error: Seq<char>)
    ensures
        output_fields(s, tool, status) == map![
            "tool"@ => Jv::Text(tool),
            "kind"@ => Jv::Text("subagent"@),
            "name"@ => Jv::Text(s.name),
            "id"@ => Jv::Text(s.id),
            "status"@ => Jv::Text(status),
        ],
        refusal_view(s, tool, error) == Jv::Object(
            map![
                "tool"@ => Jv::Text(tool),
                "kind"@ => Jv::Text("subagent"@),
                "name"@ => Jv::Text(s.name),
                "id"@ => Jv::Text(s.id),
                "status"@ => Jv::Text("error"@),
                "error"@ => Jv::Text(error),
            ],
        ),
        s.error.len() == 0 ==> status_view(s, tool, Some(status)) == Jv::Object(
            output_fields(s, tool, status),
        ),
{
}

/// A checkout asks for as many items as it says, and for twenty where it does not.
pub proof fn law_checkout_asks_for_items(m: Map<Seq<char>, Jv>, n: int)
    ensures
        !m.dom().contains("message_num"@) ==> checkout_request(m).1 == 20,
        m.dom().contains("message_num"@) && m["message_num"@] == Jv::Number(
            crate::json::NumberView::Integer(n),
        ) && 0 < n <= u32::MAX ==> checkout_request(m).1 == n,
        m.dom().contains("message_num"@) && m["message_num"@] == Jv::Number(
            crate::json::NumberView::Integer(0),
        ) ==> checkout_request(m).1 == 20,
        m.dom().contains("tool"@) && m["tool"@] is Text ==> checkout_request(m).0 == m["tool"@]->Text_0,
{
}

/// A permission that a subagent asks for is asked under its name, with all else
/// unchanged.
pub proof fn law_permission_names_the_subagent(s: SubagentView, m: Map<Seq<char>, Jv>, title: Seq<char>)
    requires
        m.dom().contains("title"@),
        m["title"@] == Jv::Text(title),
    ensures
        permission_of(s, m) == m.insert(
            "title"@,
            Jv::Text("[subagent:"@ + s.name + "] "@ + title),
        ),
{
}

/// What happens in a subagent is put on its card: its thoughts, its answers and its
/// calls, each as what it is; nothing else is.
pub proof fn law_card_shows_what_happens(
    c: CardView,
    m: Map<Seq<char>, Jv>,
    input: Option<Seq<char>>,
)
    ensures
        ({
            let kind = member_text(m, "session_update"@);
            let text = update_text(m);
            let running = card_with_status(c, "running"@);
            let after = card_after_update(c, m, input);
            &&& kind == "agent_thought_chunk"@ && text.len() > 0 ==> after == Some(
                card_with_text(running, FlowKind::Thinking, text),
            )
            &&& kind == "agent_message_chunk"@ && text.len() > 0 ==> after == Some(
                card_with_text(running, FlowKind::Response, text),
            )
            &&& kind == "tool_call"@ ==> (text_field(Jv::Object(m), "title"@) matches Some(title)
                ==> after == Some(card_with_call(running, title, input)))
            &&& kind != "agent_thought_chunk"@ && kind != "agent_message_chunk"@ && kind
                != "tool_call"@ ==> after is None
        }),
{
    reveal_strlit("agent_thought_chunk");
    reveal_strlit("agent_message_chunk");
    reveal_strlit("tool_call");
    assert("agent_thought_chunk"@[6] == 't');
    assert("agent_message_chunk"@[6] == 'm');
    assert("tool_call"@.len() == 9);
}

/// What is shown of a subagent is shown under its id and name, with its card.
pub proof fn law_events_show_the_subagent(e: ActivityEvent, s: SubagentView, status: Seq<char>)
    ensures
        shows_start(e, s) ==> (e matches ActivityEvent::ToolCall(t) && t.tool_call_id@ == s.id
            && t.title@ == "subagent:"@ + s.name && t.status@ == "in_progress"@ && opt_view(
            t.content,
        ) == Some(card_content(card_text(s.card)))),
        shows_card(e, s, status) ==> (e matches ActivityEvent::ToolCallUpdate(t)
            && t.tool_call_id@ == s.id && t.status@ == status && opt_view(t.content) == Some(
            card_content(card_text(s.card)),
        )),
{
}

/// A card is shown as one content block of its text.
pub proof fn law_card_is_one_block(text: Seq<char>)
    ensures
        card_content(text) matches Jv::Array(items) && items.len() == 1 && items[0] == Jv::Object(
            map![
                "type"@ => Jv::Text("content"@),
                "content"@ => Jv::Object(
                    map!["type"@ => Jv::Text("text"@), "text"@ => Jv::Text(text)],
                ),
            ],
        ),
{
}

/// A new subagent is told with its task and its policy.
pub proof fn law_new_subagent_is_told_with_its_task(s: SubagentView)
    ensures
        field(spawn_view(s), "task"@) == Some(Jv::Text(s.task)),
        field(spawn_view(s), "policy"@) == Some(Jv::Text(s.policy)),
{
    reveal_strlit("task");
    reveal_strlit("policy");
    assert("task"@.len() == 4);
    assert("policy"@.len() == 6);
}

/// A subagent that is not there is told as such, under the id that was asked for.
pub proof fn law_missing_subagent_is_told(id: Seq<char>)
    ensures
        field(not_found_view(id), "subagent_run_id"@) == Some(Jv::Text(id)),
        field(not_found_view(id), "status"@) == Some(Jv::Text("not_found"@)),
        field(not_found_view(id), "done"@) == Some(Jv::Bool(true)),
        field(not_found_view(id), "error"@) == Some(Jv::Text("subagent not found"@)),
        field(not_found_view(id), "runtime"@) == Some(
            Jv::Object(
                map![
                    "kind"@ => Jv::Text("subagent"@),
                    "id"@ => Jv::Text(id),
                    "status"@ => Jv::Text("not_found"@),
                ],
            ),
        ),
{
    reveal_strlit("subagent_run_id");
    reveal_strlit("runtime");
    reveal_strlit("status");
    reveal_strlit("done");
    reveal_strlit("error");
    assert("subagent_run_id"@.len() == 15);
    assert("runtime"@.len() == 7);
    assert("status"@.len() == 6);
    assert("done"@.len() == 4);
    assert("error"@.len() == 5);
}

/// How a turn of a subagent ended decides how it stands, and what is said of it.
pub proof fn law_end_of_a_turn_decides_the_state(outcome: Result<String, String>)
    ensures
        outcome matches Ok(r) ==> {
            &&& r@ == "completed"@ ==> turn_end(outcome) == ("waiting_input"@, ""@)
            &&& r@ == "cancelled"@ ==> turn_end(outcome) == (
                "cancelled"@,
                "subagent was cancelled"@,
            )
            &&& r@ == "max_turns"@ ==> turn_end(outcome) == (
                "failed"@,
                "subagent reached max turns"@,
            )
            &&& r@ != "completed"@ && r@ != "cancelled"@ && r@ != "max_turns"@ ==> turn_end(outcome)
                == ("failed"@, "subagent stopped with reason: "@ + r@)
        },
        outcome matches Err(e) ==> turn_end(outcome) == ("failed"@, e@),
{
    reveal_strlit("completed");
    reveal_strlit("cancelled");
    reveal_strlit("max_turns");
    assert("completed"@[0] == 'c' && "completed"@[1] == 'o');
    assert("cancelled"@[0] == 'c' && "cancelled"@[1] == 'a');
    assert("max_turns"@[0] == 'm');
}

} // verus!
