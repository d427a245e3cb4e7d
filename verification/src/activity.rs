//! What a session reports while it works.

use crate::content_block::{text as text_block, text_view};
use crate::json::{
    count, fields, json_views, lemma_json_views, lemma_json_views_push, lookup, no_members,
    opt_view, put, put_text, text_field_or, text_or_null, Json, Jv, Member, NumberView,
};
use crate::models::ContextUsageSnapshot;
use crate::text::{cat2, decimal, decimal_text, has_prefix, starts_with, str_eq, trim, trim_of};
use vstd::prelude::*;

verus! {

pub const EVENT_USER_MESSAGE_CHUNK: &'static str = "user_message_chunk";
pub const EVENT_AGENT_MESSAGE_CHUNK: &'static str = "agent_message_chunk";
pub const EVENT_AGENT_THOUGHT_CHUNK: &'static str = "agent_thought_chunk";
pub const EVENT_TOOL_CALL: &'static str = "tool_call";
pub const EVENT_TOOL_CALL_UPDATE: &'static str = "tool_call_update";
pub const EVENT_ACTIVITY_BOX: &'static str = "activity_box";
pub const EVENT_ACTIVITY_BOX_UPDATE: &'static str = "activity_box_update";
pub const EVENT_CURRENT_MODE: &'static str = "current_mode_update";
pub const EVENT_CONFIG_OPTION: &'static str = "config_option_update";
pub const EVENT_SESSION_INFO: &'static str = "session_info_update";
pub const EVENT_USAGE_UPDATE: &'static str = "usage_update";

/// A tool call that the model asked for.
#[derive(Debug)]
pub struct ToolCallEvent {
    pub tool_call_id: String,
    pub title: String,
    pub kind: String,
    pub status: String,
    pub raw_input: Option<Json>,
    pub raw_output: Option<Json>,
    pub content: Option<Json>,
}

/// News of a tool call.
#[derive(Debug)]
pub struct ToolCallUpdateEvent {
    pub tool_call_id: String,
    pub status: String,
    pub title: Option<String>,
    pub kind: Option<String>,
    pub raw_input: Option<Json>,
    pub raw_output: Option<Json>,
    pub content: Option<Json>,
}

/// A box that shows what the host itself is doing.
#[derive(Debug)]
pub struct ActivityBoxEvent {
    pub activity_id: String,
    pub title: String,
    pub kind: String,
    pub status: String,
    pub text: String,
}

/// One thing that a session reports.
#[derive(Debug)]
pub enum ActivityEvent {
    UserMessageChunk { content: Json },
    AgentMessageChunk { content: Json },
    AgentThoughtChunk { content: Json },
    ToolCall(ToolCallEvent),
    ToolCallUpdate(ToolCallUpdateEvent),
    ActivityBox(ActivityBoxEvent),
    ActivityBoxUpdate(ActivityBoxEvent),
    CurrentModeUpdate { mode_id: String },
    ConfigOptionUpdate,
    UsageUpdate { used: u64, size: u64 },
    SessionInfoUpdate { title: String, updated_at: Option<String> },
}

impl ToolCallEvent {
    /// A pending tool call of no special kind.
    pub fn new(tool_call_id: &str, title: &str) -> (r: Self)
        ensures
            r.tool_call_id@ == tool_call_id@,
            r.title@ == title@,
            r.kind@ == "other"@,
            r.status@ == "pending"@,
            r.raw_input is None,
            r.raw_output is None,
            r.content is None,
    {
        ToolCallEvent {
            tool_call_id: tool_call_id.to_owned(),
            title: title.to_owned(),
            kind: "other".to_owned(),
            status: "pending".to_owned(),
            raw_input: None,
            raw_output: None,
            content: None,
        }
    }
}

impl ToolCallUpdateEvent {
    /// A new status of a tool call.
    pub fn new(tool_call_id: &str, status: &str) -> (r: Self)
        ensures
            r.tool_call_id@ == tool_call_id@,
            r.status@ == status@,
            r.title is None,
            r.kind is None,
            r.raw_input is None,
            r.raw_output is None,
            r.content is None,
    {
        ToolCallUpdateEvent {
            tool_call_id: tool_call_id.to_owned(),
            status: status.to_owned(),
            title: None,
            kind: None,
            raw_input: None,
            raw_output: None,
            content: None,
        }
    }
}

impl ActivityBoxEvent {
    /// A box with a text.
    pub fn new(activity_id: &str, title: &str, status: &str, text: &str) -> (r: Self)
        ensures
            r.activity_id@ == activity_id@,
            r.title@ == title@,
            r.kind@ == "think"@,
            r.status@ == status@,
            r.text@ == text@,
    {
        ActivityBoxEvent {
            activity_id: activity_id.to_owned(),
            title: title.to_owned(),
            kind: "think".to_owned(),
            status: status.to_owned(),
            text: text.to_owned(),
        }
    }
}

/// The type that an event is reported under.
pub open spec fn event_type(e: ActivityEvent) -> Seq<char> {
    match e {
        ActivityEvent::UserMessageChunk { .. } => "user_message_chunk"@,
        ActivityEvent::AgentMessageChunk { .. } => "agent_message_chunk"@,
        ActivityEvent::AgentThoughtChunk { .. } => "agent_thought_chunk"@,
        ActivityEvent::ToolCall(_) => "tool_call"@,
        ActivityEvent::ToolCallUpdate(_) => "tool_call_update"@,
        ActivityEvent::ActivityBox(_) => "activity_box"@,
        ActivityEvent::ActivityBoxUpdate(_) => "activity_box_update"@,
        ActivityEvent::CurrentModeUpdate { .. } => "current_mode_update"@,
        ActivityEvent::ConfigOptionUpdate => "config_option_update"@,
        ActivityEvent::UsageUpdate { .. } => "usage_update"@,
        ActivityEvent::SessionInfoUpdate { .. } => "session_info_update"@,
    }
}

/// Members with one more, where there is a value for it.
pub open spec fn with_value(m: Map<Seq<char>, Jv>, key: Seq<char>, v: Option<Jv>) -> Map<
    Seq<char>,
    Jv,
> {
    match v {
        Some(value) => m.insert(key, value),
        None => m,
    }
}

/// An optional text as an optional value.
pub open spec fn opt_text_value(v: Option<String>) -> Option<Jv> {
    match v {
        Some(s) => Some(Jv::Text(s@)),
        None => None,
    }
}

/// The three optional values of a tool call.
pub open spec fn with_values(
    m: Map<Seq<char>, Jv>,
    raw_input: Option<Json>,
    raw_output: Option<Json>,
    content: Option<Json>,
) -> Map<Seq<char>, Jv> {
    with_value(
        with_value(
            with_value(m, "raw_input"@, opt_view(raw_input)),
            "raw_output"@,
            opt_view(raw_output),
        ),
        "content"@,
        opt_view(content),
    )
}

/// The members of a box.
pub open spec fn box_fields(m: Map<Seq<char>, Jv>, e: ActivityBoxEvent) -> Map<Seq<char>, Jv> {
    m.insert("activity_id"@, Jv::Text(e.activity_id@)).insert("title"@, Jv::Text(e.title@)).insert(
        "kind"@,
        Jv::Text(e.kind@),
    ).insert("status"@, Jv::Text(e.status@)).insert(
        "content"@,
        Jv::Array(seq![text_view(e.text@)]),
    )
}

/// What an event is reported as.
pub open spec fn update_of(e: ActivityEvent) -> Map<Seq<char>, Jv> {
    let m = Map::<Seq<char>, Jv>::empty().insert("session_update"@, Jv::Text(event_type(e)));
    match e {
        ActivityEvent::UserMessageChunk { content } => m.insert("content"@, content@),
        ActivityEvent::AgentMessageChunk { content } => m.insert("content"@, content@),
        ActivityEvent::AgentThoughtChunk { content } => m.insert("content"@, content@),
        ActivityEvent::ToolCall(t) => with_values(
            m.insert("tool_call_id"@, Jv::Text(t.tool_call_id@)).insert(
                "title"@,
                Jv::Text(t.title@),
            ).insert("kind"@, Jv::Text(t.kind@)).insert("status"@, Jv::Text(t.status@)),
            t.raw_input,
            t.raw_output,
            t.content,
        ),
        ActivityEvent::ToolCallUpdate(t) => with_values(
            with_value(
                with_value(
                    m.insert("tool_call_id"@, Jv::Text(t.tool_call_id@)).insert(
                        "status"@,
                        Jv::Text(t.status@),
                    ),
                    "title"@,
                    opt_text_value(t.title),
                ),
                "kind"@,
                opt_text_value(t.kind),
            ),
            t.raw_input,
            t.raw_output,
            t.content,
        ),
        ActivityEvent::ActivityBox(b) => box_fields(m, b),
        ActivityEvent::ActivityBoxUpdate(b) => box_fields(m, b),
        ActivityEvent::CurrentModeUpdate { mode_id } => m.insert(
            "current_mode_id"@,
            Jv::Text(mode_id@),
        ),
        ActivityEvent::ConfigOptionUpdate => m,
        ActivityEvent::UsageUpdate { used, size } => m.insert(
            "used"@,
            Jv::Number(NumberView::Integer(used as int)),
        ).insert("size"@, Jv::Number(NumberView::Integer(size as int))),
        ActivityEvent::SessionInfoUpdate { title, updated_at } => m.insert(
            "title"@,
            Jv::Text(title@),
        ).insert(
            "updated_at"@,
            match updated_at {
                Some(t) => Jv::Text(t@),
                None => Jv::Null,
            },
        ),
    }
}

fn insert_optional(payload: &mut Vec<Member>, key: &str, value: Option<Json>)
    ensures
        fields(final(payload)@) == with_value(fields(old(payload)@), key@, opt_view(value)),
{
    if let Some(v) = value {
        put(payload, key, v);
    }
}

fn insert_optional_str(payload: &mut Vec<Member>, key: &str, value: Option<String>)
    ensures
        fields(final(payload)@) == with_value(fields(old(payload)@), key@, opt_text_value(value)),
{
    if let Some(v) = value {
        put(payload, key, Json::Text(v));
    }
}

fn insert_box(payload: &mut Vec<Member>, event: &ActivityBoxEvent)
    ensures
        fields(final(payload)@) == box_fields(fields(old(payload)@), *event),
{
    put_text(payload, "activity_id", event.activity_id.as_str());
    put_text(payload, "title", event.title.as_str());
    put_text(payload, "kind", event.kind.as_str());
    put_text(payload, "status", event.status.as_str());
    let block = text_block(event.text.as_str());
    let mut items: Vec<Json> = Vec::new();
    proof {
        lemma_json_views_push(items@, block);
        lemma_json_views(items@);
    }
    items.push(block);
    proof {
        assert(json_views(items@) =~= seq![text_view(event.text@)]);
    }
    put(payload, "content", Json::Array(items));
}

impl ActivityEvent {
    /// A text of the user.
    pub fn user_message_text(text: &str) -> (r: Self)
        ensures
            r matches ActivityEvent::UserMessageChunk { content } && content@ == text_view(text@),
    {
        ActivityEvent::UserMessageChunk { content: text_content(text) }
    }

    /// A content block of the user.
    pub fn user_message_content(content: Vec<Member>) -> (r: Self)
        ensures
            r matches ActivityEvent::UserMessageChunk { content: c } && c@ == Jv::Object(
                fields(content@),
            ),
    {
        ActivityEvent::UserMessageChunk { content: Json::Object(content) }
    }

    /// A text of the model.
    pub fn agent_message_text(text: &str) -> (r: Self)
        ensures
            r matches ActivityEvent::AgentMessageChunk { content } && content@ == text_view(text@),
    {
        ActivityEvent::AgentMessageChunk { content: text_content(text) }
    }

    /// A thought of the model.
    pub fn agent_thought_text(text: &str) -> (r: Self)
        ensures
            r matches ActivityEvent::AgentThoughtChunk { content } && content@ == text_view(text@),
    {
        ActivityEvent::AgentThoughtChunk { content: text_content(text) }
    }

    /// The type that the event is reported under.
    pub fn update_type(&self) -> (r: &'static str)
        ensures
            r@ == event_type(*self),
    {
        match self {
            ActivityEvent::UserMessageChunk { .. } => EVENT_USER_MESSAGE_CHUNK,
            ActivityEvent::AgentMessageChunk { .. } => EVENT_AGENT_MESSAGE_CHUNK,
            ActivityEvent::AgentThoughtChunk { .. } => EVENT_AGENT_THOUGHT_CHUNK,
            ActivityEvent::ToolCall(_) => EVENT_TOOL_CALL,
            ActivityEvent::ToolCallUpdate(_) => EVENT_TOOL_CALL_UPDATE,
            ActivityEvent::ActivityBox(_) => EVENT_ACTIVITY_BOX,
            ActivityEvent::ActivityBoxUpdate(_) => EVENT_ACTIVITY_BOX_UPDATE,
            ActivityEvent::CurrentModeUpdate { .. } => EVENT_CURRENT_MODE,
            ActivityEvent::ConfigOptionUpdate => EVENT_CONFIG_OPTION,
            ActivityEvent::UsageUpdate { .. } => EVENT_USAGE_UPDATE,
            ActivityEvent::SessionInfoUpdate { .. } => EVENT_SESSION_INFO,
        }
    }

    /// What the event is reported as.
    pub fn into_update(self) -> (r: Vec<Member>)
        ensures
            fields(r@) == update_of(self),
    {
        let mut payload = no_members();
        put_text(&mut payload, "session_update", self.update_type());
        match self {
            ActivityEvent::UserMessageChunk { content } => {
                put(&mut payload, "content", content);
            },
            ActivityEvent::AgentMessageChunk { content } => {
                put(&mut payload, "content", content);
            },
            ActivityEvent::AgentThoughtChunk { content } => {
                put(&mut payload, "content", content);
            },
            ActivityEvent::ToolCall(event) => {
                put(&mut payload, "tool_call_id", Json::Text(event.tool_call_id));
                put(&mut payload, "title", Json::Text(event.title));
                put(&mut payload, "kind", Json::Text(event.kind));
                put(&mut payload, "status", Json::Text(event.status));
                insert_optional(&mut payload, "raw_input", event.raw_input);
                insert_optional(&mut payload, "raw_output", event.raw_output);
                insert_optional(&mut payload, "content", event.content);
            },
            ActivityEvent::ToolCallUpdate(event) => {
                put(&mut payload, "tool_call_id", Json::Text(event.tool_call_id));
                put(&mut payload, "status", Json::Text(event.status));
                insert_optional_str(&mut payload, "title", event.title);
                insert_optional_str(&mut payload, "kind", event.kind);
                insert_optional(&mut payload, "raw_input", event.raw_input);
                insert_optional(&mut payload, "raw_output", event.raw_output);
                insert_optional(&mut payload, "content", event.content);
            },
            ActivityEvent::ActivityBox(event) => {
                insert_box(&mut payload, &event);
            },
            ActivityEvent::ActivityBoxUpdate(event) => {
                insert_box(&mut payload, &event);
            },
            ActivityEvent::CurrentModeUpdate { mode_id } => {
                put(&mut payload, "current_mode_id", Json::Text(mode_id));
            },
            ActivityEvent::ConfigOptionUpdate => {},
            ActivityEvent::UsageUpdate { used, size } => {
                put(&mut payload, "used", count(used));
                put(&mut payload, "size", count(size));
            },
            ActivityEvent::SessionInfoUpdate { title, updated_at } => {
                put(&mut payload, "title", Json::Text(title));
                put(&mut payload, "updated_at", text_or_null(&updated_at));
            },
        }
        payload
    }
}

/// The text of a member, and an empty one where there is none.
pub open spec fn member_text(m: Map<Seq<char>, Jv>, key: Seq<char>) -> Seq<char> {
    text_field_or(Jv::Object(m), key, ""@)
}

/// The text of a member, and an empty one where there is none.
pub fn member_str<'a>(members: &'a Vec<Member>, key: &str) -> (r: &'a str)
    ensures
        r@ == member_text(fields(members@), key@),
{
    match lookup(members, key) {
        Some(v) => match v.as_str() {
            Some(s) => s,
            None => "",
        },
        None => "",
    }
}

/// The type that an update was reported under.
pub fn update_type(update: &Vec<Member>) -> (r: &str)
    ensures
        r@ == trim_of(member_text(fields(update@), "session_update"@)),
{
    trim(member_str(update, "session_update"))
}

/// A content block that holds a text.
pub fn text_content(text: &str) -> (r: Json)
    ensures
        r@ == text_view(text@),
{
    text_block(text)
}

/// What the user is asked about a tool call.
pub open spec fn permission_payload(
    tool_call_id: Seq<char>,
    title: Seq<char>,
    raw_input: Map<Seq<char>, Jv>,
) -> Map<Seq<char>, Jv> {
    Map::<Seq<char>, Jv>::empty().insert("tool_call_id"@, Jv::Text(tool_call_id)).insert(
        "title"@,
        Jv::Text(title),
    ).insert("kind"@, Jv::Text("other"@)).insert("status"@, Jv::Text("pending"@)).insert(
        "raw_input"@,
        Jv::Object(raw_input),
    )
}

/// What the user is asked about a tool call.
pub fn tool_permission_payload(tool_call_id: &str, title: &str, raw_input: Vec<Member>) -> (r: Vec<
    Member,
>)
    ensures
        fields(r@) == permission_payload(tool_call_id@, title@, fields(raw_input@)),
{
    let mut payload = no_members();
    put_text(&mut payload, "tool_call_id", tool_call_id);
    put_text(&mut payload, "title", title);
    put_text(&mut payload, "kind", "other");
    put_text(&mut payload, "status", "pending");
    put(&mut payload, "raw_input", Json::Object(raw_input));
    payload
}

/// Whether an update is kept in the transcript: of what subagents report, only
/// the end is.
pub open spec fn is_kept(m: Map<Seq<char>, Jv>) -> bool {
    let status = member_text(m, "status"@);
    ||| trim_of(member_text(m, "session_update"@)) != "tool_call_update"@
    ||| member_text(m, "tool_call_id"@).len() == 0
    ||| !starts_with(member_text(m, "title"@), "subagent:"@)
    ||| status == "completed"@
    ||| status == "failed"@
    ||| status == "cancelled"@
}

/// Whether an update is kept in the transcript.
pub fn should_persist_update(update: &Vec<Member>) -> (r: bool)
    ensures
        r == is_kept(fields(update@)),
{
    if str_eq(update_type(update), EVENT_TOOL_CALL_UPDATE) {
        let tool_call_id = member_str(update, "tool_call_id");
        let title = member_str(update, "title");
        if !tool_call_id.is_empty() && has_prefix(title, "subagent:") {
            let status = member_str(update, "status");
            return str_eq(status, "completed") || str_eq(status, "failed") || str_eq(
                status,
                "cancelled",
            );
        }
    }
    true
}

/// What a request to the model is tried again for.
#[derive(Debug, Clone, Copy, PartialEq, Eq, Structural)]
pub enum LlmRetryKind {
    /// The request failed before an answer came.
    Request,
    /// The answer broke off.
    Stream,
}

/// A request to the model that is about to be tried again.
#[derive(Debug)]
pub struct LlmRetryEvent {
    pub kind: LlmRetryKind,
    pub attempt: u32,
    pub max_retries: u32,
    pub delay_ms: u64,
    pub error: String,
}

/// What is shown of another try.
pub open spec fn retry_text(e: LlmRetryEvent) -> Seq<char> {
    (match e.kind {
        LlmRetryKind::Request =>
            "Model request failed before the stream opened. Retrying "@,
        LlmRetryKind::Stream => "Model stream interrupted. Reconnecting "@,
    }) + decimal(e.attempt as nat) + "/"@ + decimal(e.max_retries as nat) + " in "@ + decimal(
        e.delay_ms as nat,
    ) + "ms. "@ + e.error@
}

/// What is shown of another try.
pub fn retry_event_text(event: &LlmRetryEvent) -> (r: String)
    ensures
        r@ == retry_text(*event),
{
    let mut out = match event.kind {
        LlmRetryKind::Request => "Model request failed before the stream opened. Retrying ".to_owned(),
        LlmRetryKind::Stream => "Model stream interrupted. Reconnecting ".to_owned(),
    };
    out.append(decimal_text(event.attempt as u64).as_str());
    out.append("/");
    out.append(decimal_text(event.max_retries as u64).as_str());
    out.append(" in ");
    out.append(decimal_text(event.delay_ms).as_str());
    out.append("ms. ");
    out.append(event.error.as_str());
    out
}

/// A box that appears with its first text.
#[derive(Debug)]
pub struct LazyActivityBox {
    pub activity_id: String,
    pub title: String,
    pub started: bool,
}

/// What a box with a text is reported as.
pub open spec fn box_event(b: LazyActivityBox, status: Seq<char>, text: Seq<char>, e: ActivityBoxEvent) -> bool {
    &&& e.activity_id@ == b.activity_id@
    &&& e.title@ == b.title@
    &&& e.kind@ == "think"@
    &&& e.status@ == status
    &&& e.text@ == text
}

/// The name of a box, from an identifier that is used once.
pub open spec fn box_id(uuid: Seq<char>) -> Seq<char> {
    "runtime:activity:"@ + uuid
}

impl LazyActivityBox {
    /// A box that nothing has been shown of.
    pub fn new(uuid: &str, title: &str) -> (r: Self)
        ensures
            r.activity_id@ == box_id(uuid@),
            r.title@ == title@,
            !r.started,
    {
        LazyActivityBox {
            activity_id: cat2("runtime:activity:", uuid),
            title: title.to_owned(),
            started: false,
        }
    }

    /// Shows a text: the first time as a new box, then as a change of it.
    pub fn start_or_update(&mut self, status: &str, text: &str) -> (r: ActivityEvent)
        ensures
            final(self).activity_id == old(self).activity_id,
            final(self).title == old(self).title,
            final(self).started,
            if old(self).started {
                r matches ActivityEvent::ActivityBoxUpdate(e) && box_event(
                    *old(self),
                    status@,
                    text@,
                    e,
                )
            } else {
                r matches ActivityEvent::ActivityBox(e) && box_event(*old(self), status@, text@, e)
            },
    {
        let event = ActivityBoxEvent::new(
            self.activity_id.as_str(),
            self.title.as_str(),
            status,
            text,
        );
        if self.started {
            ActivityEvent::ActivityBoxUpdate(event)
        } else {
            self.started = true;
            ActivityEvent::ActivityBox(event)
        }
    }

    /// Shows a text in a box that has appeared.
    pub fn update_if_started(&self, status: &str, text: &str) -> (r: Option<ActivityEvent>)
        ensures
            !self.started ==> r is None,
            self.started ==> (r matches Some(ActivityEvent::ActivityBoxUpdate(e)) && box_event(
                *self,
                status@,
                text@,
                e,
            )),
    {
        if !self.started {
            return None;
        }
        let event = ActivityBoxEvent::new(
            self.activity_id.as_str(),
            self.title.as_str(),
            status,
            text,
        );
        Some(ActivityEvent::ActivityBoxUpdate(event))
    }

    /// Shows that the work is done, in a box that has appeared.
    pub fn complete_if_started(&self, text: &str) -> (r: Option<ActivityEvent>)
        ensures
            !self.started ==> r is None,
            self.started ==> (r matches Some(ActivityEvent::ActivityBoxUpdate(e)) && box_event(
                *self,
                "completed"@,
                text@,
                e,
            )),
    {
        self.update_if_started("completed", text)
    }

    /// Shows that the work failed, in a box that has appeared.
    pub fn fail_if_started(&self, text: &str) -> (r: Option<ActivityEvent>)
        ensures
            !self.started ==> r is None,
            self.started ==> (r matches Some(ActivityEvent::ActivityBoxUpdate(e)) && box_event(
                *self,
                "failed"@,
                text@,
                e,
            )),
    {
        self.update_if_started("failed", text)
    }

    /// Shows that a request to the model is tried again.
    pub fn on_retry(&mut self, event: &LlmRetryEvent) -> (r: ActivityEvent)
        ensures
            final(self).activity_id == old(self).activity_id,
            final(self).title == old(self).title,
            final(self).started,
            if old(self).started {
                r matches ActivityEvent::ActivityBoxUpdate(e) && box_event(
                    *old(self),
                    "in_progress"@,
                    retry_text(*event),
                    e,
                )
            } else {
                r matches ActivityEvent::ActivityBox(e) && box_event(
                    *old(self),
                    "in_progress"@,
                    retry_text(*event),
                    e,
                )
            },
    {
        let text = retry_event_text(event);
        self.start_or_update("in_progress", text.as_str())
    }
}

/// What a piece of the model's answer is reported as: an empty piece is not.
pub fn agent_message_chunk(chunk: &str) -> (r: Option<ActivityEvent>)
    ensures
        chunk@.len() == 0 ==> r is None,
        chunk@.len() > 0 ==> (r matches Some(ActivityEvent::AgentMessageChunk { content })
            && content@ == text_view(chunk@)),
{
    if chunk.is_empty() {
        None
    } else {
        Some(ActivityEvent::agent_message_text(chunk))
    }
}

/// What a piece of the model's thoughts is reported as: an empty piece is not.
pub fn agent_thought_chunk(chunk: &str) -> (r: Option<ActivityEvent>)
    ensures
        chunk@.len() == 0 ==> r is None,
        chunk@.len() > 0 ==> (r matches Some(ActivityEvent::AgentThoughtChunk { content })
            && content@ == text_view(chunk@)),
{
    if chunk.is_empty() {
        None
    } else {
        Some(ActivityEvent::agent_thought_text(chunk))
    }
}

/// What a new tool call is reported as.
pub fn tool_call_pending(tool_call_id: &str, tool_name: &str, raw_input: Json) -> (r: ActivityEvent)
    ensures
        r matches ActivityEvent::ToolCall(e) && e.tool_call_id@ == tool_call_id@ && e.title@
            == tool_name@ && e.kind@ == "other"@ && e.status@ == "pending"@ && e.raw_input == Some(
            raw_input,
        ) && e.raw_output is None && e.content is None,
{
    let mut event = ToolCallEvent::new(tool_call_id, tool_name);
    event.raw_input = Some(raw_input);
    ActivityEvent::ToolCall(event)
}

/// What the use of the context window is reported as.
pub fn usage_update(usage: &ContextUsageSnapshot) -> (r: ActivityEvent)
    ensures
        r == (ActivityEvent::UsageUpdate { used: usage.used, size: usage.size }),
{
    ActivityEvent::UsageUpdate { used: usage.used, size: usage.size }
}

/// The blocks that a prompt is recorded as, among the first `n`: those that
/// are objects.
pub open spec fn object_blocks(blocks: Seq<Jv>, n: nat) -> Seq<Jv>
    decreases n,
{
    if n == 0 || n > blocks.len() {
        Seq::empty()
    } else {
        let before = object_blocks(blocks, (n - 1) as nat);
        if blocks[n - 1] is Object {
            before.push(blocks[n - 1])
        } else {
            before
        }
    }
}

/// The contents that a prompt is recorded as.
pub open spec fn recorded_contents(user_input: Jv, user_blocks: Seq<Jv>) -> Seq<Jv> {
    match user_input {
        Jv::Text(s) => seq![text_view(s)],
        _ => object_blocks(user_blocks, user_blocks.len()),
    }
}

/// The contents of events that record what the user said.
pub open spec fn user_contents(events: Seq<ActivityEvent>) -> Seq<Jv> {
    Seq::new(
        events.len(),
        |i: int|
            match events[i] {
                ActivityEvent::UserMessageChunk { content } => content@,
                _ => Jv::Null,
            },
    )
}

/// The events that record a prompt.
pub fn record_user_input(user_input: &Json, user_blocks: &Vec<Json>) -> (r: Vec<ActivityEvent>)
    ensures
        forall|i: int| 0 <= i < r@.len() ==> (#[trigger] r@[i]) is UserMessageChunk,
        user_contents(r@) == recorded_contents(user_input@, json_views(user_blocks@)),
{
    let mut r: Vec<ActivityEvent> = Vec::new();
    match user_input {
        Json::Text(s) => {
            r.push(ActivityEvent::user_message_text(s.as_str()));
            proof {
                assert(user_contents(r@) =~= seq![text_view(s@)]);
            }
        },
        _ => {
            let ghost all = json_views(user_blocks@);
            proof {
                lemma_json_views(user_blocks@);
                assert(user_contents(r@) =~= Seq::empty());
            }
            let mut i: usize = 0;
            while i < user_blocks.len()
                invariant
                    i <= user_blocks@.len(),
                    all == json_views(user_blocks@),
                    all.len() == user_blocks@.len(),
                    forall|k: int|
                        0 <= k < user_blocks@.len() ==> #[trigger] all[k] == user_blocks@[k]@,
                    forall|k: int| 0 <= k < r@.len() ==> (#[trigger] r@[k]) is UserMessageChunk,
                    user_contents(r@) == object_blocks(all, i as nat),
                decreases user_blocks@.len() - i,
            {
                let block = &user_blocks[i];
                proof {
                    assert(all[i as int] == block@);
                }
                if block.as_object().is_some() {
                    let ghost before = r@;
                    r.push(ActivityEvent::UserMessageChunk { content: block.copy() });
                    proof {
                        assert(user_contents(r@) =~= user_contents(before).push(block@));
                    }
                }
                i += 1;
            }
        },
    }
    r
}

proof fn lemma_keys_differ()
    ensures
        "content"@ != "session_update"@,
        "tool_call_id"@ != "session_update"@,
        "title"@ != "session_update"@,
        "kind"@ != "session_update"@,
        "status"@ != "session_update"@,
        "raw_input"@ != "session_update"@,
        "raw_output"@ != "session_update"@,
        "activity_id"@ != "session_update"@,
        "current_mode_id"@ != "session_update"@,
        "used"@ != "session_update"@,
        "size"@ != "session_update"@,
        "updated_at"@ != "session_update"@,
{
    reveal_strlit("session_update");
    reveal_strlit("content");
    reveal_strlit("tool_call_id");
    reveal_strlit("title");
    reveal_strlit("kind");
    reveal_strlit("status");
    reveal_strlit("raw_input");
    reveal_strlit("raw_output");
    reveal_strlit("activity_id");
    reveal_strlit("current_mode_id");
    reveal_strlit("used");
    reveal_strlit("size");
    reveal_strlit("updated_at");
    assert("session_update"@.len() == 14);
}

proof fn lemma_type_is_plain(e: ActivityEvent)
    ensures
        event_type(e).len() > 0,
        trim_of(event_type(e)) == event_type(e),
        event_type(e) == "tool_call_update"@ <==> e is ToolCallUpdate,
{
    reveal_strlit("user_message_chunk");
    reveal_strlit("agent_message_chunk");
    reveal_strlit("agent_thought_chunk");
    reveal_strlit("tool_call");
    reveal_strlit("tool_call_update");
    reveal_strlit("activity_box");
    reveal_strlit("activity_box_update");
    reveal_strlit("current_mode_update");
    reveal_strlit("config_option_update");
    reveal_strlit("usage_update");
    reveal_strlit("session_info_update");
    let t = event_type(e);
    assert(!crate::text::is_ws(t[0]));
    assert(!crate::text::is_ws(t.last()));
    if e !is ToolCallUpdate {
        assert(t.len() != 16 || t[0] != 't');
    }
}

/// An update is read back under the type that its event was reported under.
pub proof fn law_update_keeps_its_type(e: ActivityEvent)
    ensures
        trim_of(member_text(update_of(e), "session_update"@)) == event_type(e),
{
    lemma_keys_differ();
    lemma_type_is_plain(e);
    let m = update_of(e);
    assert(m.dom().contains("session_update"@));
    assert(m["session_update"@] == Jv::Text(event_type(e)));
}

/// Every event is kept in the transcript but what a subagent reports of a call
/// that has not ended.
pub proof fn law_only_tool_news_are_dropped(e: ActivityEvent)
    ensures
        is_kept(update_of(e)) == match e {
            ActivityEvent::ToolCallUpdate(t) => {
                ||| t.tool_call_id@.len() == 0
                ||| !(t.title matches Some(title) && starts_with(title@, "subagent:"@))
                ||| t.status@ == "completed"@
                ||| t.status@ == "failed"@
                ||| t.status@ == "cancelled"@
            },
            _ => true,
        },
{
    law_update_keeps_its_type(e);
    lemma_type_is_plain(e);
    if let ActivityEvent::ToolCallUpdate(t) = e {
        lemma_keys_differ();
        reveal_strlit("title");
        reveal_strlit("status");
        reveal_strlit("tool_call_id");
        reveal_strlit("kind");
        reveal_strlit("raw_input");
        reveal_strlit("raw_output");
        reveal_strlit("content");
        reveal_strlit("");
        reveal_strlit("subagent:");
        assert("title"@.len() == 5 && "status"@.len() == 6 && "kind"@.len() == 4);
        assert("tool_call_id"@.len() == 12 && "content"@.len() == 7);
        assert("raw_input"@.len() == 9 && "raw_output"@.len() == 10);
        let m = update_of(e);
        assert(m["status"@] == Jv::Text(t.status@));
        assert(m["tool_call_id"@] == Jv::Text(t.tool_call_id@));
        assert(t.title matches Some(title) ==> m["title"@] == Jv::Text(title@));
        assert(t.title is None ==> !m.dom().contains("title"@));
    }
}

/// An event carries its own content: a chunk its block, a tool call its id, title,
/// kind and status, each under its name.
pub proof fn law_event_carries_its_content(e: ActivityEvent)
    ensures
        ({
            let m = update_of(e);
            &&& m["session_update"@] == Jv::Text(event_type(e))
            &&& e matches ActivityEvent::UserMessageChunk { content } ==> m["content"@] == content@
            &&& e matches ActivityEvent::AgentMessageChunk { content } ==> m["content"@] == content@
            &&& e matches ActivityEvent::AgentThoughtChunk { content } ==> m["content"@] == content@
            &&& e matches ActivityEvent::ToolCall(t) ==> {
                &&& m["tool_call_id"@] == Jv::Text(t.tool_call_id@)
                &&& m["title"@] == Jv::Text(t.title@)
                &&& m["kind"@] == Jv::Text(t.kind@)
                &&& m["status"@] == Jv::Text(t.status@)
                &&& t.raw_input matches Some(v) ==> m["raw_input"@] == v@
                &&& t.raw_output matches Some(v) ==> m["raw_output"@] == v@
                &&& t.content matches Some(v) ==> m["content"@] == v@
                &&& t.raw_input is None ==> !m.dom().contains("raw_input"@)
                &&& t.raw_output is None ==> !m.dom().contains("raw_output"@)
                &&& t.content is None ==> !m.dom().contains("content"@)
            }
            &&& e matches ActivityEvent::ToolCallUpdate(t) ==> {
                &&& m["tool_call_id"@] == Jv::Text(t.tool_call_id@)
                &&& m["status"@] == Jv::Text(t.status@)
                &&& t.title matches Some(s) ==> m["title"@] == Jv::Text(s@)
                &&& t.kind matches Some(s) ==> m["kind"@] == Jv::Text(s@)
                &&& t.raw_input matches Some(v) ==> m["raw_input"@] == v@
                &&& t.raw_output matches Some(v) ==> m["raw_output"@] == v@
                &&& t.content matches Some(v) ==> m["content"@] == v@
            }
            &&& e matches ActivityEvent::CurrentModeUpdate { mode_id } ==> m["current_mode_id"@]
                == Jv::Text(mode_id@)
            &&& e matches ActivityEvent::UsageUpdate { used, size } ==> m["used"@] == Jv::Number(
                NumberView::Integer(used as int),
            ) && m["size"@] == Jv::Number(NumberView::Integer(size as int))
            &&& e matches ActivityEvent::SessionInfoUpdate { title, updated_at } ==> m["title"@]
                == Jv::Text(title@) && m["updated_at"@] == match updated_at {
                Some(t) => Jv::Text(t@),
                None => Jv::Null,
            }
        }),
{
    lemma_member_names();
}

pub(crate) proof fn lemma_member_names()
    ensures
        "session_update"@.len() == 14,
        "tool_call_id"@.len() == 12,
        "title"@.len() == 5,
        "kind"@.len() == 4,
        "status"@.len() == 6,
        "raw_input"@.len() == 9,
        "raw_output"@.len() == 10,
        "content"@.len() == 7,
        "activity_id"@.len() == 11,
        "current_mode_id"@.len() == 15,
        "used"@.len() == 4 && "used"@[0] == 'u',
        "size"@.len() == 4 && "size"@[0] == 's',
        "updated_at"@.len() == 10,
{
    reveal_strlit("session_update");
    reveal_strlit("tool_call_id");
    reveal_strlit("title");
    reveal_strlit("kind");
    reveal_strlit("status");
    reveal_strlit("raw_input");
    reveal_strlit("raw_output");
    reveal_strlit("content");
    reveal_strlit("activity_id");
    reveal_strlit("current_mode_id");
    reveal_strlit("used");
    reveal_strlit("size");
    reveal_strlit("updated_at");
}

/// A box carries its id, title, kind, status and text.
pub proof fn law_box_carries_its_text(b: ActivityBoxEvent, update: bool)
    ensures
        ({
            let e = if update {
                ActivityEvent::ActivityBoxUpdate(b)
            } else {
                ActivityEvent::ActivityBox(b)
            };
            let m = update_of(e);
            &&& m["activity_id"@] == Jv::Text(b.activity_id@)
            &&& m["title"@] == Jv::Text(b.title@)
            &&& m["kind"@] == Jv::Text(b.kind@)
            &&& m["status"@] == Jv::Text(b.status@)
            &&& m["content"@] == Jv::Array(seq![text_view(b.text@)])
            &&& m["session_update"@] == Jv::Text(
                if update {
                    "activity_box_update"@
                } else {
                    "activity_box"@
                },
            )
        }),
{
    lemma_member_names();
}

/// Events are reported under names of their own.
pub proof fn law_events_have_names(e: ActivityEvent)
    ensures
        e is UserMessageChunk ==> event_type(e) == "user_message_chunk"@,
        e is AgentMessageChunk ==> event_type(e) == "agent_message_chunk"@,
        e is AgentThoughtChunk ==> event_type(e) == "agent_thought_chunk"@,
        e is ToolCall ==> event_type(e) == "tool_call"@,
        e is ToolCallUpdate ==> event_type(e) == "tool_call_update"@,
        e is CurrentModeUpdate ==> event_type(e) == "current_mode_update"@,
        e is ConfigOptionUpdate ==> event_type(e) == "config_option_update"@,
        e is UsageUpdate ==> event_type(e) == "usage_update"@,
        e is SessionInfoUpdate ==> event_type(e) == "session_info_update"@,
{
}

/// The user is asked about a call under its id and title, with its arguments.
pub proof fn law_question_carries_the_call(
    id: Seq<char>,
    title: Seq<char>,
    raw_input: Map<Seq<char>, Jv>,
)
    ensures
        permission_payload(id, title, raw_input) == map![
            "tool_call_id"@ => Jv::Text(id),
            "title"@ => Jv::Text(title),
            "kind"@ => Jv::Text("other"@),
            "status"@ => Jv::Text("pending"@),
            "raw_input"@ => Jv::Object(raw_input),
        ],
{
}

/// What the user wrote is recorded as it is: a text as one block, blocks in their
/// order.
pub proof fn law_prompt_is_recorded(a: Seq<Jv>, b: Seq<Jv>, n: nat, text: Seq<char>, input: Jv)
    requires
        n <= b.len(),
    ensures
        recorded_contents(Jv::Text(text), a) == seq![text_view(text)],
        !(input is Text) ==> recorded_contents(input, a) == object_blocks(a, a.len()),
        object_blocks(a + b, a.len() + n) == object_blocks(a, a.len()) + object_blocks(b, n),
        (forall|i: int| 0 <= i < n ==> (#[trigger] b[i]) is Object) ==> object_blocks(b, n)
            == b.take(n as int),
        (forall|i: int| 0 <= i < n ==> !((#[trigger] b[i]) is Object)) ==> object_blocks(b, n).len()
            == 0,
    decreases n,
{
    if n == 0 {
        lemma_object_blocks_prefix(a, b, a.len());
        assert(object_blocks(a, a.len()) + object_blocks(b, 0) =~= object_blocks(a, a.len()));
        assert(b.take(0) =~= Seq::empty());
    } else {
        law_prompt_is_recorded(a, b, (n - 1) as nat, text, input);
        assert((a + b)[a.len() + n - 1] == b[n - 1]);
        assert(object_blocks(a + b, a.len() + n) =~= object_blocks(a, a.len()) + object_blocks(b, n));
        if forall|i: int| 0 <= i < n ==> (#[trigger] b[i]) is Object {
            assert(b.take(n as int) =~= b.take(n - 1).push(b[n - 1]));
        }
    }
}

proof fn lemma_object_blocks_prefix(a: Seq<Jv>, b: Seq<Jv>, n: nat)
    requires
        n <= a.len(),
    ensures
        object_blocks(a + b, n) == object_blocks(a, n),
    decreases n,
{
    if n > 0 {
        lemma_object_blocks_prefix(a, b, (n - 1) as nat);
        assert((a + b)[n - 1] == a[n - 1]);
    }
}

/// A note about a retry says which attempt of how many it is, and ends with the
/// error.
pub proof fn law_retry_note_counts(e: LlmRetryEvent)
    ensures
        crate::text::contains_sub(
            retry_text(e),
            decimal(e.attempt as nat) + "/"@ + decimal(e.max_retries as nat),
        ),
        crate::text::ends_with(retry_text(e), e.error@),
        e.kind is Stream ==> starts_with(retry_text(e), "Model stream interrupted"@),
        e.kind is Request ==> starts_with(retry_text(e), "Model request failed"@),
{
    let head = match e.kind {
        LlmRetryKind::Request => "Model request failed before the stream opened. Retrying "@,
        LlmRetryKind::Stream => "Model stream interrupted. Reconnecting "@,
    };
    let count = decimal(e.attempt as nat) + "/"@ + decimal(e.max_retries as nat);
    let tail = " in "@ + decimal(e.delay_ms as nat) + "ms. "@;
    assert(retry_text(e) =~= head + count + (tail + e.error@));
    crate::text::law_parts_are_found(head, count, tail + e.error@);
    assert(retry_text(e) =~= (head + count + tail) + e.error@);
    crate::text::law_parts_are_found(head + count + tail, e.error@, Seq::empty());
    reveal_strlit("Model request failed before the stream opened. Retrying ");
    reveal_strlit("Model stream interrupted. Reconnecting ");
    reveal_strlit("Model stream interrupted");
    reveal_strlit("Model request failed");
    let rest = count + tail + e.error@;
    assert(retry_text(e) =~= head + rest);
    if e.kind is Stream {
        assert(retry_text(e).take(24) =~= "Model stream interrupted"@);
    } else {
        assert(retry_text(e).take(20) =~= "Model request failed"@);
    }
}

/// A box is told under its own id and title, with its status and text.
pub proof fn law_box_is_told_as_its_own(
    b: LazyActivityBox,
    status: Seq<char>,
    text: Seq<char>,
    e: ActivityBoxEvent,
    uuid: Seq<char>,
)
    requires
        box_event(b, status, text, e),
    ensures
        e.activity_id@ == b.activity_id@ && e.title@ == b.title@,
        e.status@ == status && e.text@ == text && e.kind@ == "think"@,
        box_id(uuid) == "runtime:activity:"@ + uuid,
{
}

} // verus!
