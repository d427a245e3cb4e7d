//! What passes between a client of the agent client protocol and a session.

use crate::activity::{
    law_box_carries_its_text, law_event_carries_its_content, law_events_have_names,
    law_update_keeps_its_type, lemma_member_names, member_str, member_text, update_of, update_type, ActivityBoxEvent, ActivityEvent,
    EVENT_ACTIVITY_BOX, EVENT_ACTIVITY_BOX_UPDATE,
    EVENT_AGENT_MESSAGE_CHUNK, EVENT_AGENT_THOUGHT_CHUNK, EVENT_CONFIG_OPTION, EVENT_CURRENT_MODE,
    EVENT_SESSION_INFO, EVENT_TOOL_CALL, EVENT_TOOL_CALL_UPDATE, EVENT_USAGE_UPDATE,
    EVENT_USER_MESSAGE_CHUNK,
};
use crate::constants::{MODE_ALLOW_ALL, MODE_BLOCK_ALL, STOP_CANCELLED, STOP_MAX_TURNS};
use crate::content_block::{
    data_url, image_url, image_url_data, image_url_view, text as text_block, text_view,
};
use crate::json::{
    as_count, copy_opt, field, fields, json_views, lemma_json_views, lemma_json_views_push, lookup,
    member, opt_pretty, opt_ref_pretty, opt_ref_view, opt_view, pretty_member, pretty_opt,
    text_field, text_field_or, Json, Jv, Member,
};
use crate::models::{policy_mode_name, reasoning_name, ReasoningMode};
use crate::policy::MODE_CONFIRM;
use crate::session::{profile_of, ModelProfile, ModelRegistry, SessionMetaPayload};
use crate::text::{
    cat2, cat3, cat5, contains_sub, contains_text, decimal, decimal_text, first_chars, is_blank,
    opt_str, opt_text, str_eq, take_chars, texts, trim, trim_of,
};
use vstd::prelude::*;

verus! {

/// One block of a prompt.
#[derive(Debug)]
pub enum PromptBlock {
    Text(String),
    Image { data: String, mime_type: String, uri: Option<String> },
    /// A resource or a link to one, as it is kept.
    Resource(Json),
    Unsupported,
}

/// What a block of a prompt is kept as: nothing of a blank text.
pub open spec fn block_result(b: PromptBlock, index: nat) -> Result<Option<Jv>, Seq<char>> {
    match b {
        PromptBlock::Text(s) => if is_blank(s@) {
            Ok(None)
        } else {
            Ok(Some(text_view(trim_of(s@))))
        },
        PromptBlock::Image { data, mime_type, uri } => {
            let link = match uri {
                Some(u) => trim_of(u@),
                None => ""@,
            };
            if is_blank(data@) && link.len() == 0 {
                Err(
                    "image block at index "@ + decimal(index)
                        + " must provide either data or uri"@,
                )
            } else if is_blank(data@) {
                Ok(Some(image_url_view(link)))
            } else if is_blank(mime_type@) {
                Err("image block at index "@ + decimal(index) + " must provide mimeType"@)
            } else {
                Ok(Some(image_url_view(data_url(mime_type@, data@))))
            }
        },
        PromptBlock::Resource(v) => Ok(Some(v@)),
        PromptBlock::Unsupported => Err(
            "Unsupported prompt block type at index "@ + decimal(index),
        ),
    }
}

/// What the first `n` blocks of a prompt are kept as, or what is wrong with
/// the first that cannot be kept.
pub open spec fn blocks_result(prompt: Seq<PromptBlock>, n: nat) -> Result<Seq<Jv>, Seq<char>>
    decreases n,
{
    if n == 0 || n > prompt.len() {
        Ok(Seq::empty())
    } else {
        match blocks_result(prompt, (n - 1) as nat) {
            Err(e) => Err(e),
            Ok(before) => match block_result(prompt[n - 1], (n - 1) as nat) {
                Err(e) => Err(e),
                Ok(None) => Ok(before),
                Ok(Some(v)) => Ok(before.push(v)),
            },
        }
    }
}

/// What a prompt is for the model: a single text stands for itself.
pub open spec fn prompt_input(blocks: Seq<Jv>) -> Jv {
    if blocks.len() == 1 && text_field(blocks[0], "text"@) is Some {
        Jv::Text(text_field_or(blocks[0], "text"@, ""@))
    } else {
        Jv::Array(blocks)
    }
}

/// What a prompt is kept as.
pub open spec fn prompt_result(prompt: Seq<PromptBlock>) -> Result<(Jv, Seq<Jv>), Seq<char>> {
    match blocks_result(prompt, prompt.len()) {
        Err(e) => Err(e),
        Ok(blocks) => if blocks.len() == 0 {
            Err("prompt cannot be empty"@)
        } else {
            Ok((prompt_input(blocks), blocks))
        },
    }
}

fn normalize_block(b: &PromptBlock, index: usize) -> (r: Result<Option<Json>, String>)
    ensures
        match block_result(*b, index as nat) {
            Ok(v) => r matches Ok(j) && opt_view(j) == v,
            Err(e) => r matches Err(error) && error@ == e,
        },
{
    proof {
        reveal_strlit("");
    }
    match b {
        PromptBlock::Text(s) => {
            let t = trim(s.as_str());
            if t.is_empty() {
                Ok(None)
            } else {
                Ok(Some(text_block(t)))
            }
        },
        PromptBlock::Image { data, mime_type, uri } => {
            let link = match uri {
                Some(u) => trim(u.as_str()),
                None => "",
            };
            let no_data = trim(data.as_str()).is_empty();
            if no_data && link.is_empty() {
                return Err(
                    cat3(
                        "image block at index ",
                        decimal_text(index as u64).as_str(),
                        " must provide either data or uri",
                    ),
                );
            }
            if no_data {
                return Ok(Some(image_url(link)));
            }
            if trim(mime_type.as_str()).is_empty() {
                return Err(
                    cat3(
                        "image block at index ",
                        decimal_text(index as u64).as_str(),
                        " must provide mimeType",
                    ),
                );
            }
            Ok(Some(image_url_data(mime_type.as_str(), data.as_str())))
        },
        PromptBlock::Resource(v) => Ok(Some(v.copy())),
        PromptBlock::Unsupported => Err(
            cat2(
                "Unsupported prompt block type at index ",
                decimal_text(index as u64).as_str(),
            ),
        ),
    }
}

proof fn lemma_blocks_error(prompt: Seq<PromptBlock>, i: nat, n: nat)
    requires
        i <= n <= prompt.len(),
        blocks_result(prompt, i) is Err,
    ensures
        blocks_result(prompt, n) == blocks_result(prompt, i),
    decreases n,
{
    if i < n {
        lemma_blocks_error(prompt, i, (n - 1) as nat);
    }
}

/// Reads a prompt: what the model gets, and the blocks it is recorded as.
pub fn normalize_prompt_blocks(prompt: &Vec<PromptBlock>) -> (r: Result<(Json, Vec<Json>), String>)
    ensures
        match prompt_result(prompt@) {
            Ok(p) => r matches Ok(q) && q.0@ == p.0 && json_views(q.1@) == p.1,
            Err(e) => r matches Err(error) && error@ == e,
        },
{
    let mut blocks: Vec<Json> = Vec::new();
    let mut i: usize = 0;
    proof {
        lemma_json_views(blocks@);
        assert(json_views(blocks@) =~= Seq::empty());
    }
    while i < prompt.len()
        invariant
            i <= prompt@.len(),
            blocks_result(prompt@, i as nat) == Ok::<Seq<Jv>, Seq<char>>(json_views(blocks@)),
        decreases prompt@.len() - i,
    {
        match normalize_block(&prompt[i], i) {
            Err(e) => {
                proof {
                    lemma_blocks_error(prompt@, (i + 1) as nat, prompt@.len());
                }
                return Err(e);
            },
            Ok(None) => {},
            Ok(Some(v)) => {
                proof {
                    lemma_json_views_push(blocks@, v);
                }
                blocks.push(v);
            },
        }
        i += 1;
    }
    proof {
        lemma_json_views(blocks@);
    }
    if blocks.len() == 0 {
        return Err("prompt cannot be empty".to_owned());
    }
    let ghost views = json_views(blocks@);
    proof {
        assert(views[0] == blocks@[0]@);
    }
    if blocks.len() == 1 {
        if let Some(s) = blocks[0].get_str("text") {
            return Ok((Json::Text(s.to_owned()), blocks));
        }
    }
    Ok((Json::Array(crate::json::clone_items(&blocks)), blocks))
}

/// How a client is told that a prompt ended.
#[derive(Debug, Clone, Copy, PartialEq, Eq, Structural)]
pub enum AcpStopReason {
    EndTurn,
    Cancelled,
    MaxTurnRequests,
}

/// How a client is told that a prompt ended.
pub open spec fn stop_of(stop_reason: Seq<char>) -> AcpStopReason {
    if stop_reason == STOP_CANCELLED@ {
        AcpStopReason::Cancelled
    } else if stop_reason == STOP_MAX_TURNS@ {
        AcpStopReason::MaxTurnRequests
    } else {
        AcpStopReason::EndTurn
    }
}

/// How a client is told that a prompt ended.
pub fn map_stop_reason(stop_reason: &str) -> (r: AcpStopReason)
    ensures
        r == stop_of(stop_reason@),
{
    if str_eq(stop_reason, STOP_CANCELLED) {
        AcpStopReason::Cancelled
    } else if str_eq(stop_reason, STOP_MAX_TURNS) {
        AcpStopReason::MaxTurnRequests
    } else {
        AcpStopReason::EndTurn
    }
}

/// How far a tool call is.
#[derive(Debug, Clone, Copy, PartialEq, Eq, Structural)]
pub enum ToolCallStatus {
    Pending,
    InProgress,
    Completed,
    Failed,
}

/// How far a tool call of a status is.
pub open spec fn status_of(status: Seq<char>) -> ToolCallStatus {
    let s = trim_of(status);
    if s == "in_progress"@ {
        ToolCallStatus::InProgress
    } else if s == "completed"@ || s == "completed_success"@ {
        ToolCallStatus::Completed
    } else if s == "failed"@ || s == "completed_error"@ {
        ToolCallStatus::Failed
    } else {
        ToolCallStatus::Pending
    }
}

/// How far a tool call of a status is; an unknown one is pending.
pub fn parse_tool_call_status(status: &str) -> (r: ToolCallStatus)
    ensures
        r == status_of(status@),
{
    let s = trim(status);
    if str_eq(s, "in_progress") {
        ToolCallStatus::InProgress
    } else if str_eq(s, "completed") || str_eq(s, "completed_success") {
        ToolCallStatus::Completed
    } else if str_eq(s, "failed") || str_eq(s, "completed_error") {
        ToolCallStatus::Failed
    } else {
        ToolCallStatus::Pending
    }
}

/// What a tool call does.
#[derive(Debug, Clone, Copy, PartialEq, Eq, Structural)]
pub enum ToolKind {
    Read,
    Edit,
    Delete,
    Move,
    Search,
    Execute,
    Think,
    Fetch,
    SwitchMode,
    Other,
}

/// What a tool call of a kind does.
pub open spec fn kind_of(kind: Seq<char>) -> ToolKind {
    let k = trim_of(kind);
    if k == "read"@ {
        ToolKind::Read
    } else if k == "edit"@ {
        ToolKind::Edit
    } else if k == "delete"@ {
        ToolKind::Delete
    } else if k == "move"@ {
        ToolKind::Move
    } else if k == "search"@ {
        ToolKind::Search
    } else if k == "execute"@ {
        ToolKind::Execute
    } else if k == "think"@ {
        ToolKind::Think
    } else if k == "fetch"@ {
        ToolKind::Fetch
    } else if k == "switch_mode"@ {
        ToolKind::SwitchMode
    } else {
        ToolKind::Other
    }
}

/// What a tool call of a kind does.
pub fn parse_tool_kind(kind: &str) -> (r: ToolKind)
    ensures
        r == kind_of(kind@),
{
    let k = trim(kind);
    if str_eq(k, "read") {
        ToolKind::Read
    } else if str_eq(k, "edit") {
        ToolKind::Edit
    } else if str_eq(k, "delete") {
        ToolKind::Delete
    } else if str_eq(k, "move") {
        ToolKind::Move
    } else if str_eq(k, "search") {
        ToolKind::Search
    } else if str_eq(k, "execute") {
        ToolKind::Execute
    } else if str_eq(k, "think") {
        ToolKind::Think
    } else if str_eq(k, "fetch") {
        ToolKind::Fetch
    } else if str_eq(k, "switch_mode") {
        ToolKind::SwitchMode
    } else {
        ToolKind::Other
    }
}

/// How many characters of a tool call's text a client is shown.
pub const CONTENT_LIMIT: usize = 8000;

/// A text cut to a limit, with a note where it was cut.
pub open spec fn truncated(s: Seq<char>, limit: nat) -> Seq<char> {
    if s.len() <= limit {
        s
    } else {
        s.take(limit as int) + "\n[TRUNCATED]"@
    }
}

/// Cuts a text to a limit, with a note where it was cut.
pub fn truncate_text(s: &str, limit: usize) -> (r: String)
    ensures
        r@ == truncated(s@, limit as nat),
{
    let head = first_chars(s, limit);
    if str_eq(head, s) {
        proof {
            if s@.len() > limit {
                assert(take_chars(s@, limit as nat).len() == limit);
            }
        }
        return s.to_owned();
    }
    cat2(head, "\n[TRUNCATED]")
}

/// The text that a client is shown for a tool call: the output of one that has
/// one, else the command or the input. `input` and `output` are the indented
/// JSON texts of the raw values.
pub open spec fn rendered_content(
    raw_input: Option<Jv>,
    input: Option<Seq<char>>,
    output: Option<Seq<char>>,
) -> Option<Seq<char>> {
    match output {
        Some(o) => Some(truncated("```json\n"@ + o + "\n```"@, CONTENT_LIMIT as nat)),
        None => {
            let command = match raw_input {
                Some(Jv::Object(m)) => text_field_or(Jv::Object(m), "command"@, ""@),
                _ => ""@,
            };
            if !is_blank(command) {
                Some(truncated(command, CONTENT_LIMIT as nat))
            } else {
                match input {
                    Some(i) => if is_blank(i) {
                        None
                    } else {
                        Some(truncated(i, CONTENT_LIMIT as nat))
                    },
                    None => None,
                }
            }
        },
    }
}

/// The text that a client is shown for a tool call.
pub fn render_tool_call_content(raw_input: Option<&Json>, raw_output: Option<&Json>) -> (r: Option<
    String,
>)
    ensures
        opt_text(r) == rendered_content(
            opt_ref_view(raw_input),
            opt_ref_pretty(raw_input),
            opt_ref_pretty(raw_output),
        ),
{
    let input = pretty_opt(raw_input);
    let output = pretty_opt(raw_output);
    render_tool_call_text(raw_input, borrow(&input), borrow(&output))
}

/// The text that a client is shown for a tool call; `input` and `output` are
/// the indented JSON texts of the raw values.
pub fn render_tool_call_text(
    raw_input: Option<&Json>,
    input: Option<&str>,
    output: Option<&str>,
) -> (r: Option<String>)
    ensures
        opt_text(r) == rendered_content(opt_ref_view(raw_input), opt_str(input), opt_str(output)),
{
    proof {
        reveal_strlit("");
        assert(is_blank(""@));
    }
    if let Some(o) = output {
        let text = cat3("```json\n", o, "\n```");
        return Some(truncate_text(text.as_str(), CONTENT_LIMIT));
    }
    if let Some(v) = raw_input {
        if v.as_object().is_some() {
            let command = v.str_or("command", "");
            if !trim(command).is_empty() {
                return Some(truncate_text(command, CONTENT_LIMIT));
            }
        }
    }
    match input {
        Some(i) => if trim(i).is_empty() {
            None
        } else {
            Some(truncate_text(i, CONTENT_LIMIT))
        },
        None => None,
    }
}

/// The text that an item of a content holds.
pub open spec fn item_text(item: Jv) -> Option<Seq<char>> {
    let content = match field(item, "content"@) {
        Some(c) => c,
        None => item,
    };
    let text = text_field_or(content, "text"@, ""@);
    if text_field_or(content, "type"@, ""@) == "text"@ && !is_blank(text) {
        Some(text)
    } else {
        None
    }
}

/// The texts that the first `n` items of a content hold.
pub open spec fn item_texts(items: Seq<Jv>, n: nat) -> Seq<Seq<char>>
    decreases n,
{
    if n == 0 || n > items.len() {
        Seq::empty()
    } else {
        let before = item_texts(items, (n - 1) as nat);
        match item_text(items[n - 1]) {
            Some(s) => before.push(s),
            None => before,
        }
    }
}

/// The texts that a content holds, where it holds any.
pub open spec fn content_texts(v: Option<Jv>) -> Option<Seq<Seq<char>>> {
    match v {
        Some(Jv::Array(items)) => {
            let all = item_texts(items, items.len());
            if all.len() == 0 {
                None
            } else {
                Some(all)
            }
        },
        _ => None,
    }
}

/// A list of texts, where there is one.
pub open spec fn opt_texts(v: Option<Vec<String>>) -> Option<Seq<Seq<char>>> {
    match v {
        Some(list) => Some(texts(list@)),
        None => None,
    }
}

/// The texts that a content holds, where it holds any.
pub fn parse_tool_call_content(value: &Json) -> (r: Option<Vec<String>>)
    ensures
        opt_texts(r) == content_texts(Some(value@)),
{
    let items = match value.as_array() {
        Some(items) => items,
        None => return None,
    };
    let ghost all = json_views(items@);
    proof {
        lemma_json_views(items@);
    }
    let mut out: Vec<String> = Vec::new();
    let mut i: usize = 0;
    proof {
        assert(texts(out@) =~= Seq::empty());
    }
    while i < items.len()
        invariant
            i <= items@.len(),
            all == json_views(items@),
            all.len() == items@.len(),
            forall|k: int| 0 <= k < items@.len() ==> #[trigger] all[k] == items@[k]@,
            texts(out@) == item_texts(all, i as nat),
        decreases items@.len() - i,
    {
        let item = &items[i];
        proof {
            assert(all[i as int] == item@);
        }
        let content = match item.get("content") {
            Some(c) => c,
            None => item,
        };
        if str_eq(content.str_or("type", ""), "text") {
            let text = content.str_or("text", "");
            if !trim(text).is_empty() {
                let owned = text.to_owned();
                proof {
                    crate::text::lemma_texts_push(out@, owned);
                }
                out.push(owned);
            }
        }
        i += 1;
    }
    if out.len() == 0 {
        None
    } else {
        Some(out)
    }
}

/// A tool call as a client is told of it; what is `None` stays as it was.
#[derive(Debug)]
pub struct AcpToolCall {
    pub tool_call_id: String,
    pub title: Option<String>,
    pub kind: Option<ToolKind>,
    pub status: Option<ToolCallStatus>,
    pub raw_input: Option<Json>,
    pub raw_output: Option<Json>,
    pub content: Option<Vec<String>>,
}

/// What a client is told of a tool call.
#[verifier::ext_equal]
pub ghost struct AcpCallView {
    pub id: Seq<char>,
    pub title: Option<Seq<char>>,
    pub kind: Option<ToolKind>,
    pub status: Option<ToolCallStatus>,
    pub raw_input: Option<Jv>,
    pub raw_output: Option<Jv>,
    pub content: Option<Seq<Seq<char>>>,
}

impl View for AcpToolCall {
    type V = AcpCallView;

    open spec fn view(&self) -> AcpCallView {
        AcpCallView {
            id: self.tool_call_id@,
            title: opt_text(self.title),
            kind: self.kind,
            status: self.status,
            raw_input: opt_view(self.raw_input),
            raw_output: opt_view(self.raw_output),
            content: opt_texts(self.content),
        }
    }
}

/// What a client is told of a session.
#[derive(Debug)]
pub enum SessionUpdate {
    AgentMessageChunk(String),
    AgentThoughtChunk(String),
    UserMessageChunk(String),
    ToolCall(AcpToolCall),
    ToolCallUpdate(AcpToolCall),
    CurrentMode(String),
    ConfigOption,
    Usage { used: u64, size: u64 },
    SessionInfo { title: Option<String>, updated_at: Option<String> },
}

/// What an update tells a client.
#[verifier::ext_equal]
pub ghost enum UpdateView {
    AgentMessageChunk(Seq<char>),
    AgentThoughtChunk(Seq<char>),
    UserMessageChunk(Seq<char>),
    ToolCall(AcpCallView),
    ToolCallUpdate(AcpCallView),
    CurrentMode(Seq<char>),
    ConfigOption,
    Usage { used: int, size: int },
    SessionInfo { title: Option<Seq<char>>, updated_at: Option<Seq<char>> },
}

impl View for SessionUpdate {
    type V = UpdateView;

    open spec fn view(&self) -> UpdateView {
        match *self {
            SessionUpdate::AgentMessageChunk(s) => UpdateView::AgentMessageChunk(s@),
            SessionUpdate::AgentThoughtChunk(s) => UpdateView::AgentThoughtChunk(s@),
            SessionUpdate::UserMessageChunk(s) => UpdateView::UserMessageChunk(s@),
            SessionUpdate::ToolCall(c) => UpdateView::ToolCall(c@),
            SessionUpdate::ToolCallUpdate(c) => UpdateView::ToolCallUpdate(c@),
            SessionUpdate::CurrentMode(s) => UpdateView::CurrentMode(s@),
            SessionUpdate::ConfigOption => UpdateView::ConfigOption,
            SessionUpdate::Usage { used, size } => UpdateView::Usage {
                used: used as int,
                size: size as int,
            },
            SessionUpdate::SessionInfo { title, updated_at } => UpdateView::SessionInfo {
                title: opt_text(title),
                updated_at: opt_text(updated_at),
            },
        }
    }
}

/// The text that an update carries.
pub open spec fn carried_text(m: Map<Seq<char>, Jv>) -> Seq<char> {
    match field(Jv::Object(m), "content"@) {
        Some(c) => text_field_or(c, "text"@, ""@),
        None => ""@,
    }
}

/// The text that an update carries.
pub fn extract_content_text(update: &Vec<Member>) -> (r: String)
    ensures
        r@ == carried_text(fields(update@)),
{
    match lookup(update, "content") {
        Some(c) => c.str_or("text", "").to_owned(),
        None => "".to_owned(),
    }
}

/// How far the tool call is that members tell of, where they tell.
pub open spec fn told_status(m: Map<Seq<char>, Jv>) -> Option<ToolCallStatus> {
    match text_field(Jv::Object(m), "status"@) {
        Some(s) => Some(status_of(s)),
        None => None,
    }
}

/// What the tool call does that members tell of, where they tell.
pub open spec fn told_kind(m: Map<Seq<char>, Jv>) -> Option<ToolKind> {
    match text_field(Jv::Object(m), "kind"@) {
        Some(s) => Some(kind_of(s)),
        None => None,
    }
}

/// The texts to show for members of a tool call: those that it carries, or one
/// made from its input and output.
pub open spec fn shown_texts(
    m: Map<Seq<char>, Jv>,
    input: Option<Seq<char>>,
    output: Option<Seq<char>>,
) -> Option<Seq<Seq<char>>> {
    match content_texts(field(Jv::Object(m), "content"@)) {
        Some(list) => Some(list),
        None => rendered_texts(m, input, output),
    }
}

/// The text made from the input and output of a tool call.
pub open spec fn rendered_texts(
    m: Map<Seq<char>, Jv>,
    input: Option<Seq<char>>,
    output: Option<Seq<char>>,
) -> Option<Seq<Seq<char>>> {
    match rendered_content(field(Jv::Object(m), "raw_input"@), input, output) {
        Some(s) => Some(seq![s]),
        None => None,
    }
}

/// What a client is told for an update; an update of an unknown type is not
/// passed on. `input` and `output` are the indented JSON texts of a tool
/// call's raw values.
pub open spec fn told(
    m: Map<Seq<char>, Jv>,
    input: Option<Seq<char>>,
    output: Option<Seq<char>>,
) -> Option<UpdateView> {
    let v = Jv::Object(m);
    let kind = trim_of(member_text(m, "session_update"@));
    if kind == "agent_message_chunk"@ {
        Some(UpdateView::AgentMessageChunk(carried_text(m)))
    } else if kind == "agent_thought_chunk"@ {
        Some(UpdateView::AgentThoughtChunk(carried_text(m)))
    } else if kind == "user_message_chunk"@ {
        Some(UpdateView::UserMessageChunk(carried_text(m)))
    } else if kind == "tool_call"@ {
        Some(
            UpdateView::ToolCall(
                AcpCallView {
                    id: member_text(m, "tool_call_id"@),
                    title: Some(member_text(m, "title"@)),
                    kind: Some(kind_of(text_field_or(v, "kind"@, "other"@))),
                    status: Some(status_of(text_field_or(v, "status"@, "pending"@))),
                    raw_input: field(v, "raw_input"@),
                    raw_output: field(v, "raw_output"@),
                    content: shown_texts(m, input, output),
                },
            ),
        )
    } else if kind == "tool_call_update"@ {
        Some(
            UpdateView::ToolCallUpdate(
                AcpCallView {
                    id: member_text(m, "tool_call_id"@),
                    title: text_field(v, "title"@),
                    kind: told_kind(m),
                    status: told_status(m),
                    raw_input: field(v, "raw_input"@),
                    raw_output: field(v, "raw_output"@),
                    content: shown_texts(m, input, output),
                },
            ),
        )
    } else if kind == "activity_box"@ {
        Some(
            UpdateView::ToolCall(
                AcpCallView {
                    id: member_text(m, "activity_id"@),
                    title: Some(text_field_or(v, "title"@, "Activity"@)),
                    kind: Some(kind_of(text_field_or(v, "kind"@, "think"@))),
                    status: Some(status_of(text_field_or(v, "status"@, "in_progress"@))),
                    raw_input: None,
                    raw_output: None,
                    content: content_texts(field(v, "content"@)),
                },
            ),
        )
    } else if kind == "activity_box_update"@ {
        Some(
            UpdateView::ToolCallUpdate(
                AcpCallView {
                    id: member_text(m, "activity_id"@),
                    title: text_field(v, "title"@),
                    kind: told_kind(m),
                    status: told_status(m),
                    raw_input: None,
                    raw_output: None,
                    content: content_texts(field(v, "content"@)),
                },
            ),
        )
    } else if kind == "current_mode_update"@ {
        Some(UpdateView::CurrentMode(member_text(m, "current_mode_id"@)))
    } else if kind == "config_option_update"@ {
        Some(UpdateView::ConfigOption)
    } else if kind == "usage_update"@ {
        Some(
            UpdateView::Usage {
                used: count_or_zero(field(v, "used"@)),
                size: count_or_zero(field(v, "size"@)),
            },
        )
    } else if kind == "session_info_update"@ {
        Some(
            UpdateView::SessionInfo {
                title: text_field(v, "title"@),
                updated_at: text_field(v, "updated_at"@),
            },
        )
    } else {
        None
    }
}

/// A count, and zero where there is none.
pub open spec fn count_or_zero(v: Option<Jv>) -> int {
    match as_count(v) {
        Some(n) => n,
        None => 0,
    }
}

fn text_of<'a>(members: &'a Vec<Member>, key: &str) -> (r: Option<&'a str>)
    ensures
        opt_str(r) == text_field(Jv::Object(fields(members@)), key@),
{
    match lookup(members, key) {
        Some(v) => v.as_str(),
        None => None,
    }
}

fn own(v: Option<&str>) -> (r: Option<String>)
    ensures
        opt_text(r) == opt_str(v),
{
    match v {
        Some(s) => Some(s.to_owned()),
        None => None,
    }
}

fn borrow(v: &Option<String>) -> (r: Option<&str>)
    ensures
        opt_str(r) == opt_text(*v),
{
    match v {
        Some(s) => Some(s.as_str()),
        None => None,
    }
}

fn text_or<'a>(members: &'a Vec<Member>, key: &str, default: &'a str) -> (r: &'a str)
    ensures
        r@ == text_field_or(Jv::Object(fields(members@)), key@, default@),
{
    match text_of(members, key) {
        Some(s) => s,
        None => default,
    }
}

fn count_of(members: &Vec<Member>, key: &str) -> (r: u64)
    ensures
        r == count_or_zero(field(Jv::Object(fields(members@)), key@)),
{
    match lookup(members, key) {
        Some(v) => match v.as_u64() {
            Some(n) => n,
            None => 0,
        },
        None => 0,
    }
}

fn carried_texts(members: &Vec<Member>) -> (r: Option<Vec<String>>)
    ensures
        opt_texts(r) == content_texts(field(Jv::Object(fields(members@)), "content"@)),
{
    match lookup(members, "content") {
        Some(v) => parse_tool_call_content(v),
        None => None,
    }
}

fn one_text(s: String) -> (r: Vec<String>)
    ensures
        texts(r@) == seq![s@],
{
    let mut v: Vec<String> = Vec::new();
    v.push(s);
    proof {
        assert(texts(v@) =~= seq![s@]);
    }
    v
}

fn made_texts(members: &Vec<Member>, input: Option<&str>, output: Option<&str>) -> (r: Option<
    Vec<String>,
>)
    ensures
        opt_texts(r) == rendered_texts(fields(members@), opt_str(input), opt_str(output)),
{
    match render_tool_call_text(lookup(members, "raw_input"), input, output) {
        Some(s) => Some(one_text(s)),
        None => None,
    }
}

fn texts_to_show(members: &Vec<Member>, input: Option<&str>, output: Option<&str>) -> (r: Option<
    Vec<String>,
>)
    ensures
        opt_texts(r) == shown_texts(fields(members@), opt_str(input), opt_str(output)),
{
    match carried_texts(members) {
        Some(list) => Some(list),
        None => made_texts(members, input, output),
    }
}

fn status_told(members: &Vec<Member>) -> (r: Option<ToolCallStatus>)
    ensures
        r == told_status(fields(members@)),
{
    match text_of(members, "status") {
        Some(s) => Some(parse_tool_call_status(s)),
        None => None,
    }
}

fn kind_told(members: &Vec<Member>) -> (r: Option<ToolKind>)
    ensures
        r == told_kind(fields(members@)),
{
    match text_of(members, "kind") {
        Some(s) => Some(parse_tool_kind(s)),
        None => None,
    }
}

/// What a client is told for an update.
pub fn build_session_update(update: &Vec<Member>, input: Option<&str>, output: Option<&str>) -> (r:
    Option<SessionUpdate>)
    ensures
        match told(fields(update@), opt_str(input), opt_str(output)) {
            Some(v) => r matches Some(u) && u@ == v,
            None => r is None,
        },
{
    let kind = update_type(update);
    if str_eq(kind, EVENT_AGENT_MESSAGE_CHUNK) {
        Some(SessionUpdate::AgentMessageChunk(extract_content_text(update)))
    } else if str_eq(kind, EVENT_AGENT_THOUGHT_CHUNK) {
        Some(SessionUpdate::AgentThoughtChunk(extract_content_text(update)))
    } else if str_eq(kind, EVENT_USER_MESSAGE_CHUNK) {
        Some(SessionUpdate::UserMessageChunk(extract_content_text(update)))
    } else if str_eq(kind, EVENT_TOOL_CALL) {
        Some(
            SessionUpdate::ToolCall(
                AcpToolCall {
                    tool_call_id: member_str(update, "tool_call_id").to_owned(),
                    title: Some(member_str(update, "title").to_owned()),
                    kind: Some(parse_tool_kind(text_or(update, "kind", "other"))),
                    status: Some(parse_tool_call_status(text_or(update, "status", "pending"))),
                    raw_input: copy_opt(lookup(update, "raw_input")),
                    raw_output: copy_opt(lookup(update, "raw_output")),
                    content: texts_to_show(update, input, output),
                },
            ),
        )
    } else if str_eq(kind, EVENT_TOOL_CALL_UPDATE) {
        Some(
            SessionUpdate::ToolCallUpdate(
                AcpToolCall {
                    tool_call_id: member_str(update, "tool_call_id").to_owned(),
                    title: own(text_of(update, "title")),
                    kind: kind_told(update),
                    status: status_told(update),
                    raw_input: copy_opt(lookup(update, "raw_input")),
                    raw_output: copy_opt(lookup(update, "raw_output")),
                    content: texts_to_show(update, input, output),
                },
            ),
        )
    } else if str_eq(kind, EVENT_ACTIVITY_BOX) {
        Some(
            SessionUpdate::ToolCall(
                AcpToolCall {
                    tool_call_id: member_str(update, "activity_id").to_owned(),
                    title: Some(text_or(update, "title", "Activity").to_owned()),
                    kind: Some(parse_tool_kind(text_or(update, "kind", "think"))),
                    status: Some(parse_tool_call_status(text_or(update, "status", "in_progress"))),
                    raw_input: None,
                    raw_output: None,
                    content: carried_texts(update),
                },
            ),
        )
    } else if str_eq(kind, EVENT_ACTIVITY_BOX_UPDATE) {
        Some(
            SessionUpdate::ToolCallUpdate(
                AcpToolCall {
                    tool_call_id: member_str(update, "activity_id").to_owned(),
                    title: own(text_of(update, "title")),
                    kind: kind_told(update),
                    status: status_told(update),
                    raw_input: None,
                    raw_output: None,
                    content: carried_texts(update),
                },
            ),
        )
    } else if str_eq(kind, EVENT_CURRENT_MODE) {
        Some(SessionUpdate::CurrentMode(member_str(update, "current_mode_id").to_owned()))
    } else if str_eq(kind, EVENT_CONFIG_OPTION) {
        Some(SessionUpdate::ConfigOption)
    } else if str_eq(kind, EVENT_USAGE_UPDATE) {
        Some(
            SessionUpdate::Usage {
                used: count_of(update, "used"),
                size: count_of(update, "size"),
            },
        )
    } else if str_eq(kind, EVENT_SESSION_INFO) {
        Some(
            SessionUpdate::SessionInfo {
                title: own(text_of(update, "title")),
                updated_at: own(text_of(update, "updated_at")),
            },
        )
    } else {
        None
    }
}

/// What a client is told for an update, with the raw values of a tool call
/// written out.
pub fn session_update(update: &Vec<Member>) -> (r: Option<SessionUpdate>)
    ensures
        match told(
            fields(update@),
            opt_pretty(member(update@, "raw_input"@)),
            opt_pretty(member(update@, "raw_output"@)),
        ) {
            Some(v) => r matches Some(u) && u@ == v,
            None => r is None,
        },
{
    let input = pretty_member(update, "raw_input");
    let output = pretty_member(update, "raw_output");
    build_session_update(update, borrow(&input), borrow(&output))
}

/// What a client is asked about.
pub open spec fn asked(
    m: Map<Seq<char>, Jv>,
    input: Option<Seq<char>>,
    output: Option<Seq<char>>,
) -> AcpCallView {
    let v = Jv::Object(m);
    AcpCallView {
        id: text_field_or(v, "tool_call_id"@, "unknown"@),
        title: text_field(v, "title"@),
        kind: told_kind(m),
        status: told_status(m),
        raw_input: field(v, "raw_input"@),
        raw_output: field(v, "raw_output"@),
        content: rendered_texts(m, input, output),
    }
}

/// Describes the tool call that a client is asked about.
pub fn build_permission_request(
    payload: &Vec<Member>,
    input: Option<&str>,
    output: Option<&str>,
) -> (r: AcpToolCall)
    ensures
        r@ == asked(fields(payload@), opt_str(input), opt_str(output)),
{
    AcpToolCall {
        tool_call_id: text_or(payload, "tool_call_id", "unknown").to_owned(),
        title: own(text_of(payload, "title")),
        kind: kind_told(payload),
        status: status_told(payload),
        raw_input: copy_opt(lookup(payload, "raw_input")),
        raw_output: copy_opt(lookup(payload, "raw_output")),
        content: made_texts(payload, input, output),
    }
}

/// Describes the tool call that a client is asked about, with its raw values
/// written out.
pub fn permission_request(payload: &Vec<Member>) -> (r: AcpToolCall)
    ensures
        r@ == asked(
            fields(payload@),
            opt_pretty(member(payload@, "raw_input"@)),
            opt_pretty(member(payload@, "raw_output"@)),
        ),
{
    let input = pretty_member(payload, "raw_input");
    let output = pretty_member(payload, "raw_output");
    build_permission_request(payload, borrow(&input), borrow(&output))
}

/// What a client answered.
#[derive(Debug)]
pub enum PermissionReply {
    Cancelled,
    Selected(String),
    Other,
}

/// The decision that an answer stands for: what is not an approval is a
/// rejection.
pub open spec fn decision_of(reply: PermissionReply) -> Seq<char> {
    match reply {
        PermissionReply::Cancelled => "cancelled"@,
        PermissionReply::Selected(id) => if id@ == "allow_once"@ {
            "allow_once"@
        } else {
            "reject_once"@
        },
        PermissionReply::Other => "reject_once"@,
    }
}

/// The decision that an answer stands for.
pub fn permission_decision(reply: &PermissionReply) -> (r: String)
    ensures
        r@ == decision_of(*reply),
{
    match reply {
        PermissionReply::Cancelled => "cancelled".to_owned(),
        PermissionReply::Selected(id) => if str_eq(id.as_str(), "allow_once") {
            "allow_once".to_owned()
        } else {
            "reject_once".to_owned()
        },
        PermissionReply::Other => "reject_once".to_owned(),
    }
}

/// One value of a setting that a client can choose.
#[derive(Debug)]
pub struct SelectOption {
    pub value: String,
    pub name: String,
    pub description: String,
}

/// One value of a setting.
#[verifier::ext_equal]
pub ghost struct SelectView {
    pub value: Seq<char>,
    pub name: Seq<char>,
    pub description: Seq<char>,
}

impl View for SelectOption {
    type V = SelectView;

    open spec fn view(&self) -> SelectView {
        SelectView { value: self.value@, name: self.name@, description: self.description@ }
    }
}

/// The values of a setting.
pub open spec fn select_views(v: Seq<SelectOption>) -> Seq<SelectView> {
    Seq::new(v.len(), |i: int| v[i]@)
}

fn option(value: &str, name: &str, description: String) -> (r: SelectOption)
    ensures
        r@ == (SelectView { value: value@, name: name@, description: description@ }),
{
    SelectOption { value: value.to_owned(), name: name.to_owned(), description }
}

/// The modes that a client can choose, in the order of the mode list.
pub open spec fn mode_list() -> Seq<SelectView> {
    seq![allow_all_option(), block_all_option(), confirm_option()]
}

/// The mode in which every tool call runs.
pub open spec fn allow_all_option() -> SelectView {
    SelectView {
        value: "allow_all"@,
        name: "Allow All"@,
        description: "Allow all tool calls without confirmation."@,
    }
}

/// The mode in which no tool call runs.
pub open spec fn block_all_option() -> SelectView {
    SelectView {
        value: "block_all"@,
        name: "Block All"@,
        description: "Block all tool calls."@,
    }
}

/// The mode in which the user is asked.
pub open spec fn confirm_option() -> SelectView {
    SelectView {
        value: "confirm"@,
        name: "Confirm"@,
        description: "Ask for permission before each tool call."@,
    }
}

/// The modes of a session, and the one in force.
#[derive(Debug)]
pub struct ModeState {
    pub current_mode_id: String,
    pub modes: Vec<SelectOption>,
}

fn push_option(v: &mut Vec<SelectOption>, o: SelectOption)
    ensures
        select_views(final(v)@) == select_views(old(v)@).push(o@),
{
    let ghost before = v@;
    v.push(o);
    proof {
        assert(select_views(v@) =~= select_views(before).push(o@));
    }
}

/// The modes of a session, and the one in force.
pub fn build_mode_state(current_mode_id: &str) -> (r: ModeState)
    ensures
        r.current_mode_id@ == current_mode_id@,
        select_views(r.modes@) == mode_list(),
{
    let mut modes: Vec<SelectOption> = Vec::new();
    proof {
        assert(select_views(modes@) =~= Seq::empty());
    }
    push_option(
        &mut modes,
        option(
            MODE_ALLOW_ALL,
            "Allow All",
            "Allow all tool calls without confirmation.".to_owned(),
        ),
    );
    push_option(
        &mut modes,
        option(MODE_BLOCK_ALL, "Block All", "Block all tool calls.".to_owned()),
    );
    push_option(
        &mut modes,
        option(MODE_CONFIRM, "Confirm", "Ask for permission before each tool call.".to_owned()),
    );
    proof {
        assert(select_views(modes@) =~= mode_list());
    }
    ModeState { current_mode_id: current_mode_id.to_owned(), modes }
}

/// Whether a capability is there, in words.
pub open spec fn yes_no(b: bool) -> Seq<char> {
    if b {
        "yes"@
    } else {
        "no"@
    }
}

fn yes_no_str(b: bool) -> (r: &'static str)
    ensures
        r@ == yes_no(b),
{
    if b {
        "yes"
    } else {
        "no"
    }
}

/// How a model is described.
pub open spec fn model_text(p: ModelProfile) -> Seq<char> {
    p.provider@ + "/"@ + p.model_id@ + " | vision: "@ + yes_no(p.vision) + " | tools: "@ + yes_no(
        p.tool_use,
    )
}

/// How a model is described.
pub fn model_description(profile: &ModelProfile) -> (r: String)
    ensures
        r@ == model_text(*profile),
{
    let mut out = cat5(
        profile.provider.as_str(),
        "/",
        profile.model_id.as_str(),
        " | vision: ",
        yes_no_str(profile.vision),
    );
    out.append(" | tools: ");
    out.append(yes_no_str(profile.tool_use));
    out
}

/// The group that a setting belongs to.
#[derive(Debug, Clone, Copy, PartialEq, Eq, Structural)]
pub enum OptionCategory {
    Mode,
    Model,
    ThoughtLevel,
}

/// A setting that a client can choose.
#[derive(Debug)]
pub struct ConfigOption {
    pub id: String,
    pub name: String,
    pub current: String,
    pub options: Vec<SelectOption>,
    pub description: String,
    pub category: OptionCategory,
}

/// A setting that a client can choose.
#[verifier::ext_equal]
pub ghost struct OptionView {
    pub id: Seq<char>,
    pub name: Seq<char>,
    pub current: Seq<char>,
    pub options: Seq<SelectView>,
    pub description: Seq<char>,
    pub category: OptionCategory,
}

impl View for ConfigOption {
    type V = OptionView;

    open spec fn view(&self) -> OptionView {
        OptionView {
            id: self.id@,
            name: self.name@,
            current: self.current@,
            options: select_views(self.options@),
            description: self.description@,
            category: self.category,
        }
    }
}

/// The models that a client can choose.
pub open spec fn model_options(profiles: Seq<ModelProfile>) -> Seq<SelectView> {
    Seq::new(
        profiles.len(),
        |i: int|
            SelectView {
                value: profiles[i].model_name@,
                name: profiles[i].model_name@,
                description: model_text(profiles[i]),
            },
    )
}

/// The reasoning modes that a client can choose for a model.
pub open spec fn reasoning_options(model: Seq<char>, modes: Seq<ReasoningMode>) -> Seq<SelectView> {
    Seq::new(
        modes.len(),
        |i: int|
            SelectView {
                value: reasoning_name(modes[i]),
                name: reasoning_name(modes[i]),
                description: model + " reasoning: "@ + reasoning_name(modes[i]),
            },
    )
}

/// The settings that a client can choose.
pub open spec fn config_options(
    model: Seq<char>,
    mode: Seq<char>,
    reasoning: Seq<char>,
    registry: ModelRegistry,
) -> Seq<OptionView> {
    seq![
        OptionView {
            id: "policy_mode"@,
            name: "Policy"@,
            current: mode,
            options: seq![confirm_option(), allow_all_option(), block_all_option()],
            description: "Choose how tool calls are handled."@,
            category: OptionCategory::Mode,
        },
        OptionView {
            id: "model"@,
            name: "Model"@,
            current: model,
            options: model_options(registry.profiles@),
            description: "Choose which model this session uses."@,
            category: OptionCategory::Model,
        },
        OptionView {
            id: "reasoning_mode"@,
            name: "Reasoning Mode"@,
            current: reasoning,
            options: match profile_of(registry, model) {
                Some(p) => reasoning_options(model, p.reasoning_modes@),
                None => Seq::empty(),
            },
            description: "Choose the reasoning mode for this session."@,
            category: OptionCategory::ThoughtLevel,
        },
    ]
}

fn build_model_options(registry: &ModelRegistry) -> (r: Vec<SelectOption>)
    ensures
        select_views(r@) == model_options(registry.profiles@),
{
    let ghost want = model_options(registry.profiles@);
    let mut r: Vec<SelectOption> = Vec::new();
    let mut i: usize = 0;
    proof {
        assert(select_views(r@) =~= want.take(0));
    }
    while i < registry.profiles.len()
        invariant
            i <= registry.profiles@.len(),
            want == model_options(registry.profiles@),
            select_views(r@) == want.take(i as int),
        decreases registry.profiles@.len() - i,
    {
        let profile = &registry.profiles[i];
        let name = profile.model_name.as_str();
        push_option(&mut r, option(name, name, model_description(profile)));
        proof {
            assert(want.take(i + 1) =~= want.take(i as int).push(want[i as int]));
        }
        i += 1;
    }
    proof {
        assert(want.take(want.len() as int) =~= want);
    }
    r
}

fn build_reasoning_options(model: &str, modes: &Vec<ReasoningMode>) -> (r: Vec<SelectOption>)
    ensures
        select_views(r@) == reasoning_options(model@, modes@),
{
    let ghost want = reasoning_options(model@, modes@);
    let mut r: Vec<SelectOption> = Vec::new();
    let mut i: usize = 0;
    proof {
        assert(select_views(r@) =~= want.take(0));
    }
    while i < modes.len()
        invariant
            i <= modes@.len(),
            want == reasoning_options(model@, modes@),
            select_views(r@) == want.take(i as int),
        decreases modes@.len() - i,
    {
        let name = modes[i].as_str();
        push_option(&mut r, option(name, name, cat3(model, " reasoning: ", name)));
        proof {
            assert(want.take(i + 1) =~= want.take(i as int).push(want[i as int]));
        }
        i += 1;
    }
    proof {
        assert(want.take(want.len() as int) =~= want);
    }
    r
}

/// What settings say.
pub open spec fn option_views(v: Seq<ConfigOption>) -> Seq<OptionView> {
    Seq::new(v.len(), |i: int| v[i]@)
}

/// The settings that a client can choose.
pub fn build_config_options(
    current_model_id: &str,
    current_mode_id: &str,
    current_reasoning_mode: &str,
    registry: &ModelRegistry,
) -> (r: Vec<ConfigOption>)
    ensures
        option_views(r@) == config_options(
            current_model_id@,
            current_mode_id@,
            current_reasoning_mode@,
            *registry,
        ),
{
    let mut policies: Vec<SelectOption> = Vec::new();
    proof {
        assert(select_views(policies@) =~= Seq::empty());
    }
    push_option(
        &mut policies,
        option(MODE_CONFIRM, "Confirm", "Ask for permission before each tool call.".to_owned()),
    );
    push_option(
        &mut policies,
        option(
            MODE_ALLOW_ALL,
            "Allow All",
            "Allow all tool calls without confirmation.".to_owned(),
        ),
    );
    push_option(
        &mut policies,
        option(MODE_BLOCK_ALL, "Block All", "Block all tool calls.".to_owned()),
    );
    proof {
        assert(select_views(policies@) =~= seq![
            confirm_option(),
            allow_all_option(),
            block_all_option(),
        ]);
    }
    let reasoning = match registry.find(current_model_id) {
        Some(p) => build_reasoning_options(current_model_id, &p.reasoning_modes),
        None => Vec::new(),
    };
    proof {
        if profile_of(*registry, current_model_id@) is None {
            assert(select_views(reasoning@) =~= Seq::empty());
        }
    }
    let mut r: Vec<ConfigOption> = Vec::new();
    r.push(
        ConfigOption {
            id: "policy_mode".to_owned(),
            name: "Policy".to_owned(),
            current: current_mode_id.to_owned(),
            options: policies,
            description: "Choose how tool calls are handled.".to_owned(),
            category: OptionCategory::Mode,
        },
    );
    r.push(
        ConfigOption {
            id: "model".to_owned(),
            name: "Model".to_owned(),
            current: current_model_id.to_owned(),
            options: build_model_options(registry),
            description: "Choose which model this session uses.".to_owned(),
            category: OptionCategory::Model,
        },
    );
    r.push(
        ConfigOption {
            id: "reasoning_mode".to_owned(),
            name: "Reasoning Mode".to_owned(),
            current: current_reasoning_mode.to_owned(),
            options: reasoning,
            description: "Choose the reasoning mode for this session.".to_owned(),
            category: OptionCategory::ThoughtLevel,
        },
    );
    proof {
        assert(option_views(r@) =~= config_options(
            current_model_id@,
            current_mode_id@,
            current_reasoning_mode@,
            *registry,
        ));
    }
    r
}

/// A setting that a client changes.
#[derive(Debug, Clone, Copy, PartialEq, Eq, Structural)]
pub enum ConfigTarget {
    PolicyMode,
    Model,
    ReasoningMode,
}

/// The setting of a name.
pub fn parse_config_option(config_id: &str) -> (r: Result<ConfigTarget, String>)
    ensures
        if config_id@ == "policy_mode"@ {
            r matches Ok(t) && t is PolicyMode
        } else if config_id@ == "model"@ {
            r matches Ok(t) && t is Model
        } else if config_id@ == "reasoning_mode"@ {
            r matches Ok(t) && t is ReasoningMode
        } else {
            r matches Err(e) && e@ == "Unsupported config option: "@ + config_id@
        },
{
    proof {
        reveal_strlit("policy_mode");
        reveal_strlit("model");
        reveal_strlit("reasoning_mode");
        assert("policy_mode"@.len() == 11);
        assert("model"@.len() == 5);
        assert("reasoning_mode"@.len() == 14);
    }
    if str_eq(config_id, "policy_mode") {
        Ok(ConfigTarget::PolicyMode)
    } else if str_eq(config_id, "model") {
        Ok(ConfigTarget::Model)
    } else if str_eq(config_id, "reasoning_mode") {
        Ok(ConfigTarget::ReasoningMode)
    } else {
        Err(cat2("Unsupported config option: ", config_id))
    }
}

/// The settings to show after a change: those that wait are shown already.
pub fn config_options_after_change(meta: &SessionMetaPayload, registry: &ModelRegistry) -> (r: Vec<
    ConfigOption,
>)
    ensures
        option_views(r@) == config_options(
            match meta@.pending_model_id {
                Some(id) => id,
                None => meta@.model_id,
            },
            policy_mode_name(meta@.mode_id),
            reasoning_name(
                match meta@.pending_reasoning_mode {
                    Some(mode) => mode,
                    None => meta@.reasoning_mode,
                },
            ),
            *registry,
        ),
{
    let model = match &meta.pending_model_id {
        Some(id) => id.as_str(),
        None => meta.model_id.as_str(),
    };
    let reasoning = match meta.pending_reasoning_mode {
        Some(mode) => mode,
        None => meta.reasoning_mode,
    };
    build_config_options(model, meta.mode_id.as_str(), reasoning.as_str(), registry)
}

/// Whether an error says that the input was closed.
pub fn is_stdio_eof_error(message: &str) -> (r: bool)
    ensures
        r == contains_sub(message@, "ACP stdio input closed"@),
{
    contains_text(message, "ACP stdio input closed")
}

/// A client is never shown more of a tool call's text than the limit and the
/// note.
pub proof fn law_truncated_text_keeps_the_limit(s: Seq<char>, limit: nat)
    ensures
        truncated(s, limit).len() <= limit + 12,
        s.len() <= limit ==> truncated(s, limit) == s,
{
    reveal_strlit("\n[TRUNCATED]");
}

/// A prompt that is accepted says something: its blocks are not empty, and a
/// single text is handed to the model as it is.
pub proof fn law_accepted_prompt_says_something(prompt: Seq<PromptBlock>)
    ensures
        prompt_result(prompt) matches Ok(p) ==> p.1.len() > 0 && match p.0 {
            Jv::Text(t) => p.1.len() == 1 && field(p.1[0], "text"@) == Some(Jv::Text(t)),
            _ => p.0 == Jv::Array(p.1),
        },
{
}

/// What is not an approval is never taken as one.
pub proof fn law_only_approval_allows(reply: PermissionReply)
    ensures
        decision_of(reply) == "allow_once"@ <==> (reply matches PermissionReply::Selected(id)
            && id@ == "allow_once"@),
{
    reveal_strlit("allow_once");
    reveal_strlit("reject_once");
    reveal_strlit("cancelled");
    assert("allow_once"@.len() == 10);
    assert("reject_once"@.len() == 11);
    assert("cancelled"@.len() == 9);
}

/// Whatever happens in a session, its client is told.
pub proof fn law_every_event_is_told(
    e: ActivityEvent,
    input: Option<Seq<char>>,
    output: Option<Seq<char>>,
)
    ensures
        told(update_of(e), input, output) is Some,
{
    law_update_keeps_its_type(e);
}

/// The text of the model and of the user reaches the client as it is.
pub proof fn law_text_reaches_the_client(e: ActivityEvent, text: Seq<char>)
    ensures
        e matches ActivityEvent::AgentMessageChunk { content } && content@ == text_view(text)
            ==> told(update_of(e), None, None) == Some(UpdateView::AgentMessageChunk(text)),
        e matches ActivityEvent::AgentThoughtChunk { content } && content@ == text_view(text)
            ==> told(update_of(e), None, None) == Some(UpdateView::AgentThoughtChunk(text)),
        e matches ActivityEvent::UserMessageChunk { content } && content@ == text_view(text)
            ==> told(update_of(e), None, None) == Some(UpdateView::UserMessageChunk(text)),
{
    law_update_keeps_its_type(e);
    reveal_strlit("agent_message_chunk");
    reveal_strlit("agent_thought_chunk");
    reveal_strlit("user_message_chunk");
    reveal_strlit("session_update");
    reveal_strlit("content");
    reveal_strlit("text");
    reveal_strlit("type");
    assert("agent_message_chunk"@[6] == 'm');
    assert("agent_thought_chunk"@[6] == 't');
    assert("user_message_chunk"@[0] == 'u');
    assert("session_update"@.len() != "content"@.len());
    assert("text"@[1] == 'e');
    assert("type"@[1] == 'y');
}

proof fn lemma_update_names()
    ensures
        "agent_message_chunk"@.len() == 19 && "agent_message_chunk"@[0] == 'a'
            && "agent_message_chunk"@[1] == 'g' && "agent_message_chunk"@[6] == 'm',
        "agent_thought_chunk"@.len() == 19 && "agent_thought_chunk"@[0] == 'a'
            && "agent_thought_chunk"@[1] == 'g' && "agent_thought_chunk"@[6] == 't',
        "user_message_chunk"@.len() == 18,
        "tool_call"@.len() == 9,
        "tool_call_update"@.len() == 16,
        "activity_box"@.len() == 12 && "activity_box"@[0] == 'a',
        "activity_box_update"@.len() == 19 && "activity_box_update"@[0] == 'a'
            && "activity_box_update"@[1] == 'c',
        "current_mode_update"@.len() == 19 && "current_mode_update"@[0] == 'c',
        "config_option_update"@.len() == 20,
        "usage_update"@.len() == 12 && "usage_update"@[0] == 'u',
        "session_info_update"@.len() == 19 && "session_info_update"@[0] == 's',
{
    reveal_strlit("agent_message_chunk");
    reveal_strlit("agent_thought_chunk");
    reveal_strlit("user_message_chunk");
    reveal_strlit("tool_call");
    reveal_strlit("tool_call_update");
    reveal_strlit("activity_box");
    reveal_strlit("activity_box_update");
    reveal_strlit("current_mode_update");
    reveal_strlit("config_option_update");
    reveal_strlit("usage_update");
    reveal_strlit("session_info_update");
}

/// A call, and what changes of it, reach the client under the id of the call, with its
/// own title, kind, status, arguments and output.
pub proof fn law_calls_reach_the_client(
    e: ActivityEvent,
    input: Option<Seq<char>>,
    output: Option<Seq<char>>,
)
    ensures
        e matches ActivityEvent::ToolCall(t) ==> (told(update_of(e), input, output) matches Some(
            UpdateView::ToolCall(c),
        ) && c.id == t.tool_call_id@ && c.title == Some(t.title@) && c.kind == Some(
            kind_of(t.kind@),
        ) && c.status == Some(status_of(t.status@)) && c.raw_input == opt_view(t.raw_input)
            && c.raw_output == opt_view(t.raw_output)),
        e matches ActivityEvent::ToolCallUpdate(t) ==> (told(
            update_of(e),
            input,
            output,
        ) matches Some(UpdateView::ToolCallUpdate(c)) && c.id == t.tool_call_id@ && c.title
            == opt_text(t.title) && c.status == Some(status_of(t.status@)) && c.raw_input
            == opt_view(t.raw_input) && c.raw_output == opt_view(t.raw_output) && (
        t.kind matches Some(k) ==> c.kind == Some(kind_of(k@))) && (t.kind is None
            ==> c.kind is None)),
{
    law_update_keeps_its_type(e);
    law_event_carries_its_content(e);
    law_events_have_names(e);
    lemma_update_names();
    lemma_member_names();
}

/// A box reaches the client as a call of its id and title that shows its text.
pub proof fn law_boxes_reach_the_client(
    b: ActivityBoxEvent,
    update: bool,
    input: Option<Seq<char>>,
    output: Option<Seq<char>>,
)
    ensures
        ({
            let e = if update {
                ActivityEvent::ActivityBoxUpdate(b)
            } else {
                ActivityEvent::ActivityBox(b)
            };
            let c = match told(update_of(e), input, output) {
                Some(UpdateView::ToolCall(c)) => Some((c, false)),
                Some(UpdateView::ToolCallUpdate(c)) => Some((c, true)),
                _ => None,
            };
            c matches Some(c) && c.1 == update && c.0.id == b.activity_id@ && c.0.title == Some(
                b.title@,
            ) && c.0.kind == Some(kind_of(b.kind@)) && c.0.status == Some(status_of(b.status@))
                && (!is_blank(b.text@) ==> c.0.content == Some(seq![b.text@]))
        }),
{
    let e = if update {
        ActivityEvent::ActivityBoxUpdate(b)
    } else {
        ActivityEvent::ActivityBox(b)
    };
    law_update_keeps_its_type(e);
    law_box_carries_its_text(b, update);
    lemma_update_names();
    lemma_member_names();
    let items = seq![text_view(b.text@)];
    reveal_strlit("text");
    reveal_strlit("type");
    assert("text"@[1] == 'e');
    assert("type"@[1] == 'y');
    assert(items[0] == text_view(b.text@));
    law_shown_texts_keep_their_order(Seq::empty(), items, 1);
    assert(field(items[0], "content"@) is None);
    assert(item_texts(items, 0).len() == 0);
    if !is_blank(b.text@) {
        assert(item_texts(items, 1) =~= seq![b.text@]);
    }
}

/// The mode, the use of the context and the title reach the client as they are.
pub proof fn law_session_news_reach_the_client(e: ActivityEvent)
    ensures
        e matches ActivityEvent::CurrentModeUpdate { mode_id } ==> told(update_of(e), None, None)
            == Some(UpdateView::CurrentMode(mode_id@)),
        e matches ActivityEvent::UsageUpdate { used, size } ==> told(update_of(e), None, None)
            == Some(UpdateView::Usage { used: used as int, size: size as int }),
        e is ConfigOptionUpdate ==> told(update_of(e), None, None) == Some(
            UpdateView::ConfigOption,
        ),
        e matches ActivityEvent::SessionInfoUpdate { title, updated_at } ==> told(
            update_of(e),
            None,
            None,
        ) == Some(
            UpdateView::SessionInfo { title: Some(title@), updated_at: opt_text(updated_at) },
        ),
{
    law_update_keeps_its_type(e);
    law_event_carries_its_content(e);
    law_events_have_names(e);
    lemma_update_names();
    lemma_member_names();
}

/// The texts of a call's blocks are shown in their order, and nothing else is.
pub proof fn law_shown_texts_keep_their_order(a: Seq<Jv>, b: Seq<Jv>, n: nat)
    requires
        n <= b.len(),
    ensures
        item_texts(a + b, a.len() + n) == item_texts(a, a.len()) + item_texts(b, n),
    decreases n,
{
    if n == 0 {
        lemma_item_texts_prefix(a, b, a.len());
        assert(item_texts(a, a.len()) + item_texts(b, 0) =~= item_texts(a, a.len()));
    } else {
        law_shown_texts_keep_their_order(a, b, (n - 1) as nat);
        assert((a + b)[a.len() + n - 1] == b[n - 1]);
        assert(item_texts(a + b, a.len() + n) =~= item_texts(a, a.len()) + item_texts(b, n));
    }
}

proof fn lemma_item_texts_prefix(a: Seq<Jv>, b: Seq<Jv>, n: nat)
    requires
        n <= a.len(),
    ensures
        item_texts(a + b, n) == item_texts(a, n),
    decreases n,
{
    if n > 0 {
        lemma_item_texts_prefix(a, b, (n - 1) as nat);
        assert((a + b)[n - 1] == a[n - 1]);
    }
}

/// A text block is shown by its text, whether it stands alone or as the content of an
/// item; a blank one, and one of another type, is not.
pub proof fn law_text_block_is_shown(s: Seq<char>, item: Jv)
    ensures
        ({
            let alone = map!["type"@ => Jv::Text("text"@), "text"@ => Jv::Text(s)];
            let wrapped = map!["content"@ => Jv::Object(alone)];
            &&& !is_blank(s) ==> item_text(Jv::Object(alone)) == Some(s)
            &&& !is_blank(s) ==> item_text(Jv::Object(wrapped)) == Some(s)
            &&& is_blank(s) ==> item_text(Jv::Object(alone)) is None
        }),
        field(item, "content"@) is None && field(item, "type"@) != Some(Jv::Text("text"@))
            ==> item_text(item) is None,
{
    reveal_strlit("text");
    reveal_strlit("type");
    reveal_strlit("content");
    reveal_strlit("");
    assert("text"@[1] == 'e');
    assert("type"@[1] == 'y');
    assert("content"@.len() == 7);
    assert("text"@.len() == 4);
    assert("type"@.len() == 4);
    let alone = map!["type"@ => Jv::Text("text"@), "text"@ => Jv::Text(s)];
    assert(!alone.dom().contains("content"@));
}

/// A status is read by its name.
pub proof fn law_status_is_read(s: Seq<char>)
    ensures
        status_of(s) is InProgress <==> trim_of(s) == "in_progress"@,
        status_of(s) is Completed <==> trim_of(s) == "completed"@ || trim_of(s)
            == "completed_success"@,
        status_of(s) is Failed <==> trim_of(s) == "failed"@ || trim_of(s) == "completed_error"@,
{
    reveal_strlit("in_progress");
    reveal_strlit("completed");
    reveal_strlit("completed_success");
    reveal_strlit("failed");
    reveal_strlit("completed_error");
    assert("in_progress"@.len() == 11);
    assert("completed"@.len() == 9);
    assert("completed_success"@.len() == 17);
    assert("failed"@.len() == 6);
    assert("completed_error"@.len() == 15);
}

/// A kind is read by its name.
pub proof fn law_kind_is_read(k: Seq<char>)
    ensures
        kind_of(k) is Read <==> trim_of(k) == "read"@,
        kind_of(k) is Edit <==> trim_of(k) == "edit"@,
        kind_of(k) is Delete <==> trim_of(k) == "delete"@,
        kind_of(k) is Move <==> trim_of(k) == "move"@,
        kind_of(k) is Search <==> trim_of(k) == "search"@,
        kind_of(k) is Execute <==> trim_of(k) == "execute"@,
        kind_of(k) is Think <==> trim_of(k) == "think"@,
        kind_of(k) is Fetch <==> trim_of(k) == "fetch"@,
        kind_of(k) is SwitchMode <==> trim_of(k) == "switch_mode"@,
{
    reveal_strlit("read");
    reveal_strlit("edit");
    reveal_strlit("delete");
    reveal_strlit("move");
    reveal_strlit("search");
    reveal_strlit("execute");
    reveal_strlit("think");
    reveal_strlit("fetch");
    reveal_strlit("switch_mode");
    assert("read"@.len() == 4 && "read"@[0] == 'r');
    assert("edit"@.len() == 4 && "edit"@[0] == 'e');
    assert("move"@.len() == 4 && "move"@[0] == 'm');
    assert("delete"@.len() == 6 && "delete"@[0] == 'd');
    assert("search"@.len() == 6 && "search"@[0] == 's');
    assert("execute"@.len() == 7);
    assert("think"@.len() == 5 && "think"@[0] == 't');
    assert("fetch"@.len() == 5 && "fetch"@[0] == 'f');
    assert("switch_mode"@.len() == 11);
}

/// A turn that was cancelled or ran out of requests is told as such, and no other is.
pub proof fn law_end_of_a_turn_is_told(s: Seq<char>)
    ensures
        stop_of(s) is Cancelled <==> s == "cancelled"@,
        stop_of(s) is MaxTurnRequests <==> s == "max_turns"@,
{
    reveal_strlit("max_turns");
    reveal_strlit("cancelled");
    assert("max_turns"@[0] == 'm');
    assert("cancelled"@[0] == 'c');
}

/// A block of a prompt is kept as what it is: a text trimmed, an image as its data or
/// its address, a resource as it stands.
pub proof fn law_prompt_block_is_kept(b: PromptBlock, index: nat)
    ensures
        b matches PromptBlock::Text(s) ==> block_result(b, index) == Ok::<
            Option<Jv>,
            Seq<char>,
        >(
            if is_blank(s@) {
                None
            } else {
                Some(
                    Jv::Object(map!["type"@ => Jv::Text("text"@), "text"@ => Jv::Text(trim_of(s@))]),
                )
            },
        ),
        b matches PromptBlock::Image { data, mime_type, uri } ==> {
            &&& !is_blank(data@) && !is_blank(mime_type@) ==> (block_result(b, index) matches Ok(
                Some(v),
            ) && field(v, "type"@) == Some(Jv::Text("image_url"@)) && field(v, "image_url"@)
                == Some(
                Jv::Object(
                    map![
                        "url"@ => Jv::Text("data:"@ + mime_type@ + ";base64,"@ + data@),
                    ],
                ),
            ))
            &&& !is_blank(data@) && is_blank(mime_type@) ==> block_result(b, index) is Err
            &&& is_blank(data@) ==> match uri {
                Some(u) => if is_blank(u@) {
                    block_result(b, index) is Err
                } else {
                    block_result(b, index) matches Ok(Some(v)) && field(v, "image_url"@) == Some(
                        Jv::Object(map!["url"@ => Jv::Text(trim_of(u@))]),
                    )
                },
                None => block_result(b, index) is Err,
            }
        },
        b matches PromptBlock::Resource(v) ==> block_result(b, index) == Ok::<
            Option<Jv>,
            Seq<char>,
        >(Some(v@)),
        b is Unsupported ==> block_result(b, index) is Err,
{
    reveal_strlit("");
    reveal_strlit("type");
    reveal_strlit("image_url");
    assert("type"@.len() == 4);
    assert("image_url"@.len() == 9);
}

/// The blocks of a prompt are kept in their order; one that cannot be kept fails the
/// prompt.
pub proof fn law_prompt_keeps_its_blocks(prompt: Seq<PromptBlock>, n: nat, i: int)
    requires
        0 <= i < n <= prompt.len(),
    ensures
        block_result(prompt[i], i as nat) is Err ==> blocks_result(prompt, n) is Err,
        (forall|k: int| 0 <= k < n ==> (#[trigger] block_result(prompt[k], k as nat)) is Ok)
            ==> blocks_result(prompt, n) is Ok,
        (forall|k: int|
            0 <= k < n ==> (#[trigger] block_result(prompt[k], k as nat)) matches Ok(Some(_)))
            ==> (blocks_result(prompt, n) matches Ok(all) && all.len() == n && block_result(
            prompt[i],
            i as nat,
        ) == Ok::<Option<Jv>, Seq<char>>(Some(all[i]))),
    decreases n,
{
    let m = (n - 1) as nat;
    assert(block_result(prompt[n - 1], m) is Ok || block_result(prompt[n - 1], m) is Err);
    if m > 0 {
        law_prompt_keeps_its_blocks(prompt, m, if i < m { i } else { 0 });
        if blocks_result(prompt, m) is Ok && forall|k: int|
            0 <= k < n ==> (#[trigger] block_result(prompt[k], k as nat)) matches Ok(Some(_)) {
            assert forall|k: int| 0 <= k < m implies (#[trigger] block_result(
                prompt[k],
                k as nat,
            )) matches Ok(Some(_)) by {}
        }
    } else {
        assert(blocks_result(prompt, 0) == Ok::<Seq<Jv>, Seq<char>>(Seq::empty()));
    }
}

/// A prompt of one text is that text.
pub proof fn law_prompt_of_one_text(s: String)
    requires
        !is_blank(s@),
    ensures
        prompt_result(seq![PromptBlock::Text(s)]) matches Ok(p) && p.0 == Jv::Text(trim_of(s@))
            && p.1.len() == 1,
{
    let prompt = seq![PromptBlock::Text(s)];
    assert(blocks_result(prompt, 0) == Ok::<Seq<Jv>, Seq<char>>(Seq::empty()));
    assert(prompt[0] == PromptBlock::Text(s));
    reveal_strlit("text");
    reveal_strlit("type");
    assert("text"@[1] == 'e');
    assert("type"@[1] == 'y');
    assert(blocks_result(prompt, 1) == Ok::<Seq<Jv>, Seq<char>>(
        Seq::empty().push(text_view(trim_of(s@))),
    ));
}

/// The output of a call is shown as JSON; without one its command is, or its
/// arguments.
pub proof fn law_call_shows_its_output(
    raw_input: Option<Jv>,
    input: Option<Seq<char>>,
    output: Option<Seq<char>>,
)
    ensures
        output matches Some(o) ==> (o.len() <= 7000 ==> rendered_content(raw_input, input, output)
            == Some("```json\n"@ + o + "\n```"@)),
        output is None ==> match raw_input {
            Some(v) => text_field(v, "command"@) matches Some(c) ==> (!is_blank(c) && c.len()
                <= 8000 ==> rendered_content(raw_input, input, output) == Some(c)),
            None => input matches Some(i) ==> (!is_blank(i) && i.len() <= 8000
                ==> rendered_content(raw_input, input, output) == Some(i)),
        },
        output is None && raw_input is None && input is None ==> rendered_content(
            raw_input,
            input,
            output,
        ) is None,
{
    reveal_strlit("```json\n");
    reveal_strlit("\n```");
    reveal_strlit("");
}

/// A session offers the three ways to handle calls, the models of the registry and the
/// reasoning modes of its model, and shows which of them is in force.
pub proof fn law_session_offers_its_choices(
    model: Seq<char>,
    mode: Seq<char>,
    reasoning: Seq<char>,
    registry: ModelRegistry,
)
    ensures
        ({
            let o = config_options(model, mode, reasoning, registry);
            &&& o.len() == 3
            &&& o[0].id == "policy_mode"@ && o[0].current == mode && o[0].options.len() == 3
            &&& o[0].options[0].value == "confirm"@ && o[0].options[1].value == "allow_all"@
                && o[0].options[2].value == "block_all"@
            &&& o[1].id == "model"@ && o[1].current == model
            &&& o[1].options.len() == registry.profiles@.len()
            &&& forall|i: int|
                0 <= i < registry.profiles@.len() ==> (#[trigger] o[1].options[i]).value
                    == registry.profiles@[i].model_name@ && o[1].options[i].name
                    == registry.profiles@[i].model_name@
            &&& o[2].id == "reasoning_mode"@ && o[2].current == reasoning
            &&& profile_of(registry, model) matches Some(p) ==> o[2].options.len()
                == p.reasoning_modes@.len() && forall|i: int|
                0 <= i < p.reasoning_modes@.len() ==> (#[trigger] o[2].options[i]).value
                    == reasoning_name(p.reasoning_modes@[i])
            &&& profile_of(registry, model) is None ==> o[2].options.len() == 0
        }),
{
}

/// The modes that a client can set are these three.
pub proof fn law_modes_are_listed()
    ensures
        mode_list().len() == 3,
        mode_list()[0].value == "allow_all"@,
        mode_list()[1].value == "block_all"@,
        mode_list()[2].value == "confirm"@,
{
}

/// A model is described by its provider and id, and by whether it sees and uses tools.
pub proof fn law_model_is_described(p: ModelProfile)
    ensures
        model_text(p) == p.provider@ + "/"@ + p.model_id@ + " | vision: "@ + (if p.vision {
            "yes"@
        } else {
            "no"@
        }) + " | tools: "@ + (if p.tool_use {
            "yes"@
        } else {
            "no"@
        }),
{
}

/// A refusal and a cancellation are told apart.
pub proof fn law_refusal_is_no_cancellation(reply: PermissionReply)
    ensures
        reply is Cancelled ==> decision_of(reply) == "cancelled"@,
        reply is Other ==> decision_of(reply) == "reject_once"@,
        reply matches PermissionReply::Selected(id) ==> (id@ != "allow_once"@ ==> decision_of(reply)
            == "reject_once"@),
{
}

/// The user is asked about a call by its id, with its title, kind, status, arguments and
/// output.
pub proof fn law_question_shows_the_call(
    m: Map<Seq<char>, Jv>,
    input: Option<Seq<char>>,
    output: Option<Seq<char>>,
    s: Seq<char>,
)
    ensures
        ({
            let c = asked(m, input, output);
            let v = Jv::Object(m);
            &&& text_field(v, "tool_call_id"@) == Some(s) ==> c.id == s
            &&& text_field(v, "title"@) == Some(s) ==> c.title == Some(s)
            &&& text_field(v, "kind"@) == Some(s) ==> c.kind == Some(kind_of(s))
            &&& text_field(v, "status"@) == Some(s) ==> c.status == Some(status_of(s))
            &&& c.raw_input == field(v, "raw_input"@) && c.raw_output == field(v, "raw_output"@)
            &&& rendered_content(field(v, "raw_input"@), input, output) == Some(s) ==> c.content
                == Some(seq![s])
            &&& field(v, "tool_call_id"@) is None ==> c.id == "unknown"@
        }),
{
}

/// A call shows the texts that it carries, or else its output or arguments.
pub proof fn law_call_shows_its_texts(
    m: Map<Seq<char>, Jv>,
    input: Option<Seq<char>>,
    output: Option<Seq<char>>,
    items: Seq<Jv>,
)
    ensures
        field(Jv::Object(m), "content"@) == Some(Jv::Array(items)) && item_texts(
            items,
            items.len(),
        ).len() > 0 ==> shown_texts(m, input, output) == Some(item_texts(items, items.len())),
        field(Jv::Object(m), "content"@) is None ==> shown_texts(m, input, output) == (
        match rendered_content(field(Jv::Object(m), "raw_input"@), input, output) {
            Some(s) => Some(seq![s]),
            None => None,
        }),
        field(Jv::Object(m), "content"@) is None ==> carried_text(m) == ""@,
{
}

/// The choices that are offered say what they do.
pub proof fn law_choices_are_described(
    model: Seq<char>,
    mode: Seq<char>,
    reasoning: Seq<char>,
    registry: ModelRegistry,
)
    ensures
        mode_list()[0].name == "Allow All"@ && mode_list()[0].description
            == "Allow all tool calls without confirmation."@,
        mode_list()[1].name == "Block All"@ && mode_list()[1].description
            == "Block all tool calls."@,
        mode_list()[2].name == "Confirm"@ && mode_list()[2].description
            == "Ask for permission before each tool call."@,
        ({
            let o = config_options(model, mode, reasoning, registry);
            &&& o[0].category is Mode && o[1].category is Model && o[2].category is ThoughtLevel
            &&& o[0].name == "Policy"@ && o[1].name == "Model"@ && o[2].name == "Reasoning Mode"@
            &&& forall|i: int|
                0 <= i < registry.profiles@.len() ==> (#[trigger] o[1].options[i]).description
                    == model_text(registry.profiles@[i])
        }),
{
}

} // verus!
