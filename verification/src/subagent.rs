//! Subagents: the card that shows their progress, what they tell their
//! parent, and when they take a message.

use crate::json::{
    as_text, copy_or_null, count, field, fields, json_read, json_views, lemma_fields_empty,
    lemma_json_views, lemma_json_views_push, lookup, no_members, opt_ref_pretty,
    parse_json, pretty_opt, put, put_text, read_result, text_field, text_field_or, Json, Jv, Member,
    NumberView,
};
use crate::text::{
    cat2, cat3, is_blank, join, join_of, opt_str, str_eq, texts, trim, trim_end, trim_end_of,
    trim_of,
};
use vstd::prelude::*;

verus! {

/// What an item of a card shows.
#[derive(Debug, Clone, Copy, PartialEq, Eq, Structural)]
pub enum FlowKind {
    User,
    Thinking,
    ToolCall,
    Response,
}

/// An item of a card.
#[derive(Debug)]
pub struct FlowItem {
    pub kind: FlowKind,
    pub title: String,
    pub text: String,
}

/// What an item of a card says.
#[verifier::ext_equal]
pub ghost struct FlowView {
    pub kind: FlowKind,
    pub title: Seq<char>,
    pub text: Seq<char>,
}

impl View for FlowItem {
    type V = FlowView;

    open spec fn view(&self) -> FlowView {
        FlowView { kind: self.kind, title: self.title@, text: self.text@ }
    }
}

/// What the items of a card say.
pub open spec fn flow_views(v: Seq<FlowItem>) -> Seq<FlowView> {
    Seq::new(v.len(), |i: int| v[i]@)
}

/// The card that shows the progress of a subagent.
#[derive(Debug)]
pub struct SubagentCardState {
    session_name: String,
    policy: String,
    status: String,
    flow: Vec<FlowItem>,
}

/// What a card says.
#[verifier::ext_equal]
pub ghost struct CardView {
    pub name: Seq<char>,
    pub policy: Seq<char>,
    pub status: Seq<char>,
    pub flow: Seq<FlowView>,
}

impl View for SubagentCardState {
    type V = CardView;

    closed spec fn view(&self) -> CardView {
        CardView {
            name: self.session_name@,
            policy: self.policy@,
            status: self.status@,
            flow: flow_views(self.flow@),
        }
    }
}

/// A new card.
pub open spec fn new_card(name: Seq<char>, policy: Seq<char>) -> CardView {
    CardView { name, policy, status: "created"@, flow: Seq::empty() }
}

/// A card with another status; a blank one changes nothing.
pub open spec fn card_with_status(c: CardView, status: Seq<char>) -> CardView {
    if is_blank(status) {
        c
    } else {
        CardView { status: trim_of(status), ..c }
    }
}

/// A card with a message of the user; a blank one changes nothing.
pub open spec fn card_with_user(c: CardView, text: Seq<char>) -> CardView {
    if is_blank(text) {
        c
    } else {
        CardView {
            flow: c.flow.push(
                FlowView { kind: FlowKind::User, title: ""@, text: trim_of(text) },
            ),
            ..c
        }
    }
}

/// A card with a tool call; one without a title changes nothing.
pub open spec fn card_with_call(c: CardView, title: Seq<char>, input: Option<Seq<char>>) -> CardView {
    if is_blank(title) {
        c
    } else {
        CardView {
            flow: c.flow.push(
                FlowView {
                    kind: FlowKind::ToolCall,
                    title: trim_of(title),
                    text: match input {
                        Some(s) => s,
                        None => ""@,
                    },
                },
            ),
            ..c
        }
    }
}

/// A card with a piece of text: it goes on with the last item where that is of
/// the same kind.
pub open spec fn card_with_text(c: CardView, kind: FlowKind, text: Seq<char>) -> CardView {
    if text.len() == 0 {
        c
    } else if c.flow.len() > 0 && c.flow.last().kind == kind {
        CardView {
            flow: c.flow.update(
                c.flow.len() - 1,
                FlowView { text: c.flow.last().text + text, ..c.flow.last() },
            ),
            ..c
        }
    } else {
        CardView { flow: c.flow.push(FlowView { kind, title: ""@, text }), ..c }
    }
}

/// The lines that show an item.
pub open spec fn item_lines(f: FlowView) -> Seq<Seq<char>> {
    match f.kind {
        FlowKind::User => seq!["### User"@, ""@, f.text, ""@],
        FlowKind::Thinking => seq!["### Thinking"@, ""@, f.text, ""@],
        FlowKind::ToolCall => if is_blank(f.text) {
            seq!["### Tool Call: "@ + f.title, ""@]
        } else {
            seq!["### Tool Call: "@ + f.title, ""@, "```json\n"@ + f.text + "\n```"@, ""@]
        },
        FlowKind::Response => seq!["### Response"@, ""@, f.text, ""@],
    }
}

/// The lines that show the first `n` items.
pub open spec fn flow_lines(flow: Seq<FlowView>, n: int) -> Seq<Seq<char>>
    decreases n,
{
    if n <= 0 || n > flow.len() {
        Seq::empty()
    } else {
        flow_lines(flow, n - 1) + item_lines(flow[n - 1])
    }
}

/// The lines in front of the items.
pub open spec fn header_lines(c: CardView) -> Seq<Seq<char>> {
    seq![
        "**subagent_name:** `"@ + c.name + "`"@,
        "**policy:** `"@ + c.policy + "`"@,
        "**status:** `"@ + c.status + "`"@,
        ""@,
    ]
}

/// The text of a card.
pub open spec fn card_text(c: CardView) -> Seq<char> {
    trim_end_of(join_of(header_lines(c) + flow_lines(c.flow, c.flow.len() as int), "\n"@))
}

fn push_line(lines: &mut Vec<String>, line: String)
    ensures
        texts(final(lines)@) == texts(old(lines)@).push(line@),
{
    proof {
        crate::text::lemma_texts_push(lines@, line);
    }
    lines.push(line);
}

fn push_item(lines: &mut Vec<String>, item: &FlowItem)
    ensures
        texts(final(lines)@) == texts(old(lines)@) + item_lines(item@),
{
    match item.kind {
        FlowKind::User => {
            push_line(lines, "### User".to_owned());
            push_line(lines, "".to_owned());
            push_line(lines, item.text.clone());
            push_line(lines, "".to_owned());
        },
        FlowKind::Thinking => {
            push_line(lines, "### Thinking".to_owned());
            push_line(lines, "".to_owned());
            push_line(lines, item.text.clone());
            push_line(lines, "".to_owned());
        },
        FlowKind::ToolCall => {
            push_line(lines, cat2("### Tool Call: ", item.title.as_str()));
            if !trim(item.text.as_str()).is_empty() {
                push_line(lines, "".to_owned());
                push_line(lines, cat3("```json\n", item.text.as_str(), "\n```"));
            }
            push_line(lines, "".to_owned());
        },
        FlowKind::Response => {
            push_line(lines, "### Response".to_owned());
            push_line(lines, "".to_owned());
            push_line(lines, item.text.clone());
            push_line(lines, "".to_owned());
        },
    }
    proof {
        assert(texts(lines@) =~= texts(old(lines)@) + item_lines(item@));
    }
}

impl SubagentCardState {
    /// A new card.
    pub fn new(session_name: &str, policy: &str) -> (r: Self)
        ensures
            r@ == new_card(session_name@, policy@),
    {
        let r = SubagentCardState {
            session_name: session_name.to_owned(),
            policy: policy.to_owned(),
            status: "created".to_owned(),
            flow: Vec::new(),
        };
        proof {
            assert(flow_views(r.flow@) =~= Seq::empty());
        }
        r
    }

    /// Sets the status; a blank one changes nothing.
    pub fn set_status(&mut self, status: &str)
        ensures
            final(self)@ == card_with_status(old(self)@, status@),
    {
        let trimmed = trim(status);
        if !trimmed.is_empty() {
            self.status = trimmed.to_owned();
        }
    }

    fn push(&mut self, item: FlowItem)
        ensures
            final(self)@ == (CardView { flow: old(self)@.flow.push(item@), ..old(self)@ }),
    {
        let ghost before = self.flow@;
        self.flow.push(item);
        proof {
            assert(flow_views(self.flow@) =~= flow_views(before).push(item@));
        }
    }

    /// Shows a message of the user; a blank one changes nothing.
    pub fn append_user(&mut self, text: &str)
        ensures
            final(self)@ == card_with_user(old(self)@, text@),
    {
        let trimmed = trim(text);
        if !trimmed.is_empty() {
            self.push(
                FlowItem {
                    kind: FlowKind::User,
                    title: "".to_owned(),
                    text: trimmed.to_owned(),
                },
            );
        }
    }

    /// Shows a thought.
    pub fn append_thinking(&mut self, text: &str)
        ensures
            final(self)@ == card_with_text(old(self)@, FlowKind::Thinking, text@),
    {
        self.append_flow_text(FlowKind::Thinking, text);
    }

    /// Shows a tool call and its arguments.
    pub fn append_tool_call(&mut self, title: &str, raw_input: Option<&Json>)
        ensures
            final(self)@ == card_with_call(
                old(self)@,
                title@,
                opt_ref_pretty(raw_input),
            ),
    {
        match pretty_opt(raw_input) {
            Some(text) => self.append_tool_text(title, Some(text.as_str())),
            None => self.append_tool_text(title, None),
        }
    }

    /// Shows a tool call; `input` is the indented JSON text of its arguments.
    pub fn append_tool_text(&mut self, title: &str, input: Option<&str>)
        ensures
            final(self)@ == card_with_call(old(self)@, title@, opt_str(input)),
    {
        let trimmed = trim(title);
        if !trimmed.is_empty() {
            let text = match input {
                Some(s) => s.to_owned(),
                None => "".to_owned(),
            };
            self.push(FlowItem { kind: FlowKind::ToolCall, title: trimmed.to_owned(), text });
        }
    }

    /// Shows a piece of the answer.
    pub fn append_response(&mut self, text: &str)
        ensures
            final(self)@ == card_with_text(old(self)@, FlowKind::Response, text@),
    {
        self.append_flow_text(FlowKind::Response, text);
    }

    fn append_flow_text(&mut self, kind: FlowKind, text: &str)
        ensures
            final(self)@ == card_with_text(old(self)@, kind, text@),
    {
        if text.is_empty() {
            return;
        }
        let n = self.flow.len();
        let ghost before = self.flow@;
        if n > 0 && self.flow[n - 1].kind == kind {
            let last = self.flow.pop();
            if let Some(mut item) = last {
                let grown = cat2(item.text.as_str(), text);
                item.text = grown;
                self.flow.push(item);
                proof {
                    let old_last = before[n - 1];
                    assert(flow_views(before)[n - 1] == old_last@);
                    assert(flow_views(self.flow@) =~= flow_views(before).update(n - 1, item@));
                }
            }
            return;
        }
        proof {
            if n > 0 {
                assert(flow_views(before)[n - 1] == before[n - 1]@);
            }
        }
        self.push(FlowItem { kind, title: "".to_owned(), text: text.to_owned() });
    }

    /// The text of the card.
    pub fn render(&self) -> (r: String)
        ensures
            r@ == card_text(self@),
    {
        let mut lines: Vec<String> = Vec::new();
        proof {
            assert(texts(lines@) =~= Seq::empty());
        }
        push_line(&mut lines, cat3("**subagent_name:** `", self.session_name.as_str(), "`"));
        push_line(&mut lines, cat3("**policy:** `", self.policy.as_str(), "`"));
        push_line(&mut lines, cat3("**status:** `", self.status.as_str(), "`"));
        push_line(&mut lines, "".to_owned());
        let ghost head = header_lines(self@);
        let ghost flow = self@.flow;
        proof {
            assert(texts(lines@) =~= head + flow_lines(flow, 0));
        }
        let mut i: usize = 0;
        while i < self.flow.len()
            invariant
                i <= self.flow@.len(),
                flow == flow_views(self.flow@),
                texts(lines@) == head + flow_lines(flow, i as int),
            decreases self.flow@.len() - i,
        {
            push_item(&mut lines, &self.flow[i]);
            proof {
                assert(flow[i as int] == self.flow@[i as int]@);
                assert(texts(lines@) =~= head + flow_lines(flow, i + 1));
            }
            i += 1;
        }
        let text = join(&lines, "\n");
        trim_end(text.as_str()).to_owned()
    }
}

/// A piece of text is shown the same whether it came at once or in parts.
pub proof fn law_streamed_text_runs_on(c: CardView, kind: FlowKind, a: Seq<char>, b: Seq<char>)
    ensures
        card_with_text(card_with_text(c, kind, a), kind, b) == card_with_text(c, kind, a + b),
{
    let d = card_with_text(c, kind, a);
    let e = card_with_text(d, kind, b);
    let f = card_with_text(c, kind, a + b);
    if a.len() == 0 {
        assert(a + b =~= b);
    } else if b.len() == 0 {
        assert(a + b =~= a);
    } else if c.flow.len() > 0 && c.flow.last().kind == kind {
        let t = c.flow.last().text;
        assert((t + a) + b =~= t + (a + b));
        assert(e.flow =~= f.flow);
    } else {
        assert(d.flow.last().text + b =~= a + b);
        assert(e.flow =~= f.flow);
    }
}

/// What a parent is told of a status.
pub open spec fn public_status(status: Seq<char>, error: Seq<char>) -> Seq<char> {
    if error.len() > 0 {
        "error"@
    } else if status == "created"@ || status == "running"@ {
        "running"@
    } else if status == "waiting_input"@ {
        "completed"@
    } else if status == "failed"@ {
        "error"@
    } else if status == "cancelled"@ || status == "closed"@ {
        "cancelled"@
    } else {
        "error"@
    }
}

/// What a parent is told of a status.
pub fn subagent_public_status(status: &str, error: &str) -> (r: &'static str)
    ensures
        r@ == public_status(status@, error@),
{
    if !error.is_empty() {
        return "error";
    }
    if str_eq(status, "created") || str_eq(status, "running") {
        "running"
    } else if str_eq(status, "waiting_input") {
        "completed"
    } else if str_eq(status, "failed") {
        "error"
    } else if str_eq(status, "cancelled") || str_eq(status, "closed") {
        "cancelled"
    } else {
        "error"
    }
}

/// The status under which a card is reported as a tool call.
pub open spec fn tool_status(status: Seq<char>) -> Seq<char> {
    if status == "running"@ || status == "created"@ || status == "waiting_user_confirm"@ {
        "in_progress"@
    } else if status == "completed"@ || status == "waiting_input"@ || status == "closed"@ {
        "completed"@
    } else {
        "failed"@
    }
}

/// The status under which a card is reported as a tool call.
pub fn card_tool_status(status: &str) -> (r: &'static str)
    ensures
        r@ == tool_status(status@),
{
    if str_eq(status, "running") || str_eq(status, "created") || str_eq(
        status,
        "waiting_user_confirm",
    ) {
        "in_progress"
    } else if str_eq(status, "completed") || str_eq(status, "waiting_input") || str_eq(
        status,
        "closed",
    ) {
        "completed"
    } else {
        "failed"
    }
}

/// Whether there is nothing in a content.
pub open spec fn empty_content(v: Jv) -> bool {
    match v {
        Jv::Null => true,
        Jv::Text(s) => is_blank(s),
        Jv::Array(items) => items.len() == 0,
        Jv::Object(m) => m == Map::<Seq<char>, Jv>::empty(),
        _ => false,
    }
}

/// Whether there is nothing in a content.
pub fn is_empty_content(value: &Json) -> (r: bool)
    ensures
        r == empty_content(value@),
{
    match value {
        Json::Null => true,
        Json::Text(s) => trim(s.as_str()).is_empty(),
        Json::Array(items) => {
            proof {
                lemma_json_views(items@);
            }
            items.len() == 0
        },
        Json::Object(map) => {
            proof {
                lemma_fields_empty(map@);
            }
            map.len() == 0
        },
        _ => false,
    }
}

/// A value, and null where there is none.
pub open spec fn or_null(v: Option<Jv>) -> Jv {
    match v {
        Some(x) => x,
        None => Jv::Null,
    }
}

/// What was read of a text, or the text where it is no JSON.
pub open spec fn read_or_raw(read: Result<Jv, Seq<char>>, raw: Seq<char>) -> Jv {
    match read {
        Ok(value) => value,
        Err(_) => Jv::Text(raw),
    }
}

/// What was read of a text, or the text where it is no JSON.
pub fn read_or_text(read: Result<Json, String>, raw: &str) -> (r: Json)
    ensures
        r@ == read_or_raw(read_result(read), raw@),
{
    match read {
        Ok(value) => value,
        Err(_) => Json::Text(raw.to_owned()),
    }
}

/// A value that is given as JSON text where it is one, and as it is elsewhere.
pub open spec fn unpacked(v: Option<Jv>, default: Jv) -> Jv {
    match v {
        None => default,
        Some(Jv::Text(raw)) => read_or_raw(json_read(raw), raw),
        Some(x) => x,
    }
}

fn unpack(v: Option<&Json>, default: Json) -> (r: Json)
    ensures
        r@ == unpacked(crate::json::opt_ref_view(v), default@),
{
    match v {
        None => default,
        Some(Json::Text(raw)) => read_or_text(parse_json(raw.as_str()), raw.as_str()),
        Some(x) => x.copy(),
    }
}

/// An item with a kind and a content.
pub open spec fn content_item(kind: Seq<char>, content: Jv) -> Jv {
    Jv::Object(
        Map::<Seq<char>, Jv>::empty().insert("kind"@, Jv::Text(kind)).insert("content"@, content),
    )
}

/// What the model thought in a message.
pub open spec fn thought_of(m: Jv) -> Option<Seq<char>> {
    let v = match field(m, "reasoning_content"@) {
        Some(x) => Some(x),
        None => field(m, "reasoning"@),
    };
    match as_text(v) {
        Some(s) => if is_blank(s) {
            None
        } else {
            Some(s)
        },
        None => None,
    }
}

/// An item that shows a tool call of the model.
pub open spec fn call_item(call: Jv) -> Jv {
    let function = or_null(field(call, "function"@));
    Jv::Object(
        Map::<Seq<char>, Jv>::empty().insert("kind"@, Jv::Text("tool_call"@)).insert(
            "id"@,
            or_null(field(call, "id"@)),
        ).insert("tool"@, or_null(field(function, "name"@))).insert(
            "input"@,
            unpacked(
                field(function, "arguments"@),
                Jv::Object(Map::<Seq<char>, Jv>::empty()),
            ),
        ),
    )
}

/// Items that show the first `n` tool calls of a message.
pub open spec fn call_items(calls: Seq<Jv>, n: int) -> Seq<Jv>
    decreases n,
{
    if n <= 0 || n > calls.len() {
        Seq::empty()
    } else {
        call_items(calls, n - 1).push(call_item(calls[n - 1]))
    }
}

/// Items that show a message of the model: what it thought, what it called,
/// what it said.
pub open spec fn assistant_items(m: Jv) -> Seq<Jv> {
    let thought = match thought_of(m) {
        Some(s) => seq![content_item("assistant_thought"@, Jv::Text(s))],
        None => Seq::empty(),
    };
    let calls = match field(m, "tool_calls"@) {
        Some(Jv::Array(items)) => call_items(items, items.len() as int),
        _ => Seq::empty(),
    };
    let said = match field(m, "content"@) {
        Some(content) => if empty_content(content) {
            Seq::empty()
        } else {
            seq![content_item("assistant_response"@, content)]
        },
        None => Seq::empty(),
    };
    thought + calls + said
}

/// An item that shows the output of a tool.
pub open spec fn result_item(m: Jv) -> Jv {
    Jv::Object(
        Map::<Seq<char>, Jv>::empty().insert("kind"@, Jv::Text("tool_result"@)).insert(
            "id"@,
            or_null(field(m, "tool_call_id"@)),
        ).insert("tool"@, or_null(field(m, "name"@))).insert(
            "output"@,
            unpacked(field(m, "content"@), Jv::Null),
        ),
    )
}

/// Items that show a message.
pub open spec fn message_items(m: Jv) -> Seq<Jv> {
    let role = text_field_or(m, "role"@, ""@);
    if role == "system"@ {
        Seq::empty()
    } else if role == "user"@ {
        seq![content_item("user"@, or_null(field(m, "content"@)))]
    } else if role == "assistant"@ {
        assistant_items(m)
    } else if role == "tool"@ {
        seq![result_item(m)]
    } else {
        seq![
            Jv::Object(
                Map::<Seq<char>, Jv>::empty().insert("kind"@, Jv::Text(role)).insert(
                    "message"@,
                    m,
                ),
            ),
        ]
    }
}

/// Items that show the first `n` messages.
pub open spec fn slice_items(messages: Seq<Jv>, n: int) -> Seq<Jv>
    decreases n,
{
    if n <= 0 || n > messages.len() {
        Seq::empty()
    } else {
        slice_items(messages, n - 1) + message_items(messages[n - 1])
    }
}

fn push_json(items: &mut Vec<Json>, item: Json)
    ensures
        json_views(final(items)@) == json_views(old(items)@).push(item@),
{
    proof {
        lemma_json_views_push(items@, item);
    }
    items.push(item);
}

fn kind_and_content(kind: &str, content: Json) -> (r: Json)
    ensures
        r@ == content_item(kind@, content@),
{
    let mut m = no_members();
    put_text(&mut m, "kind", kind);
    put(&mut m, "content", content);
    Json::Object(m)
}

fn build_call_item(call: &Json) -> (r: Json)
    ensures
        r@ == call_item(call@),
{
    let function = copy_or_null(call.get("function"));
    let arguments = unpack(function.get("arguments"), Json::Object(no_members()));
    let mut m = no_members();
    put_text(&mut m, "kind", "tool_call");
    put(&mut m, "id", copy_or_null(call.get("id")));
    put(&mut m, "tool", copy_or_null(function.get("name")));
    put(&mut m, "input", arguments);
    Json::Object(m)
}

fn push_assistant_items(items: &mut Vec<Json>, message: &Json)
    ensures
        json_views(final(items)@) == json_views(old(items)@) + assistant_items(message@),
{
    let ghost start = json_views(items@);
    let reasoning = match message.get("reasoning_content") {
        Some(v) => Some(v),
        None => message.get("reasoning"),
    };
    if let Some(v) = reasoning {
        if let Some(thought) = v.as_str() {
            if !trim(thought).is_empty() {
                push_json(
                    items,
                    kind_and_content("assistant_thought", Json::Text(thought.to_owned())),
                );
            }
        }
    }
    let ghost thought = match thought_of(message@) {
        Some(s) => seq![content_item("assistant_thought"@, Jv::Text(s))],
        None => Seq::empty(),
    };
    let ghost after_thought = json_views(items@);
    proof {
        assert(after_thought =~= start + thought);
    }
    if let Some(Json::Array(calls)) = message.get("tool_calls") {
        let ghost all = json_views(calls@);
        proof {
            lemma_json_views(calls@);
            assert(after_thought + call_items(all, 0) =~= after_thought);
        }
        let mut i: usize = 0;
        while i < calls.len()
            invariant
                i <= calls@.len(),
                all == json_views(calls@),
                all.len() == calls@.len(),
                forall|k: int| 0 <= k < calls@.len() ==> #[trigger] all[k] == calls@[k]@,
                json_views(items@) == after_thought + call_items(all, i as int),
            decreases calls@.len() - i,
        {
            let item = build_call_item(&calls[i]);
            push_json(items, item);
            proof {
                assert(all[i as int] == calls@[i as int]@);
                assert(json_views(items@) =~= after_thought + call_items(all, i + 1));
            }
            i += 1;
        }
    }
    let ghost calls_view = match field(message@, "tool_calls"@) {
        Some(Jv::Array(v)) => call_items(v, v.len() as int),
        _ => Seq::empty(),
    };
    let ghost after_calls = json_views(items@);
    proof {
        assert(after_calls =~= after_thought + calls_view);
    }
    if let Some(content) = message.get("content") {
        if !is_empty_content(content) {
            push_json(items, kind_and_content("assistant_response", content.copy()));
        }
    }
    proof {
        assert(json_views(items@) =~= start + assistant_items(message@));
    }
}

fn push_message_items(items: &mut Vec<Json>, message: &Json)
    ensures
        json_views(final(items)@) == json_views(old(items)@) + message_items(message@),
{
    let ghost start = json_views(items@);
    let role = message.str_or("role", "");
    if str_eq(role, "system") {
    } else if str_eq(role, "user") {
        push_json(items, kind_and_content("user", copy_or_null(message.get("content"))));
    } else if str_eq(role, "assistant") {
        push_assistant_items(items, message);
    } else if str_eq(role, "tool") {
        let output = unpack(message.get("content"), Json::Null);
        let mut m = no_members();
        put_text(&mut m, "kind", "tool_result");
        put(&mut m, "id", copy_or_null(message.get("tool_call_id")));
        put(&mut m, "tool", copy_or_null(message.get("name")));
        put(&mut m, "output", output);
        push_json(items, Json::Object(m));
    } else {
        let mut m = no_members();
        put_text(&mut m, "kind", role);
        put(&mut m, "message", message.copy());
        push_json(items, Json::Object(m));
    }
    proof {
        assert(json_views(items@) =~= start + message_items(message@));
    }
}

/// Items that show the messages of a conversation; texts that are JSON are
/// shown as the values they stand for.
pub fn session_slice_items(messages: &Vec<Json>) -> (r: Vec<Json>)
    ensures
        json_views(r@) == slice_items(json_views(messages@), messages@.len() as int),
{
    let ghost all = json_views(messages@);
    let mut items: Vec<Json> = Vec::new();
    let mut i: usize = 0;
    proof {
        lemma_json_views(messages@);
        lemma_json_views(items@);
        assert(json_views(items@) =~= Seq::empty());
    }
    while i < messages.len()
        invariant
            i <= messages@.len(),
            all == json_views(messages@),
            all.len() == messages@.len(),
            forall|k: int| 0 <= k < messages@.len() ==> #[trigger] all[k] == messages@[k]@,
            json_views(items@) == slice_items(all, i as int),
        decreases messages@.len() - i,
    {
        proof {
            assert(all[i as int] == messages@[i as int]@);
        }
        push_message_items(&mut items, &messages[i]);
        i += 1;
    }
    items
}

/// The last items of a list, at least one where there is one.
pub open spec fn last_items(items: Seq<Jv>, message_num: int) -> Seq<Jv> {
    let wanted = if message_num < 1 {
        1
    } else {
        message_num
    };
    if items.len() <= wanted {
        items
    } else {
        items.skip(items.len() - wanted)
    }
}

/// A whole number as a value.
pub open spec fn number(n: nat) -> Jv {
    Jv::Number(NumberView::Integer(n as int))
}

/// The end of a conversation, as a parent sees it.
pub open spec fn slice_view(messages: Seq<Jv>, message_num: int) -> Jv {
    let items = slice_items(messages, messages.len() as int);
    let shown = last_items(items, message_num);
    Jv::Object(
        Map::<Seq<char>, Jv>::empty().insert("items"@, Jv::Array(shown)).insert(
            "total"@,
            number(items.len()),
        ).insert("returned"@, number(shown.len())),
    )
}

/// The end of a conversation, as a parent sees it.
pub fn session_slice(messages: &Vec<Json>, message_num: usize) -> (r: Json)
    ensures
        r@ == slice_view(json_views(messages@), message_num as int),
{
    proof {
        lemma_json_views(messages@);
    }
    let mut all_items = session_slice_items(messages);
    let ghost items = json_views(all_items@);
    proof {
        lemma_json_views(all_items@);
    }
    let wanted: usize = if message_num < 1 {
        1
    } else {
        message_num
    };
    let total = all_items.len();
    let start: usize = if total <= wanted {
        0
    } else {
        total - wanted
    };
    let ghost whole = all_items@;
    let shown = all_items.split_off(start);
    proof {
        lemma_json_views(shown@);
        assert(shown@ =~= whole.skip(start as int));
        assert(json_views(shown@) =~= last_items(items, message_num as int));
    }
    let mut m = no_members();
    put(&mut m, "items", Json::Array(shown));
    put(&mut m, "total", count(total as u64));
    put(&mut m, "returned", count((total - start) as u64));
    Json::Object(m)
}

/// Whether a message is an answer of the model without tool calls.
pub open spec fn is_plain_answer(m: Jv) -> bool {
    &&& text_field(m, "role"@) == Some("assistant"@)
    &&& !(field(m, "tool_calls"@) matches Some(Jv::Array(_)))
    &&& text_field(m, "content"@) is Some
}

/// The last answer among the first `n` messages.
pub open spec fn last_answer(messages: Seq<Jv>, n: int) -> Seq<char>
    decreases n,
{
    if n <= 0 || n > messages.len() {
        ""@
    } else if is_plain_answer(messages[n - 1]) {
        trim_of(text_field_or(messages[n - 1], "content"@, ""@))
    } else {
        last_answer(messages, n - 1)
    }
}

/// The last answer of the model.
pub fn extract_last_assistant_response(messages: &Vec<Json>) -> (r: String)
    ensures
        r@ == last_answer(json_views(messages@), messages@.len() as int),
{
    let ghost all = json_views(messages@);
    proof {
        lemma_json_views(messages@);
    }
    let mut i: usize = messages.len();
    while i > 0
        invariant
            i <= messages@.len(),
            all == json_views(messages@),
            all.len() == messages@.len(),
            forall|k: int| 0 <= k < messages@.len() ==> #[trigger] all[k] == messages@[k]@,
            last_answer(all, i as int) == last_answer(all, messages@.len() as int),
        decreases i,
    {
        i -= 1;
        let message = &messages[i];
        proof {
            assert(all[i as int] == message@);
        }
        let is_assistant = match message.get_str("role") {
            Some(role) => str_eq(role, "assistant"),
            None => false,
        };
        if !is_assistant {
            continue;
        }
        if let Some(Json::Array(_)) = message.get("tool_calls") {
            continue;
        }
        if let Some(text) = message.get_str("content") {
            return trim(text).to_owned();
        }
    }
    "".to_owned()
}

/// The text that an update carries.
pub open spec fn update_text(m: Map<Seq<char>, Jv>) -> Seq<char> {
    match field(Jv::Object(m), "content"@) {
        Some(Jv::Object(c)) => if text_field(Jv::Object(c), "type"@) == Some("text"@) {
            text_field_or(Jv::Object(c), "text"@, ""@)
        } else {
            ""@
        },
        _ => ""@,
    }
}

/// The text that an update carries.
pub fn extract_update_text(update: &Vec<Member>) -> (r: String)
    ensures
        r@ == update_text(fields(update@)),
{
    match lookup(update, "content") {
        Some(content) => match content {
            Json::Object(_) => {
                let is_text = match content.get_str("type") {
                    Some(t) => str_eq(t, "text"),
                    None => false,
                };
                if is_text {
                    content.str_or("text", "").to_owned()
                } else {
                    "".to_owned()
                }
            },
            _ => "".to_owned(),
        },
        None => "".to_owned(),
    }
}

proof fn lemma_slice_keys()
    ensures
        "items"@ != "total"@,
        "items"@ != "returned"@,
        "total"@ != "returned"@,
        "kind"@ != "content"@,
        "kind"@ != "id"@,
        "kind"@ != "tool"@,
        "kind"@ != "input"@,
        "kind"@ != "output"@,
        "kind"@ != "message"@,
        "id"@ != "tool"@,
        "id"@ != "input"@,
        "id"@ != "output"@,
        "tool"@ != "input"@,
        "tool"@ != "output"@,
        "system"@ != "user"@,
        "system"@ != "assistant"@,
        "system"@ != "tool"@,
        "user"@ != "assistant"@,
        "user"@ != "tool"@,
        "assistant"@ != "tool"@,
        ""@ != "assistant"@,
{
    reveal_strlit("items");
    reveal_strlit("total");
    reveal_strlit("returned");
    reveal_strlit("kind");
    reveal_strlit("content");
    reveal_strlit("id");
    reveal_strlit("tool");
    reveal_strlit("input");
    reveal_strlit("output");
    reveal_strlit("message");
    reveal_strlit("system");
    reveal_strlit("user");
    reveal_strlit("assistant");
    reveal_strlit("");
    assert("items"@[0] == 'i' && "total"@[0] == 't' && "returned"@[0] == 'r');
    assert("kind"@[0] == 'k' && "content"@[0] == 'c' && "id"@.len() == 2 && "tool"@[0] == 't');
    assert("input"@[0] == 'i' && "input"@.len() == 5 && "output"@[0] == 'o');
    assert("message"@[0] == 'm' && "system"@[0] == 's' && "user"@[0] == 'u');
    assert("assistant"@[0] == 'a' && ""@.len() == 0);
}

/// A slice is the end of a conversation: it has as many items as were asked for,
/// at least one and at most all, and counted from the end each is the item of the
/// conversation at that place.
pub proof fn law_slice_is_the_end_of_the_conversation(messages: Seq<Jv>, message_num: int, k: int)
    ensures
        ({
            let items = slice_items(messages, messages.len() as int);
            let slice = slice_view(messages, message_num);
            &&& field(slice, "items"@) matches Some(Jv::Array(shown)) && {
                &&& message_num >= 1 && message_num <= items.len() ==> shown.len() == message_num
                &&& message_num < 1 && items.len() > 0 ==> shown.len() == 1
                &&& message_num >= items.len() ==> shown == items
                &&& 0 <= k < shown.len() ==> shown[shown.len() - 1 - k] == items[items.len() - 1 - k]
                &&& field(slice, "returned"@) == Some(
                    Jv::Number(NumberView::Integer(shown.len() as int)),
                )
            }
            &&& field(slice, "total"@) == Some(
                Jv::Number(NumberView::Integer(items.len() as int)),
            )
        }),
{
    lemma_slice_keys();
}

proof fn lemma_slice_items_prefix(a: Seq<Jv>, b: Seq<Jv>, n: int)
    requires
        0 <= n <= a.len(),
    ensures
        slice_items(a + b, n) == slice_items(a, n),
    decreases n,
{
    if n > 0 {
        lemma_slice_items_prefix(a, b, n - 1);
        assert((a + b)[n - 1] == a[n - 1]);
    }
}

/// The items of two conversations one behind the other are those of the first and
/// then those of the second; those of one message are what shows the message.
pub proof fn law_items_follow_the_messages(a: Seq<Jv>, b: Seq<Jv>, n: int)
    requires
        0 <= n <= b.len(),
    ensures
        slice_items(a + b, a.len() + n) == slice_items(a, a.len() as int) + slice_items(b, n),
        n == 1 ==> slice_items(b, 1) == message_items(b[0]),
    decreases n,
{
    let front = slice_items(a, a.len() as int);
    if n == 0 {
        lemma_slice_items_prefix(a, b, a.len() as int);
        assert(front + slice_items(b, 0) =~= front);
    } else {
        law_items_follow_the_messages(a, b, n - 1);
        assert((a + b)[a.len() + n - 1] == b[n - 1]);
        assert(front + slice_items(b, n - 1) + message_items(b[n - 1]) =~= front + slice_items(b, n));
        if n == 1 {
            assert(slice_items(b, 0) =~= Seq::empty());
            assert(slice_items(b, 1) =~= message_items(b[0]));
        }
    }
}

/// What was said is shown: a prompt by its content, an output under the id and the
/// name of its call, as a value where its text is JSON; a system message is not
/// shown.
pub proof fn law_messages_are_shown_by_role(m: Jv, role: Seq<char>)
    requires
        field(m, "role"@) == Some(Jv::Text(role)),
    ensures
        role == "system"@ ==> message_items(m).len() == 0,
        role == "user"@ ==> {
            &&& message_items(m).len() == 1
            &&& field(message_items(m)[0], "kind"@) == Some(Jv::Text("user"@))
            &&& field(m, "content"@) matches Some(content) ==> field(
                message_items(m)[0],
                "content"@,
            ) == Some(content)
        },
        role == "tool"@ ==> {
            let item = message_items(m)[0];
            &&& message_items(m).len() == 1
            &&& field(item, "kind"@) == Some(Jv::Text("tool_result"@))
            &&& field(m, "tool_call_id"@) matches Some(id) ==> field(item, "id"@) == Some(id)
            &&& field(m, "name"@) matches Some(name) ==> field(item, "tool"@) == Some(name)
            &&& field(m, "content"@) matches Some(Jv::Text(raw)) ==> field(item, "output"@) == Some(
                match json_read(raw) {
                    Ok(value) => value,
                    Err(_) => Jv::Text(raw),
                },
            )
        },
        role != "system"@ && role != "user"@ && role != "assistant"@ && role != "tool"@ ==> {
            &&& message_items(m).len() == 1
            &&& field(message_items(m)[0], "kind"@) == Some(Jv::Text(role))
            &&& field(message_items(m)[0], "message"@) == Some(m)
        },
{
    lemma_slice_keys();
}

proof fn lemma_call_items(calls: Seq<Jv>, n: int, i: int)
    requires
        0 <= i < n <= calls.len(),
    ensures
        call_items(calls, n).len() == n,
        call_items(calls, n)[i] == call_item(calls[i]),
    decreases n,
{
    if i < n - 1 {
        lemma_call_items(calls, n - 1, i);
    } else if n > 1 {
        lemma_call_items(calls, n - 1, 0);
    } else {
        assert(call_items(calls, 0).len() == 0);
    }
}

/// A message of the model is shown by what it thought, then its calls in their
/// order, each with its id, its tool and its input, then what it said. What is
/// blank is not shown.
pub proof fn law_answers_are_shown_in_order(
    m: Jv,
    thought: Option<Seq<char>>,
    calls: Seq<Jv>,
    said: Seq<char>,
    i: int,
)
    requires
        field(m, "role"@) == Some(Jv::Text("assistant"@)),
        field(m, "reasoning_content"@) == (match thought {
            Some(s) => Some(Jv::Text(s)),
            None => None,
        }),
        thought is None ==> field(m, "reasoning"@) is None,
        thought matches Some(s) ==> !is_blank(s),
        field(m, "tool_calls"@) == Some(Jv::Array(calls)),
        field(m, "content"@) == Some(Jv::Text(said)),
    ensures
        ({
            let items = message_items(m);
            let t = if thought is Some { 1int } else { 0int };
            let s = if is_blank(said) { 0int } else { 1int };
            &&& items.len() == t + calls.len() + s
            &&& thought matches Some(text) ==> field(items[0], "kind"@) == Some(
                Jv::Text("assistant_thought"@),
            ) && field(items[0], "content"@) == Some(Jv::Text(text))
            &&& !is_blank(said) ==> field(items.last(), "kind"@) == Some(
                Jv::Text("assistant_response"@),
            ) && field(items.last(), "content"@) == Some(Jv::Text(said))
            &&& 0 <= i < calls.len() ==> {
                let item = items[t + i];
                &&& field(item, "kind"@) == Some(Jv::Text("tool_call"@))
                &&& field(calls[i], "id"@) matches Some(id) ==> field(item, "id"@) == Some(id)
                &&& field(calls[i], "function"@) matches Some(f) ==> {
                    &&& field(f, "name"@) matches Some(name) ==> field(item, "tool"@) == Some(name)
                    &&& field(f, "arguments"@) matches Some(Jv::Text(raw)) ==> field(item, "input"@)
                        == Some(
                        match json_read(raw) {
                            Ok(value) => value,
                            Err(_) => Jv::Text(raw),
                        },
                    )
                }
            }
        }),
{
    lemma_slice_keys();
    if calls.len() > 0 {
        lemma_call_items(calls, calls.len() as int, 0);
    } else {
        assert(call_items(calls, 0).len() == 0);
    }
    if 0 <= i < calls.len() {
        lemma_call_items(calls, calls.len() as int, i);
    }
}

/// The answer of a subagent is the last text that the model said without calling
/// a tool, whatever comes behind it.
pub proof fn law_last_answer_wins(before: Seq<Jv>, m: Jv, behind: Seq<Jv>, text: Seq<char>, n: int)
    requires
        0 <= n <= behind.len(),
        field(m, "role"@) == Some(Jv::Text("assistant"@)),
        field(m, "content"@) == Some(Jv::Text(text)),
        !(field(m, "tool_calls"@) matches Some(Jv::Array(_))),
        forall|k: int|
            0 <= k < n ==> {
                ||| !(field(#[trigger] behind[k], "role"@) == Some(Jv::Text("assistant"@)))
                ||| field(behind[k], "tool_calls"@) matches Some(Jv::Array(_))
                ||| !(field(behind[k], "content"@) matches Some(Jv::Text(_)))
            },
    ensures
        last_answer(before.push(m) + behind, before.len() + 1 + n) == trim_of(text),
    decreases n,
{
    let all = before.push(m) + behind;
    if n == 0 {
        assert(all[before.len() as int] == m);
    } else {
        assert(all[before.len() + n] == behind[n - 1]);
        law_last_answer_wins(before, m, behind, text, n - 1);
    }
}

/// A parent is told of an error wherever there is one; elsewhere a subagent runs,
/// is done, or was cancelled, as its status says.
pub proof fn law_parent_is_told_the_state(status: Seq<char>, error: Seq<char>)
    ensures
        error.len() > 0 ==> public_status(status, error) == "error"@,
        error.len() == 0 ==> {
            &&& public_status(status, error) == "running"@ <==> status == "created"@ || status
                == "running"@
            &&& public_status(status, error) == "completed"@ <==> status == "waiting_input"@
            &&& public_status(status, error) == "cancelled"@ <==> status == "cancelled"@ || status
                == "closed"@
            &&& public_status(status, error) == "error"@ <==> !(status == "created"@ || status
                == "running"@ || status == "waiting_input"@ || status == "cancelled"@ || status
                == "closed"@)
        },
{
    reveal_strlit("created");
    reveal_strlit("running");
    reveal_strlit("completed");
    reveal_strlit("waiting_input");
    reveal_strlit("cancelled");
    reveal_strlit("closed");
    reveal_strlit("error");
    reveal_strlit("failed");
    assert("created"@[1] == 'r' && "running"@[0] == 'r' && "completed"@[1] == 'o');
    assert("waiting_input"@[0] == 'w' && "cancelled"@[1] == 'a' && "closed"@[1] == 'l');
    assert("error"@[0] == 'e' && "failed"@[0] == 'f' && "created"@[0] == 'c');
    assert("completed"@[0] == 'c' && "cancelled"@[0] == 'c' && "closed"@[0] == 'c');
}

/// A card is reported as in progress while its subagent works or waits for the
/// user, as completed when it is done, and as failed in every other state.
pub proof fn law_card_is_reported_by_state(status: Seq<char>)
    ensures
        tool_status(status) == "in_progress"@ <==> status == "running"@ || status == "created"@
            || status == "waiting_user_confirm"@,
        tool_status(status) == "completed"@ <==> status == "completed"@ || status
            == "waiting_input"@ || status == "closed"@,
        tool_status(status) == "in_progress"@ || tool_status(status) == "completed"@ || tool_status(
            status,
        ) == "failed"@,
{
    reveal_strlit("running");
    reveal_strlit("created");
    reveal_strlit("waiting_user_confirm");
    reveal_strlit("completed");
    reveal_strlit("waiting_input");
    reveal_strlit("closed");
    reveal_strlit("in_progress");
    reveal_strlit("failed");
    assert("in_progress"@[0] == 'i' && "completed"@[0] == 'c' && "failed"@[0] == 'f');
    assert("running"@[0] == 'r' && "created"@[1] == 'r' && "completed"@[1] == 'o');
    assert("waiting_user_confirm"@[8] == 'u' && "waiting_input"@[8] == 'i' && "closed"@[1] == 'l');
    assert("created"@[0] == 'c' && "waiting_user_confirm"@[0] == 'w');
}

proof fn lemma_flow_lines(flow: Seq<FlowView>, n: int, k: int)
    requires
        0 <= k < n <= flow.len(),
    ensures
        flow_lines(flow, n) == flow_lines(flow, k) + item_lines(flow[k]) + flow_lines(flow, n).skip(
            flow_lines(flow, k + 1).len() as int,
        ),
        flow_lines(flow, k + 1).len() <= flow_lines(flow, n).len(),
    decreases n,
{
    if k == n - 1 {
        assert(flow_lines(flow, n) =~= flow_lines(flow, k) + item_lines(flow[k]) + flow_lines(
            flow,
            n,
        ).skip(flow_lines(flow, k + 1).len() as int));
    } else {
        lemma_flow_lines(flow, n - 1, k);
        let front = flow_lines(flow, k) + item_lines(flow[k]);
        assert(flow_lines(flow, k + 1) == front);
        assert(flow_lines(flow, n) =~= front + flow_lines(flow, n).skip(front.len() as int)) by {
            assert(flow_lines(flow, n).take(front.len() as int) =~= front) by {
                assert(flow_lines(flow, n).take(front.len() as int) =~= flow_lines(flow, n - 1).take(
                    front.len() as int,
                ));
            }
            assert(flow_lines(flow, n) =~= flow_lines(flow, n).take(front.len() as int) + flow_lines(
                flow,
                n,
            ).skip(front.len() as int));
        }
    }
}

/// A card shows every item of its flow in order: the lines of an item come behind
/// those of all earlier items and before those of all later ones, and hold its
/// text.
pub proof fn law_card_shows_its_flow(flow: Seq<FlowView>, k: int)
    requires
        0 <= k < flow.len(),
    ensures
        ({
            let all = flow_lines(flow, flow.len() as int);
            let at = flow_lines(flow, k).len() as int;
            let f = flow[k];
            &&& 0 <= at && at + 2 <= all.len()
            &&& f.kind is User ==> all[at] == "### User"@ && all[at + 2] == f.text
            &&& f.kind is Thinking ==> all[at] == "### Thinking"@ && all[at + 2] == f.text
            &&& f.kind is Response ==> all[at] == "### Response"@ && all[at + 2] == f.text
            &&& f.kind is ToolCall ==> all[at] == "### Tool Call: "@ + f.title
            &&& f.kind is ToolCall && !is_blank(f.text) ==> all[at + 2] == "```json\n"@ + f.text
                + "\n```"@
        }),
{
    lemma_flow_lines(flow, flow.len() as int, k);
    let all = flow_lines(flow, flow.len() as int);
    let front = flow_lines(flow, k);
    let item = item_lines(flow[k]);
    let at = front.len() as int;
    assert forall|i: int| 0 <= i < item.len() implies all[at + i] == item[i] by {
        assert((front + item)[at + i] == item[i]);
    }
    assert(all[at + 0] == item[0]);
    if item.len() > 2 {
        assert(all[at + 2] == item[2]);
    }
}

/// A card names its subagent, the policy and the state, each in its line, and then
/// shows the flow.
pub proof fn law_card_names_its_subagent(c: CardView)
    ensures
        header_lines(c).len() == 4,
        header_lines(c)[0] == "**subagent_name:** `"@ + c.name + "`"@,
        header_lines(c)[1] == "**policy:** `"@ + c.policy + "`"@,
        header_lines(c)[2] == "**status:** `"@ + c.status + "`"@,
        card_text(c) == trim_end_of(
            join_of(header_lines(c) + flow_lines(c.flow, c.flow.len() as int), "\n"@),
        ),
{
}

/// What is told to a card goes to its end, as it was told; nothing that it shows
/// is lost, and only its state changes otherwise.
pub proof fn law_card_grows_at_its_end(c: CardView, title: Seq<char>, text: Seq<char>, kind: FlowKind)
    ensures
        ({
            let a = card_with_user(c, text);
            &&& !is_blank(text) ==> a.flow == c.flow.push(
                FlowView { kind: FlowKind::User, title: ""@, text: trim_of(text) },
            )
            &&& is_blank(text) ==> a == c
            &&& a.name == c.name && a.policy == c.policy && a.status == c.status
        }),
        ({
            let a = card_with_call(c, title, Some(text));
            &&& !is_blank(title) ==> a.flow == c.flow.push(
                FlowView { kind: FlowKind::ToolCall, title: trim_of(title), text },
            )
            &&& is_blank(title) ==> a == c
            &&& a.name == c.name && a.policy == c.policy && a.status == c.status
        }),
        ({
            let a = card_with_text(c, kind, text);
            &&& text.len() == 0 ==> a == c
            &&& text.len() > 0 && (c.flow.len() == 0 || c.flow.last().kind != kind) ==> a.flow
                == c.flow.push(FlowView { kind, title: ""@, text })
            &&& text.len() > 0 && c.flow.len() > 0 && c.flow.last().kind == kind ==> a.flow.len()
                == c.flow.len() && a.flow.drop_last() == c.flow.drop_last() && a.flow.last().text
                == c.flow.last().text + text && a.flow.last().kind == kind
            &&& a.name == c.name && a.policy == c.policy && a.status == c.status
        }),
        ({
            let a = card_with_status(c, text);
            &&& !is_blank(text) ==> a.status == trim_of(text)
            &&& is_blank(text) ==> a == c
            &&& a.flow == c.flow && a.name == c.name && a.policy == c.policy
        }),
{
    let a = card_with_text(c, kind, text);
    if text.len() > 0 && c.flow.len() > 0 && c.flow.last().kind == kind {
        assert(a.flow.drop_last() =~= c.flow.drop_last());
    }
}

/// A card begins with nothing but its names, and as created.
pub proof fn law_new_card_is_empty(name: Seq<char>, policy: Seq<char>)
    ensures
        new_card(name, policy).name == name && new_card(name, policy).policy == policy,
        new_card(name, policy).status == "created"@ && new_card(name, policy).flow.len() == 0,
{
}

/// The text of an update is that of the text block that it carries.
pub proof fn law_update_text_is_that_of_its_block(m: Map<Seq<char>, Jv>, c: Jv, s: Seq<char>)
    requires
        field(Jv::Object(m), "content"@) == Some(c),
    ensures
        c is Object && text_field(c, "type"@) == Some("text"@) && text_field(c, "text"@) == Some(s)
            ==> update_text(m) == s,
        text_field(c, "type"@) != Some("text"@) ==> update_text(m) == ""@,
{
}

/// A card is headed by its subagent, its policy and its status, and a blank line.
pub proof fn law_card_is_headed_by_its_names(c: CardView)
    ensures
        header_lines(c).len() == 4,
        header_lines(c)[0] == "**subagent_name:** `"@ + c.name + "`"@,
        header_lines(c)[1] == "**policy:** `"@ + c.policy + "`"@,
        header_lines(c)[2] == "**status:** `"@ + c.status + "`"@,
        header_lines(c)[3].len() == 0,
{
    reveal_strlit("");
}

} // verus!
