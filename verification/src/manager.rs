//! The messages of a conversation and when they are compacted.

use crate::content_block::{
    image_placeholder, image_placeholder_view, is_image, is_image_part, normalize_user_content,
    stored_content, text_view,
};
use crate::json::{
    clone_items, clone_members, compact_json, compact_text, field, json_views, lemma_json_views,
    lemma_json_views_push, lemma_member, lookup, member_of, no_members, put, put_text,
    text_field_or, tree, Json, Jv,
};
use crate::models::ContextUsageSnapshot;
use crate::text::{lemma_texts_push, str_eq, texts, trim, trim_of};
use vstd::prelude::*;

verus! {

/// How a compaction ended.
#[derive(Debug, Clone, Copy, PartialEq, Eq, Structural)]
pub enum CompactionOutcome {
    Skipped,
    Compacted,
    Failed,
}

/// The messages of a conversation, and how much of the context they use.
#[derive(Debug)]
pub struct ConversationContextManager {
    messages: Vec<Json>,
    context_window_tokens: u32,
    current_tokens: u32,
    compact_trigger_tokens: u32,
}

/// What a conversation is.
#[verifier::ext_equal]
pub ghost struct ConversationView {
    pub messages: Seq<Jv>,
    pub window: u32,
    pub used: u32,
    pub trigger: u32,
}

impl View for ConversationContextManager {
    type V = ConversationView;

    closed spec fn view(&self) -> ConversationView {
        ConversationView {
            messages: json_views(self.messages@),
            window: self.context_window_tokens,
            used: self.current_tokens,
            trigger: self.compact_trigger_tokens,
        }
    }
}

/// A user message with a content.
pub open spec fn user_message_view(content: Jv) -> Jv {
    Jv::Object(
        Map::<Seq<char>, Jv>::empty().insert("role"@, Jv::Text("user"@)).insert(
            "content"@,
            content,
        ),
    )
}

/// A message with a tool's output.
pub open spec fn tool_message_view(id: Seq<char>, name: Seq<char>, content: Seq<char>) -> Jv {
    Jv::Object(
        Map::<Seq<char>, Jv>::empty().insert("role"@, Jv::Text("tool"@)).insert(
            "tool_call_id"@,
            Jv::Text(id),
        ).insert("name"@, Jv::Text(name)).insert("content"@, Jv::Text(content)),
    )
}

/// A block for a model that cannot see; `json` is the text of a block that is
/// no object.
pub open spec fn text_model_part(v: Jv, json: Seq<char>) -> Jv {
    if !(v is Object) {
        text_view(json)
    } else if is_image(v) {
        image_placeholder_view()
    } else {
        v
    }
}

/// Blocks for a model that cannot see.
pub open spec fn text_model_parts(items: Seq<Jv>, json: Seq<Seq<char>>) -> Seq<Jv> {
    Seq::new(items.len(), |i: int| text_model_part(items[i], json[i]))
}

/// Whether a message holds blocks.
pub open spec fn has_blocks(v: Jv) -> bool {
    v is Object && (field(v, "content"@) matches Some(Jv::Array(_)))
}

/// A message for a model that cannot see. `json` holds the texts of its
/// blocks.
pub open spec fn text_model_message(v: Jv, json: Seq<Seq<char>>) -> Jv {
    match (v, field(v, "content"@)) {
        (Jv::Object(m), Some(Jv::Array(items))) => Jv::Object(
            m.insert("content"@, Jv::Array(text_model_parts(items, json))),
        ),
        _ => v,
    }
}

fn patch_content_parts_for_text_model(parts: &Vec<Json>, json: &Vec<String>) -> (r: Vec<Json>)
    requires
        parts@.len() == json@.len(),
    ensures
        json_views(r@) == text_model_parts(json_views(parts@), texts(json@)),
{
    let ghost want = text_model_parts(json_views(parts@), texts(json@));
    let mut out: Vec<Json> = Vec::new();
    let mut i: usize = 0;
    proof {
        lemma_json_views(parts@);
        assert(json_views(out@) =~= want.take(0));
    }
    while i < parts.len()
        invariant
            i <= parts@.len(),
            parts@.len() == json@.len(),
            want == text_model_parts(json_views(parts@), texts(json@)),
            json_views(parts@).len() == parts@.len(),
            forall|k: int| 0 <= k < parts@.len() ==> #[trigger] json_views(parts@)[k] == parts@[k]@,
            json_views(out@) == want.take(i as int),
        decreases parts@.len() - i,
    {
        let part = if parts[i].as_object().is_none() {
            crate::content_block::text(json[i].as_str())
        } else if is_image_part(&parts[i]) {
            image_placeholder()
        } else {
            parts[i].copy()
        };
        let ghost before = out@;
        out.push(part);
        proof {
            lemma_json_views_push(before, part);
            assert(want[i as int] == text_model_part(json_views(parts@)[i as int], texts(json@)[i as int]));
            assert(texts(json@)[i as int] == json@[i as int]@);
            assert(want.take(i + 1) =~= want.take(i as int).push(want[i as int]));
        }
        i += 1;
    }
    proof {
        assert(want.take(parts@.len() as int) =~= want);
    }
    out
}

/// How many blocks a message holds.
pub open spec fn block_count(v: Jv) -> nat {
    match field(v, "content"@) {
        Some(Jv::Array(items)) => items.len(),
        _ => 0,
    }
}

/// The text of a block that is no object, for a model that cannot see.
pub open spec fn block_text(v: Json) -> Seq<char> {
    if v is Object {
        ""@
    } else {
        compact_text(tree(v))
    }
}

/// The texts of the blocks of a message.
pub open spec fn block_texts(message: Json) -> Seq<Seq<char>> {
    match member_of(message, "content"@) {
        Some(Json::Array(parts)) => Seq::new(parts@.len(), |i: int| block_text(parts@[i])),
        _ => Seq::empty(),
    }
}

fn write_blocks(message: &Json) -> (r: Vec<String>)
    ensures
        texts(r@) == block_texts(*message),
{
    let mut out: Vec<String> = Vec::new();
    proof {
        assert(texts(out@) =~= Seq::empty());
    }
    if let Some(Json::Array(parts)) = message.get("content") {
        let ghost want = block_texts(*message);
        let mut i: usize = 0;
        proof {
            assert(texts(out@) =~= want.take(0));
        }
        while i < parts.len()
            invariant
                i <= parts@.len(),
                want == Seq::new(parts@.len(), |i: int| block_text(parts@[i])),
                texts(out@) == want.take(i as int),
            decreases parts@.len() - i,
        {
            let s = if parts[i].as_object().is_some() {
                "".to_owned()
            } else {
                compact_json(&parts[i])
            };
            proof {
                lemma_texts_push(out@, s);
                assert(want.take(i + 1) =~= want.take(i as int).push(want[i as int]));
            }
            out.push(s);
            i += 1;
        }
        proof {
            assert(want.take(want.len() as int) =~= want);
        }
    }
    out
}

/// A message for a model that cannot see.
pub fn patch_message_for_text_model(message: &Json) -> (r: Json)
    ensures
        r@ == text_model_message(message@, block_texts(*message)),
{
    let json = write_blocks(message);
    proof {
        lemma_block_texts(*message);
    }
    patch_message_with_texts(message, &json)
}

proof fn lemma_block_texts(message: Json)
    ensures
        has_blocks(message@) ==> block_texts(message).len() == block_count(message@),
{
    if let Json::Object(members) = message {
        lemma_member(members@, members@.len(), "content"@);
        if let Some(Json::Array(parts)) = member_of(message, "content"@) {
            lemma_json_views(parts@);
        }
    }
}

/// A message for a model that cannot see. `json` holds the compact JSON texts
/// of the blocks of the message.
pub fn patch_message_with_texts(message: &Json, json: &Vec<String>) -> (r: Json)
    requires
        has_blocks(message@) ==> json@.len() == block_count(message@),
    ensures
        r@ == text_model_message(message@, texts(json@)),
{
    match message {
        Json::Object(members) => {
            match lookup(members, "content") {
                Some(Json::Array(parts)) => {
                    proof {
                        lemma_json_views(parts@);
                    }
                    let patched = patch_content_parts_for_text_model(parts, json);
                    let mut out = clone_members(members);
                    put(&mut out, "content", Json::Array(patched));
                    Json::Object(out)
                },
                _ => message.copy(),
            }
        },
        _ => message.copy(),
    }
}

/// Messages for a model that cannot see.
pub open spec fn text_model_messages(messages: Seq<Json>) -> Seq<Jv> {
    Seq::new(
        messages.len(),
        |i: int| text_model_message(messages[i]@, block_texts(messages[i])),
    )
}

/// Whether a message is the system's.
pub open spec fn is_system_message(v: Jv) -> bool {
    trim_of(text_field_or(v, "role"@, ""@)) == "system"@
}

/// How many messages at the beginning never change: the first one, where it is
/// the system's.
pub open spec fn stable_prefix_len(messages: Seq<Jv>) -> int {
    if messages.len() > 0 && is_system_message(messages[0]) {
        1
    } else {
        0
    }
}

/// Splits off the messages that never change; the result is how many there
/// are.
pub fn split_stable_prefix(messages: &Vec<Json>) -> (r: (Vec<Json>, Vec<Json>))
    ensures
        ({
            let all = json_views(messages@);
            let k = stable_prefix_len(all);
            json_views(r.0@) == all.take(k) && json_views(r.1@) == all.skip(k)
        }),
{
    proof {
        lemma_json_views(messages@);
    }
    let stable = messages.len() > 0 && str_eq(trim(messages[0].str_or("role", "")), "system");
    if stable {
        copy_split(messages, 1)
    } else {
        copy_split(messages, 0)
    }
}

fn copy_range(messages: &Vec<Json>, from: usize, to: usize) -> (r: Vec<Json>)
    requires
        from <= to <= messages@.len(),
    ensures
        json_views(r@) == json_views(messages@).subrange(from as int, to as int),
{
    let ghost all = json_views(messages@);
    let mut out: Vec<Json> = Vec::new();
    let mut i: usize = from;
    proof {
        lemma_json_views(messages@);
        assert(json_views(out@) =~= all.subrange(from as int, from as int));
    }
    while i < to
        invariant
            from <= i <= to <= messages@.len(),
            all == json_views(messages@),
            all.len() == messages@.len(),
            forall|k: int| 0 <= k < messages@.len() ==> #[trigger] all[k] == messages@[k]@,
            json_views(out@) == all.subrange(from as int, i as int),
        decreases to - i,
    {
        let v = messages[i].copy();
        let ghost before = out@;
        out.push(v);
        proof {
            lemma_json_views_push(before, v);
            assert(all.subrange(from as int, i + 1) =~= all.subrange(from as int, i as int).push(all[i as int]));
        }
        i += 1;
    }
    out
}

fn copy_split(messages: &Vec<Json>, k: usize) -> (r: (Vec<Json>, Vec<Json>))
    requires
        k <= messages@.len(),
    ensures
        json_views(r.0@) == json_views(messages@).take(k as int),
        json_views(r.1@) == json_views(messages@).skip(k as int),
{
    proof {
        lemma_json_views(messages@);
        let all = json_views(messages@);
        assert(all.take(k as int) =~= all.subrange(0, k as int));
        assert(all.skip(k as int) =~= all.subrange(k as int, all.len() as int));
    }
    (copy_range(messages, 0, k), copy_range(messages, k, messages.len()))
}

/// The first `n` items that are objects.
pub open spec fn objects(items: Seq<Jv>, n: int) -> Seq<Jv>
    decreases n,
{
    if n <= 0 || n > items.len() {
        Seq::empty()
    } else if items[n - 1] is Object {
        objects(items, n - 1).push(items[n - 1])
    } else {
        objects(items, n - 1)
    }
}

fn keep_objects(items: &Vec<Json>) -> (r: Vec<Json>)
    ensures
        json_views(r@) == objects(json_views(items@), items@.len() as int),
{
    let ghost all = json_views(items@);
    let mut out: Vec<Json> = Vec::new();
    let mut i: usize = 0;
    proof {
        lemma_json_views(items@);
        assert(json_views(out@) =~= Seq::empty());
    }
    while i < items.len()
        invariant
            i <= items@.len(),
            all == json_views(items@),
            all.len() == items@.len(),
            forall|k: int| 0 <= k < items@.len() ==> #[trigger] all[k] == items@[k]@,
            json_views(out@) == objects(all, i as int),
        decreases items@.len() - i,
    {
        proof {
            assert(all[i as int] == items@[i as int]@);
        }
        if items[i].as_object().is_some() {
            let v = items[i].copy();
            let ghost before = out@;
            out.push(v);
            proof {
                lemma_json_views_push(before, v);
            }
        }
        i += 1;
    }
    out
}

/// What a compaction keeps in front and what it condenses: where no message
/// is stable, the first one stands in front.
pub open spec fn compaction_split(messages: Seq<Jv>) -> int {
    if stable_prefix_len(messages) == 0 && messages.len() > 0 {
        1
    } else {
        stable_prefix_len(messages)
    }
}

/// Whether a conversation is due for compaction.
pub open spec fn is_due(c: ConversationView) -> bool {
    c.messages.len() > 0 && c.used >= c.trigger
}

/// The messages in front of a compacted conversation: those that were rebuilt,
/// or those that stood there.
pub open spec fn next_prefix(messages: Seq<Jv>, rebuilt: Option<Seq<Jv>>) -> Seq<Jv> {
    match rebuilt {
        Some(items) => if items.len() > 0 {
            objects(items, items.len() as int)
        } else {
            messages.take(compaction_split(messages))
        },
        None => messages.take(compaction_split(messages)),
    }
}

impl ConversationContextManager {
    /// The messages as they are written down.
    pub closed spec fn written(&self) -> Seq<Json> {
        self.messages@
    }

    /// A conversation with a context window, which is compacted once its use
    /// reaches `trigger` tokens. Neither is less than one token.
    pub fn new(init_messages: Vec<Json>, window: u32, trigger: u32) -> (r: Self)
        ensures
            r@ == (ConversationView {
                messages: json_views(init_messages@),
                window: if window < 1 { 1 } else { window },
                used: 0,
                trigger: if trigger < 1 { 1 } else { trigger },
            }),
            r.written() == init_messages@,
    {
        ConversationContextManager {
            messages: init_messages,
            context_window_tokens: if window < 1 { 1 } else { window },
            current_tokens: 0,
            compact_trigger_tokens: if trigger < 1 { 1 } else { trigger },
        }
    }

    /// The messages.
    pub fn messages(&self) -> (r: &Vec<Json>)
        ensures
            json_views(r@) == self@.messages,
            r@ == self.written(),
    {
        &self.messages
    }

    /// The size of the context window in tokens.
    pub fn context_window_tokens(&self) -> (r: u32)
        ensures
            r == self@.window,
    {
        self.context_window_tokens
    }

    /// Takes note of how many tokens a request used.
    pub fn sync_token_usage(&mut self, total_tokens: u64)
        ensures
            final(self)@ == (ConversationView {
                used: if total_tokens > u32::MAX { u32::MAX } else { total_tokens as u32 },
                ..old(self)@
            }),
    {
        self.current_tokens = if total_tokens > 0xffff_ffff {
            0xffff_ffff
        } else {
            total_tokens as u32
        };
    }

    /// How much of the context window is used.
    pub fn usage_snapshot(&self) -> (r: ContextUsageSnapshot)
        ensures
            r.used == self@.used,
            r.size == self@.window,
    {
        ContextUsageSnapshot {
            used: self.current_tokens as u64,
            size: self.context_window_tokens as u64,
        }
    }

    /// Whether the context window is full.
    pub fn is_over_context_window(&self) -> (r: bool)
        ensures
            r == (self@.used >= self@.window),
    {
        self.current_tokens >= self.context_window_tokens
    }

    /// Whether the conversation is due for compaction.
    pub fn should_compact(&self) -> (r: bool)
        ensures
            r == is_due(self@),
    {
        proof {
            lemma_json_views(self.messages@);
        }
        self.messages.len() > 0 && self.current_tokens >= self.compact_trigger_tokens
    }

    /// Keeps the first `count` messages.
    pub fn truncate_messages(&mut self, count: usize)
        ensures
            final(self)@ == (ConversationView {
                messages: if count >= old(self)@.messages.len() {
                    old(self)@.messages
                } else {
                    old(self)@.messages.take(count as int)
                },
                ..old(self)@
            }),
    {
        let ghost before = self.messages@;
        proof {
            lemma_json_views(before);
        }
        if count < self.messages.len() {
            self.messages.truncate(count);
            proof {
                lemma_json_views(self.messages@);
                assert(json_views(self.messages@) =~= json_views(before).take(count as int));
            }
        }
    }

    /// Adds a user message; content that is neither text nor a list of blocks
    /// is refused.
    pub fn add_user(&mut self, content: &Json) -> (r: Result<(), String>)
        ensures
            match stored_content(content@) {
                Some(v) => r is Ok && final(self)@ == (ConversationView {
                    messages: old(self)@.messages.push(user_message_view(v)),
                    ..old(self)@
                }),
                None => final(self)@ == old(self)@ && (r matches Err(e) && e@
                    == "User content must be a string or list of content blocks."@),
            },
    {
        let normalized = match normalize_user_content(content) {
            Ok(v) => v,
            Err(e) => return Err(e),
        };
        let mut m = no_members();
        put_text(&mut m, "role", "user");
        put(&mut m, "content", normalized);
        self.add_assistant(Json::Object(m));
        Ok(())
    }

    /// Adds a message of the model.
    pub fn add_assistant(&mut self, message: Json)
        ensures
            final(self)@ == (ConversationView {
                messages: old(self)@.messages.push(message@),
                ..old(self)@
            }),
            final(self).written() == old(self).written().push(message),
    {
        let ghost before = self.messages@;
        self.messages.push(message);
        proof {
            lemma_json_views_push(before, message);
        }
    }

    /// Adds a message of a watcher.
    pub fn add_watcher_content(&mut self, message: Json)
        ensures
            final(self)@ == (ConversationView {
                messages: old(self)@.messages.push(message@),
                ..old(self)@
            }),
            final(self).written() == old(self).written().push(message),
    {
        self.add_assistant(message);
    }

    /// Adds the output of a tool, written out as a JSON text.
    pub fn add_tool_result(&mut self, tool_call_id: &str, name: &str, output: &Json)
        ensures
            final(self)@ == (ConversationView {
                messages: old(self)@.messages.push(
                    tool_message_view(tool_call_id@, name@, compact_text(tree(*output))),
                ),
                ..old(self)@
            }),
    {
        self.add_tool_text(tool_call_id, name, compact_json(output).as_str());
    }

    /// Adds the output of a tool; `content` is its compact JSON text.
    pub fn add_tool_text(&mut self, tool_call_id: &str, name: &str, content: &str)
        ensures
            final(self)@ == (ConversationView {
                messages: old(self)@.messages.push(
                    tool_message_view(tool_call_id@, name@, content@),
                ),
                ..old(self)@
            }),
    {
        let mut m = no_members();
        put_text(&mut m, "role", "tool");
        put_text(&mut m, "tool_call_id", tool_call_id);
        put_text(&mut m, "name", name);
        put_text(&mut m, "content", content);
        self.add_assistant(Json::Object(m));
    }

    /// The messages for a model. One that cannot see gets placeholders for
    /// images, and texts for blocks that are no objects.
    pub fn messages_for_model(&self, vision: bool) -> (r: Vec<Json>)
        ensures
            json_views(r@) == if vision {
                self@.messages
            } else {
                text_model_messages(self.written())
            },
    {
        if vision {
            return clone_items(&self.messages);
        }
        let ghost want = text_model_messages(self.messages@);
        let mut out: Vec<Json> = Vec::new();
        let mut i: usize = 0;
        proof {
            assert(json_views(out@) =~= want.take(0));
        }
        while i < self.messages.len()
            invariant
                i <= self.messages@.len(),
                want == text_model_messages(self.messages@),
                json_views(out@) == want.take(i as int),
            decreases self.messages@.len() - i,
        {
            let v = patch_message_for_text_model(&self.messages[i]);
            let ghost before = out@;
            out.push(v);
            proof {
                lemma_json_views_push(before, v);
                assert(want[i as int] == v@);
                assert(want.take(i + 1) =~= want.take(i as int).push(want[i as int]));
            }
            i += 1;
        }
        proof {
            assert(want.take(want.len() as int) =~= want);
        }
        out
    }

    /// Begins a compaction: the messages to condense, or `None` where there is
    /// nothing to do.
    pub fn begin_compaction(&self, cancelled: bool) -> (r: Option<Vec<Json>>)
        ensures
            match r {
                Some(rest) => {
                    &&& is_due(self@)
                    &&& !cancelled
                    &&& json_views(rest@) == self@.messages.skip(compaction_split(self@.messages))
                    &&& rest@.len() > 0
                },
                None => !is_due(self@) || cancelled || self@.messages.len() <= 1,
            },
    {
        if !self.should_compact() || cancelled {
            return None;
        }
        proof {
            lemma_json_views(self.messages@);
        }
        if self.messages.len() <= 1 {
            return None;
        }
        let (_, rest) = copy_split(&self.messages, 1);
        proof {
            lemma_json_views(rest@);
        }
        Some(rest)
    }

    /// Ends a compaction: the conversation becomes the messages in front and
    /// the compacted ones, unless it was cancelled meanwhile.
    pub fn finish_compaction(
        &mut self,
        rebuilt: Option<Vec<Json>>,
        compacted: Vec<Json>,
        cancelled: bool,
    ) -> (r: CompactionOutcome)
        ensures
            cancelled ==> r is Skipped && final(self)@ == old(self)@,
            !cancelled ==> r is Compacted && final(self)@ == (ConversationView {
                messages: next_prefix(
                    old(self)@.messages,
                    match rebuilt {
                        Some(items) => Some(json_views(items@)),
                        None => None,
                    },
                ) + json_views(compacted@),
                used: 0,
                ..old(self)@
            }),
    {
        if cancelled {
            return CompactionOutcome::Skipped;
        }
        let ghost was = json_views(self.messages@);
        let (kept, _) = if self.messages.len() > 0 {
            copy_split(&self.messages, 1)
        } else {
            copy_split(&self.messages, 0)
        };
        proof {
            lemma_json_views(self.messages@);
            assert(json_views(kept@) == was.take(compaction_split(was)));
        }
        let mut merged = match &rebuilt {
            Some(items) => {
                proof {
                    lemma_json_views(items@);
                }
                if items.len() > 0 {
                    keep_objects(items)
                } else {
                    kept
                }
            },
            None => kept,
        };
        let ghost front = merged@;
        let mut tail = compacted;
        merged.append(&mut tail);
        proof {
            lemma_json_views(front);
            lemma_json_views(compacted@);
            lemma_json_views(merged@);
            assert(json_views(merged@) =~= json_views(front) + json_views(compacted@));
        }
        self.messages = merged;
        self.current_tokens = 0;
        CompactionOutcome::Compacted
    }
}

/// Only the first system message is stable: what follows is condensed, also
/// where it is the system's.
pub proof fn law_only_the_first_message_is_stable(messages: Seq<Jv>)
    ensures
        0 <= stable_prefix_len(messages) <= 1,
        messages.len() > 0 ==> compaction_split(messages) == 1,
{
}

/// A model that cannot see never gets an image block.
pub proof fn law_text_model_sees_no_image(items: Seq<Jv>, json: Seq<Seq<char>>)
    requires
        items.len() == json.len(),
    ensures
        forall|i: int| 0 <= i < items.len() ==> !is_image(#[trigger] text_model_parts(items, json)[i]),
{
    assert forall|i: int| 0 <= i < items.len() implies !is_image(
        #[trigger] text_model_parts(items, json)[i],
    ) by {
        lemma_text_view_is_no_image("该处为图片消息。"@);
        lemma_text_view_is_no_image(json[i]);
    }
}

proof fn lemma_text_view_is_no_image(s: Seq<char>)
    ensures
        !is_image(text_view(s)),
{
    reveal_strlit("type");
    reveal_strlit("text");
    reveal_strlit("image");
    reveal_strlit("image_url");
    reveal_strlit("input_image");
    assert("text"@.len() == 4);
    assert("type"@[1] == 'y');
    assert("text"@[1] == 'e');
    assert("type"@ != "text"@);
    assert(field(text_view(s), "type"@) == Some(Jv::Text("text"@)));
    assert(trim_of("text"@) == "text"@);
    assert("image"@.len() == 5);
    assert("image_url"@.len() == 9);
    assert("input_image"@.len() == 11);
}

/// What is added to a conversation says who said it and what.
pub proof fn law_added_messages_say_who_spoke(
    content: Jv,
    id: Seq<char>,
    name: Seq<char>,
    text: Seq<char>,
)
    ensures
        user_message_view(content) == Jv::Object(
            map!["role"@ => Jv::Text("user"@), "content"@ => content],
        ),
        tool_message_view(id, name, text) == Jv::Object(
            map![
                "role"@ => Jv::Text("tool"@),
                "tool_call_id"@ => Jv::Text(id),
                "name"@ => Jv::Text(name),
                "content"@ => Jv::Text(text),
            ],
        ),
{
}

/// A model that cannot see gets every message with all its members and blocks: only
/// images are replaced, and values that are no blocks are written out.
pub proof fn law_text_model_loses_only_images(v: Jv, json: Seq<Seq<char>>)
    ensures
        !(field(v, "content"@) matches Some(Jv::Array(_))) ==> text_model_message(v, json) == v,
        field(v, "content"@) matches Some(Jv::Array(items)) ==> {
            let after = text_model_message(v, json);
            &&& forall|k: Seq<char>| k != "content"@ ==> #[trigger] field(after, k) == field(v, k)
            &&& field(after, "content"@) matches Some(Jv::Array(kept)) && kept.len() == items.len()
                && forall|i: int|
                0 <= i < items.len() ==> (#[trigger] kept[i]) == (if !(items[i] is Object) {
                    text_view(json[i])
                } else if is_image(items[i]) {
                    text_view("该处为图片消息。"@)
                } else {
                    items[i]
                })
        },
{
}

/// What does not see an image is the same conversation, message by message.
pub proof fn law_text_model_gets_every_message(messages: Seq<Json>, i: int)
    requires
        0 <= i < messages.len(),
    ensures
        text_model_messages(messages).len() == messages.len(),
        !(field(messages[i]@, "content"@) matches Some(Jv::Array(_))) ==> text_model_messages(
            messages,
        )[i] == messages[i]@,
{
}

/// Compaction is due once the tokens in use reach the limit, and never on nothing.
pub proof fn law_compaction_is_due_at_the_limit(c: ConversationView)
    ensures
        is_due(c) <==> c.messages.len() > 0 && c.used >= c.trigger,
{
}

/// A conversation begins anew with the messages that were rebuilt, all of them in
/// their order, or with its own first message.
pub proof fn law_conversation_begins_anew(messages: Seq<Jv>, rebuilt: Seq<Jv>)
    ensures
        rebuilt.len() > 0 && (forall|i: int| 0 <= i < rebuilt.len() ==> (#[trigger] rebuilt[i]) is Object)
            ==> next_prefix(messages, Some(rebuilt)) == rebuilt,
        messages.len() > 0 ==> next_prefix(messages, None) == seq![messages[0]]
            && next_prefix(messages, Some(Seq::empty())) == seq![messages[0]],
        messages.len() == 0 ==> next_prefix(messages, None).len() == 0,
{
    if forall|i: int| 0 <= i < rebuilt.len() ==> (#[trigger] rebuilt[i]) is Object {
        lemma_all_objects(rebuilt, rebuilt.len() as int);
        assert(rebuilt.take(rebuilt.len() as int) =~= rebuilt);
    }
    if messages.len() > 0 {
        assert(messages.take(1) =~= seq![messages[0]]);
    }
}

proof fn lemma_all_objects(items: Seq<Jv>, n: int)
    requires
        0 <= n <= items.len(),
        forall|i: int| 0 <= i < items.len() ==> (#[trigger] items[i]) is Object,
    ensures
        objects(items, n) == items.take(n),
    decreases n,
{
    if n > 0 {
        lemma_all_objects(items, n - 1);
        assert(items[n - 1] is Object);
        assert(items.take(n) =~= items.take(n - 1).push(items[n - 1]));
    } else {
        assert(items.take(0) =~= Seq::empty());
    }
}

/// The first message is kept apart if and only if it comes from the system.
pub proof fn law_system_message_is_stable(messages: Seq<Jv>)
    ensures
        stable_prefix_len(messages) == 1 <==> messages.len() > 0 && (text_field_or(
            messages[0],
            "role"@,
            ""@,
        ) == "system"@ || trim_of(text_field_or(messages[0], "role"@, ""@)) == "system"@),
{
    if messages.len() > 0 && text_field_or(messages[0], "role"@, ""@) == "system"@ {
        reveal_strlit("system");
        let s = "system"@;
        assert(s[0] == 's' && s[5] == 'm' && s.len() == 6);
        crate::text::law_trim_keeps_what_is_between(Seq::empty(), s, Seq::empty());
        assert(Seq::<char>::empty() + s + Seq::<char>::empty() =~= s);
    }
}

} // verus!
