//! The tools that channels add to an agent.

use crate::json::{
    field, json_views, lemma_json_views, no_members, put, put_text, text_field, Json, Jv,
};
use crate::paths::{
    is_full, is_full_path, join_path, joined_on, lies_in_on, path_lies_in,
};
use crate::text::{cat2, is_blank, lemma_texts_push, str_eq, texts, trim, trim_of};
use crate::tools::{merged_schemas, source_schemas, tool_schemas_from_templates};
use vstd::prelude::*;

verus! {

pub const WEIXIN_REPLY_MEDIA_TOOL: &'static str = "weixin_reply_media";
pub const FEISHU_REPLY_MEDIA_TOOL: &'static str = "feishu_reply_media";
pub const FEISHU_REPLY_CARD_TOOL: &'static str = "feishu_reply_card";

/// How a file is sent.
#[derive(Debug, Clone, Copy, PartialEq, Eq, Structural)]
pub enum FeishuReplyMediaKind {
    Auto,
    Image,
    File,
}

impl Default for FeishuReplyMediaKind {
    fn default() -> (r: Self)
        ensures
            r is Auto,
    {
        FeishuReplyMediaKind::Auto
    }
}

/// What came of a file that was sent by Weixin.
#[derive(Debug)]
pub struct WeixinReplyMediaResult {
    pub message_id: String,
}

/// What came of a file that was sent by Feishu.
#[derive(Debug)]
pub struct FeishuReplyMediaResult {
    pub message_id: String,
    pub resource_key: String,
    pub msg_type: String,
}

/// What came of a card that was sent by Feishu.
#[derive(Debug)]
pub struct FeishuReplyCardResult {
    pub message_id: String,
}

/// The name of the tool that a schema describes.
pub open spec fn schema_name(schema: Jv) -> Option<Seq<char>> {
    match field(schema, "function"@) {
        Some(f) => text_field(f, "name"@),
        None => None,
    }
}

/// Whether the tool that sends files by Weixin is among the schemas.
pub fn has_weixin_reply_media_tool(schemas: &Vec<Json>) -> (r: bool)
    ensures
        r == exists|i: int|
            0 <= i < schemas@.len() && schema_name(#[trigger] json_views(schemas@)[i]) == Some(
                WEIXIN_REPLY_MEDIA_TOOL@,
            ),
{
    let ghost all = json_views(schemas@);
    proof {
        lemma_json_views(schemas@);
    }
    let mut i: usize = 0;
    while i < schemas.len()
        invariant
            i <= schemas@.len(),
            all == json_views(schemas@),
            all.len() == schemas@.len(),
            forall|k: int| 0 <= k < schemas@.len() ==> #[trigger] all[k] == schemas@[k]@,
            forall|k: int|
                0 <= k < i ==> schema_name(#[trigger] all[k]) != Some(WEIXIN_REPLY_MEDIA_TOOL@),
        decreases schemas@.len() - i,
    {
        proof {
            assert(all[i as int] == schemas@[i as int]@);
        }
        if let Some(function) = schemas[i].get("function") {
            if let Some(name) = function.get_str("name") {
                if str_eq(name, WEIXIN_REPLY_MEDIA_TOOL) {
                    proof {
                        assert(schema_name(all[i as int]) == Some(WEIXIN_REPLY_MEDIA_TOOL@));
                    }
                    return true;
                }
            }
        }
        i += 1;
    }
    false
}

/// The schemas of the Weixin tools.
pub fn weixin_tool_schemas(template: &str) -> (r: Vec<Json>)
    ensures
        json_views(r@) == source_schemas(template@),
{
    let mut sources: Vec<String> = Vec::new();
    sources.push(template.to_owned());
    let r = tool_schemas_from_templates(&sources);
    proof {
        reveal_with_fuel(merged_schemas, 2);
        assert(json_views(r@) =~= source_schemas(template@));
    }
    r
}

/// The schemas of the Feishu tools that are offered.
pub open spec fn feishu_schemas(media: bool, card: bool, m: Seq<char>, c: Seq<char>) -> Seq<Jv> {
    (if media {
        source_schemas(m)
    } else {
        Seq::empty()
    }) + (if card {
        source_schemas(c)
    } else {
        Seq::empty()
    })
}

/// The schemas of the Feishu tools that are offered.
pub fn feishu_tool_schemas(
    media_output: bool,
    card_output: bool,
    media_template: &str,
    card_template: &str,
) -> (r: Vec<Json>)
    ensures
        json_views(r@) == feishu_schemas(media_output, card_output, media_template@, card_template@),
{
    let mut sources: Vec<String> = Vec::new();
    if media_output {
        sources.push(media_template.to_owned());
    }
    if card_output {
        sources.push(card_template.to_owned());
    }
    let r = tool_schemas_from_templates(&sources);
    proof {
        reveal_with_fuel(merged_schemas, 3);
        assert(json_views(r@) =~= feishu_schemas(
            media_output,
            card_output,
            media_template@,
            card_template@,
        ));
    }
    r
}

/// The Weixin tools of a channel.
#[derive(Debug)]
pub struct WeixinToolExecutor {
    pub allowed_roots: Vec<String>,
}

/// The Feishu tools of a channel.
#[derive(Debug)]
pub struct FeishuToolExecutor {
    pub allowed_roots: Vec<String>,
    pub media_output: bool,
    pub card_output: bool,
}

/// The paths that are tried for a file: a path that says by itself where it
/// leads, or the path below each root.
pub open spec fn candidates_of(raw: Seq<char>, roots: Seq<Seq<char>>, windows: bool) -> Seq<
    Seq<char>,
> {
    if is_full(raw, windows) {
        seq![raw]
    } else {
        Seq::new(roots.len(), |i: int| joined_on(roots[i], raw, windows))
    }
}

/// The paths that are tried for a file.
pub fn path_candidates(raw_path: &str, allowed_roots: &Vec<String>, windows: bool) -> (r: Vec<
    String,
>)
    ensures
        texts(r@) == candidates_of(raw_path@, texts(allowed_roots@), windows),
{
    let mut out: Vec<String> = Vec::new();
    proof {
        assert(texts(out@) =~= Seq::empty());
    }
    if is_full_path(raw_path, windows) {
        let owned = raw_path.to_owned();
        out.push(owned);
        proof {
            assert(texts(out@) =~= seq![raw_path@]);
        }
        return out;
    }
    let ghost want = candidates_of(raw_path@, texts(allowed_roots@), windows);
    let mut i: usize = 0;
    proof {
        assert(texts(out@) =~= want.take(0));
    }
    while i < allowed_roots.len()
        invariant
            i <= allowed_roots@.len(),
            !is_full(raw_path@, windows),
            want == candidates_of(raw_path@, texts(allowed_roots@), windows),
            texts(out@) == want.take(i as int),
        decreases allowed_roots@.len() - i,
    {
        let path = join_path(allowed_roots[i].as_str(), raw_path, windows);
        proof {
            lemma_texts_push(out@, path);
            assert(want.take(i + 1) =~= want.take(i as int).push(want[i as int]));
        }
        out.push(path);
        i += 1;
    }
    proof {
        assert(want.take(want.len() as int) =~= want);
    }
    out
}

/// Whether a path lies in one of the roots.
pub open spec fn in_roots(path: Seq<char>, roots: Seq<Seq<char>>, windows: bool) -> bool {
    exists|i: int| 0 <= i < roots.len() && lies_in_on(path, #[trigger] roots[i], windows)
}

/// The first file from `i` on that lies in one of the roots.
pub open spec fn first_allowed(
    files: Seq<Option<Seq<char>>>,
    roots: Seq<Seq<char>>,
    windows: bool,
    i: int,
) -> Option<Seq<char>>
    decreases files.len() - i,
{
    if i < 0 || i >= files.len() {
        None
    } else if files[i] matches Some(f) && in_roots(f, roots, windows) {
        files[i]
    } else {
        first_allowed(files, roots, windows, i + 1)
    }
}

/// Optional texts.
pub open spec fn opt_text_list(v: Seq<Option<String>>) -> Seq<Option<Seq<char>>> {
    Seq::new(v.len(), |i: int| crate::text::opt_text(v[i]))
}

fn is_in_roots(path: &str, roots: &Vec<String>, windows: bool) -> (r: bool)
    ensures
        r == in_roots(path@, texts(roots@), windows),
{
    let ghost all = texts(roots@);
    let mut i: usize = 0;
    while i < roots.len()
        invariant
            i <= roots@.len(),
            all == texts(roots@),
            forall|k: int| 0 <= k < i ==> !lies_in_on(path@, #[trigger] all[k], windows),
        decreases roots@.len() - i,
    {
        proof {
            assert(all[i as int] == roots@[i as int]@);
        }
        if path_lies_in(path, roots[i].as_str(), windows) {
            return true;
        }
        i += 1;
    }
    false
}

/// Chooses the file to send. `resolved` holds, for each path that is tried,
/// the file it stands for once links are followed; `roots` are the roots,
/// links followed too. `channel` names the channel in the refusal.
pub fn pick_allowed_file(
    raw_path: &str,
    resolved: &Vec<Option<String>>,
    roots: &Vec<String>,
    channel: &str,
    windows: bool,
) -> (r: Result<String, String>)
    ensures
        match first_allowed(opt_text_list(resolved@), texts(roots@), windows, 0) {
            Some(f) => r matches Ok(s) && s@ == f,
            None => r matches Err(e) && e@ == "File path is not readable inside the allowed "@
                + channel@ + " roots: "@ + raw_path@,
        },
{
    let ghost files = opt_text_list(resolved@);
    let mut i: usize = 0;
    while i < resolved.len()
        invariant
            i <= resolved@.len(),
            files == opt_text_list(resolved@),
            first_allowed(files, texts(roots@), windows, i as int) == first_allowed(
                files,
                texts(roots@),
                windows,
                0,
            ),
        decreases resolved@.len() - i,
    {
        proof {
            assert(files[i as int] == crate::text::opt_text(resolved@[i as int]));
        }
        if let Some(f) = &resolved[i] {
            if is_in_roots(f.as_str(), roots, windows) {
                return Ok(f.clone());
            }
        }
        i += 1;
    }
    let mut e = crate::text::cat3("File path is not readable inside the allowed ", channel, " roots: ");
    e.append(raw_path);
    Err(e)
}

proof fn lemma_first_allowed(
    files: Seq<Option<Seq<char>>>,
    roots: Seq<Seq<char>>,
    windows: bool,
    i: int,
)
    ensures
        first_allowed(files, roots, windows, i) matches Some(f) ==> in_roots(f, roots, windows),
    decreases files.len() - i,
{
    if 0 <= i < files.len() {
        lemma_first_allowed(files, roots, windows, i + 1);
    }
}

/// A file outside the roots is never sent.
pub proof fn law_only_files_in_roots_are_sent(
    files: Seq<Option<Seq<char>>>,
    roots: Seq<Seq<char>>,
    windows: bool,
)
    ensures
        first_allowed(files, roots, windows, 0) matches Some(f) ==> in_roots(f, roots, windows),
{
    lemma_first_allowed(files, roots, windows, 0);
}

fn needed_path(path: &str) -> (r: Result<String, String>)
    ensures
        if is_blank(path@) {
            r matches Err(e) && e@ == "path is required"@
        } else {
            r matches Ok(s) && s@ == trim_of(path@)
        },
{
    let t = trim(path);
    if t.is_empty() {
        return Err("path is required".to_owned());
    }
    Ok(t.to_owned())
}

impl WeixinToolExecutor {
    /// Whether a tool is one of the channel's.
    pub fn handles_tool(&self, name: &str) -> (r: bool)
        ensures
            r == (name@ == WEIXIN_REPLY_MEDIA_TOOL@),
    {
        str_eq(name, WEIXIN_REPLY_MEDIA_TOOL)
    }

    /// The path that a call asks to send.
    pub fn read_call(&self, name: &str, path: &str) -> (r: Result<String, String>)
        ensures
            if name@ != WEIXIN_REPLY_MEDIA_TOOL@ {
                r matches Err(e) && e@ == "Unknown Weixin tool: "@ + name@
            } else if is_blank(path@) {
                r matches Err(e) && e@ == "path is required"@
            } else {
                r matches Ok(s) && s@ == trim_of(path@)
            },
    {
        if !str_eq(name, WEIXIN_REPLY_MEDIA_TOOL) {
            return Err(cat2("Unknown Weixin tool: ", name));
        }
        needed_path(path)
    }

    /// The output of a file that was sent.
    pub fn media_output(&self, result: &WeixinReplyMediaResult, path: &str) -> (r: Json)
        ensures
            r@ == Jv::Object(
                Map::<Seq<char>, Jv>::empty().insert("status"@, Jv::Text("ok"@)).insert(
                    "done"@,
                    Jv::Bool(true),
                ).insert("message_id"@, Jv::Text(result.message_id@)).insert(
                    "path"@,
                    Jv::Text(path@),
                ),
            ),
    {
        let mut m = no_members();
        put_text(&mut m, "status", "ok");
        put(&mut m, "done", Json::Bool(true));
        put_text(&mut m, "message_id", result.message_id.as_str());
        put_text(&mut m, "path", path);
        Json::Object(m)
    }
}

/// What a call of a Feishu tool asks for.
#[derive(Debug)]
pub enum FeishuCall {
    Media { path: String, kind: FeishuReplyMediaKind, file_type: Option<String> },
    Card { card: Json },
}

impl FeishuToolExecutor {
    /// Whether a tool is one that the channel offers.
    pub fn handles_tool(&self, name: &str) -> (r: bool)
        ensures
            r == ((self.media_output && name@ == FEISHU_REPLY_MEDIA_TOOL@) || (self.card_output
                && name@ == FEISHU_REPLY_CARD_TOOL@)),
    {
        (self.media_output && str_eq(name, FEISHU_REPLY_MEDIA_TOOL)) || (self.card_output
            && str_eq(name, FEISHU_REPLY_CARD_TOOL))
    }

    /// The file that a call asks to send.
    pub fn read_media_call(
        &self,
        path: &str,
        kind: FeishuReplyMediaKind,
        file_type: Option<&str>,
    ) -> (r: Result<FeishuCall, String>)
        ensures
            if is_blank(path@) {
                r matches Err(e) && e@ == "path is required"@
            } else {
                r matches Ok(FeishuCall::Media { path: p, kind: k, file_type: t }) && p@ == trim_of(
                    path@,
                ) && k == kind && crate::text::opt_text(t) == (match file_type {
                    Some(s) => if is_blank(s@) {
                        None
                    } else {
                        Some(trim_of(s@))
                    },
                    None => None,
                })
            },
    {
        let path = match needed_path(path) {
            Ok(p) => p,
            Err(e) => return Err(e),
        };
        let file_type = match file_type {
            Some(s) => {
                let t = trim(s);
                if t.is_empty() {
                    None
                } else {
                    Some(t.to_owned())
                }
            },
            None => None,
        };
        Ok(FeishuCall::Media { path, kind, file_type })
    }

    /// The card that a call asks to send.
    pub fn read_card_call(&self, card: Json) -> (r: Result<FeishuCall, String>)
        ensures
            if card@ is Object {
                r matches Ok(FeishuCall::Card { card: c }) && c == card
            } else {
                r matches Err(e) && e@ == "card must be a JSON object"@
            },
    {
        if card.as_object().is_none() {
            return Err("card must be a JSON object".to_owned());
        }
        Ok(FeishuCall::Card { card })
    }

    /// What is said of a tool that Feishu does not have.
    pub fn unknown_tool(&self, name: &str) -> (r: String)
        ensures
            r@ == "Unknown Feishu tool: "@ + name@,
    {
        cat2("Unknown Feishu tool: ", name)
    }

    /// The output of a file that was sent.
    pub fn media_result(&self, result: &FeishuReplyMediaResult, path: &str) -> (r: Json)
        ensures
            r@ == Jv::Object(
                Map::<Seq<char>, Jv>::empty().insert("status"@, Jv::Text("ok"@)).insert(
                    "done"@,
                    Jv::Bool(true),
                ).insert("message_id"@, Jv::Text(result.message_id@)).insert(
                    "resource_key"@,
                    Jv::Text(result.resource_key@),
                ).insert("msg_type"@, Jv::Text(result.msg_type@)).insert(
                    "path"@,
                    Jv::Text(path@),
                ),
            ),
    {
        let mut m = no_members();
        put_text(&mut m, "status", "ok");
        put(&mut m, "done", Json::Bool(true));
        put_text(&mut m, "message_id", result.message_id.as_str());
        put_text(&mut m, "resource_key", result.resource_key.as_str());
        put_text(&mut m, "msg_type", result.msg_type.as_str());
        put_text(&mut m, "path", path);
        Json::Object(m)
    }

    /// The output of a card that was sent.
    pub fn card_result(&self, result: &FeishuReplyCardResult) -> (r: Json)
        ensures
            r@ == Jv::Object(
                Map::<Seq<char>, Jv>::empty().insert("status"@, Jv::Text("ok"@)).insert(
                    "done"@,
                    Jv::Bool(true),
                ).insert("message_id"@, Jv::Text(result.message_id@)).insert(
                    "msg_type"@,
                    Jv::Text("interactive"@),
                ),
            ),
    {
        let mut m = no_members();
        put_text(&mut m, "status", "ok");
        put(&mut m, "done", Json::Bool(true));
        put_text(&mut m, "message_id", result.message_id.as_str());
        put_text(&mut m, "msg_type", "interactive");
        Json::Object(m)
    }
}

/// A file is looked for where it says, or below each root in turn.
pub proof fn law_files_are_looked_for_below_the_roots(
    raw: Seq<char>,
    roots: Seq<Seq<char>>,
    windows: bool,
    i: int,
)
    ensures
        is_full(raw, windows) ==> candidates_of(raw, roots, windows) == seq![raw],
        !is_full(raw, windows) ==> candidates_of(raw, roots, windows).len() == roots.len(),
        !is_full(raw, windows) && 0 <= i < roots.len() ==> candidates_of(raw, roots, windows)[i]
            == joined_on(roots[i], raw, windows),
{
}

/// The first file that is there and lies in a root is sent.
pub proof fn law_first_file_in_the_roots_is_sent(
    files: Seq<Option<Seq<char>>>,
    roots: Seq<Seq<char>>,
    windows: bool,
    from: int,
    i: int,
    file: Seq<char>,
    r: int,
)
    requires
        0 <= from <= i < files.len(),
        0 <= r < roots.len(),
        files[i] == Some(file),
        lies_in_on(file, roots[r], windows),
        forall|k: int| from <= k < i ==> (#[trigger] files[k]) is None,
    ensures
        first_allowed(files, roots, windows, from) == Some(file),
    decreases i - from,
{
    if from < i {
        assert(files[from] is None);
        law_first_file_in_the_roots_is_sent(files, roots, windows, from + 1, i, file, r);
    } else {
        assert(in_roots(file, roots, windows));
    }
}

/// The tools that are offered are those of what is enabled, media before cards.
pub proof fn law_offered_tools_are_enabled(m: Seq<char>, c: Seq<char>)
    ensures
        feishu_schemas(true, false, m, c) == source_schemas(m),
        feishu_schemas(false, true, m, c) == source_schemas(c),
        feishu_schemas(true, true, m, c) == source_schemas(m) + source_schemas(c),
        feishu_schemas(false, false, m, c).len() == 0,
{
    assert(source_schemas(m) + Seq::<Jv>::empty() =~= source_schemas(m));
    assert(Seq::<Jv>::empty() + source_schemas(c) =~= source_schemas(c));
}

/// The name of a schema is that of its function.
pub proof fn law_schema_is_named_by_its_function(schema: Jv, f: Jv, name: Seq<char>)
    ensures
        field(schema, "function"@) == Some(f) && text_field(f, "name"@) == Some(name)
            ==> schema_name(schema) == Some(name),
        field(schema, "function"@) is None ==> schema_name(schema) is None,
{
}

} // verus!
