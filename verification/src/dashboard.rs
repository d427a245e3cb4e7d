//! What the pages of the dashboard show.

use crate::automation::{
    run_status_name, AutomationRunRecord, AutomationSchedule, AutomationSessionConfig,
};
use crate::channel_config::{
    ChannelRuntimeConfig, FeishuAccessPolicy, FeishuChannelDomain,
};
use crate::json::{
    field, fields, json_read, json_views, lemma_json_views, parse_json, read_result, text_field,
    Json, Jv, Member,
};
use crate::models::{reasoning_name, AgentTools};
use crate::order::{
    is_arrangement, is_sorted_by, is_sorted_by_list, lists_texts, sort_order, sort_order_by_list,
    sorted_keys, sorted_texts, text_lists,
};
use crate::paths::{order_key, path_key};
use crate::session::SessionMetaPayload;
use crate::skills::SkillProperties;
use crate::text::{
    cat2, cat3, cat5, chars_of, decimal, decimal_text, first_chars, is_blank, join, join_of,
    lemma_texts_push, lines, lines_of, opt_text, str_eq, take_chars, texts, trim, trim_of,
};
use crate::usage::inner_field;
use vstd::prelude::*;

verus! {

fn push_str(v: &mut Vec<String>, s: String)
    ensures
        texts(final(v)@) == texts(old(v)@).push(s@),
{
    proof {
        lemma_texts_push(v@, s);
    }
    v.push(s);
}

/// The texts from `i` on behind `out`, with commas between them, as long as
/// they fit.
pub open spec fn joined_within(values: Seq<Seq<char>>, i: int, out: Seq<char>, max: int) -> Seq<char>
    decreases values.len() - i,
{
    if i < 0 || i >= values.len() {
        out
    } else {
        let next = if out.len() == 0 {
            values[i]
        } else {
            ", "@ + values[i]
        };
        if out.len() + next.len() > max {
            out + ", ..."@
        } else {
            joined_within(values, i + 1, out + next, max)
        }
    }
}

/// Texts with commas between them, cut where they get too long.
pub open spec fn limited(values: Seq<Seq<char>>, max: int) -> Seq<char> {
    if values.len() == 0 {
        "-"@
    } else {
        joined_within(values, 0, Seq::empty(), max)
    }
}

/// Texts with commas between them, cut where they get too long.
pub fn join_limited(values: &Vec<String>, max_chars: usize) -> (r: String)
    ensures
        r@ == limited(texts(values@), max_chars as int),
{
    if values.len() == 0 {
        return "-".to_owned();
    }
    let ghost all = texts(values@);
    let mut out = String::new();
    let mut i: usize = 0;
    proof {
        assert(out@ =~= Seq::<char>::empty());
    }
    while i < values.len()
        invariant
            i <= values@.len(),
            values@.len() > 0,
            all == texts(values@),
            limited(all, max_chars as int) == joined_within(all, i as int, out@, max_chars as int),
        decreases values@.len() - i,
    {
        proof {
            assert(all[i as int] == values@[i as int]@);
        }
        let next = if out.as_str().is_empty() {
            values[i].clone()
        } else {
            cat2(", ", values[i].as_str())
        };
        let used: usize = out.as_str().unicode_len();
        let more: usize = next.as_str().unicode_len();
        if used > max_chars || more > max_chars - used {
            out.append(", ...");
            return out;
        }
        out.append(next.as_str());
        i += 1;
    }
    out
}

/// The servers of an MCP configuration.
pub open spec fn server_map_of(v: Jv) -> Option<Map<Seq<char>, Jv>> {
    match field(v, "mcpServers"@) {
        Some(Jv::Object(m)) => Some(m),
        _ => match field(v, "servers"@) {
            Some(Jv::Object(m)) => Some(m),
            _ => None,
        },
    }
}

/// The servers of an MCP configuration.
pub fn mcp_server_map(value: &Json) -> (r: Option<&Vec<Member>>)
    ensures
        match server_map_of(value@) {
            Some(m) => r matches Some(v) && fields(v@) == m,
            None => r is None,
        },
{
    match value.get("mcpServers") {
        Some(Json::Object(m)) => Some(m),
        _ => match value.get("servers") {
            Some(Json::Object(m)) => Some(m),
            _ => None,
        },
    }
}

/// An MCP server as it is shown.
#[derive(Debug)]
pub struct McpServerView {
    pub name: String,
    pub transport: String,
    pub target: String,
    pub details: Vec<String>,
}

/// An MCP server as it is shown.
#[verifier::ext_equal]
pub ghost struct ServerRow {
    pub name: Seq<char>,
    pub transport: Seq<char>,
    pub target: Seq<char>,
    pub details: Seq<Seq<char>>,
}

impl View for McpServerView {
    type V = ServerRow;

    open spec fn view(&self) -> ServerRow {
        ServerRow {
            name: self.name@,
            transport: self.transport@,
            target: self.target@,
            details: texts(self.details@),
        }
    }
}

/// How a server is reached.
pub open spec fn transport_of(config: Jv) -> Seq<char> {
    match text_field(config, "transport"@) {
        Some(s) => s,
        None => match text_field(config, "type"@) {
            Some(s) => s,
            None => if text_field(config, "url"@) is Some {
                "http"@
            } else if text_field(config, "command"@) is Some {
                "stdio"@
            } else {
                "unknown"@
            },
        },
    }
}

/// How a server is reached.
pub fn mcp_transport_label(config: &Json) -> (r: String)
    ensures
        r@ == transport_of(config@),
{
    match config.get_str("transport") {
        Some(s) => s.to_owned(),
        None => match config.get_str("type") {
            Some(s) => s.to_owned(),
            None => if config.get_str("url").is_some() {
                "http".to_owned()
            } else if config.get_str("command").is_some() {
                "stdio".to_owned()
            } else {
                "unknown".to_owned()
            },
        },
    }
}

/// What a server is: its command, or else its address.
pub open spec fn target_of(config: Jv) -> Seq<char> {
    let target = match text_field(config, "command"@) {
        Some(s) => Some(s),
        None => text_field(config, "url"@),
    };
    match target {
        Some(s) => if is_blank(s) {
            "-"@
        } else {
            s
        },
        None => "-"@,
    }
}

/// What a server is: its command, or else its address.
pub fn mcp_target_label(config: &Json) -> (r: String)
    ensures
        r@ == target_of(config@),
{
    let target = match config.get_str("command") {
        Some(s) => Some(s),
        None => config.get_str("url"),
    };
    match target {
        Some(s) => if trim(s).is_empty() {
            "-".to_owned()
        } else {
            s.to_owned()
        },
        None => "-".to_owned(),
    }
}

/// How much of a list of keys is shown.
pub const KEYS_SHOWN: usize = 120;

/// The line for the keys of a member that is an object.
pub open spec fn keys_line(label: Seq<char>, v: Option<Jv>) -> Seq<Seq<char>> {
    match v {
        Some(Jv::Object(m)) => seq![label + limited(sorted_texts(m.dom()), KEYS_SHOWN as int)],
        _ => Seq::empty(),
    }
}

/// Whether a key of a server has a line of its own.
pub open spec fn is_known_key(key: Seq<char>) -> bool {
    key == "args"@ || key == "command"@ || key == "env"@ || key == "headers"@ || key
        == "transport"@ || key == "type"@ || key == "url"@
}

/// The keys among the first `n` that have no line of their own.
pub open spec fn other_keys(keys: Seq<Seq<char>>, n: nat) -> Seq<Seq<char>>
    decreases n,
{
    if n == 0 || n > keys.len() {
        Seq::empty()
    } else {
        let before = other_keys(keys, (n - 1) as nat);
        if is_known_key(keys[n - 1]) {
            before
        } else {
            before.push(keys[n - 1])
        }
    }
}

/// What else is shown of a server; no value of its settings is.
pub open spec fn details_of(config: Map<Seq<char>, Jv>) -> Seq<Seq<char>> {
    let v = Jv::Object(config);
    let args = match field(v, "args"@) {
        Some(Jv::Array(items)) => seq!["args: "@ + decimal(items.len())],
        _ => Seq::empty(),
    };
    let keys = sorted_texts(config.dom());
    let others = other_keys(keys, keys.len());
    let rest = if others.len() == 0 {
        Seq::empty()
    } else {
        seq!["other keys: "@ + limited(others, KEYS_SHOWN as int)]
    };
    args + keys_line("env keys: "@, field(v, "env"@)) + keys_line(
        "header keys: "@,
        field(v, "headers"@),
    ) + rest
}

fn push_keys_line(details: &mut Vec<String>, label: &str, v: Option<&Json>)
    ensures
        texts(final(details)@) == texts(old(details)@) + keys_line(
            label@,
            crate::json::opt_ref_view(v),
        ),
{
    let ghost before = texts(details@);
    match v {
        Some(Json::Object(m)) => {
            let keys = sorted_keys(m);
            let line = cat2(label, join_limited(&keys, KEYS_SHOWN).as_str());
            push_str(details, line);
            proof {
                assert(texts(details@) =~= before + keys_line(label@, crate::json::opt_ref_view(v)));
            }
        },
        _ => {
            proof {
                assert(before + Seq::<Seq<char>>::empty() =~= before);
            }
        },
    }
}

fn known_key(key: &str) -> (r: bool)
    ensures
        r == is_known_key(key@),
{
    str_eq(key, "args") || str_eq(key, "command") || str_eq(key, "env") || str_eq(key, "headers")
        || str_eq(key, "transport") || str_eq(key, "type") || str_eq(key, "url")
}

/// What else is shown of a server; no value of its settings is.
pub fn mcp_server_details(config: &Json) -> (r: Vec<String>)
    requires
        config@ is Object,
    ensures
        config@ matches Jv::Object(m) && texts(r@) == details_of(m),
{
    let mut details: Vec<String> = Vec::new();
    proof {
        assert(texts(details@) =~= Seq::empty());
    }
    match config.get("args") {
        Some(Json::Array(items)) => {
            proof {
                lemma_json_views(items@);
            }
            push_str(&mut details, cat2("args: ", decimal_text(items.len() as u64).as_str()));
        },
        _ => {},
    }
    let ghost args = texts(details@);
    push_keys_line(&mut details, "env keys: ", config.get("env"));
    push_keys_line(&mut details, "header keys: ", config.get("headers"));
    let ghost lines_before = texts(details@);
    match config {
        Json::Object(members) => {
            let keys = sorted_keys(members);
            let ghost all = texts(keys@);
            let mut others: Vec<String> = Vec::new();
            let mut i: usize = 0;
            proof {
                assert(texts(others@) =~= Seq::empty());
            }
            while i < keys.len()
                invariant
                    i <= keys@.len(),
                    all == texts(keys@),
                    texts(others@) == other_keys(all, i as nat),
                decreases keys@.len() - i,
            {
                proof {
                    assert(all[i as int] == keys@[i as int]@);
                }
                if !known_key(keys[i].as_str()) {
                    push_str(&mut others, keys[i].clone());
                }
                i += 1;
            }
            proof {
                assert(texts(others@).len() == others@.len());
            }
            if others.len() > 0 {
                push_str(
                    &mut details,
                    cat2("other keys: ", join_limited(&others, KEYS_SHOWN).as_str()),
                );
            }
            proof {
                assert(texts(details@) =~= details_of(fields(members@)));
            }
        },
        _ => {},
    }
    details
}

/// An MCP server as it is shown.
pub open spec fn server_row(name: Seq<char>, config: Jv) -> ServerRow {
    match config {
        Jv::Object(m) => ServerRow {
            name,
            transport: transport_of(config),
            target: target_of(config),
            details: details_of(m),
        },
        _ => ServerRow {
            name,
            transport: "invalid"@,
            target: "server entry is not an object"@,
            details: Seq::empty(),
        },
    }
}

/// An MCP server as it is shown.
pub fn mcp_server_view(name: &str, config: &Json) -> (r: McpServerView)
    ensures
        r@ == server_row(name@, config@),
{
    match config {
        Json::Object(_) => McpServerView {
            name: name.to_owned(),
            transport: mcp_transport_label(config),
            target: mcp_target_label(config),
            details: mcp_server_details(config),
        },
        _ => {
            let details: Vec<String> = Vec::new();
            proof {
                assert(texts(details@) =~= Seq::empty());
            }
            McpServerView {
                name: name.to_owned(),
                transport: "invalid".to_owned(),
                target: "server entry is not an object".to_owned(),
                details,
            }
        },
    }
}

/// An MCP configuration file.
#[derive(Debug)]
pub enum McpFile {
    Missing,
    /// It could not be read as text, for this reason.
    Unreadable(String),
    Text(String),
}

/// The MCP servers of an agent as they are shown.
#[derive(Debug)]
pub struct McpView {
    pub status: String,
    pub servers: Vec<McpServerView>,
    pub error: Option<String>,
}

/// The MCP servers of an agent as they are shown.
#[verifier::ext_equal]
pub ghost struct McpRows {
    pub status: Seq<char>,
    pub servers: Seq<ServerRow>,
    pub error: Option<Seq<char>>,
}

impl View for McpView {
    type V = McpRows;

    open spec fn view(&self) -> McpRows {
        McpRows {
            status: self.status@,
            servers: Seq::new(self.servers@.len(), |i: int| self.servers@[i]@),
            error: opt_text(self.error),
        }
    }
}

/// Servers that cannot be shown.
pub open spec fn no_servers(status: Seq<char>, error: Option<Seq<char>>) -> McpRows {
    McpRows { status, servers: Seq::empty(), error }
}

/// What is shown of the servers, by what was read of the file.
pub open spec fn rows_of(read: Result<Jv, Seq<char>>) -> McpRows {
    match read {
        Err(e) => no_servers("invalid"@, Some(e)),
        Ok(v) => match server_map_of(v) {
            None => no_servers("empty"@, Some("no mcpServers object found"@)),
            Some(m) => {
                let keys = sorted_texts(m.dom());
                McpRows {
                    status: if keys.len() == 0 {
                        "empty"@
                    } else {
                        "available"@
                    },
                    servers: Seq::new(keys.len(), |i: int| server_row(keys[i], m[keys[i]])),
                    error: None,
                }
            },
        },
    }
}

/// What is shown of the servers of a file.
pub open spec fn mcp_rows(file: McpFile) -> McpRows {
    match file {
        McpFile::Missing => no_servers("missing"@, None),
        McpFile::Unreadable(e) => no_servers("invalid"@, Some(e@)),
        McpFile::Text(s) => rows_of(json_read(s@)),
    }
}

fn empty_view(status: &str, error: Option<String>) -> (r: McpView)
    ensures
        r@ == no_servers(status@, opt_text(error)),
{
    let view = McpView { status: status.to_owned(), servers: Vec::new(), error };
    proof {
        assert(view@.servers =~= Seq::empty());
    }
    view
}

/// What is shown of the servers, by what was read of the file.
pub fn show_servers(read: Result<Json, String>) -> (r: McpView)
    ensures
        r@ == rows_of(read_result(read)),
{
    let value = match read {
        Ok(v) => v,
        Err(e) => return empty_view("invalid", Some(e)),
    };
    let members = match mcp_server_map(&value) {
        Some(m) => m,
        None => return empty_view("empty", Some("no mcpServers object found".to_owned())),
    };
    let keys = sorted_keys(members);
    let ghost m = fields(members@);
    let ghost all = texts(keys@);
    let ghost want = Seq::new(all.len(), |i: int| server_row(all[i], m[all[i]]));
    let mut servers: Vec<McpServerView> = Vec::new();
    let mut i: usize = 0;
    while i < keys.len()
        invariant
            i <= keys@.len(),
            m == fields(members@),
            all == texts(keys@),
            lists_texts(all, m.dom()),
            want == Seq::new(all.len(), |i: int| server_row(all[i], m[all[i]])),
            servers@.len() == i,
            forall|k: int| 0 <= k < i ==> (#[trigger] servers@[k])@ == want[k],
        decreases keys@.len() - i,
    {
        proof {
            assert(all[i as int] == keys@[i as int]@);
            assert(all.contains(all[i as int]));
            assert(m.dom().contains(all[i as int]));
        }
        match crate::json::lookup(members, keys[i].as_str()) {
            Some(config) => {
                servers.push(mcp_server_view(keys[i].as_str(), config));
            },
            None => {
                proof {
                    assert(false);
                }
            },
        }
        i += 1;
    }
    let status = if servers.len() == 0 {
        "empty"
    } else {
        "available"
    };
    let view = McpView { status: status.to_owned(), servers, error: None };
    proof {
        assert(view@.servers =~= want);
    }
    view
}

/// What is shown of the servers of a file.
pub fn load_mcp(file: McpFile) -> (r: McpView)
    ensures
        r@ == mcp_rows(file),
{
    match file {
        McpFile::Missing => empty_view("missing", None),
        McpFile::Unreadable(e) => empty_view("invalid", Some(e)),
        McpFile::Text(s) => show_servers(parse_json(s.as_str())),
    }
}

/// The MCP servers in a word.
pub fn mcp_overview_label(mcp: &McpView) -> (r: String)
    ensures
        r@ == if mcp@.servers.len() == 0 {
            mcp@.status
        } else {
            mcp@.status + " ("@ + decimal(mcp@.servers.len()) + " servers)"@
        },
{
    if mcp.servers.len() == 0 {
        mcp.status.clone()
    } else {
        let mut out = cat3(
            mcp.status.as_str(),
            " (",
            decimal_text(mcp.servers.len() as u64).as_str(),
        );
        out.append(" servers)");
        out
    }
}

/// What is shown of the keys of a server does not depend on their values.
pub proof fn law_key_lines_hide_values(label: Seq<char>, a: Map<Seq<char>, Jv>, b: Map<Seq<char>, Jv>)
    requires
        a.dom() == b.dom(),
    ensures
        keys_line(label, Some(Jv::Object(a))) == keys_line(label, Some(Jv::Object(b))),
{
}

/// How many lines of a file are shown.
pub const PREVIEW_LINES: usize = 120;

/// The beginning of a text file.
#[derive(Debug)]
pub struct Preview {
    pub status: String,
    pub lines: Vec<String>,
}

/// The lines of a text that are shown.
pub open spec fn preview_lines(text: Seq<char>) -> Seq<Seq<char>> {
    let all = lines_of(trim_of(text));
    if all.len() <= PREVIEW_LINES {
        all
    } else {
        all.take(PREVIEW_LINES as int)
    }
}

/// Shows the beginning of a text file; nothing stands for a file that cannot
/// be read.
pub fn preview(text: Option<&str>) -> (r: Preview)
    ensures
        match text {
            None => r.status@ == "missing"@ && r.lines@.len() == 0,
            Some(s) => {
                &&& texts(r.lines@) == preview_lines(s@)
                &&& r.status@ == if preview_lines(s@).len() == 0 {
                    "empty"@
                } else {
                    "available"@
                }
            },
        },
{
    match text {
        None => Preview { status: "missing".to_owned(), lines: Vec::new() },
        Some(s) => {
            let mut shown = lines(trim(s));
            let ghost all = texts(shown@);
            if shown.len() > PREVIEW_LINES {
                shown.truncate(PREVIEW_LINES);
                proof {
                    assert(texts(shown@) =~= all.take(PREVIEW_LINES as int));
                }
            }
            proof {
                assert(texts(shown@).len() == shown@.len());
            }
            let status = if shown.len() == 0 {
                "empty"
            } else {
                "available"
            };
            Preview { status: status.to_owned(), lines: shown }
        },
    }
}

/// The name of a tool in its schema.
pub open spec fn schema_name(schema: Jv) -> Option<Seq<char>> {
    match crate::json::as_text(inner_field(schema, "function"@, "name"@)) {
        Some(s) => Some(s),
        None => text_field(schema, "name"@),
    }
}

/// The name of a tool in its schema.
pub fn schema_tool_name(schema: &Json) -> (r: Option<&str>)
    ensures
        crate::text::opt_str(r) == schema_name(schema@),
{
    let inner = match schema.get("function") {
        Some(function) => function.get_str("name"),
        None => None,
    };
    match inner {
        Some(s) => Some(s),
        None => schema.get_str("name"),
    }
}

/// A list with a text that it did not hold.
pub open spec fn with_new(v: Seq<Seq<char>>, s: Seq<char>) -> Seq<Seq<char>> {
    if v.contains(s) {
        v
    } else {
        v.push(s)
    }
}

/// Adds a text to a list that does not hold it.
pub fn push_unique(values: &mut Vec<String>, value: &str)
    ensures
        texts(final(values)@) == with_new(texts(old(values)@), value@),
{
    let ghost all = texts(values@);
    let mut i: usize = 0;
    while i < values.len()
        invariant
            i <= values@.len(),
            all == texts(values@),
            forall|k: int| 0 <= k < i ==> (#[trigger] all[k]) != value@,
        decreases values@.len() - i,
    {
        proof {
            assert(all[i as int] == values@[i as int]@);
        }
        if str_eq(values[i].as_str(), value) {
            proof {
                assert(all.contains(value@));
            }
            return;
        }
        i += 1;
    }
    push_str(values, value.to_owned());
}

/// The tool groups that are enabled.
pub open spec fn group_names(tools: AgentTools) -> Seq<Seq<char>> {
    let a = if tools.file_edit is Enable {
        seq!["file_edit"@]
    } else {
        Seq::empty()
    };
    let b = if tools.terminal is Enable {
        with_new(a, "terminal"@)
    } else {
        a
    };
    if tools.subagent is Enable {
        with_new(b, "subagent"@)
    } else {
        b
    }
}

/// The tool groups and the first `n` tools of a session, each once.
pub open spec fn tool_names_of(groups: Seq<Seq<char>>, schemas: Seq<Jv>, n: nat) -> Seq<Seq<char>>
    decreases n,
{
    if n == 0 || n > schemas.len() {
        groups
    } else {
        let before = tool_names_of(groups, schemas, (n - 1) as nat);
        match schema_name(schemas[n - 1]) {
            Some(s) => with_new(before, s),
            None => before,
        }
    }
}

/// The tools of a session, each once.
pub fn session_tool_names(tools: &AgentTools, tool_schemas: &Vec<Json>) -> (r: Vec<String>)
    ensures
        texts(r@) == tool_names_of(
            group_names(*tools),
            json_views(tool_schemas@),
            tool_schemas@.len(),
        ),
{
    let mut names: Vec<String> = Vec::new();
    proof {
        assert(texts(names@) =~= Seq::empty());
    }
    if tools.file_edit_enabled() {
        push_unique(&mut names, "file_edit");
    }
    if tools.terminal_enabled() {
        push_unique(&mut names, "terminal");
    }
    if tools.subagent_enabled() {
        push_unique(&mut names, "subagent");
    }
    proof {
        assert(texts(names@) =~= group_names(*tools));
        lemma_json_views(tool_schemas@);
    }
    let ghost all = json_views(tool_schemas@);
    let mut i: usize = 0;
    while i < tool_schemas.len()
        invariant
            i <= tool_schemas@.len(),
            all == json_views(tool_schemas@),
            all.len() == tool_schemas@.len(),
            forall|k: int| 0 <= k < tool_schemas@.len() ==> #[trigger] all[k] == tool_schemas@[k]@,
            texts(names@) == tool_names_of(group_names(*tools), all, i as nat),
        decreases tool_schemas@.len() - i,
    {
        proof {
            assert(all[i as int] == tool_schemas@[i as int]@);
        }
        match schema_tool_name(&tool_schemas[i]) {
            Some(name) => push_unique(&mut names, name),
            None => {},
        }
        i += 1;
    }
    names
}

proof fn lemma_with_new_keeps_unique(v: Seq<Seq<char>>, s: Seq<char>)
    requires
        v.no_duplicates(),
    ensures
        with_new(v, s).no_duplicates(),
{
}

/// No tool of a session is shown twice.
pub proof fn law_tool_names_differ(tools: AgentTools, schemas: Seq<Jv>, n: nat)
    requires
        n <= schemas.len(),
    ensures
        tool_names_of(group_names(tools), schemas, n).no_duplicates(),
    decreases n,
{
    if n == 0 {
        let a = if tools.file_edit is Enable {
            seq!["file_edit"@]
        } else {
            Seq::empty()
        };
        lemma_with_new_keeps_unique(a, "terminal"@);
        let b = if tools.terminal is Enable {
            with_new(a, "terminal"@)
        } else {
            a
        };
        lemma_with_new_keeps_unique(b, "subagent"@);
    } else {
        law_tool_names_differ(tools, schemas, (n - 1) as nat);
        let before = tool_names_of(group_names(tools), schemas, (n - 1) as nat);
        match schema_name(schemas[n - 1]) {
            Some(s) => lemma_with_new_keeps_unique(before, s),
            None => {},
        }
    }
}

/// The title of a session as it is shown.
pub open spec fn title_of(title: Option<Seq<char>>, session_id: Seq<char>) -> Seq<char> {
    match title {
        Some(s) => if is_blank(s) {
            session_id
        } else {
            s
        },
        None => session_id,
    }
}

/// The title of a session as it is shown.
pub fn display_session_title(meta: &SessionMetaPayload) -> (r: String)
    ensures
        r@ == title_of(opt_text(meta.title), meta.session_id@),
{
    match &meta.title {
        Some(s) => if trim(s.as_str()).is_empty() {
            meta.session_id.clone()
        } else {
            s.clone()
        },
        None => meta.session_id.clone(),
    }
}

/// The time stamps of sessions; a session without one has an empty one.
pub open spec fn stamps_of(metas: Seq<SessionMetaPayload>) -> Seq<Seq<char>> {
    Seq::new(
        metas.len(),
        |i: int|
            match metas[i].updated_at {
                Some(s) => s@,
                None => ""@,
            },
    )
}

/// The order in which sessions are shown: the one that changed last first.
pub fn session_order(metas: &Vec<SessionMetaPayload>) -> (r: Vec<usize>)
    ensures
        is_arrangement(r@, metas@.len()),
        is_sorted_by(r@, stamps_of(metas@), true),
{
    let mut keys: Vec<String> = Vec::new();
    let mut i: usize = 0;
    while i < metas.len()
        invariant
            i <= metas@.len(),
            keys@.len() == i,
            forall|k: int| 0 <= k < i ==> (#[trigger] keys@[k])@ == stamps_of(metas@)[k],
        decreases metas@.len() - i,
    {
        keys.push(
            match &metas[i].updated_at {
                Some(s) => s.clone(),
                None => "".to_owned(),
            },
        );
        i += 1;
    }
    proof {
        assert(texts(keys@) =~= stamps_of(metas@));
    }
    sort_order(&keys, true)
}

/// The context window of a session: what was last told, or else that of its
/// model.
pub fn context_window_of(told: u64, of_model: u64) -> (r: u64)
    ensures
        r == if told > 0 {
            told
        } else {
            of_model
        },
{
    if told > 0 {
        told
    } else {
        of_model
    }
}

/// Whether a directory is named by a number of so many digits.
pub fn is_date_dir_name(name: &str, len: usize) -> (r: bool)
    ensures
        r == (name@.len() == len && forall|i: int|
            0 <= i < name@.len() ==> crate::text::is_digit(#[trigger] name@[i])),
{
    let v = chars_of(name);
    if v.len() != len {
        return false;
    }
    let mut i: usize = 0;
    while i < v.len()
        invariant
            i <= v@.len(),
            v@ == name@,
            forall|k: int| 0 <= k < i ==> crate::text::is_digit(#[trigger] name@[k]),
        decreases v@.len() - i,
    {
        if !('0' <= v[i] && v[i] <= '9') {
            proof {
                assert(!crate::text::is_digit(name@[i as int]));
            }
            return false;
        }
        i += 1;
    }
    true
}

/// The first characters of an identifier.
pub fn short_id(value: &str) -> (r: String)
    ensures
        r@ == take_chars(value@, 8),
{
    first_chars(value, 8).to_owned()
}

/// `s` from `i` on with one text in place of another.
pub open spec fn replaced_from(s: Seq<char>, from: Seq<char>, to: Seq<char>, i: int) -> Seq<char>
    decreases s.len() - i,
{
    if i < 0 || i >= s.len() || from.len() == 0 {
        Seq::empty()
    } else if i + from.len() <= s.len() && s.subrange(i, i + from.len()) == from {
        to + replaced_from(s, from, to, i + from.len())
    } else {
        seq![s[i]] + replaced_from(s, from, to, i + 1)
    }
}

fn replace_text(s: &str, from: &str, to: &str) -> (r: String)
    requires
        from@.len() > 0,
    ensures
        r@ == replaced_from(s@, from@, to@, 0),
{
    let v = chars_of(s);
    let w = chars_of(from);
    let mut out = String::new();
    let mut i: usize = 0;
    proof {
        assert(out@ + replaced_from(s@, from@, to@, 0) =~= replaced_from(s@, from@, to@, 0));
    }
    while i < v.len()
        invariant
            i <= v@.len(),
            v@ == s@,
            w@ == from@,
            from@.len() > 0,
            out@ + replaced_from(s@, from@, to@, i as int) == replaced_from(s@, from@, to@, 0),
        decreases v@.len() - i,
    {
        let mut hit = w.len() <= v.len() - i;
        let mut k: usize = 0;
        while hit && k < w.len()
            invariant
                i < v@.len(),
                k <= w@.len(),
                hit ==> i + w@.len() <= v@.len(),
                hit ==> forall|j: int| 0 <= j < k ==> v@[i + j] == #[trigger] w@[j],
                !hit ==> !(i + w@.len() <= v@.len() && v@.subrange(i as int, i + w@.len()) == w@),
            decreases w@.len() - k + (if hit { 1int } else { 0 }),
        {
            proof {
                assert(v.len() == v@.len());
            }
            if v[i + k] == w[k] {
                k += 1;
            } else {
                proof {
                    assert(v@.subrange(i as int, i + w@.len())[k as int] == v@[i + k]);
                }
                hit = false;
            }
        }
        let ghost before = out@;
        if hit {
            proof {
                assert(v@.subrange(i as int, i + w@.len()) =~= w@);
            }
            out.append(to);
            i += w.len();
            proof {
                assert(before + (to@ + replaced_from(s@, from@, to@, i as int)) =~= out@
                    + replaced_from(s@, from@, to@, i as int));
            }
        } else {
            out.push(v[i]);
            i += 1;
            proof {
                assert(before + (seq![v@[i - 1]] + replaced_from(s@, from@, to@, i as int)) =~= out@
                    + replaced_from(s@, from@, to@, i as int));
            }
        }
    }
    proof {
        assert(out@ + Seq::<char>::empty() =~= out@);
    }
    out
}

/// A time stamp as it is shown: its first 19 characters, with a blank between
/// the date and the time.
pub open spec fn shown_stamp(value: Seq<char>) -> Seq<char> {
    take_chars(
        replaced_from(replaced_from(value, "T"@, " "@, 0), "+00:00"@, "Z"@, 0),
        19,
    )
}

/// A time stamp as it is shown.
pub fn display_timestamp(value: &str) -> (r: String)
    ensures
        r@ == shown_stamp(value@),
{
    proof {
        reveal_strlit("T");
        reveal_strlit("+00:00");
    }
    let spaced = replace_text(value, "T", " ");
    let zoned = replace_text(spaced.as_str(), "+00:00", "Z");
    first_chars(zoned.as_str(), 19).to_owned()
}

/// What an event of a transcript is called.
pub open spec fn event_name(v: Jv) -> Seq<char> {
    match field(v, "update"@) {
        Some(update) => match text_field(update, "method"@) {
            Some(s) => s,
            None => match text_field(update, "type"@) {
                Some(s) => s,
                None => "transcript event"@,
            },
        },
        None => "transcript event"@,
    }
}

/// What an event of a transcript is called.
pub fn summarize_json_value(value: &Json) -> (r: String)
    ensures
        r@ == event_name(value@),
{
    match value.get("update") {
        Some(update) => match update.get_str("method") {
            Some(s) => s.to_owned(),
            None => match update.get_str("type") {
                Some(s) => s.to_owned(),
                None => "transcript event".to_owned(),
            },
        },
        None => "transcript event".to_owned(),
    }
}

/// One line of the log.
#[derive(Debug)]
pub struct LogEvent {
    pub timestamp: String,
    pub source: String,
    pub summary: String,
    pub path: Option<String>,
}

/// One line of the log.
#[verifier::ext_equal]
pub ghost struct LogRow {
    pub timestamp: Seq<char>,
    pub source: Seq<char>,
    pub summary: Seq<char>,
    pub path: Option<Seq<char>>,
}

impl View for LogEvent {
    type V = LogRow;

    open spec fn view(&self) -> LogRow {
        LogRow {
            timestamp: self.timestamp@,
            source: self.source@,
            summary: self.summary@,
            path: opt_text(self.path),
        }
    }
}

/// The lines of a log.
pub open spec fn log_rows(v: Seq<LogEvent>) -> Seq<LogRow> {
    Seq::new(v.len(), |i: int| v[i]@)
}

/// The log line of an automation run.
pub fn run_log_event(run: &AutomationRunRecord, path: &str) -> (r: LogEvent)
    ensures
        r@ == (LogRow {
            timestamp: run.started_at@,
            source: "automation"@,
            summary: run.job_id@ + " "@ + run_status_name(run.status) + " session "@ + take_chars(
                run.session_id@,
                8,
            ),
            path: Some(path@),
        }),
{
    LogEvent {
        timestamp: run.started_at.clone(),
        source: "automation".to_owned(),
        summary: cat5(
            run.job_id.as_str(),
            " ",
            run.status.as_str(),
            " session ",
            first_chars(run.session_id.as_str(), 8),
        ),
        path: Some(path.to_owned()),
    }
}

/// The log line of an event of a session.
pub open spec fn session_log_row(v: Jv, session_id: Seq<char>, path: Seq<char>) -> LogRow {
    LogRow {
        timestamp: crate::json::text_field_or(v, "updated_at"@, ""@),
        source: "session"@,
        summary: take_chars(session_id, 8) + " "@ + event_name(v),
        path: Some(path),
    }
}

/// The log line of an event of a session.
pub fn session_log_event(value: &Json, session_id: &str, path: &str) -> (r: LogEvent)
    ensures
        r@ == session_log_row(value@, session_id@, path@),
{
    LogEvent {
        timestamp: value.str_or("updated_at", "").to_owned(),
        source: "session".to_owned(),
        summary: cat3(first_chars(session_id, 8), " ", summarize_json_value(value).as_str()),
        path: Some(path.to_owned()),
    }
}

/// The log lines of the last `n` lines of a transcript, the last first; a line
/// that cannot be read has none.
pub open spec fn session_log(lines: Seq<Seq<char>>, n: nat, session_id: Seq<char>, path: Seq<char>) -> Seq<
    LogRow,
>
    decreases n,
{
    if n == 0 {
        Seq::empty()
    } else {
        let before = session_log(lines, (n - 1) as nat, session_id, path);
        if n > lines.len() {
            before
        } else {
            match json_read(lines[lines.len() - n]) {
                Ok(v) => before.push(session_log_row(v, session_id, path)),
                Err(_) => before,
            }
        }
    }
}

/// The log lines of the last three lines of a transcript, the last first.
pub fn session_log_events(transcript: &str, session_id: &str, path: &str) -> (r: Vec<LogEvent>)
    ensures
        log_rows(r@) == session_log(lines_of(transcript@), 3, session_id@, path@),
{
    let all = lines(transcript);
    let ghost views = texts(all@);
    let mut logs: Vec<LogEvent> = Vec::new();
    let mut n: usize = 0;
    proof {
        assert(log_rows(logs@) =~= Seq::empty());
    }
    while n < 3
        invariant
            n <= 3,
            views == texts(all@),
            log_rows(logs@) == session_log(views, n as nat, session_id@, path@),
        decreases 3 - n,
    {
        if n < all.len() {
            let at: usize = all.len() - 1 - n;
            proof {
                assert(views[at as int] == all@[at as int]@);
            }
            match parse_json(all[at].as_str()) {
                Ok(value) => {
                    let event = session_log_event(&value, session_id, path);
                    proof {
                        assert(log_rows(logs@.push(event)) =~= log_rows(logs@).push(event@));
                    }
                    logs.push(event);
                },
                Err(_) => {},
            }
        }
        n += 1;
    }
    logs
}

/// The time stamps of log lines.
pub open spec fn log_stamps(logs: Seq<LogEvent>) -> Seq<Seq<char>> {
    Seq::new(logs.len(), |i: int| logs[i].timestamp@)
}

/// The order in which log lines are shown: the latest first.
pub fn log_order(logs: &Vec<LogEvent>) -> (r: Vec<usize>)
    ensures
        is_arrangement(r@, logs@.len()),
        is_sorted_by(r@, log_stamps(logs@), true),
{
    let mut keys: Vec<String> = Vec::new();
    let mut i: usize = 0;
    while i < logs.len()
        invariant
            i <= logs@.len(),
            keys@.len() == i,
            forall|k: int| 0 <= k < i ==> (#[trigger] keys@[k])@ == logs@[k].timestamp@,
        decreases logs@.len() - i,
    {
        keys.push(logs[i].timestamp.clone());
        i += 1;
    }
    proof {
        assert(texts(keys@) =~= log_stamps(logs@));
    }
    sort_order(&keys, true)
}

/// When a job runs, as it is shown.
pub fn schedule_label(schedule: &AutomationSchedule) -> (r: String)
    ensures
        r@ == match *schedule {
            AutomationSchedule::Interval { every_seconds } => "interval "@ + decimal(
                every_seconds as nat,
            ) + "s"@,
            AutomationSchedule::Daily { at } => "daily "@ + at@,
        },
{
    match schedule {
        AutomationSchedule::Interval { every_seconds } => cat3(
            "interval ",
            decimal_text(*every_seconds).as_str(),
            "s",
        ),
        AutomationSchedule::Daily { at } => cat2("daily ", at.as_str()),
    }
}

/// The session of a job, as it is shown.
pub fn session_mode_label(session: &AutomationSessionConfig) -> (r: String)
    ensures
        r@ == match *session {
            AutomationSessionConfig::New => "new"@,
            AutomationSessionConfig::Fixed { session_id } => "fixed "@ + session_id@,
            AutomationSessionConfig::Sticky => "sticky"@,
        },
{
    match session {
        AutomationSessionConfig::New => "new".to_owned(),
        AutomationSessionConfig::Fixed { session_id } => cat2("fixed ", session_id.as_str()),
        AutomationSessionConfig::Sticky => "sticky".to_owned(),
    }
}

/// The service of a Feishu channel, as it is shown.
pub open spec fn domain_name(domain: FeishuChannelDomain) -> Seq<char> {
    match domain {
        FeishuChannelDomain::Feishu => "feishu"@,
        FeishuChannelDomain::Lark => "lark"@,
    }
}

/// The service of a Feishu channel, as it is shown.
pub fn feishu_domain_label(domain: FeishuChannelDomain) -> (r: &'static str)
    ensures
        r@ == domain_name(domain),
{
    match domain {
        FeishuChannelDomain::Feishu => "feishu",
        FeishuChannelDomain::Lark => "lark",
    }
}

/// Who may talk to the agent, as it is shown.
pub open spec fn access_name(policy: FeishuAccessPolicy) -> Seq<char> {
    match policy {
        FeishuAccessPolicy::AllowAll => "allow_all"@,
        FeishuAccessPolicy::WhiteList => "white_list"@,
    }
}

/// Who may talk to the agent, as it is shown.
pub fn feishu_policy_label(policy: FeishuAccessPolicy) -> (r: &'static str)
    ensures
        r@ == access_name(policy),
{
    match policy {
        FeishuAccessPolicy::AllowAll => "allow_all",
        FeishuAccessPolicy::WhiteList => "white_list",
    }
}

/// A yes or no, as it is shown.
pub open spec fn bool_name(b: bool) -> Seq<char> {
    if b {
        "true"@
    } else {
        "false"@
    }
}

fn bool_text(b: bool) -> (r: &'static str)
    ensures
        r@ == bool_name(b),
{
    if b {
        "true"
    } else {
        "false"
    }
}

/// A channel as it is shown.
#[derive(Debug)]
pub struct ChannelRow {
    pub name: &'static str,
    pub enabled: bool,
    pub details: Vec<String>,
}

/// How the channels on this machine are reached: the texts of their
/// authentication and the address of the WebSocket channel.
#[derive(Debug)]
pub struct ChannelEndpoints {
    pub stdio_enabled: bool,
    pub stdio_auth: String,
    pub websocket_bind: String,
    pub websocket_auth: String,
}

/// What is shown of the Weixin channel.
pub open spec fn weixin_details(c: ChannelRuntimeConfig) -> Seq<Seq<char>> {
    let w = c.weixin;
    seq![
        "workspace: "@ + w.workspace_dir@,
        "markdown_filter: "@ + bool_name(w.markdown_filter),
        "media_input: "@ + bool_name(w.media_input),
        "media_output: "@ + bool_name(w.media_output),
        "override_model: "@ + match w.override_model {
            Some(s) => s@,
            None => "-"@,
        },
        "override_thinking: "@ + match w.override_reasoning_mode {
            Some(m) => reasoning_name(m),
            None => "-"@,
        },
    ]
}

/// What is shown of the Feishu channel.
pub open spec fn feishu_details(c: ChannelRuntimeConfig) -> Seq<Seq<char>> {
    let f = c.feishu;
    seq![
        "workspace: "@ + f.workspace_dir@,
        "domain: "@ + domain_name(f.domain),
        "dm_policy: "@ + access_name(f.dm_policy),
        "group_policy: "@ + access_name(f.group_policy),
        "allow_from: "@ + decimal(f.allow_from@.len()),
        "group_allow_from: "@ + decimal(f.group_allow_from@.len()),
        "group_require_mention: "@ + bool_name(f.group_require_mention),
        "media_input: "@ + bool_name(f.media_input),
        "media_output: "@ + bool_name(f.media_output),
        "card_output: "@ + bool_name(f.card_output),
    ]
}

fn weixin_lines(c: &ChannelRuntimeConfig) -> (r: Vec<String>)
    ensures
        texts(r@) == weixin_details(*c),
{
    let w = &c.weixin;
    let model = match &w.override_model {
        Some(s) => s.as_str(),
        None => "-",
    };
    let thinking = match w.override_reasoning_mode {
        Some(m) => m.as_str(),
        None => "-",
    };
    let mut v: Vec<String> = Vec::new();
    v.push(cat2("workspace: ", w.workspace_dir.as_str()));
    v.push(cat2("markdown_filter: ", bool_text(w.markdown_filter)));
    v.push(cat2("media_input: ", bool_text(w.media_input)));
    v.push(cat2("media_output: ", bool_text(w.media_output)));
    v.push(cat2("override_model: ", model));
    v.push(cat2("override_thinking: ", thinking));
    proof {
        assert(texts(v@) =~= weixin_details(*c));
    }
    v
}

fn feishu_lines(c: &ChannelRuntimeConfig) -> (r: Vec<String>)
    ensures
        texts(r@) == feishu_details(*c),
{
    let f = &c.feishu;
    let mut v: Vec<String> = Vec::new();
    v.push(cat2("workspace: ", f.workspace_dir.as_str()));
    v.push(cat2("domain: ", feishu_domain_label(f.domain)));
    v.push(cat2("dm_policy: ", feishu_policy_label(f.dm_policy)));
    v.push(cat2("group_policy: ", feishu_policy_label(f.group_policy)));
    v.push(cat2("allow_from: ", decimal_text(f.allow_from.len() as u64).as_str()));
    v.push(cat2("group_allow_from: ", decimal_text(f.group_allow_from.len() as u64).as_str()));
    v.push(cat2("group_require_mention: ", bool_text(f.group_require_mention)));
    v.push(cat2("media_input: ", bool_text(f.media_input)));
    v.push(cat2("media_output: ", bool_text(f.media_output)));
    v.push(cat2("card_output: ", bool_text(f.card_output)));
    proof {
        assert(texts(v@) =~= feishu_details(*c));
    }
    v
}

/// Whether a row shows a channel.
pub open spec fn shows_channel(row: ChannelRow, name: Seq<char>, enabled: bool, details: Seq<Seq<char>>) -> bool {
    row.name@ == name && row.enabled == enabled && texts(row.details@) == details
}

/// The channels as they are shown.
pub fn channel_rows(config: &ChannelRuntimeConfig, ends: &ChannelEndpoints) -> (r: Vec<ChannelRow>)
    ensures
        r@.len() == crate::tui::CHANNEL_ROW_COUNT,
        shows_channel(r@[0], "stdio"@, ends.stdio_enabled, seq!["auth: "@ + ends.stdio_auth@]),
        shows_channel(
            r@[1],
            "websocket"@,
            config.websocket.enabled,
            seq!["bind: "@ + ends.websocket_bind@, "auth: "@ + ends.websocket_auth@],
        ),
        shows_channel(r@[2], "weixin"@, config.weixin.enabled, weixin_details(*config)),
        shows_channel(r@[3], "feishu"@, config.feishu.enabled, feishu_details(*config)),
{
    let mut stdio: Vec<String> = Vec::new();
    stdio.push(cat2("auth: ", ends.stdio_auth.as_str()));
    let mut websocket: Vec<String> = Vec::new();
    websocket.push(cat2("bind: ", ends.websocket_bind.as_str()));
    websocket.push(cat2("auth: ", ends.websocket_auth.as_str()));
    proof {
        assert(texts(stdio@) =~= seq!["auth: "@ + ends.stdio_auth@]);
        assert(texts(websocket@) =~= seq![
            "bind: "@ + ends.websocket_bind@,
            "auth: "@ + ends.websocket_auth@,
        ]);
    }
    let mut rows: Vec<ChannelRow> = Vec::new();
    rows.push(ChannelRow { name: "stdio", enabled: ends.stdio_enabled, details: stdio });
    rows.push(
        ChannelRow { name: "websocket", enabled: config.websocket.enabled, details: websocket },
    );
    rows.push(
        ChannelRow {
            name: "weixin",
            enabled: config.weixin.enabled,
            details: weixin_lines(config),
        },
    );
    rows.push(
        ChannelRow {
            name: "feishu",
            enabled: config.feishu.enabled,
            details: feishu_lines(config),
        },
    );
    rows
}

/// A skill on the list of skills.
#[derive(Debug)]
pub struct SkillRow {
    pub name: String,
    pub source: String,
    pub path: String,
    pub description: String,
    pub status: &'static str,
}

/// Shows a skill by what was read of its file; one that cannot be used is
/// shown by its directory and by what is wrong with it.
pub fn skill_row(
    read: Result<SkillProperties, String>,
    directory_name: &str,
    source: &str,
    path: &str,
) -> (r: SkillRow)
    ensures
        r.source@ == source@,
        r.path@ == path@,
        match read {
            Ok(p) => {
                &&& r.name@ == p.name@
                &&& r.description@ == p.description@
                &&& r.status@ == "available"@
            },
            Err(e) => {
                &&& r.name@ == directory_name@
                &&& r.description@ == e@
                &&& r.status@ == "invalid"@
            },
        },
{
    match read {
        Ok(p) => SkillRow {
            name: p.name,
            source: source.to_owned(),
            path: path.to_owned(),
            description: p.description,
            status: "available",
        },
        Err(e) => SkillRow {
            name: directory_name.to_owned(),
            source: source.to_owned(),
            path: path.to_owned(),
            description: e,
            status: "invalid",
        },
    }
}

/// The names of skills.
pub open spec fn row_names(rows: Seq<SkillRow>) -> Seq<Seq<char>> {
    Seq::new(rows.len(), |i: int| rows[i].name@)
}

/// By what the paths of skills are ordered.
pub open spec fn row_paths(rows: Seq<SkillRow>, windows: bool) -> Seq<Seq<Seq<char>>> {
    Seq::new(rows.len(), |i: int| path_key(rows[i].path@, windows))
}

/// The order in which skills are shown: by name, then by path, part by part.
pub fn skill_order(rows: &Vec<SkillRow>, windows: bool) -> (r: Vec<usize>)
    ensures
        is_arrangement(r@, rows@.len()),
        is_sorted_by_list(r@, row_names(rows@), row_paths(rows@, windows)),
{
    let mut names: Vec<String> = Vec::new();
    let mut paths: Vec<Vec<String>> = Vec::new();
    let mut i: usize = 0;
    while i < rows.len()
        invariant
            i <= rows@.len(),
            names@.len() == i,
            paths@.len() == i,
            forall|k: int| 0 <= k < i ==> (#[trigger] names@[k])@ == row_names(rows@)[k],
            forall|k: int|
                0 <= k < i ==> texts((#[trigger] paths@[k])@) == row_paths(rows@, windows)[k],
        decreases rows@.len() - i,
    {
        names.push(rows[i].name.clone());
        paths.push(order_key(rows[i].path.as_str(), windows));
        i += 1;
    }
    proof {
        assert(texts(names@) =~= row_names(rows@));
        assert(text_lists(paths@) =~= row_paths(rows@, windows));
    }
    sort_order_by_list(&names, &paths)
}

/// When runs began.
pub open spec fn run_starts(runs: Seq<AutomationRunRecord>) -> Seq<Seq<char>> {
    Seq::new(runs.len(), |i: int| runs[i].started_at@)
}

/// The order in which runs are shown: the one that began last first.
pub fn run_order(runs: &Vec<AutomationRunRecord>) -> (r: Vec<usize>)
    ensures
        is_arrangement(r@, runs@.len()),
        is_sorted_by(r@, run_starts(runs@), true),
{
    let mut keys: Vec<String> = Vec::new();
    let mut i: usize = 0;
    while i < runs.len()
        invariant
            i <= runs@.len(),
            keys@.len() == i,
            forall|k: int| 0 <= k < i ==> (#[trigger] keys@[k])@ == run_starts(runs@)[k],
        decreases runs@.len() - i,
    {
        keys.push(runs[i].started_at.clone());
        i += 1;
    }
    proof {
        assert(texts(keys@) =~= run_starts(runs@));
    }
    sort_order(&keys, true)
}

/// How many runs of a job are shown.
pub const JOB_RUNS_LIMIT: usize = 12;

/// The places of a job's runs among the first `n` of `order`.
pub open spec fn runs_of_job(
    runs: Seq<AutomationRunRecord>,
    order: Seq<usize>,
    job_id: Seq<char>,
    n: int,
) -> Seq<usize>
    decreases n,
{
    if n <= 0 || n > order.len() {
        Seq::empty()
    } else if runs[order[n - 1] as int].job_id@ == job_id {
        runs_of_job(runs, order, job_id, n - 1).push(order[n - 1])
    } else {
        runs_of_job(runs, order, job_id, n - 1)
    }
}

proof fn lemma_runs_of_job_grow(
    runs: Seq<AutomationRunRecord>,
    order: Seq<usize>,
    job_id: Seq<char>,
    n: int,
    m: int,
)
    requires
        0 <= n <= m <= order.len(),
    ensures
        runs_of_job(runs, order, job_id, n).len() <= runs_of_job(runs, order, job_id, m).len(),
        runs_of_job(runs, order, job_id, m).take(
            runs_of_job(runs, order, job_id, n).len() as int,
        ) == runs_of_job(runs, order, job_id, n),
    decreases m - n,
{
    let short = runs_of_job(runs, order, job_id, n);
    if n < m {
        lemma_runs_of_job_grow(runs, order, job_id, n, m - 1);
        let before = runs_of_job(runs, order, job_id, m - 1);
        let all = runs_of_job(runs, order, job_id, m);
        assert(all.take(short.len() as int) =~= before.take(short.len() as int));
    } else {
        assert(short.take(short.len() as int) =~= short);
    }
}

/// The places of the runs of a job that are shown: the first of them, in an
/// order.
pub fn job_runs(runs: &Vec<AutomationRunRecord>, order: &Vec<usize>, job_id: &str) -> (r: Vec<usize>)
    requires
        forall|k: int| 0 <= k < order@.len() ==> (#[trigger] order@[k]) < runs@.len(),
    ensures
        ({
            let all = runs_of_job(runs@, order@, job_id@, order@.len() as int);
            r@ == if all.len() <= JOB_RUNS_LIMIT {
                all
            } else {
                all.take(JOB_RUNS_LIMIT as int)
            }
        }),
{
    let mut out: Vec<usize> = Vec::new();
    let mut i: usize = 0;
    while i < order.len() && out.len() < JOB_RUNS_LIMIT
        invariant
            i <= order@.len(),
            out@.len() <= JOB_RUNS_LIMIT,
            forall|k: int| 0 <= k < order@.len() ==> (#[trigger] order@[k]) < runs@.len(),
            out@ == runs_of_job(runs@, order@, job_id@, i as int),
        decreases order@.len() - i,
    {
        let place: usize = order[i];
        if str_eq(runs[place].job_id.as_str(), job_id) {
            out.push(place);
        }
        i += 1;
    }
    proof {
        let all = runs_of_job(runs@, order@, job_id@, order@.len() as int);
        lemma_runs_of_job_grow(runs@, order@, job_id@, i as int, order@.len() as int);
        assert(all.take(all.len() as int) =~= all);
    }
    out
}

/// A list that fits is shown whole, with commas between its values; one that does not
/// is shown by as many of its first values as fit, and says that there are more.
pub proof fn law_list_that_fits_is_shown_whole(values: Seq<Seq<char>>, max: int)
    requires
        values.len() > 0,
        forall|i: int| 0 <= i < values.len() ==> (#[trigger] values[i]).len() > 0,
    ensures
        join_of(values, ", "@).len() <= max ==> limited(values, max) == join_of(values, ", "@),
        values[0].len() > max ==> limited(values, max) == ", ..."@,
        values.len() > 1 && values[0].len() <= max < values[0].len() + 2 + values[1].len()
            ==> limited(values, max) == values[0] + ", ..."@,
{
    reveal_strlit(", ");
    if join_of(values, ", "@).len() <= max {
        assert(values.skip(0) =~= values);
        lemma_joined_within(values, 0, Seq::empty(), max);
    }
    assert(Seq::<char>::empty() + values[0] =~= values[0]);
    assert(Seq::<char>::empty() + ", ..."@ =~= ", ..."@);
    if values.len() > 1 && values[0].len() <= max < values[0].len() + 2 + values[1].len() {
        assert(joined_within(values, 1, values[0], max) == values[0] + ", ..."@);
    }
}

proof fn lemma_joined_within(values: Seq<Seq<char>>, i: int, out: Seq<char>, max: int)
    requires
        0 <= i <= values.len(),
        forall|k: int| 0 <= k < values.len() ==> (#[trigger] values[k]).len() > 0,
        i < values.len() ==> out.len() + (if out.len() == 0 {
            0
        } else {
            2int
        }) + join_of(values.skip(i), ", "@).len() <= max,
        ", "@.len() == 2,
    ensures
        i < values.len() ==> joined_within(values, i, out, max) == (if out.len() == 0 {
            join_of(values.skip(i), ", "@)
        } else {
            out + ", "@ + join_of(values.skip(i), ", "@)
        }),
        i == values.len() ==> joined_within(values, i, out, max) == out,
    decreases values.len() - i,
{
    if i < values.len() {
        let rest = values.skip(i);
        assert(rest[0] == values[i]);
        lemma_join_from_left(rest, ", "@);
        assert(rest.skip(1) =~= values.skip(i + 1));
        let next = if out.len() == 0 {
            values[i]
        } else {
            ", "@ + values[i]
        };
        assert(values[i].len() > 0);
        lemma_joined_within(values, i + 1, out + next, max);
        if i + 1 == values.len() {
            assert(out.len() == 0 ==> out + next =~= values[i]);
            assert(out + (", "@ + values[i]) =~= out + ", "@ + values[i]);
        } else {
            let more = join_of(values.skip(i + 1), ", "@);
            if out.len() == 0 {
                assert(out + next =~= values[i]);
            } else {
                assert(out + (", "@ + values[i]) + ", "@ + more =~= out + ", "@ + (values[i] + ", "@
                    + more));
            }
        }
    }
}

/// A list is its first value, then the separator and the rest.
proof fn lemma_join_from_left(v: Seq<Seq<char>>, sep: Seq<char>)
    requires
        v.len() > 0,
    ensures
        v.len() == 1 ==> join_of(v, sep) == v[0],
        v.len() > 1 ==> join_of(v, sep) == v[0] + sep + join_of(v.skip(1), sep),
{
    if v.len() > 1 {
        crate::text::law_joined_lists_follow_each_other(v.take(1), v.skip(1), sep);
        assert(v.take(1) + v.skip(1) =~= v);
        assert(v.take(1)[0] == v[0]);
    }
}

/// The servers are read under either of their two names, the usual one first.
pub proof fn law_servers_are_read_under_either_name(v: Jv, m: Map<Seq<char>, Jv>)
    ensures
        field(v, "mcpServers"@) == Some(Jv::Object(m)) ==> server_map_of(v) == Some(m),
        field(v, "mcpServers"@) is None && field(v, "servers"@) == Some(Jv::Object(m))
            ==> server_map_of(v) == Some(m),
        field(v, "mcpServers"@) is None && field(v, "servers"@) is None ==> server_map_of(v) is None,
{
}

/// A server is shown with how it is reached and where.
pub proof fn law_server_is_shown_with_its_target(config: Jv, s: Seq<char>)
    ensures
        text_field(config, "transport"@) == Some(s) ==> transport_of(config) == s,
        text_field(config, "transport"@) is None && text_field(config, "type"@) == Some(s)
            ==> transport_of(config) == s,
        text_field(config, "transport"@) is None && text_field(config, "type"@) is None && text_field(
            config,
            "url"@,
        ) is Some ==> transport_of(config) == "http"@,
        text_field(config, "transport"@) is None && text_field(config, "type"@) is None && text_field(
            config,
            "url"@,
        ) is None && text_field(config, "command"@) is Some ==> transport_of(config) == "stdio"@,
        text_field(config, "command"@) == Some(s) && !is_blank(s) ==> target_of(config) == s,
        text_field(config, "command"@) is None && text_field(config, "url"@) == Some(s) && !is_blank(
            s,
        ) ==> target_of(config) == s,
        text_field(config, "command"@) is None && text_field(config, "url"@) is None ==> target_of(
            config,
        ) == "-"@,
{
}

/// Every server has its row, in the order of the names; an entry that is no object is
/// shown as invalid.
pub proof fn law_every_server_has_its_row(v: Jv, m: Map<Seq<char>, Jv>, i: int)
    requires
        server_map_of(v) == Some(m),
        0 <= i < sorted_texts(m.dom()).len(),
    ensures
        ({
            let rows = rows_of(Ok(v));
            let name = sorted_texts(m.dom())[i];
            &&& rows.status == "available"@ && rows.error is None
            &&& rows.servers.len() == sorted_texts(m.dom()).len()
            &&& rows.servers[i].name == name
            &&& m[name] is Object ==> rows.servers[i].transport == transport_of(m[name])
                && rows.servers[i].target == target_of(m[name])
            &&& !(m[name] is Object) ==> rows.servers[i].transport == "invalid"@
        }),
{
}

/// A file of servers that is missing, cannot be read or names none says so.
pub proof fn law_missing_servers_are_told(file: McpFile)
    ensures
        file is Missing ==> mcp_rows(file).status == "missing"@ && mcp_rows(file).servers.len() == 0,
        file matches McpFile::Unreadable(e) ==> mcp_rows(file).status == "invalid"@ && mcp_rows(
            file,
        ).error == Some(e@),
        file matches McpFile::Text(s) ==> {
            &&& json_read(s@) matches Err(e) ==> mcp_rows(file).status == "invalid"@ && mcp_rows(
                file,
            ).error == Some(e)
            &&& json_read(s@) matches Ok(v) ==> (server_map_of(v) is None ==> mcp_rows(file).status
                == "empty"@ && mcp_rows(file).error is Some)
        },
{
}

/// The details of a server tell how many arguments it has and which keys, never their
/// values.
pub proof fn law_details_count_the_arguments(config: Map<Seq<char>, Jv>, items: Seq<Jv>)
    ensures
        field(Jv::Object(config), "args"@) == Some(Jv::Array(items)) ==> details_of(config).len()
            > 0 && details_of(config)[0] == "args: "@ + decimal(items.len()),
        field(Jv::Object(config), "args"@) is None ==> (field(
            Jv::Object(config),
            "env"@,
        ) matches Some(Jv::Object(m)) ==> details_of(config).len() > 0 && details_of(config)[0]
            == "env keys: "@ + limited(sorted_texts(m.dom()), 120)),
        field(Jv::Object(config), "args"@) is None && field(Jv::Object(config), "env"@) is None ==> (
        field(Jv::Object(config), "headers"@) matches Some(Jv::Object(m)) ==> details_of(
            config,
        ).len() > 0 && details_of(config)[0] == "header keys: "@ + limited(
            sorted_texts(m.dom()),
            120,
        )),
{
}

/// Keys that have a place of their own are not among the others; all the others are.
pub proof fn law_other_keys_are_all_the_others(keys: Seq<Seq<char>>, n: nat, k: Seq<char>)
    requires
        n <= keys.len(),
    ensures
        other_keys(keys, n).contains(k) <==> keys.take(n as int).contains(k) && k != "args"@ && k
            != "command"@ && k != "env"@ && k != "headers"@ && k != "transport"@ && k != "type"@ && k
            != "url"@,
    decreases n,
{
    if n > 0 {
        law_other_keys_are_all_the_others(keys, (n - 1) as nat, k);
        let last = keys[n - 1];
        let before = other_keys(keys, (n - 1) as nat);
        let front = keys.take(n - 1);
        let all = keys.take(n as int);
        assert(all =~= front.push(last));
        assert(all.contains(k) <==> front.contains(k) || k == last) by {
            if front.contains(k) {
                let j = choose|j: int| 0 <= j < front.len() && front[j] == k;
                assert(all[j] == k);
            }
            if k == last {
                assert(all[n - 1] == k);
            }
            if all.contains(k) {
                let j = choose|j: int| 0 <= j < all.len() && all[j] == k;
                if j < n - 1 {
                    assert(front[j] == k);
                }
            }
        }
        if !is_known_key(last) {
            let now = before.push(last);
            assert(now.contains(k) <==> before.contains(k) || k == last) by {
                if before.contains(k) {
                    let j = choose|j: int| 0 <= j < before.len() && before[j] == k;
                    assert(now[j] == k);
                }
                if k == last {
                    assert(now[before.len() as int] == k);
                }
                if now.contains(k) {
                    let j = choose|j: int| 0 <= j < now.len() && now[j] == k;
                    if j < before.len() {
                        assert(before[j] == k);
                    }
                }
            }
        }
    } else {
        assert(keys.take(0).len() == 0);
    }
}

/// A file is shown by its first lines.
pub proof fn law_preview_shows_the_beginning(text: Seq<char>, i: int)
    ensures
        ({
            let all = lines_of(trim_of(text));
            &&& all.len() <= 120 ==> preview_lines(text) == all
            &&& all.len() > 120 ==> preview_lines(text).len() == 120
            &&& 0 <= i < preview_lines(text).len() ==> preview_lines(text)[i] == all[i]
        }),
{
}

/// The tools of a session are those of its groups, then those that its schemas name,
/// each once.
pub proof fn law_session_tools_are_all_named(groups: Seq<Seq<char>>, schemas: Seq<Jv>, n: nat, i: int)
    requires
        0 <= i < n <= schemas.len(),
    ensures
        schema_name(schemas[i]) matches Some(s) ==> tool_names_of(groups, schemas, n).contains(s),
        tool_names_of(groups, schemas, n).len() >= groups.len(),
        tool_names_of(groups, schemas, n).take(groups.len() as int) == groups,
    decreases n,
{
    let before = tool_names_of(groups, schemas, (n - 1) as nat);
    let now = tool_names_of(groups, schemas, n);
    if n > 1 {
        law_session_tools_are_all_named(
            groups,
            schemas,
            (n - 1) as nat,
            if i < n - 1 {
                i
            } else {
                0
            },
        );
    } else {
        assert(before == groups);
        assert(groups.take(groups.len() as int) =~= groups);
    }
    assert(now.take(groups.len() as int) =~= before.take(groups.len() as int));
    if let Some(s) = schema_name(schemas[i]) {
        if i < n - 1 {
            let j = choose|j: int| 0 <= j < before.len() && before[j] == s;
            assert(now[j] == s);
        } else if !before.contains(s) {
            assert(now[before.len() as int] == s);
        }
    }
}

/// The groups of tools are those that are enabled.
pub proof fn law_groups_are_those_enabled(tools: AgentTools)
    ensures
        tools.file_edit is Enable && tools.terminal is Enable && tools.subagent is Enable
            ==> group_names(tools) == seq!["file_edit"@, "terminal"@, "subagent"@],
        tools.file_edit is Enable && tools.terminal is Disable && tools.subagent is Disable
            ==> group_names(tools) == seq!["file_edit"@],
        tools.file_edit is Disable && tools.terminal is Enable && tools.subagent is Disable
            ==> group_names(tools) == seq!["terminal"@],
        tools.file_edit is Disable && tools.terminal is Disable && tools.subagent is Enable
            ==> group_names(tools) == seq!["subagent"@],
        tools.file_edit is Disable && tools.terminal is Disable && tools.subagent is Disable
            ==> group_names(tools).len() == 0,
{
    reveal_strlit("file_edit");
    reveal_strlit("terminal");
    reveal_strlit("subagent");
    let a = "file_edit"@;
    let b = "terminal"@;
    let c = "subagent"@;
    assert(a.len() == 9 && b.len() == 8 && c.len() == 8 && b[0] == 't' && c[0] == 's');
    assert(seq![a, b].contains(c) ==> false) by {
        if seq![a, b].contains(c) {
            let j = choose|j: int| 0 <= j < 2 && seq![a, b][j] == c;
            assert(seq![a, b][0] == a && seq![a, b][1] == b);
        }
    }
    assert(!seq![a].contains(b) && !seq![a].contains(c));
    assert(!Seq::<Seq<char>>::empty().contains(b));
    assert(!Seq::<Seq<char>>::empty().contains(c));
    if tools.file_edit is Enable && tools.terminal is Enable && tools.subagent is Enable {
        assert(seq![a].push(b) =~= seq![a, b]);
        assert(group_names(tools) =~= seq![a, b, c]);
    }
    assert(Seq::<Seq<char>>::empty().push(b) =~= seq![b]);
    assert(Seq::<Seq<char>>::empty().push(c) =~= seq![c]);
}

/// The name of a schema is that of its function, or its own.
pub proof fn law_schema_is_named(schema: Jv, f: Jv, s: Seq<char>)
    ensures
        field(schema, "function"@) == Some(f) && text_field(f, "name"@) == Some(s) ==> schema_name(
            schema,
        ) == Some(s),
        field(schema, "function"@) is None && text_field(schema, "name"@) == Some(s) ==> schema_name(
            schema,
        ) == Some(s),
        field(schema, "function"@) is None && field(schema, "name"@) is None ==> schema_name(
            schema,
        ) is None,
{
}

/// A session is shown by its title, or by its id where it has none.
pub proof fn law_session_is_shown_by_its_title(title: Option<Seq<char>>, id: Seq<char>)
    ensures
        title matches Some(t) ==> (!is_blank(t) ==> title_of(title, id) == t),
        title matches Some(t) ==> (is_blank(t) ==> title_of(title, id) == id),
        title is None ==> title_of(title, id) == id,
{
}

/// An event is named by its method, or by its type.
pub proof fn law_event_is_named(v: Jv, update: Jv, s: Seq<char>)
    requires
        field(v, "update"@) == Some(update),
    ensures
        text_field(update, "method"@) == Some(s) ==> event_name(v) == s,
        text_field(update, "method"@) is None && text_field(update, "type"@) == Some(s)
            ==> event_name(v) == s,
        text_field(update, "method"@) is None && text_field(update, "type"@) is None ==> event_name(
            v,
        ) == "transcript event"@,
{
}

/// The log of a session tells of its last entries, the last first.
pub proof fn law_log_begins_with_the_last_entry(
    lines: Seq<Seq<char>>,
    n: nat,
    id: Seq<char>,
    path: Seq<char>,
    v: Jv,
)
    requires
        0 < n <= lines.len(),
        json_read(lines[lines.len() - n]) == Ok::<Jv, Seq<char>>(v),
    ensures
        ({
            let log = session_log(lines, n, id, path);
            let before = session_log(lines, (n - 1) as nat, id, path);
            &&& log.len() == before.len() + 1 && log.take(before.len() as int) == before
            &&& log.last().source == "session"@ && log.last().path == Some(path)
            &&& text_field(v, "updated_at"@) matches Some(t) ==> log.last().timestamp == t
            &&& id.len() == 8 ==> log.last().summary == id + " "@ + event_name(v)
            &&& session_log(lines, 0, id, path).len() == 0
        }),
{
    let log = session_log(lines, n, id, path);
    let before = session_log(lines, (n - 1) as nat, id, path);
    assert(log.take(before.len() as int) =~= before);
    assert(id.len() == 8 ==> id.take(8) =~= id);
}

/// A time stamp is shown without its zone and with a blank before the time.
pub proof fn law_plain_text_is_not_replaced(s: Seq<char>, from: Seq<char>, to: Seq<char>, i: int)
    requires
        0 <= i <= s.len(),
        from.len() > 0,
        forall|k: int| i <= k < s.len() ==> (#[trigger] s[k]) != from[0],
    ensures
        replaced_from(s, from, to, i) == s.skip(i),
    decreases s.len() - i,
{
    if i < s.len() {
        law_plain_text_is_not_replaced(s, from, to, i + 1);
        assert(s[i] != from[0]);
        if i + from.len() <= s.len() {
            assert(s.subrange(i, i + from.len())[0] == s[i]);
        }
        assert(seq![s[i]] + s.skip(i + 1) =~= s.skip(i));
    } else {
        assert(s.skip(i) =~= Seq::empty());
    }
}

/// The first occurrence of a text is replaced, and what follows it in turn.
pub proof fn law_occurrence_is_replaced(
    s: Seq<char>,
    a: Seq<char>,
    from: Seq<char>,
    to: Seq<char>,
    i: int,
)
    requires
        0 <= i <= a.len(),
        from.len() > 0,
        a.len() + from.len() <= s.len(),
        s.take(a.len() as int) == a,
        s.subrange(a.len() as int, (a.len() + from.len()) as int) == from,
        forall|k: int| 0 <= k < a.len() ==> (#[trigger] a[k]) != from[0],
    ensures
        replaced_from(s, from, to, i) == a.skip(i) + to + replaced_from(
            s,
            from,
            to,
            (a.len() + from.len()) as int,
        ),
    decreases a.len() - i,
{
    let rest = replaced_from(s, from, to, (a.len() + from.len()) as int);
    if i < a.len() {
        law_occurrence_is_replaced(s, a, from, to, i + 1);
        assert(s.take(a.len() as int)[i] == s[i]);
        if i + from.len() <= s.len() {
            assert(s.subrange(i, i + from.len())[0] == s[i]);
        }
        assert(a[i] != from[0]);
        assert(seq![s[i]] + (a.skip(i + 1) + to + rest) =~= a.skip(i) + to + rest);
    } else {
        assert(a.skip(i) + to + rest =~= to + rest);
    }
}

/// The details of the channels are told under their names.
pub proof fn law_channel_details_are_told(c: ChannelRuntimeConfig)
    ensures
        weixin_details(c).len() == 6,
        weixin_details(c)[0] == "workspace: "@ + c.weixin.workspace_dir@,
        weixin_details(c)[1] == "markdown_filter: "@ + (if c.weixin.markdown_filter {
            "true"@
        } else {
            "false"@
        }),
        weixin_details(c)[2] == "media_input: "@ + (if c.weixin.media_input {
            "true"@
        } else {
            "false"@
        }),
        weixin_details(c)[3] == "media_output: "@ + (if c.weixin.media_output {
            "true"@
        } else {
            "false"@
        }),
        c.weixin.override_model matches Some(m) ==> weixin_details(c)[4] == "override_model: "@ + m@,
        c.weixin.override_reasoning_mode matches Some(m) ==> weixin_details(c)[5]
            == "override_thinking: "@ + reasoning_name(m),
        feishu_details(c).len() == 10,
        feishu_details(c)[0] == "workspace: "@ + c.feishu.workspace_dir@,
        feishu_details(c)[1] == "domain: "@ + (if c.feishu.domain is Lark {
            "lark"@
        } else {
            "feishu"@
        }),
        feishu_details(c)[2] == "dm_policy: "@ + (if c.feishu.dm_policy is AllowAll {
            "allow_all"@
        } else {
            "white_list"@
        }),
        feishu_details(c)[3] == "group_policy: "@ + (if c.feishu.group_policy is AllowAll {
            "allow_all"@
        } else {
            "white_list"@
        }),
        feishu_details(c)[4] == "allow_from: "@ + decimal(c.feishu.allow_from@.len()),
        feishu_details(c)[5] == "group_allow_from: "@ + decimal(c.feishu.group_allow_from@.len()),
        feishu_details(c)[6] == "group_require_mention: "@ + (if c.feishu.group_require_mention {
            "true"@
        } else {
            "false"@
        }),
        feishu_details(c)[7] == "media_input: "@ + (if c.feishu.media_input {
            "true"@
        } else {
            "false"@
        }),
        feishu_details(c)[8] == "media_output: "@ + (if c.feishu.media_output {
            "true"@
        } else {
            "false"@
        }),
        feishu_details(c)[9] == "card_output: "@ + (if c.feishu.card_output {
            "true"@
        } else {
            "false"@
        }),
{
}

/// The runs of a job are all of its runs, and only its own, in the order of the list.
pub proof fn law_runs_of_a_job_are_its_own(
    runs: Seq<AutomationRunRecord>,
    order: Seq<usize>,
    job_id: Seq<char>,
    n: int,
    i: int,
)
    requires
        0 <= i < n <= order.len(),
    ensures
        runs[order[i] as int].job_id@ == job_id ==> runs_of_job(runs, order, job_id, n).contains(
            order[i],
        ),
        forall|k: int|
            0 <= k < runs_of_job(runs, order, job_id, n).len() ==> runs[(#[trigger] runs_of_job(
                runs,
                order,
                job_id,
                n,
            )[k]) as int].job_id@ == job_id,
        runs[order[n - 1] as int].job_id@ == job_id ==> runs_of_job(runs, order, job_id, n).last()
            == order[n - 1],
    decreases n,
{
    let before = runs_of_job(runs, order, job_id, n - 1);
    let now = runs_of_job(runs, order, job_id, n);
    if n > 1 {
        law_runs_of_a_job_are_its_own(
            runs,
            order,
            job_id,
            n - 1,
            if i < n - 1 {
                i
            } else {
                0
            },
        );
    } else {
        assert(before.len() == 0);
    }
    if runs[order[i] as int].job_id@ == job_id {
        if i < n - 1 {
            let j = choose|j: int| 0 <= j < before.len() && before[j] == order[i];
            assert(now[j] == order[i]);
        } else {
            assert(now[before.len() as int] == order[i]);
        }
    }
}

/// A time stamp in universal time is shown with a blank between date and time, and
/// without what is behind the seconds.
pub proof fn law_stamp_is_shown_readably(date: Seq<char>, time: Seq<char>)
    requires
        date.len() == 10,
        time.len() == 8,
        forall|k: int| 0 <= k < date.len() ==> (#[trigger] date[k]) != 'T' && date[k] != '+',
        forall|k: int| 0 <= k < time.len() ==> (#[trigger] time[k]) != 'T' && time[k] != '+',
    ensures
        shown_stamp(date + "T"@ + time + "+00:00"@) == date + " "@ + time,
{
    reveal_strlit("T");
    reveal_strlit(" ");
    reveal_strlit("+00:00");
    reveal_strlit("Z");
    let zone = "+00:00"@;
    let value = date + "T"@ + time + zone;
    assert(value.take(10) =~= date);
    assert(value.subrange(10, 11) =~= "T"@);
    law_occurrence_is_replaced(value, date, "T"@, " "@, 0);
    assert forall|k: int| 11 <= k < value.len() implies (#[trigger] value[k]) != 'T' by {
        if k < 19 {
            assert(value[k] == time[k - 11]);
        } else {
            assert(value[k] == zone[k - 19]);
        }
    }
    law_plain_text_is_not_replaced(value, "T"@, " "@, 11);
    let first = replaced_from(value, "T"@, " "@, 0);
    assert(first =~= date + " "@ + time + zone);
    let front = date + " "@ + time;
    assert(first.take(19) =~= front);
    assert(first.subrange(19, 25) =~= zone);
    assert forall|k: int| 0 <= k < front.len() implies (#[trigger] front[k]) != '+' by {
        if k < 10 {
            assert(front[k] == date[k]);
        } else if k > 10 {
            assert(front[k] == time[k - 11]);
        }
    }
    law_occurrence_is_replaced(first, front, zone, "Z"@, 0);
    let second = replaced_from(first, zone, "Z"@, 0);
    assert(second =~= front + "Z"@);
    assert(second.take(19) =~= front);
}

} // verus!
