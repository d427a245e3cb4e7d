//! The capabilities that MCP servers offer, and how they are found and used.

use crate::json::{
    as_count, copy_or_null, field, fields, json_views, lemma_json_views, lemma_json_views_push,
    no_members, opt_ref_view, plain, plain_text, put, put_text, text_field, text_field_or, text_or_null, Json, Jv,
    Member,
};
use crate::order::{is_arrangement, is_sorted_by, is_sorted_by_two, sort_order, sort_order_by_two};
use crate::paths::{join_path, joined_on};
use crate::subagent::or_null;
use crate::text::{
    cat2, chars_of, contains_char, contains_sub, contains_text, join, join_of, lemma_texts_push,
    lowercase, opt_str, opt_text, str_eq, texts, to_lowercase, trim, trim_of,
};
use crate::tools::{env_map, env_of, EnvVar};
use vstd::prelude::*;

verus! {

/// What a server offers.
#[derive(Debug, Clone, Copy, PartialEq, Eq, Structural)]
pub enum McpKind {
    Tool,
    Prompt,
    Resource,
}

/// The name of a kind.
pub open spec fn kind_name(k: McpKind) -> Seq<char> {
    match k {
        McpKind::Tool => "tool"@,
        McpKind::Prompt => "prompt"@,
        McpKind::Resource => "resource"@,
    }
}

impl McpKind {
    /// The name of the kind.
    pub fn as_str(&self) -> (r: &'static str)
        ensures
            r@ == kind_name(*self),
    {
        match self {
            McpKind::Tool => "tool",
            McpKind::Prompt => "prompt",
            McpKind::Resource => "resource",
        }
    }

    /// The kind of a name.
    pub fn parse(value: &str) -> (r: Result<Self, String>)
        ensures
            match r {
                Ok(k) => kind_name(k) == value@,
                Err(e) => e@ == "Unsupported MCP capability kind: "@ + value@ && forall|k: McpKind|
                    #[trigger] kind_name(k) != value@,
            },
    {
        if str_eq(value, "tool") {
            Ok(McpKind::Tool)
        } else if str_eq(value, "prompt") {
            Ok(McpKind::Prompt)
        } else if str_eq(value, "resource") {
            Ok(McpKind::Resource)
        } else {
            Err(cat2("Unsupported MCP capability kind: ", value))
        }
    }
}

/// No two kinds have the same name.
pub proof fn law_kind_names_differ(a: McpKind, b: McpKind)
    requires
        kind_name(a) == kind_name(b),
    ensures
        a == b,
{
    reveal_strlit("tool");
    reveal_strlit("prompt");
    reveal_strlit("resource");
    assert("tool"@.len() == 4);
    assert("prompt"@.len() == 6);
    assert("resource"@.len() == 8);
}

/// A capability.
#[derive(Debug)]
pub enum McpCatalogItem {
    Tool {
        server: String,
        name: String,
        description: String,
        signature: Json,
    },
    Prompt {
        server: String,
        name: String,
        description: String,
        signature: Json,
    },
    Resource { server: String, uri: String, description: String, mime_type: Option<String> },
}

/// The kind of a capability.
pub open spec fn item_kind(i: McpCatalogItem) -> McpKind {
    match i {
        McpCatalogItem::Tool { .. } => McpKind::Tool,
        McpCatalogItem::Prompt { .. } => McpKind::Prompt,
        McpCatalogItem::Resource { .. } => McpKind::Resource,
    }
}

/// The server of a capability.
pub open spec fn item_server(i: McpCatalogItem) -> Seq<char> {
    match i {
        McpCatalogItem::Tool { server, .. } => server@,
        McpCatalogItem::Prompt { server, .. } => server@,
        McpCatalogItem::Resource { server, .. } => server@,
    }
}

/// The name of a capability; that of a resource is where it is found.
pub open spec fn item_name(i: McpCatalogItem) -> Seq<char> {
    match i {
        McpCatalogItem::Tool { name, .. } => name@,
        McpCatalogItem::Prompt { name, .. } => name@,
        McpCatalogItem::Resource { uri, .. } => uri@,
    }
}

/// The signature of a capability as a text; a resource has none.
pub open spec fn signature_text(i: McpCatalogItem) -> Seq<char> {
    match i {
        McpCatalogItem::Tool { signature, .. } => plain_text(signature),
        McpCatalogItem::Prompt { signature, .. } => plain_text(signature),
        McpCatalogItem::Resource { .. } => ""@,
    }
}

/// The texts of a capability, in the order in which its members are told.
pub open spec fn item_texts(i: McpCatalogItem, signature: Seq<char>) -> Seq<Seq<char>> {
    match i {
        McpCatalogItem::Tool { server, name, description, .. } => seq![
            server@,
            "tool"@,
            name@,
            description@,
            signature,
        ],
        McpCatalogItem::Prompt { server, name, description, .. } => seq![
            server@,
            "prompt"@,
            name@,
            description@,
            signature,
        ],
        McpCatalogItem::Resource { server, uri, description, mime_type } => seq![
            server@,
            "resource"@,
            uri@,
            description@,
            uri@,
            match mime_type {
                Some(m) => m@,
                None => "null"@,
            },
        ],
    }
}

/// The text that a capability is found by.
pub open spec fn search_text(i: McpCatalogItem) -> Seq<char> {
    lowercase(join_of(item_texts(i, signature_text(i)), " "@))
}

/// A capability as a value.
pub open spec fn item_view(i: McpCatalogItem) -> Jv {
    let head = Map::<Seq<char>, Jv>::empty().insert("server"@, Jv::Text(item_server(i))).insert(
        "kind"@,
        Jv::Text(kind_name(item_kind(i))),
    ).insert("name"@, Jv::Text(item_name(i)));
    Jv::Object(
        match i {
            McpCatalogItem::Tool { description, signature, .. } => head.insert(
                "description"@,
                Jv::Text(description@),
            ).insert("signature"@, signature@),
            McpCatalogItem::Prompt { description, signature, .. } => head.insert(
                "description"@,
                Jv::Text(description@),
            ).insert("signature"@, signature@),
            McpCatalogItem::Resource { uri, description, mime_type, .. } => head.insert(
                "description"@,
                Jv::Text(description@),
            ).insert("uri"@, Jv::Text(uri@)).insert(
                "mime_type"@,
                match mime_type {
                    Some(m) => Jv::Text(m@),
                    None => Jv::Null,
                },
            ),
        },
    )
}

fn push_str(v: &mut Vec<String>, s: &str)
    ensures
        texts(final(v)@) == texts(old(v)@).push(s@),
{
    let owned = s.to_owned();
    proof {
        lemma_texts_push(v@, owned);
    }
    v.push(owned);
}

impl McpCatalogItem {
    /// The kind.
    pub fn kind(&self) -> (r: McpKind)
        ensures
            r == item_kind(*self),
    {
        match self {
            McpCatalogItem::Tool { .. } => McpKind::Tool,
            McpCatalogItem::Prompt { .. } => McpKind::Prompt,
            McpCatalogItem::Resource { .. } => McpKind::Resource,
        }
    }

    /// The server.
    pub fn server(&self) -> (r: &str)
        ensures
            r@ == item_server(*self),
    {
        match self {
            McpCatalogItem::Tool { server, .. } => server.as_str(),
            McpCatalogItem::Prompt { server, .. } => server.as_str(),
            McpCatalogItem::Resource { server, .. } => server.as_str(),
        }
    }

    /// The name.
    pub fn name(&self) -> (r: &str)
        ensures
            r@ == item_name(*self),
    {
        match self {
            McpCatalogItem::Tool { name, .. } => name.as_str(),
            McpCatalogItem::Prompt { name, .. } => name.as_str(),
            McpCatalogItem::Resource { uri, .. } => uri.as_str(),
        }
    }

    fn plain_texts(&self, signature: &str) -> (r: Vec<String>)
        ensures
            texts(r@) == item_texts(*self, signature@),
    {
        let mut v: Vec<String> = Vec::new();
        proof {
            assert(texts(v@) =~= Seq::empty());
        }
        match self {
            McpCatalogItem::Tool { server, name, description, .. } => {
                push_str(&mut v, server.as_str());
                push_str(&mut v, "tool");
                push_str(&mut v, name.as_str());
                push_str(&mut v, description.as_str());
                push_str(&mut v, signature);
            },
            McpCatalogItem::Prompt { server, name, description, .. } => {
                push_str(&mut v, server.as_str());
                push_str(&mut v, "prompt");
                push_str(&mut v, name.as_str());
                push_str(&mut v, description.as_str());
                push_str(&mut v, signature);
            },
            McpCatalogItem::Resource { server, uri, description, mime_type } => {
                push_str(&mut v, server.as_str());
                push_str(&mut v, "resource");
                push_str(&mut v, uri.as_str());
                push_str(&mut v, description.as_str());
                push_str(&mut v, uri.as_str());
                match mime_type {
                    Some(m) => push_str(&mut v, m.as_str()),
                    None => push_str(&mut v, "null"),
                }
            },
        }
        proof {
            assert(texts(v@) =~= item_texts(*self, signature@));
        }
        v
    }

    /// The text that the capability is found by.
    pub fn as_search_text(&self) -> (r: String)
        ensures
            r@ == search_text(*self),
    {
        let signature = match self {
            McpCatalogItem::Tool { signature, .. } => plain(signature),
            McpCatalogItem::Prompt { signature, .. } => plain(signature),
            McpCatalogItem::Resource { .. } => "".to_owned(),
        };
        let text = self.words(signature.as_str());
        to_lowercase(text.as_str())
    }

    /// The words of the capability, with the text of its signature.
    pub fn words(&self, signature: &str) -> (r: String)
        ensures
            r@ == join_of(item_texts(*self, signature@), " "@),
    {
        join(&self.plain_texts(signature), " ")
    }

    /// The capability as a value.
    pub fn to_json(&self) -> (r: Json)
        ensures
            r@ == item_view(*self),
    {
        let mut m = no_members();
        put_text(&mut m, "server", self.server());
        put_text(&mut m, "kind", self.kind().as_str());
        put_text(&mut m, "name", self.name());
        match self {
            McpCatalogItem::Tool { description, signature, .. } => {
                put_text(&mut m, "description", description.as_str());
                put(&mut m, "signature", signature.copy());
            },
            McpCatalogItem::Prompt { description, signature, .. } => {
                put_text(&mut m, "description", description.as_str());
                put(&mut m, "signature", signature.copy());
            },
            McpCatalogItem::Resource { uri, description, mime_type, .. } => {
                put_text(&mut m, "description", description.as_str());
                put_text(&mut m, "uri", uri.as_str());
                put(&mut m, "mime_type", text_or_null(mime_type));
            },
        }
        Json::Object(m)
    }
}

/// The servers of a catalog and what they offer.
#[derive(Debug)]
pub struct McpCatalog {
    pub server_names: Vec<String>,
    pub items: Vec<McpCatalogItem>,
}

/// Whether a capability is what a search asks for.
pub open spec fn is_hit(i: McpCatalogItem, kind: McpKind, server: Seq<char>, query: Seq<char>) -> bool {
    &&& item_kind(i) == kind
    &&& server.len() == 0 || item_server(i) == server
    &&& query.len() == 0 || contains_sub(search_text(i), query)
}

/// The hits among the first `n` capabilities.
pub open spec fn hits(
    items: Seq<McpCatalogItem>,
    kind: McpKind,
    server: Seq<char>,
    query: Seq<char>,
    n: nat,
) -> Seq<McpCatalogItem>
    decreases n,
{
    if n == 0 || n > items.len() {
        Seq::empty()
    } else {
        let before = hits(items, kind, server, query, (n - 1) as nat);
        if is_hit(items[n - 1], kind, server, query) {
            before.push(items[n - 1])
        } else {
            before
        }
    }
}

/// The servers of capabilities, as they are ordered.
pub open spec fn server_keys(v: Seq<McpCatalogItem>) -> Seq<Seq<char>> {
    Seq::new(v.len(), |i: int| lowercase(item_server(v[i])))
}

/// The names of capabilities, as they are ordered.
pub open spec fn name_keys(v: Seq<McpCatalogItem>) -> Seq<Seq<char>> {
    Seq::new(v.len(), |i: int| lowercase(item_name(v[i])))
}

/// Whether `list` holds the first of the hits, by server and name.
pub open spec fn lists_hits(list: Seq<Jv>, found: Seq<McpCatalogItem>, limit: nat) -> bool {
    exists|order: Seq<usize>|
        {
            &&& #[trigger] is_arrangement(order, found.len())
            &&& is_sorted_by_two(order, server_keys(found), name_keys(found))
            &&& list == Seq::new(
                if found.len() <= limit {
                    found.len()
                } else {
                    limit
                },
                |k: int| item_view(found[order[k] as int]),
            )
        }
}

/// Whether a catalog knows a server.
pub open spec fn knows_server(names: Seq<String>, server: Seq<char>) -> bool {
    exists|i: int| 0 <= i < names.len() && (#[trigger] names[i])@ == server
}

/// Why a search is refused, if so.
pub open spec fn search_problem(names: Seq<String>, server: Seq<char>, limit: nat) -> Option<Seq<char>> {
    if limit < 1 {
        Some("limit must be greater than or equal to 1"@)
    } else if server.len() > 0 && !knows_server(names, server) {
        Some("Unknown MCP server: "@ + server)
    } else {
        None
    }
}

fn has_server(names: &Vec<String>, server: &str) -> (r: bool)
    ensures
        r == knows_server(names@, server@),
{
    let mut i: usize = 0;
    while i < names.len()
        invariant
            i <= names@.len(),
            forall|k: int| 0 <= k < i ==> (#[trigger] names@[k])@ != server@,
        decreases names@.len() - i,
    {
        if str_eq(names[i].as_str(), server) {
            proof {
                assert(names@[i as int]@ == server@);
            }
            return true;
        }
        i += 1;
    }
    false
}

impl McpCatalog {
    /// Finds capabilities of a kind: of a server, where one is named, and with
    /// a text, where one is given.
    pub fn search(&self, query: &str, servername: &str, kind: McpKind, limit: usize) -> (r: Result<
        Vec<Json>,
        String,
    >)
        ensures
            match search_problem(self.server_names@, trim_of(servername@), limit as nat) {
                Some(e) => r matches Err(error) && error@ == e,
                None => r matches Ok(list) && lists_hits(
                    json_views(list@),
                    hits(
                        self.items@,
                        kind,
                        trim_of(servername@),
                        lowercase(trim_of(query@)),
                        self.items@.len(),
                    ),
                    limit as nat,
                ),
            },
    {
        if limit < 1 {
            return Err("limit must be greater than or equal to 1".to_owned());
        }
        let server = trim(servername);
        if !server.is_empty() && !has_server(&self.server_names, server) {
            return Err(cat2("Unknown MCP server: ", server));
        }
        let query_text = to_lowercase(trim(query));
        let ghost found = hits(self.items@, kind, server@, query_text@, self.items@.len());
        let mut places: Vec<usize> = Vec::new();
        let mut servers: Vec<String> = Vec::new();
        let mut names: Vec<String> = Vec::new();
        let mut i: usize = 0;
        while i < self.items.len()
            invariant
                i <= self.items@.len(),
                places@.len() == hits(self.items@, kind, server@, query_text@, i as nat).len(),
                servers@.len() == places@.len(),
                names@.len() == places@.len(),
                forall|k: int|
                    0 <= k < places@.len() ==> (#[trigger] places@[k]) < self.items@.len()
                        && self.items@[places@[k] as int] == hits(
                        self.items@,
                        kind,
                        server@,
                        query_text@,
                        i as nat,
                    )[k],
                forall|k: int|
                    0 <= k < places@.len() ==> (#[trigger] servers@[k])@ == lowercase(
                        item_server(
                            hits(self.items@, kind, server@, query_text@, i as nat)[k],
                        ),
                    ),
                forall|k: int|
                    0 <= k < places@.len() ==> (#[trigger] names@[k])@ == lowercase(
                        item_name(hits(self.items@, kind, server@, query_text@, i as nat)[k]),
                    ),
            decreases self.items@.len() - i,
        {
            let item = &self.items[i];
            let of_server = server.is_empty() || str_eq(item.server(), server);
            if item.kind() == kind && of_server && (query_text.as_str().is_empty() || contains_text(
                item.as_search_text().as_str(),
                query_text.as_str(),
            )) {
                places.push(i);
                servers.push(to_lowercase(item.server()));
                names.push(to_lowercase(item.name()));
            }
            i += 1;
        }
        let order = sort_order_by_two(&servers, &names);
        proof {
            assert(texts(servers@) =~= server_keys(found));
            assert(texts(names@) =~= name_keys(found));
        }
        let shown: usize = if order.len() <= limit {
            order.len()
        } else {
            limit
        };
        let ghost want = Seq::new(
            shown as nat,
            |k: int| item_view(found[order@[k] as int]),
        );
        let mut out: Vec<Json> = Vec::new();
        let mut k: usize = 0;
        proof {
            lemma_json_views(out@);
            assert(json_views(out@) =~= want.take(0));
        }
        while k < shown
            invariant
                k <= shown <= order@.len(),
                is_arrangement(order@, found.len()),
                places@.len() == found.len(),
                forall|k: int|
                    0 <= k < places@.len() ==> (#[trigger] places@[k]) < self.items@.len()
                        && self.items@[places@[k] as int] == found[k],
                want == Seq::new(shown as nat, |k: int| item_view(found[order@[k] as int])),
                json_views(out@) == want.take(k as int),
            decreases shown - k,
        {
            proof {
                assert(order@[k as int] < found.len());
                assert(places@[order@[k as int] as int] < self.items@.len());
            }
            let value = self.items[places[order[k]]].to_json();
            proof {
                lemma_json_views_push(out@, value);
                assert(want[k as int] == value@);
                assert(want.take(k + 1) =~= want.take(k as int).push(want[k as int]));
            }
            out.push(value);
            k += 1;
        }
        proof {
            assert(want.take(want.len() as int) =~= want);
            assert(is_arrangement(order@, found.len()));
        }
        Ok(out)
    }

    /// The server that a call names.
    pub fn require_server(&self, servername: &str) -> (r: Result<usize, String>)
        ensures
            ({
                let name = trim_of(servername@);
                if name.len() == 0 {
                    r matches Err(e) && e@ == "servername is required"@
                } else if knows_server(self.server_names@, name) {
                    r matches Ok(i) && i < self.server_names@.len() && self.server_names@[i as int]@
                        == name && (forall|k: int|
                        0 <= k < i ==> (#[trigger] self.server_names@[k])@ != name)
                } else {
                    r matches Err(e) && e@ == "Unknown MCP server: "@ + name
                }
            }),
    {
        let name = trim(servername);
        if name.is_empty() {
            return Err("servername is required".to_owned());
        }
        let mut i: usize = 0;
        while i < self.server_names.len()
            invariant
                i <= self.server_names@.len(),
                name@ == trim_of(servername@),
                name@.len() > 0,
                forall|k: int| 0 <= k < i ==> (#[trigger] self.server_names@[k])@ != name@,
            decreases self.server_names@.len() - i,
        {
            if str_eq(self.server_names[i].as_str(), name) {
                proof {
                    assert(self.server_names@[i as int]@ == name@);
                }
                return Ok(i);
            }
            i += 1;
        }
        Err(cat2("Unknown MCP server: ", name))
    }
}

/// What a search finds is what it asks for.
pub proof fn law_hits_are_asked_for(
    items: Seq<McpCatalogItem>,
    kind: McpKind,
    server: Seq<char>,
    query: Seq<char>,
    n: nat,
    i: int,
)
    requires
        0 <= i < hits(items, kind, server, query, n).len(),
    ensures
        is_hit(hits(items, kind, server, query, n)[i], kind, server, query),
        items.contains(hits(items, kind, server, query, n)[i]),
    decreases n,
{
    let before = hits(items, kind, server, query, (n - 1) as nat);
    if i < before.len() {
        law_hits_are_asked_for(items, kind, server, query, (n - 1) as nat, i);
    }
}

/// Whether a value tells of one of some capabilities.
pub open spec fn is_one_of(v: Jv, found: Seq<McpCatalogItem>) -> bool {
    exists|i: int| 0 <= i < found.len() && v == item_view(#[trigger] found[i])
}

/// A search lists no more than its limit, and nothing that it did not find.
pub proof fn law_search_keeps_its_limit(list: Seq<Jv>, found: Seq<McpCatalogItem>, limit: nat)
    requires
        lists_hits(list, found, limit),
    ensures
        list.len() <= limit,
        forall|k: int| 0 <= k < list.len() ==> is_one_of(#[trigger] list[k], found),
{
    let order = choose|order: Seq<usize>|
        {
            &&& #[trigger] is_arrangement(order, found.len())
            &&& is_sorted_by_two(order, server_keys(found), name_keys(found))
            &&& list == Seq::new(
                if found.len() <= limit {
                    found.len()
                } else {
                    limit
                },
                |k: int| item_view(found[order[k] as int]),
            )
        };
    assert forall|k: int| 0 <= k < list.len() implies is_one_of(#[trigger] list[k], found) by {
        assert(order[k] < found.len());
        assert(list[k] == item_view(found[order[k] as int]));
    }
}

/// The names of servers, as they are ordered.
pub open spec fn lowered(v: Seq<String>) -> Seq<Seq<char>> {
    Seq::new(v.len(), |i: int| lowercase(v[i]@))
}

/// The order in which servers are connected: by name, without regard to case.
pub fn server_order(names: &Vec<String>) -> (r: Vec<usize>)
    ensures
        is_arrangement(r@, names@.len()),
        is_sorted_by(r@, lowered(names@), false),
{
    let mut keys: Vec<String> = Vec::new();
    let mut i: usize = 0;
    while i < names.len()
        invariant
            i <= names@.len(),
            keys@.len() == i,
            forall|k: int| 0 <= k < i ==> (#[trigger] keys@[k])@ == lowercase(names@[k]@),
        decreases names@.len() - i,
    {
        keys.push(to_lowercase(names[i].as_str()));
        i += 1;
    }
    proof {
        assert(texts(keys@) =~= lowered(names@));
    }
    sort_order(&keys, false)
}

/// Whether a command is a path rather than the name of a program.
pub open spec fn path_like(command: Seq<char>) -> bool {
    ||| command.len() > 0 && (command[0] == '.' || command[0] == '~')
    ||| command.contains('/')
    ||| command.contains('\\')
}

/// Whether a command is a path rather than the name of a program.
pub fn is_path_like_command(command: &str) -> (r: bool)
    ensures
        r == path_like(command@),
{
    let v = chars_of(command);
    (v.len() > 0 && (v[0] == '.' || v[0] == '~')) || contains_char(command, '/')
        || contains_char(command, '\\')
}

/// A configured path, below a directory where there is one.
pub fn resolve_mcp_path(value: &str, base_dir: Option<&str>, windows: bool) -> (r: String)
    ensures
        r@ == match base_dir {
            Some(base) => joined_on(base@, value@, windows),
            None => value@,
        },
{
    match base_dir {
        Some(base) => join_path(base, value, windows),
        None => value.to_owned(),
    }
}

/// The program that a command names: a path is taken from the working
/// directory, a name is left to be looked up.
pub fn resolve_program_path(command: &str, cwd: &str, windows: bool) -> (r: String)
    ensures
        r@ == if path_like(command@) {
            joined_on(cwd@, command@, windows)
        } else {
            command@
        },
{
    if is_path_like_command(command) {
        join_path(cwd, command, windows)
    } else {
        command.to_owned()
    }
}

/// How a server is started.
#[derive(Debug)]
pub struct ServerCommand {
    pub program: String,
    pub args: Vec<String>,
    pub env: Vec<EnvVar>,
    pub cwd: Option<String>,
}

/// The arguments of a server: what is no text is empty.
pub open spec fn text_items(items: Seq<Jv>) -> Seq<Seq<char>> {
    Seq::new(
        items.len(),
        |i: int|
            match items[i] {
                Jv::Text(s) => s,
                _ => ""@,
            },
    )
}

/// Whether a command starts the server that a configuration describes.
pub open spec fn starts_server(
    c: ServerCommand,
    config: Jv,
    base_dir: Option<Seq<char>>,
    windows: bool,
) -> bool {
    let command = text_field_or(config, "command"@, ""@);
    let cwd = match text_field(config, "cwd"@) {
        Some(v) => Some(
            match base_dir {
                Some(base) => joined_on(base, v, windows),
                None => v,
            },
        ),
        None => None,
    };
    &&& opt_text(c.cwd) == cwd
    &&& c.program@ == match cwd {
        Some(dir) => if path_like(command) {
            joined_on(dir, command, windows)
        } else {
            command
        },
        None => command,
    }
    &&& texts(c.args@) == match field(config, "args"@) {
        Some(Jv::Array(items)) => text_items(items),
        _ => Seq::empty(),
    }
    &&& env_map(c.env@, c.env@.len()) == match field(config, "env"@) {
        Some(Jv::Object(m)) => env_of(m),
        _ => Map::empty(),
    }
}

fn read_args(items: &Vec<Json>) -> (r: Vec<String>)
    ensures
        texts(r@) == text_items(json_views(items@)),
{
    let ghost all = json_views(items@);
    let ghost want = text_items(all);
    let mut out: Vec<String> = Vec::new();
    let mut i: usize = 0;
    proof {
        lemma_json_views(items@);
        assert(texts(out@) =~= want.take(0));
    }
    while i < items.len()
        invariant
            i <= items@.len(),
            all == json_views(items@),
            all.len() == items@.len(),
            forall|k: int| 0 <= k < items@.len() ==> #[trigger] all[k] == items@[k]@,
            want == text_items(all),
            texts(out@) == want.take(i as int),
        decreases items@.len() - i,
    {
        proof {
            assert(all[i as int] == items@[i as int]@);
        }
        let text = match items[i].as_str() {
            Some(s) => s.to_owned(),
            None => "".to_owned(),
        };
        proof {
            lemma_texts_push(out@, text);
            assert(want.take(i + 1) =~= want.take(i as int).push(want[i as int]));
        }
        out.push(text);
        i += 1;
    }
    proof {
        assert(want.take(want.len() as int) =~= want);
    }
    out
}

/// Reads how a server is started.
pub fn server_command(config: &Json, base_dir: Option<&str>, windows: bool) -> (r: Result<
    ServerCommand,
    String,
>)
    ensures
        if !(config@ is Object) {
            r matches Err(e) && e@ == "MCP server config must be an object"@
        } else if text_field(config@, "command"@) is None {
            r matches Err(e) && e@ == "MCP server config missing `command`"@
        } else {
            r matches Ok(c) && starts_server(c, config@, opt_str(base_dir), windows)
        },
{
    if config.as_object().is_none() {
        return Err("MCP server config must be an object".to_owned());
    }
    let command = match config.get_str("command") {
        Some(c) => c,
        None => return Err("MCP server config missing `command`".to_owned()),
    };
    let args = match config.get("args") {
        Some(Json::Array(items)) => read_args(items),
        _ => {
            let none: Vec<String> = Vec::new();
            proof {
                assert(texts(none@) =~= Seq::empty());
            }
            none
        },
    };
    let env = match config.get("env") {
        Some(Json::Object(m)) => crate::tools::read_env(m),
        _ => Vec::new(),
    };
    let cwd = match config.get_str("cwd") {
        Some(v) => Some(resolve_mcp_path(v, base_dir, windows)),
        None => None,
    };
    let program = match &cwd {
        Some(dir) => resolve_program_path(command, dir.as_str(), windows),
        None => command.to_owned(),
    };
    Ok(ServerCommand { program, args, env, cwd })
}

/// The first of two members that is there.
pub open spec fn either(v: Jv, a: Seq<char>, b: Seq<char>) -> Option<Jv> {
    match field(v, a) {
        Some(x) => Some(x),
        None => field(v, b),
    }
}

fn either_of<'a>(v: &'a Json, a: &str, b: &str) -> (r: Option<&'a Json>)
    ensures
        opt_ref_view(r) == either(v@, a@, b@),
{
    match v.get(a) {
        Some(x) => Some(x),
        None => v.get(b),
    }
}

/// A member, and an empty list where there is none.
pub open spec fn or_empty_list(v: Option<Jv>) -> Jv {
    match v {
        Some(x) => x,
        None => Jv::Array(Seq::empty()),
    }
}

fn list_or_empty(v: Option<&Json>) -> (r: Json)
    ensures
        r@ == or_empty_list(opt_ref_view(v)),
{
    match v {
        Some(x) => x.copy(),
        None => {
            let none: Vec<Json> = Vec::new();
            proof {
                lemma_json_views(none@);
                assert(json_views(none@) =~= Seq::empty());
            }
            Json::Array(none)
        },
    }
}

/// What is told of a tool's answer.
pub open spec fn tool_answer(server: Seq<char>, name: Seq<char>, result: Jv) -> Jv {
    Jv::Object(
        Map::<Seq<char>, Jv>::empty().insert("server"@, Jv::Text(server)).insert(
            "name"@,
            Jv::Text(name),
        ).insert("content"@, or_empty_list(field(result, "content"@))).insert(
            "structured_content"@,
            or_null(either(result, "structuredContent"@, "structured_content"@)),
        ).insert(
            "is_error"@,
            Jv::Bool(either(result, "isError"@, "is_error"@) == Some(Jv::Bool(true))),
        ),
    )
}

/// What is told of a tool's answer.
pub fn tool_result(servername: &str, toolname: &str, result: &Json) -> (r: Json)
    ensures
        r@ == tool_answer(servername@, toolname@, result@),
{
    let is_error = match either_of(result, "isError", "is_error") {
        Some(Json::Bool(b)) => *b,
        _ => false,
    };
    let mut m = no_members();
    put_text(&mut m, "server", servername);
    put_text(&mut m, "name", toolname);
    put(&mut m, "content", list_or_empty(result.get("content")));
    put(
        &mut m,
        "structured_content",
        copy_or_null(either_of(result, "structuredContent", "structured_content")),
    );
    put(&mut m, "is_error", Json::Bool(is_error));
    Json::Object(m)
}

/// What is told of a prompt.
pub fn prompt_result(servername: &str, promptname: &str, result: &Json) -> (r: Json)
    ensures
        r@ == Jv::Object(
            Map::<Seq<char>, Jv>::empty().insert("server"@, Jv::Text(servername@)).insert(
                "name"@,
                Jv::Text(promptname@),
            ).insert("messages"@, or_empty_list(field(result@, "messages"@))),
        ),
{
    let mut m = no_members();
    put_text(&mut m, "server", servername);
    put_text(&mut m, "name", promptname);
    put(&mut m, "messages", list_or_empty(result.get("messages")));
    Json::Object(m)
}

/// The type of the first content of a resource.
pub open spec fn mime_of(contents: Jv) -> Option<Seq<char>> {
    match field(contents, "contents"@) {
        Some(Jv::Array(items)) => if items.len() == 0 {
            None
        } else {
            crate::json::as_text(either(items[0], "mimeType"@, "mime_type"@))
        },
        _ => None,
    }
}

/// The type of the first content of a resource.
pub fn resource_mime_type(contents: &Json) -> (r: Option<String>)
    ensures
        opt_text(r) == mime_of(contents@),
{
    match contents.get("contents") {
        Some(Json::Array(items)) => {
            proof {
                lemma_json_views(items@);
            }
            if items.len() == 0 {
                return None;
            }
            proof {
                assert(json_views(items@)[0] == items@[0]@);
            }
            match either_of(&items[0], "mimeType", "mime_type") {
                Some(v) => match v.as_str() {
                    Some(s) => Some(s.to_owned()),
                    None => None,
                },
                None => None,
            }
        },
        _ => None,
    }
}

/// What is told of a resource.
pub fn resource_result(servername: &str, resourcename: &str, contents: &Json) -> (r: Json)
    ensures
        r@ == Jv::Object(
            Map::<Seq<char>, Jv>::empty().insert("server"@, Jv::Text(servername@)).insert(
                "uri"@,
                Jv::Text(resourcename@),
            ).insert(
                "mime_type"@,
                match mime_of(contents@) {
                    Some(s) => Jv::Text(s),
                    None => Jv::Null,
                },
            ).insert("contents"@, contents@),
        ),
{
    let mime = resource_mime_type(contents);
    let mut m = no_members();
    put_text(&mut m, "server", servername);
    put_text(&mut m, "uri", resourcename);
    put(&mut m, "mime_type", text_or_null(&mime));
    put(&mut m, "contents", contents.copy());
    Json::Object(m)
}

/// An argument of a prompt as a server describes it.
#[derive(Debug)]
pub struct PromptArgument {
    pub name: String,
    pub description: Option<String>,
    pub required: Option<bool>,
}

/// An argument of a prompt in its signature.
pub open spec fn argument_view(a: PromptArgument) -> Jv {
    Jv::Object(
        Map::<Seq<char>, Jv>::empty().insert("name"@, Jv::Text(a.name@)).insert(
            "description"@,
            Jv::Text(
                match a.description {
                    Some(s) => s@,
                    None => ""@,
                },
            ),
        ).insert("required"@, Jv::Bool(a.required == Some(true))),
    )
}

/// The signature of a prompt.
pub fn prompt_signature(arguments: &Vec<PromptArgument>) -> (r: Json)
    ensures
        r@ == Jv::Object(
            Map::<Seq<char>, Jv>::empty().insert(
                "arguments"@,
                Jv::Array(Seq::new(arguments@.len(), |i: int| argument_view(arguments@[i]))),
            ),
        ),
{
    let ghost want = Seq::new(arguments@.len(), |i: int| argument_view(arguments@[i]));
    let mut items: Vec<Json> = Vec::new();
    let mut i: usize = 0;
    proof {
        lemma_json_views(items@);
        assert(json_views(items@) =~= want.take(0));
    }
    while i < arguments.len()
        invariant
            i <= arguments@.len(),
            want == Seq::new(arguments@.len(), |i: int| argument_view(arguments@[i])),
            json_views(items@) == want.take(i as int),
        decreases arguments@.len() - i,
    {
        let a = &arguments[i];
        let description = match &a.description {
            Some(s) => s.as_str(),
            None => "",
        };
        let required = match a.required {
            Some(b) => b,
            None => false,
        };
        let mut m = no_members();
        put_text(&mut m, "name", a.name.as_str());
        put_text(&mut m, "description", description);
        put(&mut m, "required", Json::Bool(required));
        let item = Json::Object(m);
        proof {
            lemma_json_views_push(items@, item);
            assert(want[i as int] == item@);
            assert(want.take(i + 1) =~= want.take(i as int).push(want[i as int]));
        }
        items.push(item);
        i += 1;
    }
    proof {
        assert(want.take(want.len() as int) =~= want);
    }
    let mut m = no_members();
    put(&mut m, "arguments", Json::Array(items));
    Json::Object(m)
}

/// What a program of code mode asks a server for.
#[derive(Debug)]
pub enum InjectedCall {
    Search { query: String, server: String, kind: McpKind, limit: usize },
    Tool { server: String, name: String, arguments: Vec<Member> },
    Prompt { server: String, name: String, arguments: Vec<Member> },
    Resource { server: String, name: String },
}

/// What a program of code mode asks a server for.
#[verifier::ext_equal]
pub ghost enum InjectedView {
    Search { query: Seq<char>, server: Seq<char>, kind: McpKind, limit: int },
    Tool { server: Seq<char>, name: Seq<char>, arguments: Map<Seq<char>, Jv> },
    Prompt { server: Seq<char>, name: Seq<char>, arguments: Map<Seq<char>, Jv> },
    Resource { server: Seq<char>, name: Seq<char> },
}

impl View for InjectedCall {
    type V = InjectedView;

    open spec fn view(&self) -> InjectedView {
        match *self {
            InjectedCall::Search { query, server, kind, limit } => InjectedView::Search {
                query: query@,
                server: server@,
                kind,
                limit: limit as int,
            },
            InjectedCall::Tool { server, name, arguments } => InjectedView::Tool {
                server: server@,
                name: name@,
                arguments: fields(arguments@),
            },
            InjectedCall::Prompt { server, name, arguments } => InjectedView::Prompt {
                server: server@,
                name: name@,
                arguments: fields(arguments@),
            },
            InjectedCall::Resource { server, name } => InjectedView::Resource {
                server: server@,
                name: name@,
            },
        }
    }
}

/// The `i`-th argument, where there is one.
pub open spec fn arg(args: Seq<Jv>, i: int) -> Option<Jv> {
    if 0 <= i < args.len() {
        Some(args[i])
    } else {
        None
    }
}

/// The text of the `i`-th argument, or a default.
pub open spec fn arg_text(args: Seq<Jv>, i: int, default: Seq<char>) -> Seq<char> {
    match arg(args, i) {
        Some(Jv::Text(s)) => s,
        _ => default,
    }
}

/// The object of the `i`-th argument, or an empty one.
pub open spec fn arg_object(args: Seq<Jv>, i: int) -> Map<Seq<char>, Jv> {
    match arg(args, i) {
        Some(Jv::Object(m)) => m,
        _ => Map::empty(),
    }
}

/// How many hits a search asks for.
pub open spec fn arg_limit(args: Seq<Jv>) -> int {
    match as_count(arg(args, 3)) {
        Some(n) => n as u64 as usize as int,
        None => 5,
    }
}

/// The names under which a program of code mode reaches the servers.
pub open spec fn is_injected(name: Seq<char>) -> bool {
    name == "search_mcp"@ || name == "mcp_tool"@ || name == "mcp_prompt"@ || name
        == "mcp_resource"@
}

fn text_arg<'a>(args: &'a Vec<Json>, i: usize, default: &'a str) -> (r: &'a str)
    ensures
        r@ == arg_text(json_views(args@), i as int, default@),
{
    proof {
        lemma_json_views(args@);
        if i < args@.len() {
            assert(json_views(args@)[i as int] == args@[i as int]@);
        }
    }
    if i < args.len() {
        match args[i].as_str() {
            Some(s) => s,
            None => default,
        }
    } else {
        default
    }
}

fn object_arg(args: &Vec<Json>, i: usize) -> (r: Vec<Member>)
    ensures
        fields(r@) == arg_object(json_views(args@), i as int),
{
    proof {
        lemma_json_views(args@);
        if i < args@.len() {
            assert(json_views(args@)[i as int] == args@[i as int]@);
        }
    }
    if i < args.len() {
        match &args[i] {
            Json::Object(m) => crate::json::clone_members(m),
            _ => no_members(),
        }
    } else {
        no_members()
    }
}

fn limit_arg(args: &Vec<Json>) -> (r: usize)
    ensures
        r == arg_limit(json_views(args@)),
{
    proof {
        lemma_json_views(args@);
        if 3 < args@.len() {
            assert(json_views(args@)[3] == args@[3]@);
        }
    }
    if 3 < args.len() {
        match args[3].as_u64() {
            Some(n) => n as usize,
            None => 5,
        }
    } else {
        5
    }
}

/// Reads what a program of code mode asks for; a name that is not one of the
/// injected functions is nobody's.
pub fn read_injected_call(name: &str, args: &Vec<Json>) -> (r: Result<Option<InjectedCall>, String>)
    ensures
        ({
            let a = json_views(args@);
            if name@ == "search_mcp"@ {
                let kind = arg_text(a, 2, "tool"@);
                (r matches Ok(Some(c)) && (c@ matches InjectedView::Search {
                    query,
                    server,
                    kind: k,
                    limit,
                } && query == arg_text(a, 0, ""@) && server == arg_text(a, 1, ""@) && kind_name(k)
                    == kind && limit == arg_limit(a))) || ((forall|k: McpKind|
                    #[trigger] kind_name(k) != kind) && (r matches Err(e) && e@
                    == "Unsupported MCP capability kind: "@ + kind))
            } else if name@ == "mcp_tool"@ {
                r matches Ok(Some(c)) && c@ == (InjectedView::Tool {
                    server: arg_text(a, 0, ""@),
                    name: arg_text(a, 1, ""@),
                    arguments: arg_object(a, 2),
                })
            } else if name@ == "mcp_prompt"@ {
                r matches Ok(Some(c)) && c@ == (InjectedView::Prompt {
                    server: arg_text(a, 0, ""@),
                    name: arg_text(a, 1, ""@),
                    arguments: arg_object(a, 2),
                })
            } else if name@ == "mcp_resource"@ {
                r matches Ok(Some(c)) && c@ == (InjectedView::Resource {
                    server: arg_text(a, 0, ""@),
                    name: arg_text(a, 1, ""@),
                })
            } else {
                r matches Ok(None)
            }
        }),
{
    proof {
        reveal_strlit("search_mcp");
        reveal_strlit("mcp_tool");
        reveal_strlit("mcp_prompt");
        reveal_strlit("mcp_resource");
        assert("search_mcp"@[0] == 's');
        assert("mcp_tool"@.len() == 8);
        assert("mcp_prompt"@.len() == 10);
        assert("mcp_prompt"@[0] == 'm');
        assert("mcp_resource"@.len() == 12);
    }
    if str_eq(name, "search_mcp") {
        let kind = match McpKind::parse(text_arg(args, 2, "tool")) {
            Ok(k) => k,
            Err(e) => return Err(e),
        };
        return Ok(
            Some(
                InjectedCall::Search {
                    query: text_arg(args, 0, "").to_owned(),
                    server: text_arg(args, 1, "").to_owned(),
                    kind,
                    limit: limit_arg(args),
                },
            ),
        );
    }
    if str_eq(name, "mcp_tool") {
        return Ok(
            Some(
                InjectedCall::Tool {
                    server: text_arg(args, 0, "").to_owned(),
                    name: text_arg(args, 1, "").to_owned(),
                    arguments: object_arg(args, 2),
                },
            ),
        );
    }
    if str_eq(name, "mcp_prompt") {
        return Ok(
            Some(
                InjectedCall::Prompt {
                    server: text_arg(args, 0, "").to_owned(),
                    name: text_arg(args, 1, "").to_owned(),
                    arguments: object_arg(args, 2),
                },
            ),
        );
    }
    if str_eq(name, "mcp_resource") {
        return Ok(
            Some(
                InjectedCall::Resource {
                    server: text_arg(args, 0, "").to_owned(),
                    name: text_arg(args, 1, "").to_owned(),
                },
            ),
        );
    }
    Ok(None)
}

/// Whether a program of code mode finds a function under a name.
pub fn is_injected_function(name: &str) -> (r: bool)
    ensures
        r == is_injected(name@),
{
    str_eq(name, "search_mcp") || str_eq(name, "mcp_tool") || str_eq(name, "mcp_prompt") || str_eq(
        name,
        "mcp_resource",
    )
}

/// A search finds what it asks for: whatever is of the kind, of the server where one is
/// named, and holds the query in its text.
pub proof fn law_search_finds_what_it_asks_for(
    i: McpCatalogItem,
    kind: McpKind,
    server: Seq<char>,
    query: Seq<char>,
)
    ensures
        is_hit(i, kind, server, query) <==> (match i {
            McpCatalogItem::Tool { .. } => kind is Tool,
            McpCatalogItem::Prompt { .. } => kind is Prompt,
            McpCatalogItem::Resource { .. } => kind is Resource,
        }) && (server.len() == 0 || (match i {
            McpCatalogItem::Tool { server: s, .. } => s@ == server,
            McpCatalogItem::Prompt { server: s, .. } => s@ == server,
            McpCatalogItem::Resource { server: s, .. } => s@ == server,
        })) && (query.len() == 0 || contains_sub(
            lowercase(join_of(item_texts(i, signature_text(i)), " "@)),
            query,
        )),
{
}

/// The hits among two lists are those among the first, then those among the second.
pub proof fn law_hits_keep_their_order(
    a: Seq<McpCatalogItem>,
    b: Seq<McpCatalogItem>,
    kind: McpKind,
    server: Seq<char>,
    query: Seq<char>,
    n: nat,
)
    requires
        n <= b.len(),
    ensures
        hits(a + b, kind, server, query, a.len() + n) == hits(a, kind, server, query, a.len())
            + hits(b, kind, server, query, n),
        b.len() == 1 && n == 1 && is_hit(b[0], kind, server, query) ==> hits(
            b,
            kind,
            server,
            query,
            1,
        ) == b,
        b.len() == 1 && n == 1 && !is_hit(b[0], kind, server, query) ==> hits(
            b,
            kind,
            server,
            query,
            1,
        ).len() == 0,
    decreases n,
{
    if n == 0 {
        lemma_hits_prefix(a, b, kind, server, query, a.len());
        assert(hits(a, kind, server, query, a.len()) + hits(b, kind, server, query, 0) =~= hits(
            a,
            kind,
            server,
            query,
            a.len(),
        ));
    } else {
        law_hits_keep_their_order(a, b, kind, server, query, (n - 1) as nat);
        assert((a + b)[a.len() + n - 1] == b[n - 1]);
        assert(hits(a + b, kind, server, query, a.len() + n) =~= hits(
            a,
            kind,
            server,
            query,
            a.len(),
        ) + hits(b, kind, server, query, n));
        if b.len() == 1 && n == 1 {
            assert(hits(b, kind, server, query, 0).len() == 0);
            if is_hit(b[0], kind, server, query) {
                assert(hits(b, kind, server, query, 1) =~= b);
            }
        }
    }
}

proof fn lemma_hits_prefix(
    a: Seq<McpCatalogItem>,
    b: Seq<McpCatalogItem>,
    kind: McpKind,
    server: Seq<char>,
    query: Seq<char>,
    n: nat,
)
    requires
        n <= a.len(),
    ensures
        hits(a + b, kind, server, query, n) == hits(a, kind, server, query, n),
    decreases n,
{
    if n > 0 {
        lemma_hits_prefix(a, b, kind, server, query, (n - 1) as nat);
        assert((a + b)[n - 1] == a[n - 1]);
    }
}

/// A capability is searched by its server, kind, name, description and signature.
pub proof fn law_capability_is_searched_by(i: McpCatalogItem, signature: Seq<char>)
    ensures
        ({
            let t = item_texts(i, signature);
            match i {
                McpCatalogItem::Tool { server, name, description, .. } => t.len() == 5 && t[0]
                    == server@ && t[1] == "tool"@ && t[2] == name@ && t[3] == description@ && t[4]
                    == signature,
                McpCatalogItem::Prompt { server, name, description, .. } => t.len() == 5 && t[0]
                    == server@ && t[1] == "prompt"@ && t[2] == name@ && t[3] == description@
                    && t[4] == signature,
                McpCatalogItem::Resource { server, uri, description, mime_type } => t.len() == 6
                    && t[0] == server@ && t[1] == "resource"@ && t[2] == uri@ && t[3]
                    == description@ && t[4] == uri@ && (mime_type matches Some(m) ==> t[5] == m@),
            }
        }),
        search_text(i) == lowercase(join_of(item_texts(i, signature_text(i)), " "@)),
        i matches McpCatalogItem::Tool { signature: s, .. } ==> signature_text(i) == plain_text(s),
        i matches McpCatalogItem::Prompt { signature: s, .. } ==> signature_text(i) == plain_text(s),
{
}

/// What is found is told with all that is known of it.
pub proof fn law_capability_is_told_whole(i: McpCatalogItem)
    ensures
        match i {
            McpCatalogItem::Tool { server, name, description, signature } => item_view(i)
                == Jv::Object(
                map![
                    "server"@ => Jv::Text(server@),
                    "kind"@ => Jv::Text("tool"@),
                    "name"@ => Jv::Text(name@),
                    "description"@ => Jv::Text(description@),
                    "signature"@ => signature@,
                ],
            ),
            McpCatalogItem::Prompt { server, name, description, signature } => item_view(i)
                == Jv::Object(
                map![
                    "server"@ => Jv::Text(server@),
                    "kind"@ => Jv::Text("prompt"@),
                    "name"@ => Jv::Text(name@),
                    "description"@ => Jv::Text(description@),
                    "signature"@ => signature@,
                ],
            ),
            McpCatalogItem::Resource { server, uri, description, mime_type } => item_view(i)
                == Jv::Object(
                map![
                    "server"@ => Jv::Text(server@),
                    "kind"@ => Jv::Text("resource"@),
                    "name"@ => Jv::Text(uri@),
                    "description"@ => Jv::Text(description@),
                    "uri"@ => Jv::Text(uri@),
                    "mime_type"@ => match mime_type {
                        Some(m) => Jv::Text(m@),
                        None => Jv::Null,
                    },
                ],
            ),
        },
{
}

/// A search that finds no more than its limit lists all that it found.
pub proof fn law_search_loses_nothing(
    list: Seq<Jv>,
    found: Seq<McpCatalogItem>,
    limit: nat,
    i: int,
)
    requires
        lists_hits(list, found, limit),
        0 <= i < found.len() <= limit,
    ensures
        list.len() == found.len(),
        list.contains(item_view(found[i])),
{
    let order = choose|order: Seq<usize>|
        {
            &&& #[trigger] is_arrangement(order, found.len())
            &&& is_sorted_by_two(order, server_keys(found), name_keys(found))
            &&& list == Seq::new(
                if found.len() <= limit {
                    found.len()
                } else {
                    limit
                },
                |k: int| item_view(found[order[k] as int]),
            )
        };
    crate::order::law_arrangement_holds_every_place(order, found.len(), i);
    let k = choose|k: int| 0 <= k < order.len() && #[trigger] order[k] == i;
    assert(list[k] == item_view(found[i]));
}

/// A command is a path if it begins with a dot or a tilde, or holds a slash.
pub proof fn law_commands_that_are_paths(command: Seq<char>, i: int)
    ensures
        0 <= i < command.len() && (command[i] == '/' || command[i] == '\\') ==> path_like(command),
        command.len() > 0 && (command[0] == '.' || command[0] == '~') ==> path_like(command),
        command.len() > 0 && command[0] != '.' && command[0] != '~' && (forall|k: int|
            0 <= k < command.len() ==> #[trigger] command[k] != '/' && command[k] != '\\')
            ==> !path_like(command),
{
    if 0 <= i < command.len() {
        assert(command.contains(command[i]));
    }
}

/// A server is started as its configuration says: by its command, with its arguments in
/// their order, in its directory.
pub proof fn law_server_is_started_as_configured(
    c: ServerCommand,
    config: Jv,
    command: Seq<char>,
    base_dir: Option<Seq<char>>,
    windows: bool,
)
    requires
        starts_server(c, config, base_dir, windows),
        text_field(config, "command"@) == Some(command),
    ensures
        text_field(config, "cwd"@) is None ==> c.cwd is None && c.program@ == command,
        !path_like(command) ==> c.program@ == command,
        text_field(config, "cwd"@) matches Some(dir) ==> (base_dir is None ==> opt_text(c.cwd)
            == Some(dir) && (path_like(command) ==> c.program@ == joined_on(dir, command, windows))),
        text_field(config, "cwd"@) matches Some(dir) ==> (base_dir matches Some(base) ==> opt_text(
            c.cwd,
        ) == Some(joined_on(base, dir, windows))),
        field(config, "args"@) matches Some(Jv::Array(items)) ==> c.args@.len() == items.len()
            && forall|i: int|
            0 <= i < items.len() ==> ((#[trigger] items[i]) matches Jv::Text(s) ==> c.args@[i]@
                == s),
        field(config, "args"@) is None ==> c.args@.len() == 0,
{
    if let Some(Jv::Array(items)) = field(config, "args"@) {
        assert(texts(c.args@).len() == items.len());
        assert forall|i: int| 0 <= i < items.len() implies ((#[trigger] items[i]) matches Jv::Text(
            s,
        ) ==> c.args@[i]@ == s) by {
            assert(texts(c.args@)[i] == c.args@[i]@);
        }
    }
    if field(config, "args"@) is None {
        assert(texts(c.args@).len() == 0);
    }
}

/// What a tool of a server gave is told with its content, its structured content and
/// whether it failed, whichever way the server spells the names.
pub proof fn law_tool_answer_is_told(server: Seq<char>, name: Seq<char>, result: Jv)
    ensures
        ({
            let a = tool_answer(server, name, result);
            &&& field(a, "server"@) == Some(Jv::Text(server))
            &&& field(a, "name"@) == Some(Jv::Text(name))
            &&& field(result, "content"@) matches Some(v) ==> field(a, "content"@) == Some(v)
            &&& field(result, "content"@) is None ==> field(a, "content"@) == Some(
                Jv::Array(Seq::empty()),
            )
            &&& field(result, "structuredContent"@) matches Some(v) ==> field(
                a,
                "structured_content"@,
            ) == Some(v)
            &&& field(result, "isError"@) == Some(Jv::Bool(true)) ==> field(a, "is_error"@) == Some(
                Jv::Bool(true),
            )
            &&& field(result, "isError"@) is None && field(result, "is_error"@) is None ==> field(
                a,
                "is_error"@,
            ) == Some(Jv::Bool(false))
        }),
{
    reveal_strlit("server");
    reveal_strlit("name");
    reveal_strlit("content");
    reveal_strlit("structured_content");
    reveal_strlit("is_error");
    assert("server"@.len() == 6);
    assert("name"@.len() == 4);
    assert("content"@.len() == 7);
    assert("structured_content"@.len() == 18);
    assert("is_error"@.len() == 8);
}

/// The type of a resource is that of its first part.
pub proof fn law_resource_has_the_type_of_its_first_part(contents: Jv, items: Seq<Jv>, s: Seq<char>)
    requires
        field(contents, "contents"@) == Some(Jv::Array(items)),
    ensures
        items.len() > 0 && field(items[0], "mimeType"@) == Some(Jv::Text(s)) ==> mime_of(contents)
            == Some(s),
        items.len() > 0 && field(items[0], "mimeType"@) is None && field(items[0], "mime_type"@)
            == Some(Jv::Text(s)) ==> mime_of(contents) == Some(s),
        items.len() == 0 ==> mime_of(contents) is None,
{
}

/// An argument of a prompt is told with its name and description, and is required only
/// where the server says so.
pub proof fn law_argument_is_told(a: PromptArgument)
    ensures
        argument_view(a) == Jv::Object(
            map![
                "name"@ => Jv::Text(a.name@),
                "description"@ => Jv::Text(
                    match a.description {
                        Some(s) => s@,
                        None => ""@,
                    },
                ),
                "required"@ => Jv::Bool(a.required matches Some(b) && b),
            ],
        ),
{
}

/// The arguments of an injected call are taken by their places; what is not there is
/// empty, and a search lists five hits where it does not say how many.
pub proof fn law_injected_arguments_by_place(args: Seq<Jv>, i: int, default: Seq<char>)
    ensures
        0 <= i < args.len() ==> (args[i] matches Jv::Text(s) ==> arg_text(args, i, default) == s),
        i >= args.len() ==> arg_text(args, i, default) == default,
        0 <= i < args.len() ==> (args[i] matches Jv::Object(m) ==> arg_object(args, i) == m),
        i >= args.len() ==> arg_object(args, i).dom() == Set::<Seq<char>>::empty(),
        args.len() <= 3 ==> arg_limit(args) == 5,
{
    assert(Map::<Seq<char>, Jv>::empty().dom() =~= Set::empty());
}

/// A server is known if and only if it is one of the names.
pub proof fn law_unknown_server_is_refused(names: Seq<String>, server: Seq<char>, limit: nat)
    ensures
        search_problem(names, server, limit) is None <==> limit > 0 && (server.len() == 0
            || exists|i: int| 0 <= i < names.len() && (#[trigger] names[i])@ == server),
{
}

/// These functions, and no others, are injected.
pub proof fn law_injected_functions(name: Seq<char>)
    ensures
        is_injected(name) <==> (name == "search_mcp"@ || name == "mcp_tool"@ || name
            == "mcp_prompt"@ || name == "mcp_resource"@),
{
}

} // verus!
