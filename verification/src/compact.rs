//! Context compaction: which user messages survive, and within what budget.

use crate::content_block::{
    block_type, image_placeholder, image_placeholder_view, is_image, text as text_block,
    text_view,
};
use crate::json::{
    compact_json, compact_text, field, json_views, lemma_json_views, lemma_json_views_push,
    member_of, no_members, put, put_text, same_value, text_field, tree, Json, Jv,
};
use crate::text::{
    cat2, cat3, chars_of, contains_sub, contains_text, has_prefix, is_blank, is_blank_text, join,
    join_of, lemma_texts_push, lowercase, opt_text, starts_with, str_eq, string_from, texts, to_lowercase,
    trim, trim_of,
};
use vstd::prelude::*;

verus! {

/// How many tokens of user messages a compacted context keeps.
pub const COMPACT_USER_MESSAGE_MAX_TOKENS: usize = 20_000;

/// How many tokens `CoreBPE::encode` of the `o200k_base` vocabulary makes of a
/// text when every special token is allowed; `None` where it fails.
pub uninterp spec fn token_count(text: Seq<char>) -> Option<usize>;

/// `tiktoken_rs::CoreBPE::encode` with the `o200k_base` vocabulary and all
/// special tokens: the number of tokens depends on the text alone.
#[verifier::external_body]
fn count_tokens(text: &str) -> (r: Option<usize>)
    ensures
        r == token_count(text@),
{
    let encoder = tiktoken_rs::o200k_base_singleton();
    match encoder.encode(text, &encoder.special_tokens()) {
        Ok((tokens, _)) => Some(tokens.len()),
        Err(_) => None,
    }
}

/// A block of a user message, with its compact JSON text and that of its
/// text field.
#[derive(Debug)]
pub struct ContentPart {
    pub value: Json,
    pub json: String,
    pub text_json: String,
}

/// What a block says.
#[verifier::ext_equal]
pub ghost struct PartView {
    pub value: Jv,
    pub json: Seq<char>,
    pub text_json: Seq<char>,
}

impl View for ContentPart {
    type V = PartView;

    open spec fn view(&self) -> PartView {
        PartView { value: self.value@, json: self.json@, text_json: self.text_json@ }
    }
}

/// The content of a user message.
#[derive(Debug)]
pub enum UserContent {
    Text(String),
    Parts(Vec<ContentPart>),
    Other,
}

/// What a content says.
#[verifier::ext_equal]
pub ghost enum ContentView {
    Text(Seq<char>),
    Parts(Seq<PartView>),
    Other,
}

/// What blocks say.
pub open spec fn part_views(v: Seq<ContentPart>) -> Seq<PartView> {
    v.map_values(|p: ContentPart| p@)
}

impl View for UserContent {
    type V = ContentView;

    open spec fn view(&self) -> ContentView {
        match *self {
            UserContent::Text(s) => ContentView::Text(s@),
            UserContent::Parts(parts) => ContentView::Parts(part_views(parts@)),
            UserContent::Other => ContentView::Other,
        }
    }
}

/// What contents say.
pub open spec fn content_views(v: Seq<UserContent>) -> Seq<ContentView> {
    v.map_values(|c: UserContent| c@)
}

/// One message of a conversation, as far as compaction reads it.
#[derive(Debug)]
pub struct ConversationItem {
    pub role: Option<String>,
    pub content: UserContent,
}

/// The member that holds the text of a text block.
pub open spec fn text_member(part: Json) -> Option<Json> {
    match member_of(part, "text"@) {
        Some(v) => Some(v),
        None => member_of(part, "input_text"@),
    }
}

/// A block as it is read, with its texts written out.
pub open spec fn read_part(part: Json) -> PartView {
    PartView {
        value: part@,
        json: compact_text(tree(part)),
        text_json: match text_member(part) {
            Some(v) => compact_text(tree(v)),
            None => ""@,
        },
    }
}

/// A content as it is read.
pub open spec fn read_content(content: Option<Json>) -> ContentView {
    match content {
        Some(Json::Text(s)) => ContentView::Text(s@),
        Some(Json::Array(parts)) => ContentView::Parts(
            Seq::new(parts@.len(), |i: int| read_part(parts@[i])),
        ),
        _ => ContentView::Other,
    }
}

/// Whether an item is what is read of a message.
pub open spec fn is_read(item: ConversationItem, message: Json) -> bool {
    &&& opt_text(item.role) == text_field(message@, "role"@)
    &&& item.content@ == read_content(member_of(message, "content"@))
}

fn content_part(part: &Json) -> (r: ContentPart)
    ensures
        r@ == read_part(*part),
{
    let text = match part.get("text") {
        Some(v) => Some(v),
        None => part.get("input_text"),
    };
    ContentPart {
        value: part.copy(),
        json: compact_json(part),
        text_json: match text {
            Some(v) => compact_json(v),
            None => "".to_owned(),
        },
    }
}

fn content_parts(parts: &Vec<Json>) -> (r: Vec<ContentPart>)
    ensures
        part_views(r@) == Seq::new(parts@.len(), |i: int| read_part(parts@[i])),
{
    let mut out: Vec<ContentPart> = Vec::new();
    let mut i: usize = 0;
    while i < parts.len()
        invariant
            i <= parts@.len(),
            out@.len() == i,
            forall|k: int| 0 <= k < i ==> (#[trigger] out@[k])@ == read_part(parts@[k]),
        decreases parts@.len() - i,
    {
        out.push(content_part(&parts[i]));
        i += 1;
    }
    proof {
        assert(part_views(out@) =~= Seq::new(parts@.len(), |i: int| read_part(parts@[i])));
    }
    out
}

/// Reads a message, with its blocks written out.
pub fn conversation_item(message: &Json) -> (r: ConversationItem)
    ensures
        is_read(r, *message),
{
    ConversationItem {
        role: match message.get_str("role") {
            Some(s) => Some(s.to_owned()),
            None => None,
        },
        content: match message.get("content") {
            Some(Json::Text(s)) => UserContent::Text(s.clone()),
            Some(Json::Array(parts)) => UserContent::Parts(content_parts(parts)),
            _ => UserContent::Other,
        },
    }
}

/// Reads messages, with their blocks written out.
pub fn conversation_items(messages: &Vec<Json>) -> (r: Vec<ConversationItem>)
    ensures
        r@.len() == messages@.len(),
        forall|i: int| 0 <= i < r@.len() ==> is_read(#[trigger] r@[i], messages@[i]),
{
    let mut out: Vec<ConversationItem> = Vec::new();
    let mut i: usize = 0;
    while i < messages.len()
        invariant
            i <= messages@.len(),
            out@.len() == i,
            forall|k: int| 0 <= k < i ==> is_read(#[trigger] out@[k], messages@[k]),
        decreases messages@.len() - i,
    {
        out.push(conversation_item(&messages[i]));
        i += 1;
    }
    out
}

/// A content as a JSON value.
pub open spec fn content_json(c: ContentView) -> Jv {
    match c {
        ContentView::Text(s) => Jv::Text(s),
        ContentView::Parts(parts) => Jv::Array(parts.map_values(|p: PartView| p.value)),
        ContentView::Other => Jv::Null,
    }
}

fn content_to_json(c: &UserContent) -> (r: Json)
    ensures
        r@ == content_json(c@),
{
    match c {
        UserContent::Text(s) => Json::Text(s.clone()),
        UserContent::Parts(parts) => {
            let mut items: Vec<Json> = Vec::new();
            let mut i: usize = 0;
            let ghost want = part_views(parts@).map_values(|p: PartView| p.value);
            proof {
                assert(json_views(items@) =~= want.take(0));
            }
            while i < parts.len()
                invariant
                    i <= parts@.len(),
                    want == part_views(parts@).map_values(|p: PartView| p.value),
                    json_views(items@) == want.take(i as int),
                decreases parts@.len() - i,
            {
                let v = parts[i].value.copy();
                let ghost before = items@;
                items.push(v);
                proof {
                    lemma_json_views_push(before, v);
                    assert(want[i as int] == parts@[i as int].value@);
                    assert(want.take(i + 1) =~= want.take(i as int).push(want[i as int]));
                }
                i += 1;
            }
            proof {
                assert(want.take(parts@.len() as int) =~= want);
            }
            Json::Array(items)
        },
        UserContent::Other => Json::Null,
    }
}

/// Whether a content holds nothing.
pub open spec fn content_is_empty(c: ContentView) -> Result<bool, Seq<char>> {
    match c {
        ContentView::Text(s) => Ok(is_blank(s)),
        ContentView::Parts(parts) => Ok(parts.len() == 0),
        ContentView::Other => Err("User content must be a string or list of content blocks."@),
    }
}

/// The text of a text block.
pub open spec fn part_text(p: PartView) -> Seq<char> {
    let value = match field(p.value, "text"@) {
        Some(v) => Some(v),
        None => field(p.value, "input_text"@),
    };
    match value {
        None => Seq::empty(),
        Some(Jv::Null) => Seq::empty(),
        Some(Jv::Text(s)) => s,
        Some(_) => p.text_json,
    }
}

fn text_of_part(p: &ContentPart) -> (r: String)
    ensures
        r@ == part_text(p@),
{
    let value = match p.value.get("text") {
        Some(v) => Some(v),
        None => p.value.get("input_text"),
    };
    match value {
        None => String::new(),
        Some(Json::Null) => String::new(),
        Some(Json::Text(s)) => s.clone(),
        Some(_) => p.text_json.clone(),
    }
}

/// The token text of a block: `Ok(None)` where it has none.
pub open spec fn part_token_text(p: PartView) -> Result<Option<Seq<char>>, Seq<char>> {
    let t = block_type(p.value);
    if !(p.value is Object) {
        Err("Compacted user content blocks must be objects."@)
    } else if t == "text"@ || t == "input_text"@ {
        if part_text(p).len() > 0 {
            Ok(Some(part_text(p)))
        } else {
            Ok(None)
        }
    } else if t == "resource"@ || t == "resource_link"@ {
        Ok(Some(p.json))
    } else {
        Err("Unsupported compacted user content block type: "@ + t)
    }
}

/// The token texts of the first `n` blocks.
pub open spec fn token_texts(parts: Seq<PartView>, n: int) -> Result<Seq<Seq<char>>, Seq<char>>
    decreases n,
{
    if n <= 0 || n > parts.len() {
        Ok(Seq::empty())
    } else {
        match token_texts(parts, n - 1) {
            Err(e) => Err(e),
            Ok(before) => match part_token_text(parts[n - 1]) {
                Err(e) => Err(e),
                Ok(None) => Ok(before),
                Ok(Some(s)) => Ok(before.push(s)),
            },
        }
    }
}

/// The text whose tokens are counted for a content.
pub open spec fn content_token_text(c: ContentView) -> Result<Seq<char>, Seq<char>> {
    match c {
        ContentView::Text(s) => Ok(s),
        ContentView::Parts(parts) => match token_texts(parts, parts.len() as int) {
            Ok(all) => Ok(join_of(all, "\n"@)),
            Err(e) => Err(e),
        },
        ContentView::Other => Err(
            "Compacted user content must be a string or list of content blocks."@,
        ),
    }
}

fn token_text_of_part(p: &ContentPart) -> (r: Result<Option<String>, String>)
    ensures
        match r {
            Ok(Some(s)) => part_token_text(p@) == Ok::<Option<Seq<char>>, Seq<char>>(Some(s@)),
            Ok(None) => part_token_text(p@) == Ok::<Option<Seq<char>>, Seq<char>>(None),
            Err(e) => part_token_text(p@) == Err::<Option<Seq<char>>, Seq<char>>(e@),
        },
{
    if p.value.as_object().is_none() {
        return Err("Compacted user content blocks must be objects.".to_owned());
    }
    let t = trim(p.value.str_or("type", ""));
    if str_eq(t, "text") || str_eq(t, "input_text") {
        let s = text_of_part(p);
        if s.as_str().is_empty() {
            Ok(None)
        } else {
            Ok(Some(s))
        }
    } else if str_eq(t, "resource") || str_eq(t, "resource_link") {
        Ok(Some(p.json.clone()))
    } else {
        Err(cat2("Unsupported compacted user content block type: ", t))
    }
}

fn content_to_token_text(c: &UserContent) -> (r: Result<String, String>)
    ensures
        match r {
            Ok(s) => content_token_text(c@) == Ok::<Seq<char>, Seq<char>>(s@),
            Err(e) => content_token_text(c@) == Err::<Seq<char>, Seq<char>>(e@),
        },
{
    match c {
        UserContent::Text(s) => Ok(s.clone()),
        UserContent::Parts(parts) => {
            let ghost all = part_views(parts@);
            let mut out: Vec<String> = Vec::new();
            let mut i: usize = 0;
            proof {
                assert(texts(out@) =~= Seq::empty());
            }
            while i < parts.len()
                invariant
                    i <= parts@.len(),
                    all == part_views(parts@),
                    c@ == ContentView::Parts(all),
                    token_texts(all, i as int) == Ok::<Seq<Seq<char>>, Seq<char>>(texts(out@)),
                decreases parts@.len() - i,
            {
                proof {
                    assert(all[i as int] == parts@[i as int]@);
                }
                match token_text_of_part(&parts[i]) {
                    Err(e) => {
                        proof {
                            lemma_token_texts_fail(all, i + 1, all.len() as int);
                        }
                        return Err(e);
                    },
                    Ok(None) => {},
                    Ok(Some(s)) => {
                        let ghost before = out@;
                        out.push(s);
                        proof {
                            lemma_texts_push(before, s);
                        }
                    },
                }
                i += 1;
            }
            Ok(join(&out, "\n"))
        },
        UserContent::Other => Err(
            "Compacted user content must be a string or list of content blocks.".to_owned(),
        ),
    }
}

proof fn lemma_token_texts_fail(parts: Seq<PartView>, i: int, n: int)
    requires
        0 <= i <= n <= parts.len(),
        token_texts(parts, i) is Err,
    ensures
        token_texts(parts, n) == token_texts(parts, i),
    decreases n - i,
{
    if i < n {
        lemma_token_texts_fail(parts, i, n - 1);
    }
}

/// How many tokens a content has.
pub open spec fn content_tokens(c: ContentView) -> Result<usize, Seq<char>> {
    match content_is_empty(c) {
        Err(e) => Err(e),
        Ok(true) => Ok(0),
        Ok(false) => match content_token_text(c) {
            Err(e) => Err(e),
            Ok(text) => match token_count(text) {
                Some(n) => Ok(n),
                None => Err("Unable to count tokens."@),
            },
        },
    }
}

fn is_empty_user_content(c: &UserContent) -> (r: Result<bool, String>)
    ensures
        match r {
            Ok(b) => content_is_empty(c@) == Ok::<bool, Seq<char>>(b),
            Err(e) => content_is_empty(c@) == Err::<bool, Seq<char>>(e@),
        },
{
    match c {
        UserContent::Text(s) => Ok(is_blank_text(s.as_str())),
        UserContent::Parts(parts) => Ok(parts.len() == 0),
        UserContent::Other => Err(
            "User content must be a string or list of content blocks.".to_owned(),
        ),
    }
}

/// Counts the tokens of a content.
pub fn count_content_tokens(c: &UserContent) -> (r: Result<usize, String>)
    ensures
        match r {
            Ok(n) => content_tokens(c@) == Ok::<usize, Seq<char>>(n),
            Err(e) => content_tokens(c@) == Err::<usize, Seq<char>>(e@),
        },
{
    match is_empty_user_content(c) {
        Err(e) => return Err(e),
        Ok(true) => return Ok(0),
        Ok(false) => {},
    }
    match content_to_token_text(c) {
        Err(e) => Err(e),
        Ok(text) => match count_tokens(text.as_str()) {
            Some(n) => Ok(n),
            None => Err("Unable to count tokens.".to_owned()),
        },
    }
}

/// The place of the newest of the first `n` contents that says the same as the
/// `i`-th; the order of members does not count.
pub open spec fn newest_like(contents: Seq<ContentView>, i: int, n: int) -> int
    decreases n - i,
{
    if n <= i + 1 || n > contents.len() {
        i
    } else if content_json(contents[n - 1]) == content_json(contents[i]) {
        n - 1
    } else {
        newest_like(contents, i, n - 1)
    }
}

/// How many tokens the `i`-th content is taken to have: contents that say the
/// same share the count of the newest of them.
pub open spec fn shared_tokens(contents: Seq<ContentView>, i: int) -> Result<usize, Seq<char>> {
    content_tokens(contents[newest_like(contents, i, contents.len() as int)])
}

fn same_content(a: &UserContent, b: &UserContent) -> (r: bool)
    ensures
        r == (content_json(a@) == content_json(b@)),
{
    match (a, b) {
        (UserContent::Text(x), UserContent::Text(y)) => str_eq(x.as_str(), y.as_str()),
        (UserContent::Parts(x), UserContent::Parts(y)) => {
            let ghost left = part_views(x@).map_values(|p: PartView| p.value);
            let ghost right = part_views(y@).map_values(|p: PartView| p.value);
            if x.len() != y.len() {
                proof {
                    assert(left.len() != right.len());
                }
                return false;
            }
            let mut i: usize = 0;
            while i < x.len()
                invariant
                    i <= x@.len(),
                    x@.len() == y@.len(),
                    left == part_views(x@).map_values(|p: PartView| p.value),
                    right == part_views(y@).map_values(|p: PartView| p.value),
                    a@ == ContentView::Parts(part_views(x@)),
                    b@ == ContentView::Parts(part_views(y@)),
                    forall|k: int| 0 <= k < i ==> left[k] == right[k],
                decreases x@.len() - i,
            {
                proof {
                    assert(left[i as int] == x@[i as int].value@);
                    assert(right[i as int] == y@[i as int].value@);
                }
                if !same_value(&x[i].value, &y[i].value) {
                    return false;
                }
                i += 1;
            }
            proof {
                assert(left =~= right);
            }
            true
        },
        (UserContent::Other, UserContent::Other) => true,
        _ => false,
    }
}

/// Counts the tokens of the `i`-th content, or those of the newest that says
/// the same.
pub fn count_shared_tokens(contents: &Vec<UserContent>, i: usize) -> (r: Result<usize, String>)
    requires
        i < contents@.len(),
    ensures
        match r {
            Ok(n) => shared_tokens(content_views(contents@), i as int) == Ok::<usize, Seq<char>>(n),
            Err(e) => shared_tokens(content_views(contents@), i as int) == Err::<usize, Seq<char>>(
                e@,
            ),
        },
{
    let ghost all = content_views(contents@);
    let mut n: usize = contents.len();
    while n > i + 1
        invariant
            i < n <= contents@.len(),
            all == content_views(contents@),
            newest_like(all, i as int, n as int) == newest_like(
                all,
                i as int,
                all.len() as int,
            ),
        decreases n,
    {
        proof {
            assert(all[n - 1] == contents@[n - 1]@);
            assert(all[i as int] == contents@[i as int]@);
        }
        if same_content(&contents[n - 1], &contents[i]) {
            return count_content_tokens(&contents[n - 1]);
        }
        n -= 1;
    }
    proof {
        assert(all[i as int] == contents@[i as int]@);
    }
    count_content_tokens(&contents[i])
}

/// The longest beginning of `text` that a binary search by length finds to
/// fit the budget; `best` is the longest found so far.
pub open spec fn search_prefix(
    text: Seq<char>,
    budget: usize,
    low: int,
    high: int,
    best: Seq<char>,
) -> Result<Seq<char>, Seq<char>>
    decreases high - low + 1,
{
    if low < 1 || low > high {
        Ok(best)
    } else {
        let mid = (low + high) / 2;
        let candidate = trim_of(text.take(mid));
        if candidate.len() == 0 {
            search_prefix(text, budget, mid + 1, high, best)
        } else {
            match content_tokens(ContentView::Text(candidate)) {
                Err(e) => Err(e),
                Ok(n) => if n <= budget {
                    search_prefix(text, budget, mid + 1, high, candidate)
                } else {
                    search_prefix(text, budget, low, mid - 1, best)
                },
            }
        }
    }
}

/// The beginning of a text that fits a budget.
pub open spec fn fitted_text(text: Seq<char>, budget: usize) -> Result<Seq<char>, Seq<char>> {
    if budget == 0 || is_blank(text) {
        Ok(Seq::empty())
    } else {
        search_prefix(trim_of(text), budget, 1, trim_of(text).len() as int, Seq::empty())
    }
}

/// Shortens a text to a budget.
pub fn truncate_text_to_budget(text: &str, budget: usize) -> (r: Result<String, String>)
    ensures
        match r {
            Ok(s) => fitted_text(text@, budget) == Ok::<Seq<char>, Seq<char>>(s@),
            Err(e) => fitted_text(text@, budget) == Err::<Seq<char>, Seq<char>>(e@),
        },
{
    let normalized = trim(text);
    if budget == 0 || normalized.is_empty() {
        return Ok(String::new());
    }
    let v = chars_of(normalized);
    let mut low: usize = 1;
    let mut high: usize = v.len();
    let mut best = String::new();
    while low <= high
        invariant
            v@ == trim_of(text@),
            budget > 0,
            !is_blank(text@),
            1 <= low <= v@.len() + 1,
            high <= v@.len(),
            v@.len() <= usize::MAX,
            search_prefix(v@, budget, low as int, high as int, best@) == fitted_text(
                text@,
                budget,
            ),
        decreases high - low + 1,
    {
        let mid: usize = low + (high - low) / 2;
        proof {
            assert(mid == (low + high) / 2);
            assert(v@.take(mid as int) =~= v@.subrange(0, mid as int));
        }
        let head = string_from(&v, 0, mid);
        let candidate = trim(head.as_str());
        if candidate.is_empty() {
            if mid == high {
                proof {
                    assert(search_prefix(v@, budget, mid + 1, high as int, best@) == Ok::<
                        Seq<char>,
                        Seq<char>,
                    >(best@));
                }
                return Ok(best);
            }
            low = mid + 1;
        } else {
            let owned = candidate.to_owned();
            let content = UserContent::Text(owned);
            match count_content_tokens(&content) {
                Err(e) => return Err(e),
                Ok(n) => {
                    if n <= budget {
                        best = candidate.to_owned();
                        if mid == high {
                            proof {
                                assert(search_prefix(v@, budget, mid + 1, high as int, best@)
                                    == Ok::<Seq<char>, Seq<char>>(best@));
                            }
                            return Ok(best);
                        }
                        low = mid + 1;
                    } else {
                        high = mid - 1;
                    }
                },
            }
        }
    }
    Ok(best)
}

/// A content that fits a budget; only texts are shortened.
pub open spec fn fitted_content(c: ContentView, budget: usize) -> Result<
    Option<ContentView>,
    Seq<char>,
> {
    match c {
        ContentView::Text(s) => match fitted_text(s, budget) {
            Err(e) => Err(e),
            Ok(t) => if t.len() == 0 {
                Ok(None)
            } else {
                Ok(Some(ContentView::Text(t)))
            },
        },
        _ => Ok(None),
    }
}

/// The newest of the first `n` contents that fit a budget, oldest first; the
/// oldest of them may be shortened.
pub open spec fn newest_within(contents: Seq<ContentView>, n: int, budget: usize) -> Result<
    Seq<ContentView>,
    Seq<char>,
>
    decreases n,
{
    if n <= 0 || n > contents.len() || budget == 0 {
        Ok(Seq::empty())
    } else {
        let c = contents[n - 1];
        match shared_tokens(contents, n - 1) {
            Err(e) => Err(e),
            Ok(tokens) => if tokens <= budget {
                match newest_within(contents, n - 1, (budget - tokens) as usize) {
                    Err(e) => Err(e),
                    Ok(older) => Ok(older.push(c)),
                }
            } else {
                match fitted_content(c, budget) {
                    Err(e) => Err(e),
                    Ok(Some(short)) => Ok(seq![short]),
                    Ok(None) => Ok(Seq::empty()),
                }
            },
        }
    }
}

/// A user message with a content.
pub open spec fn user_message(content: Jv) -> Jv {
    Jv::Object(
        Map::<Seq<char>, Jv>::empty().insert("role"@, Jv::Text("user"@)).insert(
            "content"@,
            content,
        ),
    )
}

/// Contents as user messages.
pub open spec fn user_messages_of(contents: Seq<ContentView>) -> Seq<Jv> {
    contents.map_values(|c: ContentView| user_message(content_json(c)))
}

fn make_user_message(content: Json) -> (r: Json)
    ensures
        r@ == user_message(content@),
{
    let mut m = no_members();
    put_text(&mut m, "role", "user");
    put(&mut m, "content", content);
    Json::Object(m)
}

/// A selection with newer contents behind it.
spec fn with_newer(r: Result<Seq<ContentView>, Seq<char>>, newer: Seq<ContentView>) -> Result<
    Seq<ContentView>,
    Seq<char>,
> {
    match r {
        Ok(kept) => Ok(kept + newer),
        Err(e) => Err(e),
    }
}

/// The newest user messages that fit a budget, in order.
pub fn build_compacted_user_messages(contents: &Vec<UserContent>, budget: usize) -> (r: Result<
    Vec<Json>,
    String,
>)
    ensures
        match newest_within(content_views(contents@), contents@.len() as int, budget) {
            Ok(kept) => r matches Ok(messages) && json_views(messages@) == user_messages_of(kept),
            Err(e) => r matches Err(error) && error@ == e,
        },
{
    let ghost all = content_views(contents@);
    let ghost whole = newest_within(all, all.len() as int, budget);
    let mut n: usize = contents.len();
    let mut remaining: usize = budget;
    let mut messages: Vec<Json> = Vec::new();
    let ghost mut first: Seq<ContentView> = Seq::empty();
    proof {
        assert(with_newer(whole, all.subrange(n as int, all.len() as int)) == whole) by {
            if let Ok(kept) = whole {
                assert(kept + all.subrange(n as int, all.len() as int) =~= kept);
            }
        }
        assert(json_views(messages@) =~= user_messages_of(first));
    }
    while n > 0 && remaining > 0
        invariant_except_break
            with_newer(newest_within(all, n as int, remaining), all.subrange(n as int, all.len() as int))
                == whole,
            first == Seq::<ContentView>::empty(),
        invariant
            n <= contents@.len(),
            all == content_views(contents@),
            whole == newest_within(all, all.len() as int, budget),
            json_views(messages@) == user_messages_of(first),
        ensures
            whole == Ok::<Seq<ContentView>, Seq<char>>(
                first + all.subrange(n as int, all.len() as int),
            ),
        decreases n,
    {
        let c = &contents[n - 1];
        proof {
            assert(all[n - 1] == c@);
        }
        let tokens = match count_shared_tokens(contents, n - 1) {
            Ok(k) => k,
            Err(e) => return Err(e),
        };
        if tokens <= remaining {
            proof {
                if let Ok(older) = newest_within(all, n - 1, (remaining - tokens) as usize) {
                    assert(older.push(c@) + all.subrange(n as int, all.len() as int) =~= older
                        + all.subrange(n - 1, all.len() as int));
                }
            }
            remaining = remaining - tokens;
            n = n - 1;
        } else {
            match c {
                UserContent::Text(s) => match truncate_text_to_budget(s.as_str(), remaining) {
                    Err(e) => return Err(e),
                    Ok(short) => {
                        if !short.as_str().is_empty() {
                            let ghost view = ContentView::Text(short@);
                            let message = make_user_message(Json::Text(short));
                            let ghost before = messages@;
                            messages.push(message);
                            proof {
                                first = seq![view];
                                lemma_json_views_push(before, message);
                                assert(json_views(messages@) =~= user_messages_of(first));
                            }
                        }
                    },
                },
                _ => {},
            }
            break;
        }
    }
    let mut i: usize = n;
    let ghost kept = first + all.subrange(n as int, all.len() as int);
    proof {
        assert(first + all.subrange(n as int, n as int) =~= first);
    }
    while i < contents.len()
        invariant
            n <= i <= contents@.len(),
            all == content_views(contents@),
            json_views(messages@) == user_messages_of(first + all.subrange(n as int, i as int)),
        decreases contents@.len() - i,
    {
        let message = make_user_message(content_to_json(&contents[i]));
        let ghost before = messages@;
        messages.push(message);
        proof {
            lemma_json_views_push(before, message);
            let so_far = first + all.subrange(n as int, i as int);
            assert(all[i as int] == contents@[i as int]@);
            assert(first + all.subrange(n as int, i + 1) =~= so_far.push(all[i as int]));
            assert(user_messages_of(so_far.push(all[i as int])) =~= user_messages_of(so_far).push(
                user_message(content_json(all[i as int])),
            ));
        }
        i += 1;
    }
    Ok(messages)
}

/// A block as it enters a compacted context: images become placeholders.
pub open spec fn compact_part(p: PartView) -> Result<PartView, Seq<char>> {
    let t = block_type(p.value);
    if !(p.value is Object) {
        Err("User content blocks must be objects."@)
    } else if is_image(p.value) {
        Ok(PartView { value: image_placeholder_view(), json: Seq::empty(), text_json: Seq::empty() })
    } else if t == "text"@ || t == "input_text"@ || t == "resource"@ || t == "resource_link"@ {
        Ok(p)
    } else {
        Err("Unsupported user content block type: "@ + t)
    }
}

/// The first `n` blocks as they enter a compacted context.
pub open spec fn compact_parts(parts: Seq<PartView>, n: int) -> Result<Seq<PartView>, Seq<char>>
    decreases n,
{
    if n <= 0 || n > parts.len() {
        Ok(Seq::empty())
    } else {
        match compact_parts(parts, n - 1) {
            Err(e) => Err(e),
            Ok(before) => match compact_part(parts[n - 1]) {
                Err(e) => Err(e),
                Ok(p) => Ok(before.push(p)),
            },
        }
    }
}

/// A content as it enters a compacted context.
pub open spec fn compact_content(c: ContentView) -> Result<ContentView, Seq<char>> {
    match c {
        ContentView::Text(s) => Ok(c),
        ContentView::Parts(parts) => match compact_parts(parts, parts.len() as int) {
            Ok(all) => Ok(ContentView::Parts(all)),
            Err(e) => Err(e),
        },
        ContentView::Other => Err("User content must be a string or list of content blocks."@),
    }
}

fn compact_user_part(p: &ContentPart) -> (r: Result<ContentPart, String>)
    ensures
        match r {
            Ok(q) => compact_part(p@) == Ok::<PartView, Seq<char>>(q@),
            Err(e) => compact_part(p@) == Err::<PartView, Seq<char>>(e@),
        },
{
    if p.value.as_object().is_none() {
        return Err("User content blocks must be objects.".to_owned());
    }
    let t = trim(p.value.str_or("type", ""));
    if str_eq(t, "image") || str_eq(t, "image_url") || str_eq(t, "input_image") {
        let q = ContentPart {
            value: image_placeholder(),
            json: String::new(),
            text_json: String::new(),
        };
        Ok(q)
    } else if str_eq(t, "text") || str_eq(t, "input_text") || str_eq(t, "resource") || str_eq(
        t,
        "resource_link",
    ) {
        Ok(
            ContentPart {
                value: p.value.copy(),
                json: p.json.clone(),
                text_json: p.text_json.clone(),
            },
        )
    } else {
        Err(cat2("Unsupported user content block type: ", t))
    }
}

proof fn lemma_compact_parts_fail(parts: Seq<PartView>, i: int, n: int)
    requires
        0 <= i <= n <= parts.len(),
        compact_parts(parts, i) is Err,
    ensures
        compact_parts(parts, n) == compact_parts(parts, i),
    decreases n - i,
{
    if i < n {
        lemma_compact_parts_fail(parts, i, n - 1);
    }
}

fn compact_user_content(c: &UserContent) -> (r: Result<UserContent, String>)
    ensures
        match r {
            Ok(d) => compact_content(c@) == Ok::<ContentView, Seq<char>>(d@),
            Err(e) => compact_content(c@) == Err::<ContentView, Seq<char>>(e@),
        },
{
    match c {
        UserContent::Text(s) => Ok(UserContent::Text(s.clone())),
        UserContent::Parts(parts) => {
            let ghost all = part_views(parts@);
            let mut out: Vec<ContentPart> = Vec::new();
            let mut i: usize = 0;
            proof {
                assert(part_views(out@) =~= Seq::empty());
            }
            while i < parts.len()
                invariant
                    i <= parts@.len(),
                    all == part_views(parts@),
                    c@ == ContentView::Parts(all),
                    compact_parts(all, i as int) == Ok::<Seq<PartView>, Seq<char>>(
                        part_views(out@),
                    ),
                decreases parts@.len() - i,
            {
                proof {
                    assert(all[i as int] == parts@[i as int]@);
                }
                match compact_user_part(&parts[i]) {
                    Err(e) => {
                        proof {
                            lemma_compact_parts_fail(all, i + 1, all.len() as int);
                        }
                        return Err(e);
                    },
                    Ok(q) => {
                        let ghost before = out@;
                        out.push(q);
                        proof {
                            assert(part_views(out@) =~= part_views(before).push(q@));
                        }
                    },
                }
                i += 1;
            }
            Ok(UserContent::Parts(out))
        },
        UserContent::Other => Err(
            "User content must be a string or list of content blocks.".to_owned(),
        ),
    }
}

/// The text of a block by which a summary is recognised.
pub open spec fn detection_part(p: PartView) -> Result<Seq<char>, Seq<char>> {
    let t = block_type(p.value);
    if !(p.value is Object) {
        Err("Content blocks must be objects."@)
    } else if t == "text"@ || t == "input_text"@ {
        Ok(trim_of(part_text(p)))
    } else if t == "resource"@ || t == "resource_link"@ {
        Ok(Seq::empty())
    } else {
        Err("Unsupported content block type for text extraction: "@ + t)
    }
}

/// The texts of the first `n` blocks by which a summary is recognised.
pub open spec fn detection_parts(parts: Seq<PartView>, n: int) -> Result<Seq<Seq<char>>, Seq<char>>
    decreases n,
{
    if n <= 0 || n > parts.len() {
        Ok(Seq::empty())
    } else {
        match detection_parts(parts, n - 1) {
            Err(e) => Err(e),
            Ok(before) => match detection_part(parts[n - 1]) {
                Err(e) => Err(e),
                Ok(s) => if s.len() == 0 {
                    Ok(before)
                } else {
                    Ok(before.push(s))
                },
            },
        }
    }
}

/// The text of a content by which a summary is recognised.
pub open spec fn detection_text(c: ContentView) -> Result<Seq<char>, Seq<char>> {
    match c {
        ContentView::Text(s) => Ok(trim_of(s)),
        ContentView::Parts(parts) => match detection_parts(parts, parts.len() as int) {
            Ok(all) => Ok(trim_of(join_of(all, "\n"@))),
            Err(e) => Err(e),
        },
        ContentView::Other => Err(
            "Summary detection content must be a string or list of content blocks."@,
        ),
    }
}

fn extract_text_part(p: &ContentPart) -> (r: Result<String, String>)
    ensures
        match r {
            Ok(s) => detection_part(p@) == Ok::<Seq<char>, Seq<char>>(s@),
            Err(e) => detection_part(p@) == Err::<Seq<char>, Seq<char>>(e@),
        },
{
    if p.value.as_object().is_none() {
        return Err("Content blocks must be objects.".to_owned());
    }
    let t = trim(p.value.str_or("type", ""));
    if str_eq(t, "text") || str_eq(t, "input_text") {
        let s = text_of_part(p);
        Ok(trim(s.as_str()).to_owned())
    } else if str_eq(t, "resource") || str_eq(t, "resource_link") {
        Ok(String::new())
    } else {
        Err(cat2("Unsupported content block type for text extraction: ", t))
    }
}

proof fn lemma_detection_parts_fail(parts: Seq<PartView>, i: int, n: int)
    requires
        0 <= i <= n <= parts.len(),
        detection_parts(parts, i) is Err,
    ensures
        detection_parts(parts, n) == detection_parts(parts, i),
    decreases n - i,
{
    if i < n {
        lemma_detection_parts_fail(parts, i, n - 1);
    }
}

fn summary_detection_text(c: &UserContent) -> (r: Result<String, String>)
    ensures
        match r {
            Ok(s) => detection_text(c@) == Ok::<Seq<char>, Seq<char>>(s@),
            Err(e) => detection_text(c@) == Err::<Seq<char>, Seq<char>>(e@),
        },
{
    match c {
        UserContent::Text(s) => Ok(trim(s.as_str()).to_owned()),
        UserContent::Parts(parts) => {
            let ghost all = part_views(parts@);
            let mut out: Vec<String> = Vec::new();
            let mut i: usize = 0;
            proof {
                assert(texts(out@) =~= Seq::empty());
            }
            while i < parts.len()
                invariant
                    i <= parts@.len(),
                    all == part_views(parts@),
                    c@ == ContentView::Parts(all),
                    detection_parts(all, i as int) == Ok::<Seq<Seq<char>>, Seq<char>>(
                        texts(out@),
                    ),
                decreases parts@.len() - i,
            {
                proof {
                    assert(all[i as int] == parts@[i as int]@);
                }
                match extract_text_part(&parts[i]) {
                    Err(e) => {
                        proof {
                            lemma_detection_parts_fail(all, i + 1, all.len() as int);
                        }
                        return Err(e);
                    },
                    Ok(s) => {
                        if !s.as_str().is_empty() {
                            let ghost before = out@;
                            out.push(s);
                            proof {
                                lemma_texts_push(before, s);
                            }
                        }
                    },
                }
                i += 1;
            }
            let joined = join(&out, "\n");
            Ok(trim(joined.as_str()).to_owned())
        },
        UserContent::Other => Err(
            "Summary detection content must be a string or list of content blocks.".to_owned(),
        ),
    }
}

/// The content that a message adds to the user messages: `Ok(None)` where it
/// is not the user's, holds nothing, or is an earlier summary.
pub open spec fn kept_content(item: ConversationItem, prefix: Seq<char>) -> Result<
    Option<ContentView>,
    Seq<char>,
> {
    let role = match item.role {
        Some(r) => trim_of(r@),
        None => ""@,
    };
    if role != "user"@ {
        Ok(None)
    } else {
        match compact_content(item.content@) {
            Err(e) => Err(e),
            Ok(c) => match content_is_empty(c) {
                Err(e) => Err(e),
                Ok(true) => Ok(None),
                Ok(false) => if is_blank(prefix) {
                    Ok(Some(c))
                } else {
                    match detection_text(c) {
                        Err(e) => Err(e),
                        Ok(text) => if starts_with(text, trim_of(prefix)) {
                            Ok(None)
                        } else {
                            Ok(Some(c))
                        },
                    }
                },
            },
        }
    }
}

/// The user contents among the first `n` messages.
pub open spec fn collected(items: Seq<ConversationItem>, prefix: Seq<char>, n: int) -> Result<
    Seq<ContentView>,
    Seq<char>,
>
    decreases n,
{
    if n <= 0 || n > items.len() {
        Ok(Seq::empty())
    } else {
        match collected(items, prefix, n - 1) {
            Err(e) => Err(e),
            Ok(before) => match kept_content(items[n - 1], prefix) {
                Err(e) => Err(e),
                Ok(None) => Ok(before),
                Ok(Some(c)) => Ok(before.push(c)),
            },
        }
    }
}

fn keep_content(item: &ConversationItem, prefix: &str) -> (r: Result<Option<UserContent>, String>)
    ensures
        match r {
            Ok(Some(c)) => kept_content(*item, prefix@) == Ok::<Option<ContentView>, Seq<char>>(
                Some(c@),
            ),
            Ok(None) => kept_content(*item, prefix@) == Ok::<Option<ContentView>, Seq<char>>(None),
            Err(e) => kept_content(*item, prefix@) == Err::<Option<ContentView>, Seq<char>>(e@),
        },
{
    let role = match &item.role {
        Some(r) => trim(r.as_str()),
        None => "",
    };
    if !str_eq(role, "user") {
        return Ok(None);
    }
    let c = match compact_user_content(&item.content) {
        Ok(c) => c,
        Err(e) => return Err(e),
    };
    match is_empty_user_content(&c) {
        Err(e) => return Err(e),
        Ok(true) => return Ok(None),
        Ok(false) => {},
    }
    let wanted = trim(prefix);
    if !wanted.is_empty() {
        match summary_detection_text(&c) {
            Err(e) => return Err(e),
            Ok(text) => {
                if has_prefix(text.as_str(), wanted) {
                    return Ok(None);
                }
            },
        }
    }
    Ok(Some(c))
}

proof fn lemma_collected_fail(items: Seq<ConversationItem>, prefix: Seq<char>, i: int, n: int)
    requires
        0 <= i <= n <= items.len(),
        collected(items, prefix, i) is Err,
    ensures
        collected(items, prefix, n) == collected(items, prefix, i),
    decreases n - i,
{
    if i < n {
        lemma_collected_fail(items, prefix, i, n - 1);
    }
}

/// Collects what the user said, without earlier summaries.
pub fn collect_user_messages(items: &Vec<ConversationItem>, prefix: &str) -> (r: Result<
    Vec<UserContent>,
    String,
>)
    ensures
        match r {
            Ok(out) => collected(items@, prefix@, items@.len() as int) == Ok::<
                Seq<ContentView>,
                Seq<char>,
            >(content_views(out@)),
            Err(e) => collected(items@, prefix@, items@.len() as int) == Err::<
                Seq<ContentView>,
                Seq<char>,
            >(e@),
        },
{
    let mut out: Vec<UserContent> = Vec::new();
    let mut i: usize = 0;
    proof {
        assert(content_views(out@) =~= Seq::empty());
    }
    while i < items.len()
        invariant
            i <= items@.len(),
            collected(items@, prefix@, i as int) == Ok::<Seq<ContentView>, Seq<char>>(
                content_views(out@),
            ),
        decreases items@.len() - i,
    {
        match keep_content(&items[i], prefix) {
            Err(e) => {
                proof {
                    lemma_collected_fail(items@, prefix@, i + 1, items@.len() as int);
                }
                return Err(e);
            },
            Ok(None) => {},
            Ok(Some(c)) => {
                let ghost before = out@;
                out.push(c);
                proof {
                    assert(content_views(out@) =~= content_views(before).push(c@));
                }
            },
        }
        i += 1;
    }
    Ok(out)
}

/// The text of a summary behind its prefix.
pub open spec fn summary_text_of(prefix: Seq<char>, suffix: Seq<char>) -> Seq<char> {
    if is_blank(prefix) {
        trim_of(suffix)
    } else if is_blank(suffix) {
        trim_of(prefix)
    } else {
        trim_of(prefix) + "\n"@ + trim_of(suffix)
    }
}

/// Puts the prefix in front of a summary.
pub fn build_summary_text(prefix: &str, suffix: &str) -> (r: String)
    ensures
        r@ == summary_text_of(prefix@, suffix@),
{
    let p = trim(prefix);
    let s = trim(suffix);
    if p.is_empty() {
        s.to_owned()
    } else if s.is_empty() {
        p.to_owned()
    } else {
        cat3(p, "\n", s)
    }
}

/// The compacted conversation: the newest user messages, then the summary.
pub open spec fn compacted_of(
    items: Seq<ConversationItem>,
    prefix: Seq<char>,
    summary: Seq<char>,
) -> Result<Seq<Jv>, Seq<char>> {
    match collected(items, prefix, items.len() as int) {
        Err(e) => Err(e),
        Ok(contents) => match newest_within(
            contents,
            contents.len() as int,
            COMPACT_USER_MESSAGE_MAX_TOKENS,
        ) {
            Err(e) => Err(e),
            Ok(kept) => Ok(
                user_messages_of(kept).push(
                    user_message(Jv::Array(seq![text_view(summary_text_of(prefix, summary))])),
                ),
            ),
        },
    }
}

/// Builds the compacted conversation from a summary.
pub fn compact_context(items: &Vec<ConversationItem>, prefix: &str, summary: &str) -> (r: Result<
    Vec<Json>,
    String,
>)
    ensures
        match compacted_of(items@, prefix@, summary@) {
            Ok(messages) => r matches Ok(out) && json_views(out@) == messages,
            Err(e) => r matches Err(error) && error@ == e,
        },
{
    let contents = match collect_user_messages(items, prefix) {
        Ok(c) => c,
        Err(e) => return Err(e),
    };
    let mut out = match build_compacted_user_messages(&contents, COMPACT_USER_MESSAGE_MAX_TOKENS) {
        Ok(m) => m,
        Err(e) => return Err(e),
    };
    proof {
        assert(content_views(contents@).len() == contents@.len());
    }
    let text = build_summary_text(prefix, summary);
    let block = text_block(text.as_str());
    let mut blocks: Vec<Json> = Vec::new();
    let ghost none = blocks@;
    blocks.push(block);
    proof {
        lemma_json_views_push(none, block);
        assert(json_views(blocks@) =~= seq![block@]);
    }
    let message = make_user_message(Json::Array(blocks));
    let ghost before = out@;
    out.push(message);
    proof {
        lemma_json_views_push(before, message);
    }
    Ok(out)
}

/// Whether an error says that the context is too long for the model.
pub open spec fn context_window_error(error: Seq<char>) -> bool {
    let text = lowercase(error);
    ||| contains_sub(text, "context window"@)
    ||| contains_sub(text, "context length"@)
    ||| contains_sub(text, "maximum context"@)
    ||| contains_sub(text, "maximum token"@)
    ||| contains_sub(text, "token limit"@)
    ||| contains_sub(text, "prompt is too long"@)
    ||| contains_sub(text, "too many tokens"@)
    ||| contains_sub(text, "contextwindowexceeded"@)
}

/// Whether a lower case error text says that the context is too long.
pub fn lowered_is_context_window_error(text: &str) -> (r: bool)
    ensures
        r == (contains_sub(text@, "context window"@) || contains_sub(text@, "context length"@)
            || contains_sub(text@, "maximum context"@) || contains_sub(text@, "maximum token"@)
            || contains_sub(text@, "token limit"@) || contains_sub(text@, "prompt is too long"@)
            || contains_sub(text@, "too many tokens"@) || contains_sub(
            text@,
            "contextwindowexceeded"@,
        )),
{
    contains_text(text, "context window") || contains_text(text, "context length")
        || contains_text(text, "maximum context") || contains_text(text, "maximum token")
        || contains_text(text, "token limit") || contains_text(text, "prompt is too long")
        || contains_text(text, "too many tokens") || contains_text(text, "contextwindowexceeded")
}

/// Whether an error says that the context is too long for the model.
pub fn is_context_window_error(error: &str) -> (r: bool)
    ensures
        r == context_window_error(error@),
{
    let text = to_lowercase(error);
    lowered_is_context_window_error(text.as_str())
}

/// What the model answered to a request for a summary.
#[derive(Debug)]
pub enum SummaryReply {
    /// A message, with its content where that is plain text.
    Message(Option<String>),
    /// An error.
    Failed(String),
}

/// What follows from the answer.
#[derive(Debug)]
pub enum SummaryStep {
    /// The summary.
    Done(String),
    /// Ask again without the oldest message.
    Retry,
    /// Give up with this error.
    Failed(String),
}

/// What follows from the answer.
pub ghost enum SummaryStepView {
    Done(Seq<char>),
    Retry,
    Failed(Seq<char>),
}

impl View for SummaryStep {
    type V = SummaryStepView;

    open spec fn view(&self) -> SummaryStepView {
        match *self {
            SummaryStep::Done(s) => SummaryStepView::Done(s@),
            SummaryStep::Retry => SummaryStepView::Retry,
            SummaryStep::Failed(s) => SummaryStepView::Failed(s@),
        }
    }
}

/// What follows from an answer while `remaining` messages are sent along.
pub open spec fn summary_step(reply: SummaryReply, remaining: nat) -> SummaryStepView {
    match reply {
        SummaryReply::Message(None) => SummaryStepView::Failed(
            "Compaction summary content must be plain text."@,
        ),
        SummaryReply::Message(Some(s)) => if is_blank(s@) {
            SummaryStepView::Failed("Compaction summary content cannot be empty."@)
        } else {
            SummaryStepView::Done(trim_of(s@))
        },
        SummaryReply::Failed(e) => if context_window_error(e@) && remaining > 0 {
            SummaryStepView::Retry
        } else {
            SummaryStepView::Failed(e@)
        },
    }
}

/// A request for a summary of a conversation.
#[derive(Debug)]
pub struct SummaryRequest {
    pub remaining: Vec<Json>,
}

impl SummaryRequest {
    /// A request about a whole conversation.
    pub fn new(conversation: Vec<Json>) -> (r: Self)
        ensures
            r.remaining == conversation,
    {
        SummaryRequest { remaining: conversation }
    }

    /// The messages to send: the instruction, then what remains of the
    /// conversation.
    pub fn messages(&self, prompt: &str) -> (r: Vec<Json>)
        ensures
            json_views(r@) == seq![system_message(prompt@)] + json_views(self.remaining@),
    {
        let mut m = no_members();
        put_text(&mut m, "role", "system");
        put_text(&mut m, "content", prompt);
        let first = Json::Object(m);
        let mut out: Vec<Json> = Vec::new();
        let ghost none = out@;
        out.push(first);
        proof {
            lemma_json_views_push(none, first);
            lemma_json_views(self.remaining@);
            assert(json_views(out@) =~= seq![system_message(prompt@)] + json_views(
                self.remaining@,
            ).take(0));
        }
        let mut i: usize = 0;
        while i < self.remaining.len()
            invariant
                i <= self.remaining@.len(),
                json_views(self.remaining@).len() == self.remaining@.len(),
                forall|k: int|
                    0 <= k < self.remaining@.len() ==> #[trigger] json_views(self.remaining@)[k]
                        == self.remaining@[k]@,
                json_views(out@) == seq![system_message(prompt@)] + json_views(
                    self.remaining@,
                ).take(i as int),
            decreases self.remaining@.len() - i,
        {
            let v = self.remaining[i].copy();
            let ghost before = out@;
            out.push(v);
            proof {
                lemma_json_views_push(before, v);
                let all = json_views(self.remaining@);
                assert(all.take(i + 1) =~= all.take(i as int).push(all[i as int]));
                assert(json_views(out@) =~= seq![system_message(prompt@)] + all.take(i + 1));
            }
            i += 1;
        }
        proof {
            assert(json_views(self.remaining@).take(self.remaining@.len() as int) =~= json_views(
                self.remaining@,
            ));
        }
        out
    }

    /// Takes an answer. A context that is too long loses its oldest message,
    /// and the request is made again.
    pub fn on_reply(&mut self, reply: SummaryReply) -> (r: SummaryStep)
        ensures
            r@ == summary_step(reply, old(self).remaining@.len()),
            r@ is Retry ==> final(self).remaining@ == old(self).remaining@.skip(1),
            !(r@ is Retry) ==> final(self).remaining@ == old(self).remaining@,
    {
        match reply {
            SummaryReply::Message(None) => SummaryStep::Failed(
                "Compaction summary content must be plain text.".to_owned(),
            ),
            SummaryReply::Message(Some(s)) => {
                let t = trim(s.as_str());
                if t.is_empty() {
                    SummaryStep::Failed("Compaction summary content cannot be empty.".to_owned())
                } else {
                    SummaryStep::Done(t.to_owned())
                }
            },
            SummaryReply::Failed(e) => {
                if is_context_window_error(e.as_str()) && self.remaining.len() > 0 {
                    let ghost before = self.remaining@;
                    self.remaining.remove(0);
                    proof {
                        assert(self.remaining@ =~= before.skip(1));
                    }
                    SummaryStep::Retry
                } else {
                    SummaryStep::Failed(e)
                }
            },
        }
    }
}

/// A system message.
pub open spec fn system_message(content: Seq<char>) -> Jv {
    Jv::Object(
        Map::<Seq<char>, Jv>::empty().insert("role"@, Jv::Text("system"@)).insert(
            "content"@,
            Jv::Text(content),
        ),
    )
}

proof fn lemma_search_prefix(text: Seq<char>, budget: usize, low: int, high: int, best: Seq<char>)
    requires
        1 <= low,
        high <= text.len(),
        best.len() > 0 ==> (content_tokens(ContentView::Text(best)) matches Ok(n) && n <= budget),
        best.len() > 0 ==> exists|k: int| 0 <= k <= text.len() && best == trim_of(#[trigger] text.take(k)),
    ensures
        search_prefix(text, budget, low, high, best) matches Ok(s) ==> (s.len() > 0 ==> {
            &&& content_tokens(ContentView::Text(s)) matches Ok(n) && n <= budget
            &&& exists|k: int| 0 <= k <= text.len() && s == trim_of(#[trigger] text.take(k))
        }),
    decreases high - low + 1,
{
    if low <= high {
        let mid = (low + high) / 2;
        let candidate = trim_of(text.take(mid));
        if candidate.len() == 0 {
            lemma_search_prefix(text, budget, mid + 1, high, best);
        } else if let Ok(n) = content_tokens(ContentView::Text(candidate)) {
            if n <= budget {
                lemma_search_prefix(text, budget, mid + 1, high, candidate);
            } else {
                lemma_search_prefix(text, budget, low, mid - 1, best);
            }
        }
    }
}

/// A shortened text fits its budget and is a beginning of the text, white
/// space at the ends aside.
pub proof fn law_shortened_text_fits(text: Seq<char>, budget: usize)
    ensures
        fitted_text(text, budget) matches Ok(s) ==> (s.len() > 0 ==> {
            &&& content_tokens(ContentView::Text(s)) matches Ok(n) && n <= budget
            &&& exists|k: int|
                0 <= k <= trim_of(text).len() && s == trim_of(#[trigger] trim_of(text).take(k))
        }),
{
    lemma_search_prefix(trim_of(text), budget, 1, trim_of(text).len() as int, Seq::empty());
}

/// How many tokens the first `n` contents have together.
pub open spec fn total_tokens(contents: Seq<ContentView>, n: int) -> int
    decreases n,
{
    if n <= 0 || n > contents.len() {
        0
    } else {
        total_tokens(contents, n - 1) + match content_tokens(contents[n - 1]) {
            Ok(k) => k as int,
            Err(_) => 0,
        }
    }
}

proof fn lemma_total_tokens_prefix(a: Seq<ContentView>, c: ContentView, n: int)
    requires
        0 <= n <= a.len(),
    ensures
        total_tokens(a.push(c), n) == total_tokens(a, n),
    decreases n,
{
    if n > 0 {
        lemma_total_tokens_prefix(a, c, n - 1);
    }
}

/// Whether contents that say the same have the same number of tokens.
pub open spec fn counts_agree(contents: Seq<ContentView>) -> bool {
    forall|i: int, j: int|
        0 <= i < contents.len() && 0 <= j < contents.len() && #[trigger] content_json(contents[i])
            == #[trigger] content_json(contents[j]) ==> content_tokens(contents[i])
            == content_tokens(contents[j])
}

proof fn lemma_newest_like(contents: Seq<ContentView>, i: int, n: int)
    requires
        0 <= i < n <= contents.len(),
    ensures
        i <= newest_like(contents, i, n) < n,
        content_json(contents[newest_like(contents, i, n)]) == content_json(contents[i]),
    decreases n,
{
    if n > i + 1 && content_json(contents[n - 1]) != content_json(contents[i]) {
        lemma_newest_like(contents, i, n - 1);
    }
}

/// The messages that survive a compaction keep the budget, where messages that
/// say the same have the same number of tokens.
pub proof fn law_kept_messages_keep_the_budget(contents: Seq<ContentView>, n: int, budget: usize)
    requires
        0 <= n <= contents.len(),
        counts_agree(contents),
    ensures
        newest_within(contents, n, budget) matches Ok(kept) ==> total_tokens(
            kept,
            kept.len() as int,
        ) <= budget,
    decreases n,
{
    if n > 0 && budget > 0 {
        let c = contents[n - 1];
        lemma_newest_like(contents, n - 1, contents.len() as int);
        let like = newest_like(contents, n - 1, contents.len() as int);
        assert(content_json(contents[like]) == content_json(contents[n - 1]));
        assert(shared_tokens(contents, n - 1) == content_tokens(c));
        if let Ok(tokens) = content_tokens(c) {
            if tokens <= budget {
                let rest = (budget - tokens) as usize;
                law_kept_messages_keep_the_budget(contents, n - 1, rest);
                if let Ok(older) = newest_within(contents, n - 1, rest) {
                    lemma_total_tokens_prefix(older, c, older.len() as int);
                }
            } else if let Ok(Some(short)) = fitted_content(c, budget) {
                law_shortened_text_fits(c->Text_0, budget);
                let kept = seq![short];
                assert(total_tokens(kept, 0) == 0);
                assert(total_tokens(kept, 1) <= budget);
            }
        }
    }
}

/// How many tokens the contents `from..n` are taken to have together.
pub open spec fn counted_tokens(contents: Seq<ContentView>, from: int, n: int) -> int
    decreases n - from,
{
    if from >= n {
        0
    } else {
        counted_tokens(contents, from, n - 1) + match shared_tokens(contents, n - 1) {
            Ok(k) => k as int,
            Err(_) => 0,
        }
    }
}

/// Whether the contents `from..n` are kept whole within a budget.
pub open spec fn kept_whole(
    contents: Seq<ContentView>,
    from: int,
    n: int,
    budget: int,
    kept: Seq<ContentView>,
) -> bool {
    &&& 0 <= from <= n
    &&& kept == contents.subrange(from, n)
    &&& counted_tokens(contents, from, n) <= budget
}

/// Whether the contents `from..n` are kept within a budget, with what still fits
/// of the one before them.
pub open spec fn kept_with_short(
    contents: Seq<ContentView>,
    from: int,
    n: int,
    budget: int,
    kept: Seq<ContentView>,
) -> bool {
    let left = budget - counted_tokens(contents, from, n);
    &&& 0 < from <= n
    &&& kept.len() == n - from + 1
    &&& kept.skip(1) == contents.subrange(from, n)
    &&& 0 <= left <= usize::MAX
    &&& fitted_content(contents[from - 1], left as usize) == Ok::<Option<ContentView>, Seq<char>>(
        Some(kept[0]),
    )
    &&& content_tokens(kept[0]) matches Ok(k) && k <= left
}

/// Whether the contents from the `from`-th on are what is kept of the first `n`,
/// whole or with a shortened one before them.
pub open spec fn kept_from(
    contents: Seq<ContentView>,
    from: int,
    n: int,
    budget: int,
    kept: Seq<ContentView>,
) -> bool {
    kept_whole(contents, from, n, budget, kept) || kept_with_short(contents, from, n, budget, kept)
}

/// The messages that survive are the newest ones, in order, and keep the budget
/// as they are counted; only the oldest of them may be a shortened one.
pub proof fn law_kept_messages_are_the_newest(contents: Seq<ContentView>, n: int, budget: usize)
    requires
        0 <= n <= contents.len(),
    ensures
        newest_within(contents, n, budget) matches Ok(kept) ==> exists|from: int|
            #[trigger] kept_from(contents, from, n, budget as int, kept),
    decreases n,
{
    if let Ok(kept) = newest_within(contents, n, budget) {
        if n <= 0 || budget == 0 {
            assert(kept =~= contents.subrange(n, n));
            assert(kept_from(contents, n, n, budget as int, kept));
        } else {
            let c = contents[n - 1];
            let tokens = shared_tokens(contents, n - 1)->Ok_0;
            if tokens <= budget {
                let rest = (budget - tokens) as usize;
                law_kept_messages_are_the_newest(contents, n - 1, rest);
                let older = newest_within(contents, n - 1, rest)->Ok_0;
                let from = choose|from: int|
                    #[trigger] kept_from(contents, from, n - 1, rest as int, older);
                assert(contents.subrange(from, n) =~= contents.subrange(from, n - 1).push(c));
                if kept_with_short(contents, from, n - 1, rest as int, older) {
                    assert(kept.skip(1) =~= older.skip(1).push(c));
                    assert(kept[0] == older[0]);
                }
                assert(kept_from(contents, from, n, budget as int, kept));
            } else {
                if let Ok(Some(short)) = fitted_content(c, budget) {
                    law_shortened_text_fits(c->Text_0, budget);
                    assert(kept.skip(1) =~= contents.subrange(n, n));
                } else {
                    assert(kept =~= contents.subrange(n, n));
                }
                assert(kept_from(contents, n, n, budget as int, kept));
            }
        }
    }
}

/// Whether the type of a block is one of texts and resources.
pub open spec fn says_text(v: Jv) -> bool {
    &&& v is Object
    &&& field(v, "type"@) matches Some(Jv::Text(t)) && (trim_of(t) == "text"@ || trim_of(t)
        == "input_text"@ || trim_of(t) == "resource"@ || trim_of(t) == "resource_link"@)
}

/// Whether the type of a block is one of images.
pub open spec fn says_image(v: Jv) -> bool {
    &&& v is Object
    &&& field(v, "type"@) matches Some(Jv::Text(t)) && (trim_of(t) == "image"@ || trim_of(t)
        == "image_url"@ || trim_of(t) == "input_image"@)
}

proof fn lemma_block_types()
    ensures
        "text"@ != "image"@,
        "text"@ != "image_url"@,
        "text"@ != "input_image"@,
        "input_text"@ != "image"@,
        "input_text"@ != "image_url"@,
        "input_text"@ != "input_image"@,
        "resource"@ != "image"@,
        "resource"@ != "image_url"@,
        "resource"@ != "input_image"@,
        "resource_link"@ != "image"@,
        "resource_link"@ != "image_url"@,
        "resource_link"@ != "input_image"@,
        "text"@ != "resource"@,
        "text"@ != "resource_link"@,
        "input_text"@ != "resource"@,
        "input_text"@ != "resource_link"@,
        "type"@ != "text"@,
        "role"@ != "content"@,
{
    reveal_strlit("text");
    reveal_strlit("input_text");
    reveal_strlit("resource");
    reveal_strlit("resource_link");
    reveal_strlit("image");
    reveal_strlit("image_url");
    reveal_strlit("input_image");
    reveal_strlit("type");
    reveal_strlit("role");
    reveal_strlit("content");
    assert("text"@[0] == 't' && "input_text"@[6] == 't' && "resource"@[0] == 'r');
    assert("image"@[0] == 'i' && "image_url"@[1] == 'm' && "input_image"@[6] == 'i');
    assert("input_text"@[1] == 'n' && "resource_link"@[0] == 'r' && "input_text"@[0] == 'i');
    assert("type"@[1] == 'y' && "text"@[1] == 'e' && "role"@.len() == 4 && "content"@.len() == 7);
    assert("image"@[1] == 'm');
}

proof fn lemma_compact_parts_one_by_one(parts: Seq<PartView>, n: int, i: int)
    requires
        0 <= i < n <= parts.len(),
    ensures
        compact_parts(parts, n) matches Ok(out) ==> out.len() == n && compact_part(parts[i]) == Ok::<
            PartView,
            Seq<char>,
        >(out[i]),
    decreases n,
{
    if i < n - 1 {
        lemma_compact_parts_one_by_one(parts, n - 1, i);
    } else if n > 1 {
        lemma_compact_parts_one_by_one(parts, n - 1, 0);
    }
}

proof fn lemma_compact_parts_succeeds(parts: Seq<PartView>, n: int)
    requires
        0 <= n <= parts.len(),
        forall|i: int|
            0 <= i < parts.len() ==> says_text((#[trigger] parts[i]).value) || says_image(
                parts[i].value,
            ),
    ensures
        compact_parts(parts, n) is Ok,
    decreases n,
{
    lemma_block_types();
    if n > 0 {
        lemma_compact_parts_succeeds(parts, n - 1);
        assert(says_text(parts[n - 1].value) || says_image(parts[n - 1].value));
    }
}

/// Compaction keeps every block of a user message that is no image exactly as it
/// is, in its place; only images become a placeholder text.
pub proof fn law_compaction_replaces_only_images(parts: Seq<PartView>, i: int)
    requires
        0 <= i < parts.len(),
        forall|k: int|
            0 <= k < parts.len() ==> says_text((#[trigger] parts[k]).value) || says_image(
                parts[k].value,
            ),
    ensures
        compact_content(ContentView::Parts(parts)) matches Ok(ContentView::Parts(out)) && {
            &&& out.len() == parts.len()
            &&& says_text(parts[i].value) ==> out[i] == parts[i]
            &&& says_image(parts[i].value) ==> field(out[i].value, "type"@) == Some(
                Jv::Text("text"@),
            ) && field(out[i].value, "text"@) == Some(Jv::Text("该处为图片消息。"@))
        },
        (forall|k: int| 0 <= k < parts.len() ==> says_text((#[trigger] parts[k]).value))
            ==> compact_content(ContentView::Parts(parts)) == Ok::<ContentView, Seq<char>>(
            ContentView::Parts(parts),
        ),
{
    let n = parts.len() as int;
    lemma_block_types();
    lemma_compact_parts_succeeds(parts, n);
    lemma_compact_parts_one_by_one(parts, n, i);
    let out = compact_parts(parts, n)->Ok_0;
    if forall|k: int| 0 <= k < parts.len() ==> says_text((#[trigger] parts[k]).value) {
        assert forall|k: int| 0 <= k < parts.len() implies out[k] == parts[k] by {
            lemma_compact_parts_one_by_one(parts, n, k);
            assert(says_text(parts[k].value));
        }
        assert(out =~= parts);
    }
}

/// A text of the user is kept as it is, and so is a list of text blocks; a blank
/// text, what others said and an earlier summary, which begins with the prefix,
/// are not kept.
pub proof fn law_what_the_user_said_is_kept(item: ConversationItem, prefix: Seq<char>, text: Seq<char>)
    requires
        item.content@ == ContentView::Text(text),
    ensures
        ({
            let users = item.role matches Some(r) && trim_of(r@) == "user"@;
            let summary = !is_blank(prefix) && trim_of(text).len() >= trim_of(prefix).len()
                && trim_of(text).take(trim_of(prefix).len() as int) == trim_of(prefix);
            &&& users && !is_blank(text) && !summary ==> kept_content(item, prefix) == Ok::<
                Option<ContentView>,
                Seq<char>,
            >(Some(ContentView::Text(text)))
            &&& !users || is_blank(text) || summary ==> kept_content(item, prefix) == Ok::<
                Option<ContentView>,
                Seq<char>,
            >(None)
        }),
{
    reveal_strlit("");
    reveal_strlit("user");
    assert(""@.len() == 0 && "user"@.len() == 4);
}

/// Blocks of the user that hold texts or resources are kept as they are, unless
/// they begin with the prefix of a summary.
pub proof fn law_blocks_of_the_user_are_kept(item: ConversationItem, prefix: Seq<char>)
    requires
        item.role matches Some(r) && trim_of(r@) == "user"@,
        item.content@ is Parts,
        item.content@->Parts_0.len() > 0,
        forall|k: int|
            0 <= k < item.content@->Parts_0.len() ==> says_text(
                (#[trigger] item.content@->Parts_0[k]).value,
            ),
    ensures
        is_blank(prefix) ==> kept_content(item, prefix) == Ok::<Option<ContentView>, Seq<char>>(
            Some(item.content@),
        ),
        kept_content(item, prefix) matches Ok(Some(c)) ==> c == item.content@,
{
    law_compaction_replaces_only_images(item.content@->Parts_0, 0);
}

/// Whether the contents before the `from`-th are left out for a reason: nothing is
/// left of the budget, or the next one is too long for what is left.
pub open spec fn left_out_rightly(contents: Seq<ContentView>, from: int, n: int, budget: int) -> bool {
    let left = budget - counted_tokens(contents, from, n);
    from > 0 ==> left == 0 || (shared_tokens(contents, from - 1) matches Ok(k) && k > left)
}

/// No message is left out that still fits: what is kept goes back until the budget
/// is used up or the next older message is too long for the rest of it.
pub proof fn law_compaction_keeps_all_that_fits(contents: Seq<ContentView>, n: int, budget: usize)
    requires
        0 <= n <= contents.len(),
    ensures
        newest_within(contents, n, budget) matches Ok(kept) ==> exists|from: int|
            #[trigger] kept_from(contents, from, n, budget as int, kept) && left_out_rightly(
                contents,
                from,
                n,
                budget as int,
            ),
    decreases n,
{
    if let Ok(kept) = newest_within(contents, n, budget) {
        if n <= 0 || budget == 0 {
            assert(kept =~= contents.subrange(n, n));
            assert(kept_from(contents, n, n, budget as int, kept));
            assert(left_out_rightly(contents, n, n, budget as int));
        } else {
            let c = contents[n - 1];
            let tokens = shared_tokens(contents, n - 1)->Ok_0;
            if tokens <= budget {
                let rest = (budget - tokens) as usize;
                law_compaction_keeps_all_that_fits(contents, n - 1, rest);
                let older = newest_within(contents, n - 1, rest)->Ok_0;
                let m = n - 1;
                let from = choose|from: int|
                    #[trigger] kept_from(contents, from, m, rest as int, older)
                        && left_out_rightly(contents, from, m, rest as int);
                assert(contents.subrange(from, n) =~= contents.subrange(from, n - 1).push(c));
                if kept_with_short(contents, from, n - 1, rest as int, older) {
                    assert(kept.skip(1) =~= older.skip(1).push(c));
                    assert(kept[0] == older[0]);
                }
                assert(kept_from(contents, from, n, budget as int, kept));
                assert(left_out_rightly(contents, from, n, budget as int));
            } else {
                if let Ok(Some(short)) = fitted_content(c, budget) {
                    law_shortened_text_fits(c->Text_0, budget);
                    assert(kept.skip(1) =~= contents.subrange(n, n));
                } else {
                    assert(kept =~= contents.subrange(n, n));
                }
                assert(kept_from(contents, n, n, budget as int, kept));
                assert(left_out_rightly(contents, n, n, budget as int));
            }
        }
    }
}

/// Where all messages of the user fit the budget with room to spare, all are kept,
/// in their order.
pub proof fn law_short_conversation_loses_nothing(contents: Seq<ContentView>, n: int, budget: usize)
    requires
        0 <= n <= contents.len(),
        forall|i: int| 0 <= i < n ==> #[trigger] shared_tokens(contents, i) is Ok,
        counted_tokens(contents, 0, n) < budget,
    ensures
        newest_within(contents, n, budget) == Ok::<Seq<ContentView>, Seq<char>>(contents.take(n)),
    decreases n,
{
    if n > 0 {
        assert(shared_tokens(contents, n - 1) is Ok);
        let tokens = shared_tokens(contents, n - 1)->Ok_0;
        lemma_counted_grows(contents, n - 1);
        law_short_conversation_loses_nothing(contents, n - 1, (budget - tokens) as usize);
        assert(contents.take(n) =~= contents.take(n - 1).push(contents[n - 1]));
    } else {
        assert(contents.take(0) =~= Seq::empty());
    }
}

proof fn lemma_counted_grows(contents: Seq<ContentView>, n: int)
    ensures
        counted_tokens(contents, 0, n) >= 0,
    decreases n,
{
    if n > 0 {
        lemma_counted_grows(contents, n - 1);
    }
}

/// A compacted conversation is what is kept of the user's messages, in order, and
/// then the summary behind its prefix: every message is one of the user.
pub proof fn law_summary_comes_last(
    items: Seq<ConversationItem>,
    prefix: Seq<char>,
    summary: Seq<char>,
    i: int,
)
    ensures
        compacted_of(items, prefix, summary) matches Ok(messages) ==> {
            let kept = newest_within(
                collected(items, prefix, items.len() as int)->Ok_0,
                collected(items, prefix, items.len() as int)->Ok_0.len() as int,
                20_000,
            )->Ok_0;
            let last = messages[kept.len() as int];
            &&& messages.len() == kept.len() + 1
            &&& field(last, "role"@) == Some(Jv::Text("user"@))
            &&& field(last, "content"@) matches Some(Jv::Array(blocks)) && blocks.len() == 1
                && field(blocks[0], "type"@) == Some(Jv::Text("text"@)) && field(
                blocks[0],
                "text"@,
            ) == Some(
                Jv::Text(
                    if is_blank(prefix) {
                        trim_of(summary)
                    } else if is_blank(summary) {
                        trim_of(prefix)
                    } else {
                        trim_of(prefix) + "\n"@ + trim_of(summary)
                    },
                ),
            )
            &&& 0 <= i < kept.len() ==> {
                &&& field(messages[i], "role"@) == Some(Jv::Text("user"@))
                &&& kept[i] matches ContentView::Text(s) ==> field(messages[i], "content"@) == Some(
                    Jv::Text(s),
                )
                &&& kept[i] matches ContentView::Parts(parts) ==> field(messages[i], "content"@)
                    == Some(Jv::Array(Seq::new(parts.len(), |k: int| parts[k].value)))
            }
        },
{
    lemma_block_types();
    if let Ok(messages) = compacted_of(items, prefix, summary) {
        let contents = collected(items, prefix, items.len() as int)->Ok_0;
        let kept = newest_within(contents, contents.len() as int, 20_000)->Ok_0;
        if 0 <= i < kept.len() {
            if let ContentView::Parts(parts) = kept[i] {
                assert(parts.map_values(|p: PartView| p.value) =~= Seq::new(
                    parts.len(),
                    |k: int| parts[k].value,
                ));
            }
        }
    }
}

/// What is collected goes message by message: two conversations one behind the
/// other give what the first gives and then what the second gives.
pub proof fn law_conversations_are_collected_in_order(
    a: Seq<ConversationItem>,
    b: Seq<ConversationItem>,
    prefix: Seq<char>,
    n: int,
)
    requires
        0 <= n <= b.len(),
        collected(a, prefix, a.len() as int) is Ok,
    ensures
        collected(a + b, prefix, a.len() + n) == match collected(b, prefix, n) {
            Ok(more) => Ok::<Seq<ContentView>, Seq<char>>(
                collected(a, prefix, a.len() as int)->Ok_0 + more,
            ),
            Err(e) => Err(e),
        },
    decreases n,
{
    let front = collected(a, prefix, a.len() as int)->Ok_0;
    if n == 0 {
        lemma_collected_prefix(a, b, prefix, a.len() as int);
        assert(front + Seq::<ContentView>::empty() =~= front);
    } else {
        law_conversations_are_collected_in_order(a, b, prefix, n - 1);
        assert((a + b)[a.len() + n - 1] == b[n - 1]);
        if let Ok(more) = collected(b, prefix, n - 1) {
            if let Ok(Some(c)) = kept_content(b[n - 1], prefix) {
                assert((front + more).push(c) =~= front + more.push(c));
            }
        }
    }
}

proof fn lemma_collected_prefix(
    a: Seq<ConversationItem>,
    b: Seq<ConversationItem>,
    prefix: Seq<char>,
    n: int,
)
    requires
        0 <= n <= a.len(),
    ensures
        collected(a + b, prefix, n) == collected(a, prefix, n),
    decreases n,
{
    if n > 0 {
        lemma_collected_prefix(a, b, prefix, n - 1);
        assert((a + b)[n - 1] == a[n - 1]);
    }
}

/// One message gives what is kept of it.
pub proof fn law_one_message_is_collected(item: ConversationItem, prefix: Seq<char>)
    ensures
        kept_content(item, prefix) matches Ok(Some(c)) ==> collected(seq![item], prefix, 1) == Ok::<
            Seq<ContentView>,
            Seq<char>,
        >(seq![c]),
        kept_content(item, prefix) matches Ok(None) ==> collected(seq![item], prefix, 1) == Ok::<
            Seq<ContentView>,
            Seq<char>,
        >(Seq::empty()),
{
    assert(collected(seq![item], prefix, 0) == Ok::<Seq<ContentView>, Seq<char>>(Seq::empty()));
    if let Ok(Some(c)) = kept_content(item, prefix) {
        assert(Seq::<ContentView>::empty().push(c) =~= seq![c]);
    }
}

/// The tokens of a text are those of the text itself, and none where it is blank;
/// those of one text block are those of its text.
pub proof fn law_tokens_are_counted_of_the_text(s: Seq<char>, p: PartView)
    requires
        p.value is Object,
        field(p.value, "type"@) matches Some(Jv::Text(t)) && trim_of(t) == "text"@,
        field(p.value, "text"@) == Some(Jv::Text(s)),
    ensures
        is_blank(s) ==> content_tokens(ContentView::Text(s)) == Ok::<usize, Seq<char>>(0),
        !is_blank(s) && token_count(s) is Some ==> content_tokens(ContentView::Text(s)) == Ok::<
            usize,
            Seq<char>,
        >(token_count(s)->Some_0),
        s.len() > 0 && token_count(s) is Some ==> content_tokens(ContentView::Parts(seq![p]))
            == Ok::<usize, Seq<char>>(token_count(s)->Some_0),
{
    let parts = seq![p];
    if s.len() > 0 {
        assert(token_texts(parts, 0) == Ok::<Seq<Seq<char>>, Seq<char>>(Seq::empty()));
        assert(Seq::<Seq<char>>::empty().push(s) =~= seq![s]);
        assert(token_texts(parts, 1) == Ok::<Seq<Seq<char>>, Seq<char>>(seq![s]));
        assert(join_of(seq![s], "\n"@) == s);
    }
}

/// A text all of whose beginnings fit the budget is not shortened.
pub proof fn law_text_that_fits_is_not_shortened(text: Seq<char>, budget: usize)
    requires
        budget > 0,
        !is_blank(text),
        forall|k: int|
            0 < k <= trim_of(text).len() ==> (content_tokens(
                ContentView::Text(trim_of(#[trigger] trim_of(text).take(k))),
            ) matches Ok(n) && n <= budget),
    ensures
        fitted_text(text, budget) == Ok::<Seq<char>, Seq<char>>(trim_of(text)),
{
    let t = trim_of(text);
    crate::text::law_trim_is_idempotent(text);
    assert(t.take(t.len() as int) =~= t);
    lemma_search_finds_all(t, budget, 1, Seq::empty());
}

proof fn lemma_search_finds_all(t: Seq<char>, budget: usize, low: int, best: Seq<char>)
    requires
        t.len() > 0,
        trim_of(t) == t,
        t.take(t.len() as int) == t,
        1 <= low <= t.len(),
        forall|k: int|
            0 < k <= t.len() ==> (content_tokens(ContentView::Text(trim_of(#[trigger] t.take(k))))
                matches Ok(n) && n <= budget),
    ensures
        search_prefix(t, budget, low, t.len() as int, best) == Ok::<Seq<char>, Seq<char>>(t),
    decreases t.len() - low,
{
    let high = t.len() as int;
    let mid = (low + high) / 2;
    let candidate = trim_of(t.take(mid));
    assert(low <= mid <= high);
    if mid == high {
        assert(candidate == t);
        assert(search_prefix(t, budget, mid + 1, high, candidate) == Ok::<Seq<char>, Seq<char>>(t));
    } else if candidate.len() == 0 {
        lemma_search_finds_all(t, budget, mid + 1, best);
    } else {
        lemma_search_finds_all(t, budget, mid + 1, candidate);
    }
}

/// A block is read by what it says for the search of a summary: a text by its words, a
/// resource not at all; every other block is refused.
pub proof fn law_summary_is_looked_for_in_texts(p: PartView, t: Seq<char>, s: Seq<char>)
    requires
        p.value is Object,
        field(p.value, "type"@) == Some(Jv::Text(t)),
    ensures
        (trim_of(t) == "text"@ || trim_of(t) == "input_text"@) && field(p.value, "text"@) == Some(
            Jv::Text(s),
        ) ==> detection_part(p) == Ok::<Seq<char>, Seq<char>>(trim_of(s)),
        (trim_of(t) == "text"@ || trim_of(t) == "input_text"@) && field(p.value, "text"@) is None
            && field(p.value, "input_text"@) == Some(Jv::Text(s)) ==> detection_part(p) == Ok::<
            Seq<char>,
            Seq<char>,
        >(trim_of(s)),
        trim_of(t) == "resource"@ || trim_of(t) == "resource_link"@ ==> detection_part(p) == Ok::<
            Seq<char>,
            Seq<char>,
        >(Seq::empty()),
        trim_of(t) != "text"@ && trim_of(t) != "input_text"@ && trim_of(t) != "resource"@
            && trim_of(t) != "resource_link"@ ==> detection_part(p) is Err,
        detection_text(ContentView::Text(s)) == Ok::<Seq<char>, Seq<char>>(trim_of(s)),
        detection_part(p) == Ok::<Seq<char>, Seq<char>>(trim_of(s)) && !is_blank(s)
            ==> detection_text(ContentView::Parts(seq![p])) == Ok::<Seq<char>, Seq<char>>(
            trim_of(s),
        ),
{
    lemma_block_names();
    let parts = seq![p];
    assert(detection_parts(parts, 0) == Ok::<Seq<Seq<char>>, Seq<char>>(Seq::empty()));
    if detection_part(p) == Ok::<Seq<char>, Seq<char>>(trim_of(s)) && !is_blank(s) {
        assert(parts[0] == p);
        assert(Seq::<Seq<char>>::empty().push(trim_of(s)) =~= seq![trim_of(s)]);
        assert(detection_parts(parts, 1) == Ok::<Seq<Seq<char>>, Seq<char>>(seq![trim_of(s)]));
        assert(join_of(seq![trim_of(s)], "\n"@) == trim_of(s));
        crate::text::law_trim_is_idempotent(s);
    }
}

proof fn lemma_block_names()
    ensures
        "text"@.len() == 4,
        "input_text"@.len() == 10,
        "resource"@.len() == 8,
        "resource_link"@.len() == 13,
{
    reveal_strlit("text");
    reveal_strlit("input_text");
    reveal_strlit("resource");
    reveal_strlit("resource_link");
}

/// The tokens of a resource are those of the whole block as it is written; a block of
/// another type cannot be counted.
pub proof fn law_resources_are_counted_whole(p: PartView, t: Seq<char>)
    requires
        p.value is Object,
        field(p.value, "type"@) == Some(Jv::Text(t)),
    ensures
        trim_of(t) == "resource"@ || trim_of(t) == "resource_link"@ ==> part_token_text(p) == Ok::<
            Option<Seq<char>>,
            Seq<char>,
        >(Some(p.json)),
        (trim_of(t) == "text"@ || trim_of(t) == "input_text"@) && field(p.value, "text"@) is None && (
        field(p.value, "input_text"@) matches Some(Jv::Text(s)) && s.len() > 0) ==> part_token_text(
            p,
        ) == Ok::<Option<Seq<char>>, Seq<char>>(Some(field(p.value, "input_text"@)->Some_0->Text_0)),
        trim_of(t) != "text"@ && trim_of(t) != "input_text"@ && trim_of(t) != "resource"@
            && trim_of(t) != "resource_link"@ ==> part_token_text(p) is Err,
{
    lemma_block_names();
}

/// The texts of the blocks are counted together, one line each, in their order.
pub proof fn law_blocks_are_counted_together(parts: Seq<PartView>, n: int)
    requires
        0 < n <= parts.len(),
    ensures
        token_texts(parts, n - 1) matches Ok(before) ==> {
            &&& part_token_text(parts[n - 1]) matches Ok(Some(s)) ==> token_texts(parts, n) == Ok::<
                Seq<Seq<char>>,
                Seq<char>,
            >(before.push(s))
            &&& part_token_text(parts[n - 1]) matches Ok(None) ==> token_texts(parts, n) == Ok::<
                Seq<Seq<char>>,
                Seq<char>,
            >(before)
            &&& part_token_text(parts[n - 1]) is Err ==> token_texts(parts, n) is Err
        },
        token_texts(parts, parts.len() as int) matches Ok(all) ==> content_token_text(
            ContentView::Parts(parts),
        ) == Ok::<Seq<char>, Seq<char>>(join_of(all, "\n"@)),
        content_token_text(ContentView::Other) is Err,
        content_is_empty(ContentView::Other) is Err,
{
}

/// An error tells that the conversation is too long if it says so in one of these ways.
pub proof fn law_errors_that_tell_of_the_length(error: Seq<char>)
    ensures
        context_window_error(error) <==> (contains_sub(lowercase(error), "context window"@)
            || contains_sub(lowercase(error), "context length"@) || contains_sub(
            lowercase(error),
            "maximum context"@,
        ) || contains_sub(lowercase(error), "maximum token"@) || contains_sub(
            lowercase(error),
            "token limit"@,
        ) || contains_sub(lowercase(error), "prompt is too long"@) || contains_sub(
            lowercase(error),
            "too many tokens"@,
        ) || contains_sub(lowercase(error), "contextwindowexceeded"@)),
{
}

/// A summary is what the model wrote, trimmed; it is asked for again only where the
/// conversation was too long and some of it is left.
pub proof fn law_summary_is_what_the_model_wrote(reply: SummaryReply, remaining: nat)
    ensures
        reply matches SummaryReply::Message(Some(s)) ==> (!is_blank(s@) ==> summary_step(
            reply,
            remaining,
        ) == SummaryStepView::Done(trim_of(s@))),
        reply matches SummaryReply::Message(Some(s)) ==> (is_blank(s@) ==> summary_step(
            reply,
            remaining,
        ) is Failed),
        reply matches SummaryReply::Message(None) ==> summary_step(reply, remaining) is Failed,
        reply matches SummaryReply::Failed(e) ==> (context_window_error(e@) && remaining > 0
            ==> summary_step(reply, remaining) is Retry),
        reply matches SummaryReply::Failed(e) ==> (!context_window_error(e@) || remaining == 0
            ==> summary_step(reply, remaining) == SummaryStepView::Failed(e@)),
{
}

/// The messages of a conversation are read as they are: who spoke, and what was said,
/// block by block.
pub proof fn law_messages_are_read_as_they_are(item: ConversationItem, message: Json, i: int)
    requires
        is_read(item, message),
    ensures
        opt_text(item.role) == text_field(message@, "role"@),
        member_of(message, "content"@) matches Some(Json::Text(s)) ==> item.content@
            == ContentView::Text(s@),
        member_of(message, "content"@) matches Some(Json::Array(parts)) ==> (
        item.content@ matches ContentView::Parts(views) && views.len() == parts@.len() && (0 <= i
            < parts@.len() ==> views[i].value == parts@[i]@ && views[i].json == compact_text(
            tree(parts@[i]),
        ))),
        member_of(message, "content"@) is None ==> item.content@ is Other,
{
}

/// The model is asked under the prompt of the system.
pub proof fn law_system_prompt_is_the_systems(content: Seq<char>)
    ensures
        system_message(content) == Jv::Object(
            map!["role"@ => Jv::Text("system"@), "content"@ => Jv::Text(content)],
        ),
{
}

/// The text of a block is kept in writing too, under either of its names.
pub proof fn law_text_of_a_block_is_kept_in_writing(part: Json, v: Json)
    ensures
        member_of(part, "text"@) == Some(v) ==> read_part(part).text_json == compact_text(tree(v)),
        member_of(part, "text"@) is None && member_of(part, "input_text"@) == Some(v) ==> read_part(
            part,
        ).text_json == compact_text(tree(v)),
        member_of(part, "text"@) is None && member_of(part, "input_text"@) is None ==> read_part(
            part,
        ).text_json == ""@,
{
}

} // verus!
