//! XML blocks of the agent context.

use crate::text::{
    cat2, chars_of, is_blank, join, join_of, lemma_texts_push, texts, trim,
    trim_of,
};
use vstd::prelude::*;

verus! {

/// A character as it stands in escaped text.
pub open spec fn escape_char(c: char) -> Seq<char> {
    if c == '&' {
        "&amp;"@
    } else if c == '<' {
        "&lt;"@
    } else if c == '>' {
        "&gt;"@
    } else if c == '"' {
        "&quot;"@
    } else if c == '\'' {
        "&#x27;"@
    } else {
        seq![c]
    }
}

/// A text with the five core characters escaped.
pub open spec fn escaped(s: Seq<char>) -> Seq<char>
    decreases s.len(),
{
    if s.len() == 0 {
        Seq::empty()
    } else {
        escaped(s.drop_last()) + escape_char(s.last())
    }
}

/// Escapes the five core characters of HTML.
pub fn html_escape(value: &str) -> (r: String)
    ensures
        r@ == escaped(value@),
{
    let v = chars_of(value);
    let mut out = String::new();
    let mut i: usize = 0;
    while i < v.len()
        invariant
            i <= v@.len(),
            out@ == escaped(v@.take(i as int)),
        decreases v@.len() - i,
    {
        let c = v[i];
        proof {
            assert(v@.take(i + 1).drop_last() =~= v@.take(i as int));
        }
        if c == '&' {
            out.append("&amp;");
        } else if c == '<' {
            out.append("&lt;");
        } else if c == '>' {
            out.append("&gt;");
        } else if c == '"' {
            out.append("&quot;");
        } else if c == '\'' {
            out.append("&#x27;");
        } else {
            let ghost before = out@;
            out.push(c);
            proof {
                assert(out@ =~= before + seq![c]);
            }
        }
        i += 1;
    }
    proof {
        assert(v@.take(v@.len() as int) =~= v@);
    }
    out
}

/// An opening tag.
pub open spec fn open_tag(name: Seq<char>) -> Seq<char> {
    "<"@ + name + ">\n"@
}

/// A closing tag.
pub open spec fn close_tag(name: Seq<char>) -> Seq<char> {
    "</"@ + name + ">"@
}

fn wrap(name: &str, body: &str) -> (r: String)
    ensures
        r@ == open_tag(name@) + body@ + close_tag(name@),
{
    let mut out = cat2("<", name);
    out.append(">\n");
    out.append(body);
    let mut close = cat2("</", name);
    close.append(">");
    out.append(close.as_str());
    out
}

/// A tag around one escaped value.
pub open spec fn tag_of(name: Seq<char>, value: Seq<char>) -> Seq<char> {
    open_tag(name) + (escaped(value) + "\n"@) + close_tag(name)
}

/// A tag around one escaped value.
pub fn tag(name: &str, value: &str) -> (r: String)
    ensures
        r@ == tag_of(name@, value@),
{
    let mut body = html_escape(value);
    body.append("\n");
    wrap(name, body.as_str())
}

/// A block around a text as it stands, white space at its ends aside.
pub open spec fn block_of(name: Seq<char>, content: Seq<char>) -> Seq<char> {
    if is_blank(content) {
        open_tag(name) + ""@ + close_tag(name)
    } else {
        open_tag(name) + (trim_of(content) + "\n"@) + close_tag(name)
    }
}

/// A block around a text as it stands, white space at its ends aside.
pub fn block(name: &str, content: &str) -> (r: String)
    ensures
        r@ == block_of(name@, content@),
{
    let text = trim(content);
    if text.is_empty() {
        wrap(name, "")
    } else {
        let body = cat2(text, "\n");
        wrap(name, body.as_str())
    }
}

/// A block around an escaped text.
pub open spec fn text_block_of(name: Seq<char>, content: Seq<char>) -> Seq<char> {
    block_of(name, escaped(trim_of(content)))
}

/// A block around an escaped text.
pub fn text_block(name: &str, content: &str) -> (r: String)
    ensures
        r@ == text_block_of(name@, content@),
{
    let body = html_escape(trim(content));
    block(name, body.as_str())
}

/// The first `n` texts, trimmed, blank ones left out.
pub open spec fn filled(parts: Seq<Seq<char>>, n: int) -> Seq<Seq<char>>
    decreases n,
{
    if n <= 0 || n > parts.len() {
        Seq::empty()
    } else if is_blank(parts[n - 1]) {
        filled(parts, n - 1)
    } else {
        filled(parts, n - 1).push(trim_of(parts[n - 1]))
    }
}

/// The root block around the blocks that hold something.
pub open spec fn agent_context_of(blocks: Seq<Seq<char>>) -> Seq<char> {
    let body = filled(blocks, blocks.len() as int);
    if body.len() == 0 {
        open_tag("agent_context"@) + ""@ + close_tag("agent_context"@)
    } else {
        open_tag("agent_context"@) + (join_of(body, "\n\n"@) + "\n"@) + close_tag("agent_context"@)
    }
}

/// Joins context blocks into the root block.
pub fn join_agent_context(blocks: &Vec<String>) -> (r: String)
    ensures
        r@ == agent_context_of(texts(blocks@)),
{
    let ghost all = texts(blocks@);
    let mut body: Vec<String> = Vec::new();
    let mut i: usize = 0;
    proof {
        assert(texts(body@) =~= Seq::empty());
    }
    while i < blocks.len()
        invariant
            i <= blocks@.len(),
            all == texts(blocks@),
            texts(body@) == filled(all, i as int),
        decreases blocks@.len() - i,
    {
        let text = trim(blocks[i].as_str());
        proof {
            assert(all[i as int] == blocks@[i as int]@);
        }
        if !text.is_empty() {
            let ghost before = body@;
            let s = text.to_owned();
            body.push(s);
            proof {
                lemma_texts_push(before, s);
            }
        }
        i += 1;
    }
    proof {
        assert(texts(body@).len() == body@.len());
    }
    if body.len() == 0 {
        wrap("agent_context", "")
    } else {
        let mut joined = join(&body, "\n\n");
        joined.append("\n");
        wrap("agent_context", joined.as_str())
    }
}

/// Whether a character can open or close markup or quote an attribute.
pub open spec fn is_markup(c: char) -> bool {
    c == '<' || c == '>' || c == '"' || c == '\''
}

proof fn lemma_escape_char(c: char)
    ensures
        forall|k: int| 0 <= k < escape_char(c).len() ==> !is_markup(#[trigger] escape_char(c)[k]),
        escape_char(c).len() > 0,
        c == '&' <==> escape_char(c) == "&amp;"@,
{
    reveal_strlit("&amp;");
    reveal_strlit("&lt;");
    reveal_strlit("&gt;");
    reveal_strlit("&quot;");
    reveal_strlit("&#x27;");
    assert("&amp;"@.len() == 5);
    assert("&lt;"@.len() == 4);
    assert("&gt;"@.len() == 4);
    assert("&quot;"@.len() == 6);
    assert("&#x27;"@.len() == 6);
}

/// Escaped text holds no character that opens or closes markup.
pub proof fn law_escaped_text_holds_no_markup(s: Seq<char>)
    ensures
        forall|k: int| 0 <= k < escaped(s).len() ==> !is_markup(#[trigger] escaped(s)[k]),
    decreases s.len(),
{
    if s.len() > 0 {
        law_escaped_text_holds_no_markup(s.drop_last());
        lemma_escape_char(s.last());
        let head = escaped(s.drop_last());
        let tail = escape_char(s.last());
        assert forall|k: int| 0 <= k < escaped(s).len() implies !is_markup(
            #[trigger] escaped(s)[k],
        ) by {
            if k < head.len() {
                assert(escaped(s)[k] == head[k]);
            } else {
                assert(escaped(s)[k] == tail[k - head.len()]);
            }
        }
    }
}

/// Escaping works character by character.
pub proof fn law_escape_of_concatenation(a: Seq<char>, b: Seq<char>)
    ensures
        escaped(a + b) == escaped(a) + escaped(b),
    decreases b.len(),
{
    if b.len() == 0 {
        assert(a + b =~= a);
        assert(escaped(a) + escaped(b) =~= escaped(a));
    } else {
        law_escape_of_concatenation(a, b.drop_last());
        assert((a + b).drop_last() =~= a + b.drop_last());
        assert(escaped(a + b) =~= escaped(a) + escaped(b));
    }
}

proof fn lemma_escape_codes_differ(a: char, b: char, x: Seq<char>, y: Seq<char>)
    requires
        escape_char(a) + x == escape_char(b) + y,
    ensures
        a == b,
        x == y,
{
    reveal_strlit("&amp;");
    reveal_strlit("&lt;");
    reveal_strlit("&gt;");
    reveal_strlit("&quot;");
    reveal_strlit("&#x27;");
    let u = escape_char(a) + x;
    let v = escape_char(b) + y;
    lemma_escape_char(a);
    lemma_escape_char(b);
    assert(u[0] == escape_char(a)[0]);
    assert(v[0] == escape_char(b)[0]);
    if u[0] == '&' {
        assert(u[1] == escape_char(a)[1]);
        assert(v[1] == escape_char(b)[1]);
    }
    assert(a == b);
    let n = escape_char(a).len() as int;
    assert(x =~= u.skip(n));
    assert(y =~= v.skip(n));
}

/// Escaping loses nothing: different texts stay different.
pub proof fn law_escape_is_injective(a: Seq<char>, b: Seq<char>)
    requires
        escaped(a) == escaped(b),
    ensures
        a == b,
    decreases a.len(),
{
    if a.len() > 0 {
        lemma_escape_from_left(a);
    }
    if b.len() > 0 {
        lemma_escape_from_left(b);
    }
    if a.len() == 0 {
        if b.len() > 0 {
            lemma_escape_char(b[0]);
            assert(escaped(b).len() > 0);
        }
        assert(a =~= b);
    } else if b.len() == 0 {
        lemma_escape_char(a[0]);
        assert(escaped(a).len() > 0);
    } else {
        lemma_escape_codes_differ(a[0], b[0], escaped(a.skip(1)), escaped(b.skip(1)));
        law_escape_is_injective(a.skip(1), b.skip(1));
        assert(a =~= seq![a[0]] + a.skip(1));
        assert(b =~= seq![b[0]] + b.skip(1));
    }
}

proof fn lemma_escape_from_left(s: Seq<char>)
    requires
        s.len() > 0,
    ensures
        escaped(s) == escape_char(s[0]) + escaped(s.skip(1)),
{
    let head = seq![s[0]];
    assert(s =~= head + s.skip(1));
    law_escape_of_concatenation(head, s.skip(1));
    assert(head.drop_last() =~= Seq::empty());
    assert(escaped(head) =~= escape_char(s[0])) by {
        assert(escaped(head.drop_last()) =~= Seq::<char>::empty());
    }
}

/// A text with another in the place of each occurrence of a pattern, found from
/// left to right.
pub open spec fn replaced(s: Seq<char>, pattern: Seq<char>, by: Seq<char>) -> Seq<char>
    decreases s.len(),
{
    if pattern.len() == 0 || s.len() < pattern.len() {
        s
    } else if s.take(pattern.len() as int) == pattern {
        by + replaced(s.skip(pattern.len() as int), pattern, by)
    } else {
        seq![s[0]] + replaced(s.skip(1), pattern, by)
    }
}

/// An escaped text with the characters back that its codes stand for, `&` last.
pub open spec fn unescaped(s: Seq<char>) -> Seq<char> {
    replaced(
        replaced(
            replaced(
                replaced(replaced(s, "&lt;"@, seq!['<']), "&gt;"@, seq!['>']),
                "&quot;"@,
                seq!['"'],
            ),
            "&#x27;"@,
            seq!['\''],
        ),
        "&amp;"@,
        seq!['&'],
    )
}

/// The place of a character in the order in which codes are read back.
spec fn turn_of(c: char) -> int {
    if c == '<' {
        0
    } else if c == '>' {
        1
    } else if c == '"' {
        2
    } else if c == '\'' {
        3
    } else if c == '&' {
        4
    } else {
        5
    }
}

/// A text whose characters before the `k`-th turn are read back and the others
/// are escaped.
spec fn escaped_from(s: Seq<char>, k: int) -> Seq<char>
    decreases s.len(),
{
    if s.len() == 0 {
        Seq::empty()
    } else {
        let code = if turn_of(s[0]) < k {
            seq![s[0]]
        } else {
            escape_char(s[0])
        };
        code + escaped_from(s.skip(1), k)
    }
}

proof fn lemma_escaped_from_start(s: Seq<char>)
    ensures
        escaped_from(s, 0) == escaped(s),
    decreases s.len(),
{
    if s.len() > 0 {
        lemma_escaped_from_start(s.skip(1));
        lemma_escape_from_left(s);
    }
}

proof fn lemma_escaped_from_end(s: Seq<char>)
    ensures
        escaped_from(s, 5) == s,
    decreases s.len(),
{
    if s.len() > 0 {
        lemma_escaped_from_end(s.skip(1));
        assert(seq![s[0]] + s.skip(1) =~= s);
    } else {
        assert(escaped_from(s, 5) =~= s);
    }
}

/// What holds no beginning of a pattern stays as it is.
proof fn lemma_replace_passes(x: Seq<char>, rest: Seq<char>, pattern: Seq<char>, by: Seq<char>)
    requires
        pattern.len() >= 2,
        forall|i: int|
            0 <= i < x.len() ==> #[trigger] x[i] != pattern[0] || (i + 1 < x.len() && x[i + 1]
                != pattern[1]),
    ensures
        replaced(x + rest, pattern, by) == x + replaced(rest, pattern, by),
    decreases x.len(),
{
    let s = x + rest;
    if x.len() == 0 {
        assert(s =~= rest);
        assert(x + replaced(rest, pattern, by) =~= replaced(rest, pattern, by));
    } else {
        let tail = x.skip(1);
        assert forall|i: int| 0 <= i < tail.len() implies #[trigger] tail[i] != pattern[0] || (i + 1
            < tail.len() && tail[i + 1] != pattern[1]) by {
            assert(tail[i] == x[i + 1]);
        }
        lemma_replace_passes(tail, rest, pattern, by);
        assert(s.skip(1) =~= tail + rest);
        assert(s[0] == x[0]);
        if s.len() < pattern.len() {
            assert(replaced(s, pattern, by) == s);
            assert(replaced(rest, pattern, by) == rest);
        } else {
            if s.take(pattern.len() as int) == pattern {
                assert(s.take(pattern.len() as int)[0] == s[0]);
                assert(s.take(pattern.len() as int)[1] == s[1]);
                assert(s[1] == x[1]);
            }
            assert(replaced(s, pattern, by) == seq![s[0]] + replaced(s.skip(1), pattern, by));
            assert(seq![x[0]] + (tail + replaced(rest, pattern, by)) =~= x + replaced(
                rest,
                pattern,
                by,
            ));
        }
    }
}

/// Reading the codes of one character back is one turn.
proof fn lemma_replace_is_a_turn(s: Seq<char>, c: char, k: int)
    requires
        0 <= k < 5,
        turn_of(c) == k,
    ensures
        replaced(escaped_from(s, k), escape_char(c), seq![c]) == escaped_from(s, k + 1),
    decreases s.len(),
{
    reveal_strlit("&amp;");
    reveal_strlit("&lt;");
    reveal_strlit("&gt;");
    reveal_strlit("&quot;");
    reveal_strlit("&#x27;");
    let pattern = escape_char(c);
    if s.len() > 0 {
        let rest = escaped_from(s.skip(1), k);
        lemma_replace_is_a_turn(s.skip(1), c, k);
        lemma_escape_char(s[0]);
        if s[0] == c {
            let all = pattern + rest;
            assert(all.take(pattern.len() as int) =~= pattern);
            assert(all.skip(pattern.len() as int) =~= rest);
        } else {
            let code = if turn_of(s[0]) < k {
                seq![s[0]]
            } else {
                escape_char(s[0])
            };
            assert(pattern[0] == '&');
            lemma_replace_passes(code, rest, pattern, seq![c]);
        }
    }
}

/// Reading the codes of an escaped text back, `&` last, gives the text.
pub proof fn law_unescape_gives_back(s: Seq<char>)
    ensures
        unescaped(escaped(s)) == s,
{
    lemma_escaped_from_start(s);
    lemma_replace_is_a_turn(s, '<', 0);
    lemma_replace_is_a_turn(s, '>', 1);
    lemma_replace_is_a_turn(s, '"', 2);
    lemma_replace_is_a_turn(s, '\'', 3);
    lemma_replace_is_a_turn(s, '&', 4);
    lemma_escaped_from_end(s);
}

/// A tag holds its value escaped, a block its content trimmed, a text block its content
/// trimmed and escaped, each between the marks of its name.
pub proof fn law_content_stands_between_its_marks(name: Seq<char>, content: Seq<char>)
    ensures
        tag_of(name, content) == "<"@ + name + ">\n"@ + (escaped(content) + "\n"@) + ("</"@ + name
            + ">"@),
        !is_blank(content) ==> block_of(name, content) == "<"@ + name + ">\n"@ + (trim_of(content)
            + "\n"@) + ("</"@ + name + ">"@),
        is_blank(content) ==> block_of(name, content) == "<"@ + name + ">\n"@ + ("</"@ + name
            + ">"@),
        !is_blank(escaped(trim_of(content))) ==> text_block_of(name, content) == "<"@ + name
            + ">\n"@ + (trim_of(escaped(trim_of(content))) + "\n"@) + ("</"@ + name + ">"@),
{
    reveal_strlit("");
    assert("<"@ + name + ">\n"@ + ""@ =~= "<"@ + name + ">\n"@);
}

/// Only the five characters of markup are escaped.
pub proof fn law_plain_text_is_not_escaped(s: Seq<char>)
    requires
        forall|i: int|
            0 <= i < s.len() ==> !is_markup(#[trigger] s[i]) && s[i] != '&',
    ensures
        escaped(s) == s,
    decreases s.len(),
{
    if s.len() > 0 {
        let front = s.drop_last();
        assert forall|i: int| 0 <= i < front.len() implies !is_markup(#[trigger] front[i])
            && front[i] != '&' by {
            assert(front[i] == s[i]);
        }
        law_plain_text_is_not_escaped(front);
        assert(!is_markup(s[s.len() - 1]));
        assert(escaped(s) =~= s);
    }
}

/// The parts of a context are kept in their order; blank ones are left out.
pub proof fn law_filled_parts_keep_their_order(a: Seq<Seq<char>>, b: Seq<Seq<char>>, n: int)
    requires
        0 <= n <= b.len(),
    ensures
        filled(a + b, a.len() + n) == filled(a, a.len() as int) + filled(b, n),
        (forall|i: int| 0 <= i < n ==> !is_blank(#[trigger] b[i])) ==> filled(b, n).len() == n
            && forall|i: int| 0 <= i < n ==> (#[trigger] filled(b, n)[i]) == trim_of(b[i]),
        (forall|i: int| 0 <= i < n ==> is_blank(#[trigger] b[i])) ==> filled(b, n).len() == 0,
    decreases n,
{
    if n == 0 {
        lemma_filled_prefix(a, b, a.len() as int);
        assert(filled(a, a.len() as int) + filled(b, 0) =~= filled(a, a.len() as int));
    } else {
        law_filled_parts_keep_their_order(a, b, n - 1);
        assert((a + b)[a.len() + n - 1] == b[n - 1]);
        assert(filled(a + b, a.len() + n) =~= filled(a, a.len() as int) + filled(b, n));
    }
}

proof fn lemma_filled_prefix(a: Seq<Seq<char>>, b: Seq<Seq<char>>, n: int)
    requires
        0 <= n <= a.len(),
    ensures
        filled(a + b, n) == filled(a, n),
    decreases n,
{
    if n > 0 {
        lemma_filled_prefix(a, b, n - 1);
        assert((a + b)[n - 1] == a[n - 1]);
    }
}

/// A context holds its parts between its marks.
pub proof fn law_context_stands_between_its_marks(blocks: Seq<Seq<char>>)
    ensures
        ({
            let body = filled(blocks, blocks.len() as int);
            body.len() > 0 ==> agent_context_of(blocks) == "<agent_context>\n"@ + join_of(
                body,
                "\n\n"@,
            ) + "\n</agent_context>"@
        }),
{
    let body = filled(blocks, blocks.len() as int);
    reveal_strlit("<agent_context>\n");
    reveal_strlit("\n</agent_context>");
    reveal_strlit("<");
    reveal_strlit(">\n");
    reveal_strlit("</");
    reveal_strlit(">");
    reveal_strlit("\n");
    reveal_strlit("agent_context");
    let name = "agent_context"@;
    assert("<agent_context>\n"@ =~= "<"@ + name + ">\n"@);
    assert("\n</agent_context>"@ =~= "\n"@ + ("</"@ + name + ">"@));
    if body.len() > 0 {
        assert(agent_context_of(blocks) =~= "<agent_context>\n"@ + join_of(body, "\n\n"@)
            + "\n</agent_context>"@);
    }
}

} // verus!
