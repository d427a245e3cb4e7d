//! Text as a sequence of characters: trimming, splitting, joining and
//! rendering numbers.

use vstd::prelude::*;
use vstd::utf8::{decode_utf8, valid_utf8};

verus! {

/// `String::push` appends the character to the text and changes nothing else.
pub assume_specification[ String::push ](s: &mut String, ch: char)
    ensures
        final(s)@ == old(s)@.push(ch),
;

/// The texts held by a sequence of strings.
pub open spec fn texts(v: Seq<String>) -> Seq<Seq<char>> {
    v.map_values(|s: String| s@)
}

/// The text of an optional string.
pub open spec fn opt_text(v: Option<String>) -> Option<Seq<char>> {
    match v {
        Some(s) => Some(s@),
        None => None,
    }
}

/// The text of an optional string slice.
pub open spec fn opt_str(v: Option<&str>) -> Option<Seq<char>> {
    match v {
        Some(s) => Some(s@),
        None => None,
    }
}

/// Whether two texts are the same.
pub fn str_eq(a: &str, b: &str) -> (r: bool)
    ensures
        r == (a@ == b@),
{
    a.to_owned() == b.to_owned()
}

/// The characters of a text.
pub fn chars_of(s: &str) -> (r: Vec<char>)
    ensures
        r@ == s@,
{
    let mut out: Vec<char> = Vec::new();
    for c in iter: s.chars()
        invariant
            iter.seq() == s@,
            out@ == s@.take(iter.index()),
    {
        out.push(c);
        proof {
            assert(s@.take(iter.index() + 1) =~= s@.take(iter.index()).push(c));
        }
    }
    proof {
        assert(s@.take(s@.len() as int) =~= s@);
    }
    out
}

/// The text made of the characters `from..to`.
pub fn string_from(v: &Vec<char>, from: usize, to: usize) -> (r: String)
    requires
        from <= to <= v@.len(),
    ensures
        r@ == v@.subrange(from as int, to as int),
{
    let mut out = String::new();
    let mut i: usize = from;
    while i < to
        invariant
            from <= i <= to <= v@.len(),
            out@ == v@.subrange(from as int, i as int),
        decreases to - i,
    {
        out.push(v[i]);
        proof {
            assert(v@.subrange(from as int, i + 1) =~= v@.subrange(from as int, i as int).push(v@[i as int]));
        }
        i += 1;
    }
    out
}

/// White space: the characters with the Unicode property `White_Space`.
pub open spec fn is_ws(c: char) -> bool {
    ||| '\u{9}' <= c <= '\u{d}'
    ||| c == '\u{20}'
    ||| c == '\u{85}'
    ||| c == '\u{a0}'
    ||| c == '\u{1680}'
    ||| '\u{2000}' <= c <= '\u{200a}'
    ||| c == '\u{2028}'
    ||| c == '\u{2029}'
    ||| c == '\u{202f}'
    ||| c == '\u{205f}'
    ||| c == '\u{3000}'
}

/// Whether a character is white space.
pub fn is_white_space(c: char) -> (r: bool)
    ensures
        r == is_ws(c),
{
    ('\u{9}' <= c && c <= '\u{d}') || c == '\u{20}' || c == '\u{85}' || c == '\u{a0}'
        || c == '\u{1680}' || ('\u{2000}' <= c && c <= '\u{200a}') || c == '\u{2028}'
        || c == '\u{2029}' || c == '\u{202f}' || c == '\u{205f}' || c == '\u{3000}'
}

/// `s` without its leading white space.
pub open spec fn trim_start_of(s: Seq<char>) -> Seq<char>
    decreases s.len(),
{
    if s.len() > 0 && is_ws(s[0]) {
        trim_start_of(s.skip(1))
    } else {
        s
    }
}

/// `s` without its trailing white space.
pub open spec fn trim_end_of(s: Seq<char>) -> Seq<char>
    decreases s.len(),
{
    if s.len() > 0 && is_ws(s.last()) {
        trim_end_of(s.drop_last())
    } else {
        s
    }
}

/// `s` without its leading and trailing white space.
pub open spec fn trim_of(s: Seq<char>) -> Seq<char> {
    trim_end_of(trim_start_of(s))
}

/// Whether a text holds nothing but white space.
pub open spec fn is_blank(s: Seq<char>) -> bool {
    trim_of(s).len() == 0
}

/// Whether a text holds nothing but white space.
pub fn is_blank_text(s: &str) -> (r: bool)
    ensures
        r == is_blank(s@),
{
    trim(s).is_empty()
}

fn trim_start_index(v: &Vec<char>) -> (a: usize)
    ensures
        a <= v@.len(),
        v@.skip(a as int) == trim_start_of(v@),
{
    let mut a: usize = 0;
    proof {
        assert(v@.skip(0) =~= v@);
    }
    while a < v.len() && is_white_space(v[a])
        invariant
            a <= v@.len(),
            trim_start_of(v@.skip(a as int)) == trim_start_of(v@),
        decreases v@.len() - a,
    {
        proof {
            assert(v@.skip(a as int).skip(1) =~= v@.skip(a + 1));
        }
        a += 1;
    }
    a
}

fn trim_end_index(v: &Vec<char>, a: usize) -> (b: usize)
    requires
        a <= v@.len(),
    ensures
        a <= b <= v@.len(),
        v@.subrange(a as int, b as int) == trim_end_of(v@.skip(a as int)),
{
    let mut b: usize = v.len();
    proof {
        assert(v@.subrange(a as int, b as int) =~= v@.skip(a as int));
    }
    while b > a && is_white_space(v[b - 1])
        invariant
            a <= b <= v@.len(),
            trim_end_of(v@.subrange(a as int, b as int)) == trim_end_of(v@.skip(a as int)),
        decreases b,
    {
        proof {
            assert(v@.subrange(a as int, b as int).drop_last() =~= v@.subrange(a as int, b - 1));
        }
        b -= 1;
    }
    b
}

/// The text without its leading and trailing white space.
pub fn trim(s: &str) -> (r: &str)
    ensures
        r@ == trim_of(s@),
{
    let v = chars_of(s);
    let a = trim_start_index(&v);
    let b = trim_end_index(&v, a);
    s.substring_char(a, b)
}

/// The text without its trailing white space.
pub fn trim_end(s: &str) -> (r: &str)
    ensures
        r@ == trim_end_of(s@),
{
    let v = chars_of(s);
    let b = trim_end_index(&v, 0);
    proof {
        assert(v@.skip(0) =~= v@);
    }
    s.substring_char(0, b)
}

/// Whether `s` begins with `prefix`.
pub open spec fn starts_with(s: Seq<char>, prefix: Seq<char>) -> bool {
    prefix.len() <= s.len() && s.take(prefix.len() as int) == prefix
}

/// Whether `s` ends with `suffix`.
pub open spec fn ends_with(s: Seq<char>, suffix: Seq<char>) -> bool {
    suffix.len() <= s.len() && s.skip(s.len() - suffix.len()) == suffix
}

/// The text behind `prefix`, where `s` begins with it.
pub open spec fn strip_prefix_of(s: Seq<char>, prefix: Seq<char>) -> Option<Seq<char>> {
    if starts_with(s, prefix) {
        Some(s.skip(prefix.len() as int))
    } else {
        None
    }
}

/// The text behind `prefix`, where `s` begins with it.
pub fn strip_prefix<'a>(s: &'a str, prefix: &str) -> (r: Option<&'a str>)
    ensures
        opt_str(r) == strip_prefix_of(s@, prefix@),
{
    let n: usize = s.unicode_len();
    let k: usize = prefix.unicode_len();
    if k > n {
        return None;
    }
    let head = s.substring_char(0, k);
    proof {
        assert(s@.take(k as int) =~= s@.subrange(0, k as int));
        assert(s@.skip(k as int) =~= s@.subrange(k as int, n as int));
    }
    if str_eq(head, prefix) {
        Some(s.substring_char(k, n))
    } else {
        None
    }
}

/// Whether the text begins with `prefix`.
pub fn has_prefix(s: &str, prefix: &str) -> (r: bool)
    ensures
        r == starts_with(s@, prefix@),
{
    strip_prefix(s, prefix).is_some()
}

/// Whether the text ends with `suffix`.
pub fn has_suffix(s: &str, suffix: &str) -> (r: bool)
    ensures
        r == ends_with(s@, suffix@),
{
    let n: usize = s.unicode_len();
    let k: usize = suffix.unicode_len();
    if k > n {
        return false;
    }
    proof {
        assert(s@.skip(n - k) =~= s@.subrange(n - k, n as int));
    }
    str_eq(s.substring_char(n - k, n), suffix)
}

/// The first index from `i` on that holds `c`, or the length.
pub open spec fn find_char_from(s: Seq<char>, c: char, i: int) -> int
    decreases s.len() - i,
{
    if i < 0 || i >= s.len() {
        s.len() as int
    } else if s[i] == c {
        i
    } else {
        find_char_from(s, c, i + 1)
    }
}

pub proof fn lemma_find_char_from(s: Seq<char>, c: char, i: int)
    requires
        0 <= i <= s.len(),
    ensures
        i <= find_char_from(s, c, i) <= s.len(),
        find_char_from(s, c, i) < s.len() ==> s[find_char_from(s, c, i)] == c,
        forall|j: int| i <= j < find_char_from(s, c, i) ==> s[j] != c,
    decreases s.len() - i,
{
    if i < s.len() && s[i] != c {
        lemma_find_char_from(s, c, i + 1);
    }
}

/// The first index from `i` on that holds `c`, or the length.
pub fn find_char(v: &Vec<char>, c: char, i: usize) -> (r: usize)
    requires
        i <= v@.len(),
    ensures
        r == find_char_from(v@, c, i as int),
        i <= r <= v@.len(),
{
    let mut j: usize = i;
    while j < v.len() && v[j] != c
        invariant
            i <= j <= v@.len(),
            find_char_from(v@, c, j as int) == find_char_from(v@, c, i as int),
        decreases v@.len() - j,
    {
        j += 1;
    }
    j
}

/// Whether the text holds the character `c`.
pub fn contains_char(s: &str, c: char) -> (r: bool)
    ensures
        r == s@.contains(c),
{
    let v = chars_of(s);
    let i = find_char(&v, c, 0);
    proof {
        lemma_find_char_from(v@, c, 0);
        if i < v@.len() {
            assert(v@[i as int] == c);
        }
    }
    i < v.len()
}

/// `line` without one trailing carriage return.
pub open spec fn strip_cr(line: Seq<char>) -> Seq<char> {
    if line.len() > 0 && line.last() == '\r' {
        line.drop_last()
    } else {
        line
    }
}

/// The lines of `s` from position `i` on. A line ends at `\n` or `\r\n`; the
/// last line needs no ending.
pub open spec fn lines_from(s: Seq<char>, i: int) -> Seq<Seq<char>>
    decreases s.len() - i,
    via lines_from_decreases
{
    if i < 0 || i >= s.len() {
        Seq::empty()
    } else {
        let e = find_char_from(s, '\n', i);
        if e >= s.len() {
            seq![s.subrange(i, s.len() as int)]
        } else {
            seq![strip_cr(s.subrange(i, e))] + lines_from(s, e + 1)
        }
    }
}

#[via_fn]
proof fn lines_from_decreases(s: Seq<char>, i: int) {
    if 0 <= i < s.len() {
        lemma_find_char_from(s, '\n', i);
    }
}

/// The lines of `s`.
pub open spec fn lines_of(s: Seq<char>) -> Seq<Seq<char>> {
    lines_from(s, 0)
}

proof fn lemma_find_char_in_front(a: Seq<char>, b: Seq<char>, c: char, i: int)
    requires
        0 <= i < a.len(),
        find_char_from(a, c, i) < a.len(),
    ensures
        find_char_from(a + b, c, i) == find_char_from(a, c, i),
    decreases a.len() - i,
{
    assert((a + b)[i] == a[i]);
    if a[i] != c {
        if i + 1 < a.len() {
            lemma_find_char_in_front(a, b, c, i + 1);
        }
    }
}

proof fn lemma_lines_in_front(a: Seq<char>, b: Seq<char>, i: int)
    requires
        0 <= i <= a.len(),
        a.len() > 0 ==> a.last() == '\n',
    ensures
        lines_from(a + b, i) == lines_from(a, i) + lines_from(a + b, a.len() as int),
    decreases a.len() - i,
{
    if i < a.len() {
        let e = find_char_from(a, '\n', i);
        lemma_find_char_from(a, '\n', i);
        assert(e < a.len()) by {
            if e >= a.len() {
                assert(a[a.len() - 1] != '\n');
            }
        }
        lemma_find_char_in_front(a, b, '\n', i);
        lemma_lines_in_front(a, b, e + 1);
        assert((a + b).subrange(i, e) =~= a.subrange(i, e));
        assert(lines_from(a + b, i) =~= lines_from(a, i) + lines_from(a + b, a.len() as int));
    } else {
        assert(lines_from(a, i) =~= Seq::empty());
        assert(lines_from(a + b, i) =~= lines_from(a, i) + lines_from(a + b, a.len() as int));
    }
}

/// A line that is appended to a text whose last line has ended is its last line.
pub proof fn lemma_lines_appended(a: Seq<char>, line: Seq<char>)
    requires
        a.len() > 0 ==> a.last() == '\n',
        line.len() > 0,
        line.last() != '\r',
        !line.contains('\n'),
    ensures
        lines_of(a + line + "\n"@) == lines_of(a).push(line),
{
    reveal_strlit("\n");
    let b = line + "\n"@;
    let s = a + b;
    let k = a.len() as int;
    assert(a + line + "\n"@ =~= s);
    lemma_lines_in_front(a, b, 0);
    lemma_find_char_from(s, '\n', k);
    let e = find_char_from(s, '\n', k);
    assert(s[k + line.len()] == '\n');
    assert(e == k + line.len()) by {
        if e < k + line.len() {
            assert(s[e] == line[e - k]);
        }
    }
    assert(s.subrange(k, e) =~= line);
    assert(lines_from(s, e + 1) =~= Seq::empty());
    assert(lines_from(s, k) =~= seq![line]);
    assert(lines_of(s) =~= lines_of(a).push(line));
}

/// The lines of a text, without their line endings.
pub fn lines(s: &str) -> (r: Vec<String>)
    ensures
        texts(r@) == lines_of(s@),
{
    let v = chars_of(s);
    let mut out: Vec<String> = Vec::new();
    let mut i: usize = 0;
    proof {
        assert(texts(out@) + lines_from(v@, 0) =~= lines_from(v@, 0));
    }
    while i < v.len()
        invariant
            i <= v@.len(),
            v@ == s@,
            texts(out@) + lines_from(v@, i as int) == lines_of(s@),
        decreases v@.len() - i,
    {
        let e = find_char(&v, '\n', i);
        let ghost before = out@;
        if e >= v.len() {
            let line = string_from(&v, i, v.len());
            out.push(line);
            proof {
                lemma_texts_push(before, line);
                assert(texts(out@) + lines_from(v@, v@.len() as int) =~= texts(before) + lines_from(v@, i as int));
            }
            i = v.len();
        } else {
            let end: usize = if e > i && v[e - 1] == '\r' { e - 1 } else { e };
            let line = string_from(&v, i, end);
            out.push(line);
            proof {
                lemma_texts_push(before, line);
                assert(line@ =~= strip_cr(v@.subrange(i as int, e as int)));
                assert(texts(out@) + lines_from(v@, e + 1) =~= texts(before) + lines_from(v@, i as int));
            }
            i = e + 1;
        }
    }
    proof {
        assert(texts(out@) + lines_from(v@, i as int) =~= texts(out@));
    }
    out
}

pub proof fn lemma_texts_push(v: Seq<String>, s: String)
    ensures
        texts(v.push(s)) == texts(v).push(s@),
{
    assert(texts(v.push(s)) =~= texts(v).push(s@));
}

/// The texts of `parts` with `sep` between them.
pub open spec fn join_of(parts: Seq<Seq<char>>, sep: Seq<char>) -> Seq<char>
    decreases parts.len(),
{
    if parts.len() == 0 {
        Seq::empty()
    } else if parts.len() == 1 {
        parts[0]
    } else {
        join_of(parts.drop_last(), sep) + sep + parts.last()
    }
}

/// The texts of `parts` with `sep` between them.
pub fn join(parts: &Vec<String>, sep: &str) -> (r: String)
    ensures
        r@ == join_of(texts(parts@), sep@),
{
    let mut out = String::new();
    let mut i: usize = 0;
    while i < parts.len()
        invariant
            i <= parts@.len(),
            out@ == join_of(texts(parts@.take(i as int)), sep@),
        decreases parts@.len() - i,
    {
        let ghost done = texts(parts@.take(i as int));
        let ghost next = texts(parts@.take(i + 1));
        proof {
            assert(next =~= done.push(parts@[i as int]@));
            assert(next.drop_last() =~= done);
        }
        if i > 0 {
            out.append(sep);
        }
        out.append(parts[i].as_str());
        proof {
            if i == 0 {
                assert(out@ =~= next[0]);
            }
        }
        i += 1;
    }
    proof {
        assert(parts@.take(parts@.len() as int) =~= parts@);
    }
    out
}

/// Whether `sub` stands in `s` at `i`.
pub open spec fn stands_at(s: Seq<char>, sub: Seq<char>, i: int) -> bool {
    0 <= i && i + sub.len() <= s.len() && s.subrange(i, i + sub.len()) == sub
}

/// Whether `sub` stands somewhere in `s`.
pub open spec fn contains_sub(s: Seq<char>, sub: Seq<char>) -> bool {
    exists|i: int| stands_at(s, sub, i)
}

/// Whether `sub` stands somewhere in the text.
pub fn contains_text(s: &str, sub: &str) -> (r: bool)
    ensures
        r == contains_sub(s@, sub@),
{
    let v = chars_of(s);
    let w = chars_of(sub);
    if w.len() > v.len() {
        return false;
    }
    let n: usize = v.len();
    let last: usize = n - w.len();
    let mut i: usize = 0;
    loop
        invariant
            v@ == s@,
            w@ == sub@,
            i <= last,
            n == v@.len(),
            last == n - w@.len(),
            forall|k: int| 0 <= k < i ==> !stands_at(s@, sub@, k),
        decreases last - i,
    {
        let mut j: usize = 0;
        while j < w.len() && v[i + j] == w[j]
            invariant
                v@ == s@,
                w@ == sub@,
                i <= last,
                n == v@.len(),
                last == n - w@.len(),
                j <= w@.len(),
                forall|k: int| 0 <= k < j ==> v@[i + k] == w@[k],
            decreases w@.len() - j,
        {
            j += 1;
        }
        if j == w.len() {
            proof {
                assert(s@.subrange(i as int, i + sub@.len()) =~= sub@);
                assert(stands_at(s@, sub@, i as int));
            }
            return true;
        }
        proof {
            assert(s@.subrange(i as int, i + sub@.len())[j as int] != sub@[j as int]);
        }
        if i == last {
            return false;
        }
        i += 1;
    }
}

/// What `str::to_lowercase` makes of a text.
pub uninterp spec fn lowercase(s: Seq<char>) -> Seq<char>;

/// `str::to_lowercase` gives the lower case of the text by the Unicode
/// tables, which depends on the text alone.
#[verifier::external_body]
pub(crate) fn to_lowercase(s: &str) -> (r: String)
    ensures
        r@ == lowercase(s@),
{
    s.to_lowercase()
}

/// What `String::from_utf8_lossy` makes of bytes.
pub uninterp spec fn lossy_text(bytes: Seq<u8>) -> Seq<char>;

/// `String::from_utf8_lossy` gives a text for all bytes, which depends on them
/// alone: what they encode, where they are valid UTF-8. How many replacement
/// characters stand for what is not valid is left unsaid.
#[verifier::external_body]
pub(crate) fn from_utf8_lossy(bytes: &Vec<u8>) -> (r: String)
    ensures
        r@ == lossy_text(bytes@),
        valid_utf8(bytes@) ==> r@ == decode_utf8(bytes@),
{
    String::from_utf8_lossy(bytes).into_owned()
}

/// The first `n` characters of `s`.
pub open spec fn take_chars(s: Seq<char>, n: nat) -> Seq<char> {
    if s.len() <= n {
        s
    } else {
        s.take(n as int)
    }
}

/// The first `n` characters of a text.
pub fn first_chars(s: &str, n: usize) -> (r: &str)
    ensures
        r@ == take_chars(s@, n as nat),
{
    if s.unicode_len() <= n {
        s
    } else {
        proof {
            assert(s@.take(n as int) =~= s@.subrange(0, n as int));
        }
        s.substring_char(0, n)
    }
}

/// `c` in lower case, where it is an ASCII letter.
pub open spec fn ascii_lower_char(c: char) -> char {
    if 'A' <= c <= 'Z' {
        ((c as u8 + 32) as u8) as char
    } else {
        c
    }
}

/// `s` with its ASCII letters in lower case.
pub open spec fn ascii_lower(s: Seq<char>) -> Seq<char> {
    s.map_values(|c: char| ascii_lower_char(c))
}

/// The text with its ASCII letters in lower case.
pub fn to_ascii_lower(s: &str) -> (r: String)
    ensures
        r@ == ascii_lower(s@),
{
    let v = chars_of(s);
    let mut out = String::new();
    let mut i: usize = 0;
    while i < v.len()
        invariant
            i <= v@.len(),
            out@ == ascii_lower(v@.take(i as int)),
        decreases v@.len() - i,
    {
        let c = v[i];
        if 'A' <= c && c <= 'Z' {
            out.push((c as u8 + 32) as char);
        } else {
            out.push(c);
        }
        proof {
            assert(v@.take(i + 1) =~= v@.take(i as int).push(c));
            assert(ascii_lower(v@.take(i + 1)) =~= ascii_lower(v@.take(i as int)).push(ascii_lower_char(c)));
        }
        i += 1;
    }
    proof {
        assert(v@.take(v@.len() as int) =~= v@);
    }
    out
}

/// The decimal digit `d`.
pub open spec fn digit_char(d: nat) -> char {
    (48 + d % 10) as char
}

/// `n` in decimal.
pub open spec fn decimal(n: nat) -> Seq<char>
    decreases n,
{
    if n < 10 {
        seq![digit_char(n)]
    } else {
        decimal(n / 10).push(digit_char(n % 10))
    }
}

/// A number in decimal.
pub fn decimal_text(n: u64) -> (r: String)
    ensures
        r@ == decimal(n as nat),
    decreases n,
{
    let d: u8 = (n % 10) as u8;
    if n < 10 {
        let mut out = String::new();
        out.push((48 + d) as char);
        proof {
            assert(out@ =~= seq![digit_char(n as nat)]);
        }
        out
    } else {
        let mut out = decimal_text(n / 10);
        out.push((48 + d) as char);
        out
    }
}

/// A copy of a list of strings.
pub fn clone_strings(v: &Vec<String>) -> (r: Vec<String>)
    ensures
        texts(r@) == texts(v@),
{
    let mut out: Vec<String> = Vec::new();
    let mut i: usize = 0;
    while i < v.len()
        invariant
            i <= v@.len(),
            texts(out@) == texts(v@.take(i as int)),
        decreases v@.len() - i,
    {
        let s = v[i].clone();
        let ghost before = out@;
        out.push(s);
        proof {
            lemma_texts_push(before, s);
            assert(texts(v@.take(i + 1)) =~= texts(v@.take(i as int)).push(v@[i as int]@));
        }
        i += 1;
    }
    proof {
        assert(v@.take(v@.len() as int) =~= v@);
    }
    out
}

/// Two texts, one after the other.
pub fn cat2(a: &str, b: &str) -> (r: String)
    ensures
        r@ == a@ + b@,
{
    let mut out = a.to_owned();
    out.append(b);
    out
}

/// Three texts, one after the other.
pub fn cat3(a: &str, b: &str, c: &str) -> (r: String)
    ensures
        r@ == a@ + b@ + c@,
{
    let mut out = cat2(a, b);
    out.append(c);
    out
}

/// Five texts, one after the other.
pub fn cat5(a: &str, b: &str, c: &str, d: &str, e: &str) -> (r: String)
    ensures
        r@ == a@ + b@ + c@ + d@ + e@,
{
    let mut out = cat3(a, b, c);
    out.append(d);
    out.append(e);
    out
}

proof fn lemma_trim_start(s: Seq<char>)
    ensures
        trim_start_of(s).len() <= s.len(),
        trim_start_of(s).len() > 0 ==> !is_ws(trim_start_of(s)[0]),
        trim_start_of(s) == s.skip(s.len() - trim_start_of(s).len()),
    decreases s.len(),
{
    if s.len() > 0 && is_ws(s[0]) {
        lemma_trim_start(s.skip(1));
        let t = trim_start_of(s.skip(1));
        assert(s.skip(1).skip(s.len() - 1 - t.len()) =~= s.skip(s.len() - t.len()));
    } else {
        assert(s.skip(0) =~= s);
    }
}

proof fn lemma_trim_end(s: Seq<char>)
    ensures
        trim_end_of(s).len() <= s.len(),
        trim_end_of(s).len() > 0 ==> !is_ws(trim_end_of(s).last()),
        trim_end_of(s) == s.take(trim_end_of(s).len() as int),
    decreases s.len(),
{
    if s.len() > 0 && is_ws(s.last()) {
        lemma_trim_end(s.drop_last());
        let t = trim_end_of(s.drop_last());
        assert(s.drop_last().take(t.len() as int) =~= s.take(t.len() as int));
    } else {
        assert(s.take(s.len() as int) =~= s);
    }
}

/// Trimmed text neither begins nor ends with white space, and trimming it
/// again changes nothing.
pub proof fn law_trim_is_idempotent(s: Seq<char>)
    ensures
        trim_of(trim_of(s)) == trim_of(s),
        trim_of(s).len() > 0 ==> !is_ws(trim_of(s)[0]) && !is_ws(trim_of(s).last()),
{
    lemma_trim_start(s);
    lemma_trim_end(trim_start_of(s));
    let t = trim_of(s);
    if t.len() > 0 {
        assert(t[0] == trim_start_of(s)[0]);
    }
}

/// The parts of a text between the occurrences of `c`, from `i` on.
pub open spec fn split_from(s: Seq<char>, c: char, i: int) -> Seq<Seq<char>>
    decreases s.len() - i,
{
    let e = find_char_from(s, c, i);
    if i < 0 || i > s.len() || e < i || e >= s.len() {
        seq![s.subrange(i, s.len() as int)]
    } else {
        seq![s.subrange(i, e)] + split_from(s, c, e + 1)
    }
}

/// The parts of a text between the occurrences of `c`.
pub open spec fn split_of(s: Seq<char>, c: char) -> Seq<Seq<char>> {
    split_from(s, c, 0)
}

/// Splits a text at every `c`.
pub fn split_char(s: &str, c: char) -> (r: Vec<String>)
    ensures
        texts(r@) == split_of(s@, c),
        r@.len() > 0,
{
    let v = chars_of(s);
    let n = v.len();
    let mut out: Vec<String> = Vec::new();
    let mut i: usize = 0;
    proof {
        assert(texts(out@) =~= Seq::empty());
        assert(texts(out@) + split_from(s@, c, 0) =~= split_of(s@, c));
    }
    loop
        invariant
            v@ == s@,
            n == v@.len(),
            i <= n,
            texts(out@) + split_from(s@, c, i as int) == split_of(s@, c),
        decreases n - i,
    {
        let e = find_char(&v, c, i);
        proof {
            lemma_find_char_from(s@, c, i as int);
        }
        if e >= n {
            let part = string_from(&v, i, n);
            proof {
                lemma_texts_push(out@, part);
                assert(texts(out@.push(part)) =~= texts(out@) + split_from(s@, c, i as int));
            }
            out.push(part);
            return out;
        }
        let part = string_from(&v, i, e);
        proof {
            lemma_texts_push(out@, part);
            assert(texts(out@.push(part)) + split_from(s@, c, e + 1) =~= texts(out@) + split_from(
                s@,
                c,
                i as int,
            ));
        }
        out.push(part);
        i = e + 1;
    }
}

/// Where the word that holds place `i` ends.
pub open spec fn word_end(s: Seq<char>, i: int) -> int
    decreases s.len() - i,
{
    if i < 0 || i >= s.len() || is_ws(s[i]) {
        i
    } else {
        word_end(s, i + 1)
    }
}

proof fn lemma_word_end(s: Seq<char>, i: int)
    requires
        0 <= i <= s.len(),
    ensures
        i <= word_end(s, i) <= s.len(),
        i < s.len() && !is_ws(s[i]) ==> i < word_end(s, i),
    decreases s.len() - i,
{
    if i < s.len() && !is_ws(s[i]) {
        lemma_word_end(s, i + 1);
    }
}

/// The words of a text, from `i` on.
pub open spec fn words_from(s: Seq<char>, i: int) -> Seq<Seq<char>>
    decreases s.len() - i,
{
    if i < 0 || i >= s.len() {
        Seq::empty()
    } else if is_ws(s[i]) || !(i < word_end(s, i) <= s.len()) {
        words_from(s, i + 1)
    } else {
        seq![s.subrange(i, word_end(s, i))] + words_from(s, word_end(s, i))
    }
}

/// The words of a text.
pub open spec fn words_of(s: Seq<char>) -> Seq<Seq<char>> {
    words_from(s, 0)
}

/// Splits a text into words.
pub fn words(s: &str) -> (r: Vec<String>)
    ensures
        texts(r@) == words_of(s@),
{
    let v = chars_of(s);
    let n = v.len();
    let mut out: Vec<String> = Vec::new();
    let mut i: usize = 0;
    proof {
        assert(texts(out@) =~= Seq::empty());
        assert(texts(out@) + words_from(s@, 0) =~= words_of(s@));
    }
    while i < n
        invariant
            v@ == s@,
            n == v@.len(),
            i <= n,
            texts(out@) + words_from(s@, i as int) == words_of(s@),
        decreases n - i,
    {
        if is_white_space(v[i]) {
            i += 1;
            continue;
        }
        proof {
            lemma_word_end(s@, i as int);
        }
        let mut e: usize = i;
        while e < n && !is_white_space(v[e])
            invariant
                v@ == s@,
                n == v@.len(),
                i <= e <= n,
                word_end(s@, e as int) == word_end(s@, i as int),
            decreases n - e,
        {
            e += 1;
        }
        let part = string_from(&v, i, e);
        proof {
            lemma_texts_push(out@, part);
            assert(texts(out@.push(part)) + words_from(s@, e as int) =~= texts(out@) + words_from(
                s@,
                i as int,
            ));
        }
        out.push(part);
        i = e;
    }
    proof {
        assert(texts(out@) + words_from(s@, i as int) =~= texts(out@));
    }
    out
}

/// Whether a character is a decimal digit.
pub open spec fn is_digit(c: char) -> bool {
    '0' <= c && c <= '9'
}

/// The number that decimal digits stand for.
pub open spec fn digits_value(s: Seq<char>) -> nat
    decreases s.len(),
{
    if s.len() == 0 {
        0
    } else {
        digits_value(s.drop_last()) * 10 + (s.last() as nat - '0' as nat) as nat
    }
}

/// The digits of an unsigned number: a plus sign may stand in front.
pub open spec fn unsigned_digits(s: Seq<char>) -> Seq<char> {
    if s.len() > 0 && s[0] == '+' {
        s.skip(1)
    } else {
        s
    }
}

/// The unsigned number up to `max` that a text stands for.
pub open spec fn unsigned_of(s: Seq<char>, max: nat) -> Option<nat> {
    let d = unsigned_digits(s);
    if d.len() > 0 && (forall|i: int| 0 <= i < d.len() ==> is_digit(#[trigger] d[i]))
        && digits_value(d) <= max {
        Some(digits_value(d))
    } else {
        None
    }
}

proof fn lemma_digits_value_grows(s: Seq<char>, n: int)
    requires
        0 <= n <= s.len(),
        forall|i: int| 0 <= i < s.len() ==> is_digit(#[trigger] s[i]),
    ensures
        digits_value(s.take(n)) <= digits_value(s),
    decreases s.len() - n,
{
    if n < s.len() {
        lemma_digits_value_grows(s, n + 1);
        assert(s.take(n + 1).drop_last() =~= s.take(n));
    } else {
        assert(s.take(n) =~= s);
    }
}

/// Reads an unsigned number.
pub fn parse_u32(s: &str) -> (r: Option<u32>)
    ensures
        match unsigned_of(s@, u32::MAX as nat) {
            Some(n) => r matches Some(k) && k == n,
            None => r is None,
        },
{
    let v = chars_of(s);
    let from: usize = if v.len() > 0 && v[0] == '+' {
        1
    } else {
        0
    };
    let ghost d = unsigned_digits(s@);
    proof {
        assert(d =~= s@.skip(from as int));
    }
    if from >= v.len() {
        return None;
    }
    let mut value: u32 = 0;
    let mut i: usize = from;
    proof {
        assert(d.take(0) =~= Seq::empty());
    }
    let mut in_range = true;
    while i < v.len()
        invariant
            v@ == s@,
            d == s@.skip(from as int),
            d == unsigned_digits(s@),
            from <= i <= v@.len(),
            forall|k: int| 0 <= k < i - from ==> is_digit(#[trigger] d[k]),
            in_range ==> value == digits_value(d.take(i - from)),
            !in_range ==> exists|k: int|
                0 <= k <= i - from && digits_value(#[trigger] d.take(k)) > u32::MAX,
        decreases v@.len() - i,
    {
        let c = v[i];
        proof {
            assert(d[i - from] == c);
        }
        if !('0' <= c && c <= '9') {
            return None;
        }
        proof {
            assert(d.take(i + 1 - from).drop_last() =~= d.take(i - from));
            assert(d.take(i + 1 - from).last() == c);
        }
        if in_range {
            let digit: u32 = c as u32 - '0' as u32;
            let next: u64 = value as u64 * 10 + digit as u64;
            if next > 0xffff_ffff {
                in_range = false;
                proof {
                    assert(digits_value(d.take(i + 1 - from)) > u32::MAX);
                }
            } else {
                value = next as u32;
            }
        }
        i += 1;
    }
    proof {
        assert(d.take(d.len() as int) =~= d);
    }
    if in_range {
        Some(value)
    } else {
        proof {
            let k = choose|k: int|
                0 <= k <= i - from && digits_value(#[trigger] d.take(k)) > u32::MAX;
            lemma_digits_value_grows(d, k);
        }
        None
    }
}

proof fn lemma_join_front(first: Seq<char>, rest: Seq<Seq<char>>, sep: Seq<char>)
    requires
        rest.len() > 0,
    ensures
        join_of(seq![first] + rest, sep) == first + sep + join_of(rest, sep),
    decreases rest.len(),
{
    let all = seq![first] + rest;
    if rest.len() == 1 {
        assert(all.drop_last() =~= seq![first]);
        assert(all.last() == rest[0]);
        assert(join_of(seq![first], sep) == first);
        assert(join_of(rest, sep) == rest[0]);
    } else {
        lemma_join_front(first, rest.drop_last(), sep);
        assert(all.drop_last() =~= seq![first] + rest.drop_last());
        assert(join_of(all, sep) =~= first + sep + join_of(rest, sep));
    }
}

proof fn lemma_lines_spell(s: Seq<char>, i: int)
    requires
        0 <= i < s.len(),
        !s.contains('\r'),
    ensures
        lines_from(s, i).len() > 0,
        join_of(lines_from(s, i), "\n"@) + (if s.last() == '\n' {
            seq!['\n']
        } else {
            Seq::empty()
        }) == s.skip(i),
    decreases s.len() - i,
{
    reveal_strlit("\n");
    assert("\n"@ =~= seq!['\n']);
    lemma_find_char_from(s, '\n', i);
    let e = find_char_from(s, '\n', i);
    if e >= s.len() {
        assert(s[s.len() - 1] != '\n');
        assert(s.subrange(i, s.len() as int) =~= s.skip(i));
        assert(join_of(lines_from(s, i), "\n"@) + Seq::<char>::empty() =~= s.skip(i));
    } else {
        let line = s.subrange(i, e);
        if line.len() > 0 {
            assert(line.last() == s[e - 1]);
            assert(s.contains(s[e - 1]));
        }
        assert(strip_cr(line) == line);
        if e + 1 == s.len() {
            assert(lines_from(s, e + 1) =~= Seq::empty());
            assert(lines_from(s, i) =~= seq![line]);
            assert(line + seq!['\n'] =~= s.skip(i));
        } else {
            lemma_lines_spell(s, e + 1);
            lemma_join_front(line, lines_from(s, e + 1), "\n"@);
            let tail = if s.last() == '\n' { seq!['\n'] } else { Seq::empty() };
            assert(line + seq!['\n'] + s.skip(e + 1) =~= s.skip(i));
            assert(join_of(lines_from(s, i), "\n"@) + tail =~= line + seq!['\n'] + (join_of(
                lines_from(s, e + 1),
                "\n"@,
            ) + tail));
        }
    }
}

/// A text without carriage returns is its lines with line feeds between them, and
/// one more where it ends with one.
pub proof fn law_lines_spell_the_text(s: Seq<char>)
    requires
        !s.contains('\r'),
    ensures
        join_of(lines_of(s), "\n"@) + (if s.len() > 0 && s.last() == '\n' {
            seq!['\n']
        } else {
            Seq::empty()
        }) == s,
        forall|i: int| 0 <= i < lines_of(s).len() ==> !(#[trigger] lines_of(s)[i]).contains('\n'),
{
    if s.len() > 0 {
        lemma_lines_spell(s, 0);
        assert(s.skip(0) =~= s);
    } else {
        assert(join_of(lines_of(s), "\n"@) + Seq::<char>::empty() =~= s);
    }
    lemma_lines_are_single(s, 0);
}

proof fn lemma_lines_are_single(s: Seq<char>, i: int)
    requires
        0 <= i,
    ensures
        forall|k: int|
            0 <= k < lines_from(s, i).len() ==> !(#[trigger] lines_from(s, i)[k]).contains('\n'),
    decreases s.len() - i,
{
    if i < s.len() {
        lemma_find_char_from(s, '\n', i);
        let e = find_char_from(s, '\n', i);
        if e < s.len() {
            lemma_lines_are_single(s, e + 1);
        }
        let all = lines_from(s, i);
        assert forall|k: int| 0 <= k < all.len() implies !(#[trigger] all[k]).contains('\n') by {
            if k == 0 {
                assert forall|j: int| 0 <= j < all[0].len() implies all[0][j] != '\n' by {
                    assert(all[0][j] == s[i + j]);
                }
            } else {
                assert(all[k] == lines_from(s, e + 1)[k - 1]);
            }
        }
    }
}

/// White space is cut off at both ends of a text and nowhere else: what is left
/// is a part of the text that neither begins nor ends with white space, and
/// nothing but white space is around it.
pub proof fn law_trim_cuts_white_space_only(s: Seq<char>)
    ensures
        exists|i: int, j: int|
            0 <= i <= j <= s.len() && #[trigger] s.subrange(i, j) == trim_of(s) && (forall|k: int|
                0 <= k < s.len() && !(i <= k < j) ==> is_ws(#[trigger] s[k])),
        trim_of(s).len() > 0 ==> !is_ws(trim_of(s)[0]) && !is_ws(trim_of(s).last()),
{
    lemma_trim_start_cuts(s);
    let t = trim_start_of(s);
    lemma_trim_end_cuts(t);
    let i = s.len() - t.len();
    let j = i + trim_of(s).len();
    assert(t == s.skip(i));
    assert(s.subrange(i, j) =~= trim_of(s));
    assert forall|k: int| 0 <= k < s.len() && !(i <= k < j) implies is_ws(#[trigger] s[k]) by {
        if k >= j {
            assert(s[k] == t[k - i]);
        }
    }
    if trim_of(s).len() > 0 {
        assert(trim_of(s)[0] == t[0]);
    }
}

proof fn lemma_trim_start_cuts(s: Seq<char>)
    ensures
        trim_start_of(s).len() <= s.len(),
        trim_start_of(s) == s.skip(s.len() - trim_start_of(s).len()),
        forall|k: int| 0 <= k < s.len() - trim_start_of(s).len() ==> is_ws(#[trigger] s[k]),
        trim_start_of(s).len() > 0 ==> !is_ws(trim_start_of(s)[0]),
    decreases s.len(),
{
    if s.len() > 0 && is_ws(s[0]) {
        let r = s.skip(1);
        lemma_trim_start_cuts(r);
        assert(trim_start_of(s) =~= s.skip(s.len() - trim_start_of(s).len()));
        assert forall|k: int| 0 <= k < s.len() - trim_start_of(s).len() implies is_ws(
            #[trigger] s[k],
        ) by {
            if k > 0 {
                assert(r[k - 1] == s[k]);
            }
        }
    } else {
        assert(s.skip(0) =~= s);
    }
}

proof fn lemma_trim_end_cuts(s: Seq<char>)
    ensures
        trim_end_of(s).len() <= s.len(),
        trim_end_of(s) == s.take(trim_end_of(s).len() as int),
        forall|k: int| trim_end_of(s).len() <= k < s.len() ==> is_ws(#[trigger] s[k]),
        trim_end_of(s).len() > 0 ==> !is_ws(trim_end_of(s).last()),
    decreases s.len(),
{
    if s.len() > 0 && is_ws(s.last()) {
        let r = s.drop_last();
        lemma_trim_end_cuts(r);
        assert(trim_end_of(s) =~= s.take(trim_end_of(s).len() as int));
        assert forall|k: int| trim_end_of(s).len() <= k < s.len() implies is_ws(#[trigger] s[k]) by {
            if k < s.len() - 1 {
                assert(r[k] == s[k]);
            }
        }
    } else {
        assert(s.take(s.len() as int) =~= s);
    }
}

/// A text is its parts with the separator between them: what is split is joined
/// again, and no part holds the separator.
pub proof fn law_split_and_join_undo_each_other(s: Seq<char>, c: char)
    ensures
        join_of(split_of(s, c), seq![c]) == s,
        forall|i: int| 0 <= i < split_of(s, c).len() ==> !(#[trigger] split_of(s, c)[i]).contains(c),
{
    lemma_split_spells(s, c, 0);
    assert(s.skip(0) =~= s);
}

proof fn lemma_split_spells(s: Seq<char>, c: char, i: int)
    requires
        0 <= i <= s.len(),
    ensures
        split_from(s, c, i).len() > 0,
        join_of(split_from(s, c, i), seq![c]) == s.skip(i),
        forall|k: int|
            0 <= k < split_from(s, c, i).len() ==> !(#[trigger] split_from(s, c, i)[k]).contains(c),
    decreases s.len() - i,
{
    lemma_find_char_from(s, c, i);
    let e = find_char_from(s, c, i);
    let all = split_from(s, c, i);
    if e < s.len() {
        lemma_split_spells(s, c, e + 1);
        lemma_join_front(s.subrange(i, e), split_from(s, c, e + 1), seq![c]);
        assert(s.subrange(i, e) + seq![c] + s.skip(e + 1) =~= s.skip(i));
        assert forall|k: int| 0 <= k < all.len() implies !(#[trigger] all[k]).contains(c) by {
            if k == 0 {
                assert forall|j: int| 0 <= j < all[0].len() implies all[0][j] != c by {
                    assert(all[0][j] == s[i + j]);
                }
            } else {
                assert(all[k] == split_from(s, c, e + 1)[k - 1]);
            }
        }
    } else {
        assert(s.subrange(i, s.len() as int) =~= s.skip(i));
        assert forall|j: int| 0 <= j < all[0].len() implies all[0][j] != c by {
            assert(all[0][j] == s[i + j]);
        }
    }
}

proof fn lemma_trim_start_of_front(a: Seq<char>, b: Seq<char>)
    requires
        b.len() > 0,
        !is_ws(b[0]),
    ensures
        trim_start_of(a + b) == trim_start_of(a) + b,
    decreases a.len(),
{
    if a.len() > 0 && is_ws(a[0]) {
        lemma_trim_start_of_front(a.skip(1), b);
        assert((a + b).skip(1) =~= a.skip(1) + b);
        assert((a + b)[0] == a[0]);
    } else if a.len() == 0 {
        assert(a + b =~= b);
        assert(trim_start_of(a) + b =~= b);
    } else {
        assert((a + b)[0] == a[0]);
    }
}

proof fn lemma_trim_end_of_back(a: Seq<char>, b: Seq<char>)
    requires
        a.len() > 0,
        !is_ws(a.last()),
    ensures
        trim_end_of(a + b) == a + trim_end_of(b),
    decreases b.len(),
{
    if b.len() > 0 && is_ws(b.last()) {
        lemma_trim_end_of_back(a, b.drop_last());
        assert((a + b).drop_last() =~= a + b.drop_last());
        assert((a + b).last() == b.last());
    } else if b.len() == 0 {
        assert(a + b =~= a);
        assert(a + trim_end_of(b) =~= a);
    } else {
        assert((a + b).last() == b.last());
    }
}

/// White space in front of and behind a text that begins and ends with something
/// else is all that is cut off around it.
pub proof fn law_trim_keeps_what_is_between(a: Seq<char>, s: Seq<char>, b: Seq<char>)
    requires
        s.len() > 0,
        !is_ws(s[0]),
        !is_ws(s.last()),
    ensures
        trim_of(a + s + b) == trim_start_of(a) + s + trim_end_of(b),
        trim_start_of(a).len() <= a.len(),
        trim_start_of(a) == a.skip(a.len() - trim_start_of(a).len()),
        trim_end_of(b).len() <= b.len(),
        trim_end_of(b) == b.take(trim_end_of(b).len() as int),
{
    lemma_trim_start_cuts(a);
    lemma_trim_end_cuts(b);
    lemma_trim_start_of_front(a, s + b);
    assert(a + s + b =~= a + (s + b));
    let front = trim_start_of(a) + s;
    lemma_trim_end_of_back(front, b);
    assert(trim_start_of(a) + (s + b) =~= front + b);
}

proof fn lemma_word_end_in_front(a: Seq<char>, b: Seq<char>, i: int)
    requires
        0 <= i <= a.len(),
        b.len() == 0 || is_ws(b[0]) || word_end(a, i) < a.len(),
    ensures
        word_end(a + b, i) == word_end(a, i),
    decreases a.len() - i,
{
    lemma_word_end(a, i);
    if i < a.len() {
        assert((a + b)[i] == a[i]);
        if !is_ws(a[i]) {
            lemma_word_end_in_front(a, b, i + 1);
        }
    } else if b.len() > 0 {
        assert((a + b)[i] == b[0]);
    }
}

proof fn lemma_words_of_both(a: Seq<char>, b: Seq<char>, i: int)
    requires
        0 <= i <= a.len(),
        b.len() > 0,
        is_ws(b[0]),
    ensures
        words_from(a + b, i) == words_from(a, i) + words_from(a + b, a.len() as int),
    decreases a.len() - i,
{
    let all = a + b;
    if i < a.len() {
        assert(all[i] == a[i]);
        lemma_word_end(a, i);
        lemma_word_end_in_front(a, b, i);
        if is_ws(a[i]) {
            lemma_words_of_both(a, b, i + 1);
        } else {
            let e = word_end(a, i);
            lemma_words_of_both(a, b, e);
            assert(all.subrange(i, e) =~= a.subrange(i, e));
            assert(words_from(all, i) =~= words_from(a, i) + words_from(all, a.len() as int));
        }
    } else {
        assert(words_from(a, i) + words_from(all, a.len() as int) =~= words_from(all, i));
    }
}

proof fn lemma_words_behind(a: Seq<char>, b: Seq<char>, i: int)
    requires
        0 <= i <= b.len(),
    ensures
        words_from(a + b, a.len() + i) == words_from(b, i),
    decreases b.len() - i,
{
    let all = a + b;
    if i < b.len() {
        assert(all[a.len() + i] == b[i]);
        lemma_word_end(b, i);
        lemma_word_end_behind(a, b, i);
        if is_ws(b[i]) {
            lemma_words_behind(a, b, i + 1);
        } else {
            let e = word_end(b, i);
            lemma_words_behind(a, b, e);
            assert(all.subrange(a.len() + i, a.len() + e) =~= b.subrange(i, e));
        }
    }
}

proof fn lemma_word_end_behind(a: Seq<char>, b: Seq<char>, i: int)
    requires
        0 <= i <= b.len(),
    ensures
        word_end(a + b, a.len() + i) == a.len() + word_end(b, i),
    decreases b.len() - i,
{
    if i < b.len() {
        assert((a + b)[a.len() + i] == b[i]);
        if !is_ws(b[i]) {
            lemma_word_end_behind(a, b, i + 1);
        }
    }
}

/// The words of two texts with white space between them are those of the first
/// and then those of the second; a text without white space is one word.
pub proof fn law_words_stand_between_white_space(a: Seq<char>, c: char, b: Seq<char>)
    requires
        is_ws(c),
    ensures
        words_of(a + seq![c] + b) == words_of(a) + words_of(b),
        a.len() > 0 && (forall|i: int| 0 <= i < a.len() ==> !is_ws(#[trigger] a[i])) ==> words_of(a)
            == seq![a],
        a.len() == 0 ==> words_of(a).len() == 0,
{
    let rest = seq![c] + b;
    assert(a + seq![c] + b =~= a + rest);
    lemma_words_of_both(a, rest, 0);
    lemma_words_behind(a, rest, 0);
    lemma_words_behind(seq![c], b, 0);
    assert(rest[0] == c);
    assert(words_from(rest, 0) == words_from(rest, 1));
    if a.len() > 0 && (forall|i: int| 0 <= i < a.len() ==> !is_ws(#[trigger] a[i])) {
        lemma_one_word(a, 0);
        assert(a.subrange(0, a.len() as int) =~= a);
        assert(words_from(a, a.len() as int) =~= Seq::empty());
        assert(words_of(a) =~= seq![a]);
    }
}

proof fn lemma_one_word(a: Seq<char>, i: int)
    requires
        0 <= i <= a.len(),
        forall|k: int| 0 <= k < a.len() ==> !is_ws(#[trigger] a[k]),
    ensures
        word_end(a, i) == a.len(),
    decreases a.len() - i,
{
    if i < a.len() {
        lemma_one_word(a, i + 1);
    }
}

/// A number that is written in decimal is read as that number.
pub proof fn law_decimal_is_read_back(n: nat)
    ensures
        digits_value(decimal(n)) == n,
        decimal(n).len() > 0,
        forall|i: int| 0 <= i < decimal(n).len() ==> is_digit(#[trigger] decimal(n)[i]),
        forall|max: nat| n <= max ==> #[trigger] unsigned_of(decimal(n), max) == Some(n),
        n < 10 ==> decimal(n) == seq![(48 + n) as char],
    decreases n,
{
    let d = digit_char(n % 10);
    assert((d as nat - '0' as nat) as nat == n % 10);
    if n < 10 {
        assert(decimal(n).drop_last() =~= Seq::empty());
        assert(digits_value(Seq::<char>::empty()) == 0);
        assert(decimal(n).last() == d);
    } else {
        law_decimal_is_read_back(n / 10);
        assert(decimal(n).drop_last() =~= decimal(n / 10));
        assert(decimal(n).last() == d);
    }
    assert forall|max: nat| n <= max implies #[trigger] unsigned_of(decimal(n), max) == Some(n) by {
        assert(decimal(n)[0] != '+');
    }
}

/// A text begins with each of its beginnings, ends with each of its ends, and holds
/// each of its parts; what is behind a beginning is the rest.
pub proof fn law_parts_are_found(a: Seq<char>, b: Seq<char>, c: Seq<char>)
    ensures
        starts_with(a + b, a),
        ends_with(a + b, b),
        contains_sub(a + b + c, b),
        strip_prefix_of(a + b, a) == Some(b),
        starts_with(b, a) ==> b.len() >= a.len() && b.take(a.len() as int) == a,
        ends_with(b, a) ==> b.len() >= a.len() && b.skip(b.len() - a.len()) == a,
        contains_sub(c, b) ==> exists|i: int|
            0 <= i <= c.len() - b.len() && #[trigger] c.subrange(i, i + b.len()) == b,
{
    assert((a + b).take(a.len() as int) =~= a);
    assert((a + b).skip(a.len() as int) =~= b);
    assert((a + b + c).subrange(a.len() as int, (a.len() + b.len()) as int) =~= b);
    assert(stands_at(a + b + c, b, a.len() as int));
    if contains_sub(c, b) {
        let i = choose|i: int| stands_at(c, b, i);
        assert(c.subrange(i, i + b.len()) == b);
    }
}

/// In lower case the letters A to Z become a to z, and nothing else changes.
pub proof fn law_lower_case_changes_letters_only(s: Seq<char>, i: int)
    requires
        0 <= i < s.len(),
    ensures
        ascii_lower(s).len() == s.len(),
        !('A' <= s[i] <= 'Z') ==> ascii_lower(s)[i] == s[i],
        'A' <= s[i] <= 'Z' ==> ascii_lower(s)[i] as nat == s[i] as nat + 32,
{
}

/// The first characters of a text are a beginning of it, as long as was asked for
/// where the text is longer.
pub proof fn law_first_characters(s: Seq<char>, n: nat)
    ensures
        s.len() <= n ==> take_chars(s, n) == s,
        s.len() >= n ==> take_chars(s, n).len() == n,
        forall|i: int| 0 <= i < take_chars(s, n).len() ==> #[trigger] take_chars(s, n)[i] == s[i],
{
}

/// White space is what Unicode calls so.
pub proof fn law_white_space(c: char)
    ensures
        c == ' ' || c == '\t' || c == '\n' || c == '\r' ==> is_ws(c),
        'a' <= c <= 'z' || 'A' <= c <= 'Z' || '0' <= c <= '9' ==> !is_ws(c),
        '!' <= c <= '~' ==> !is_ws(c),
{
}

/// Parts that are joined stand in the text in their order: the joined text of two
/// lists is that of the first, the separator and that of the second.
pub proof fn law_joined_lists_follow_each_other(
    a: Seq<Seq<char>>,
    b: Seq<Seq<char>>,
    sep: Seq<char>,
)
    requires
        a.len() > 0,
        b.len() > 0,
    ensures
        join_of(a + b, sep) == join_of(a, sep) + sep + join_of(b, sep),
        a.len() == 1 ==> join_of(a, sep) == a[0],
    decreases b.len(),
{
    let all = a + b;
    assert(all.last() == b.last());
    if b.len() == 1 {
        assert(all.drop_last() =~= a);
    } else {
        law_joined_lists_follow_each_other(a, b.drop_last(), sep);
        assert(all.drop_last() =~= a + b.drop_last());
        assert(join_of(all, sep) =~= join_of(a, sep) + sep + join_of(b, sep));
    }
}

proof fn lemma_split_shifted(a: Seq<char>, b: Seq<char>, c: char, i: int)
    requires
        0 <= i <= b.len(),
    ensures
        split_from(a + b, c, a.len() + i) == split_from(b, c, i),
    decreases b.len() - i,
{
    lemma_find_shifted(a, b, c, i);
    lemma_find_char_from(b, c, i);
    let e = find_char_from(b, c, i);
    let all = a + b;
    if e < b.len() {
        lemma_split_shifted(a, b, c, e + 1);
        assert(all.subrange(a.len() + i, a.len() + e) =~= b.subrange(i, e));
    } else {
        assert(all.subrange(a.len() + i, all.len() as int) =~= b.subrange(i, b.len() as int));
    }
}

proof fn lemma_find_shifted(a: Seq<char>, b: Seq<char>, c: char, i: int)
    requires
        0 <= i <= b.len(),
    ensures
        find_char_from(a + b, c, a.len() + i) == a.len() + find_char_from(b, c, i),
    decreases b.len() - i,
{
    if i < b.len() {
        assert((a + b)[a.len() + i] == b[i]);
        if b[i] != c {
            lemma_find_shifted(a, b, c, i + 1);
        }
    }
}

/// A part without the separator in front of one is the first part, and the other
/// parts are those of the rest.
pub proof fn law_split_takes_parts_in_order(a: Seq<char>, c: char, b: Seq<char>)
    requires
        !a.contains(c),
    ensures
        split_of(a + seq![c] + b, c) == seq![a] + split_of(b, c),
        split_of(a, c) == seq![a],
{
    let s = a + seq![c] + b;
    lemma_find_char_from(s, c, 0);
    let e = find_char_from(s, c, 0);
    assert(s[a.len() as int] == c);
    assert(e == a.len()) by {
        if e < a.len() {
            assert(s[e] == a[e]);
        }
    }
    assert(s.subrange(0, e) =~= a);
    assert(s =~= (a + seq![c]) + b);
    lemma_split_shifted(a + seq![c], b, c, 0);
    assert(split_of(s, c) =~= seq![a] + split_of(b, c));
    lemma_find_char_from(a, c, 0);
    assert(find_char_from(a, c, 0) == a.len()) by {
        if find_char_from(a, c, 0) < a.len() {
            assert(a[find_char_from(a, c, 0)] == c);
        }
    }
    assert(a.subrange(0, a.len() as int) =~= a);
}

/// What a text begins with or holds, it still does when more follows it; what it ends
/// with or holds, when more stands in front of it.
pub proof fn law_parts_stay_in_longer_texts(x: Seq<char>, y: Seq<char>, p: Seq<char>)
    ensures
        starts_with(x, p) ==> starts_with(x + y, p),
        ends_with(y, p) ==> ends_with(x + y, p),
        contains_sub(x, p) ==> contains_sub(x + y, p),
        contains_sub(y, p) ==> contains_sub(x + y, p),
{
    if starts_with(x, p) {
        assert((x + y).take(p.len() as int) =~= x.take(p.len() as int));
    }
    if ends_with(y, p) {
        assert((x + y).skip(x.len() + y.len() - p.len()) =~= y.skip(y.len() - p.len()));
    }
    if contains_sub(x, p) {
        let i = choose|i: int| stands_at(x, p, i);
        assert((x + y).subrange(i, i + p.len()) =~= x.subrange(i, i + p.len()));
        assert(stands_at(x + y, p, i));
    }
    if contains_sub(y, p) {
        let i = choose|i: int| stands_at(y, p, i);
        assert((x + y).subrange(x.len() + i, x.len() + i + p.len()) =~= y.subrange(
            i,
            i + p.len(),
        ));
        assert(stands_at(x + y, p, x.len() + i));
    }
}

} // verus!
