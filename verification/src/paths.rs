//! Paths as texts, with `/` between their parts, and on Windows `\` too.

use crate::text::{
    cat2, cat3, chars_of, join_of, law_joined_lists_follow_each_other,
    law_split_takes_parts_in_order, lemma_texts_push, split_char, split_of, str_eq, string_from, texts,
};
use vstd::prelude::*;

verus! {

/// One component of a path.
#[derive(Debug)]
pub enum PathPart {
    /// A drive or share.
    Prefix(String),
    /// The root of a file system.
    Root,
    /// `.`
    Current,
    /// `..`
    Parent,
    /// A name.
    Name(String),
}

/// What a path component says.
#[verifier::ext_equal]
pub ghost enum PartView {
    Prefix(Seq<char>),
    Root,
    Current,
    Parent,
    Name(Seq<char>),
}

impl View for PathPart {
    type V = PartView;

    open spec fn view(&self) -> PartView {
        match *self {
            PathPart::Prefix(s) => PartView::Prefix(s@),
            PathPart::Root => PartView::Root,
            PathPart::Current => PartView::Current,
            PathPart::Parent => PartView::Parent,
            PathPart::Name(s) => PartView::Name(s@),
        }
    }
}

/// What the components of a path say.
pub open spec fn part_views(v: Seq<PathPart>) -> Seq<PartView> {
    v.map_values(|p: PathPart| p@)
}

/// What a path on Windows begins with where it names a drive, a share of another
/// machine or a device; a verbatim one begins with `\\?\`.
#[derive(Debug)]
pub enum PathVolume {
    Verbatim(String),
    VerbatimShare(String, String),
    VerbatimDrive(char),
    Device(String),
    Share(String, String),
    Drive(char),
}

/// What the beginning of a path names.
#[verifier::ext_equal]
pub ghost enum VolumeView {
    Verbatim(Seq<char>),
    VerbatimShare(Seq<char>, Seq<char>),
    VerbatimDrive(char),
    Device(Seq<char>),
    Share(Seq<char>, Seq<char>),
    Drive(char),
}

impl View for PathVolume {
    type V = VolumeView;

    open spec fn view(&self) -> VolumeView {
        match *self {
            PathVolume::Verbatim(s) => VolumeView::Verbatim(s@),
            PathVolume::VerbatimShare(s, t) => VolumeView::VerbatimShare(s@, t@),
            PathVolume::VerbatimDrive(c) => VolumeView::VerbatimDrive(c),
            PathVolume::Device(s) => VolumeView::Device(s@),
            PathVolume::Share(s, t) => VolumeView::Share(s@, t@),
            PathVolume::Drive(c) => VolumeView::Drive(c),
        }
    }
}

/// A path taken apart: its volume, the text that names it, and the parts behind
/// it.
#[derive(Debug)]
pub struct PathLayout {
    pub volume: Option<PathVolume>,
    pub lead: String,
    pub parts: Vec<PathPart>,
}

/// A path taken apart.
#[verifier::ext_equal]
pub ghost struct LayoutView {
    pub volume: Option<VolumeView>,
    pub lead: Seq<char>,
    pub parts: Seq<PartView>,
}

impl View for PathLayout {
    type V = LayoutView;

    open spec fn view(&self) -> LayoutView {
        LayoutView {
            volume: opt_volume(self.volume),
            lead: self.lead@,
            parts: part_views(self.parts@),
        }
    }
}

/// What an optional volume says.
pub open spec fn opt_volume(v: Option<PathVolume>) -> Option<VolumeView> {
    match v {
        Some(x) => Some(x@),
        None => None,
    }
}

/// Whether a path begins at the root.
pub open spec fn is_rooted(path: Seq<char>) -> bool {
    path.len() > 0 && path[0] == '/'
}

/// A path below another, with `/` between them; a path that begins at the root
/// stands for itself.
pub open spec fn joined(base: Seq<char>, path: Seq<char>) -> Seq<char> {
    if is_rooted(path) || base.len() == 0 {
        path
    } else if base.last() == '/' {
        base + path
    } else {
        base + "/"@ + path
    }
}

/// Whether a character stands between the parts of a path.
pub open spec fn is_separator(c: char, windows: bool) -> bool {
    c == '/' || (windows && c == '\\')
}

/// Whether a path begins with a separator.
pub open spec fn starts_at_root(path: Seq<char>, windows: bool) -> bool {
    path.len() > 0 && is_separator(path[0], windows)
}

/// Whether a character names a drive.
pub open spec fn is_drive_letter(c: char) -> bool {
    ('a' <= c && c <= 'z') || ('A' <= c && c <= 'Z')
}

/// Whether a path holds the name of a drive at `i`.
pub open spec fn has_drive(path: Seq<char>, i: int) -> bool {
    path.len() >= i + 2 && is_drive_letter(path[i]) && path[i + 1] == ':'
}

/// Whether a path begins with two separators.
pub open spec fn has_two_separators(path: Seq<char>) -> bool {
    path.len() >= 2 && is_separator(path[0], true) && is_separator(path[1], true)
}

/// Whether a path is verbatim: between its parts stands `\` alone, and `.` is a
/// part.
pub open spec fn is_verbatim(path: Seq<char>) -> bool {
    path.len() >= 4 && path[0] == '\\' && path[1] == '\\' && path[2] == '?' && path[3] == '\\'
}

/// A letter as a capital.
pub open spec fn capital(c: char) -> char {
    if 'a' <= c && c <= 'z' {
        ((c as int) - 32) as char
    } else {
        c
    }
}

/// How many characters from `i` on come before the next separator.
pub open spec fn name_len(path: Seq<char>, i: int, verbatim: bool) -> int
    decreases path.len() - i,
{
    if i < 0 || i >= path.len() || path[i] == '\\' || (path[i] == '/' && !verbatim) {
        0
    } else {
        1 + name_len(path, i + 1, verbatim)
    }
}

/// The characters from `i` on before the next separator.
pub open spec fn name_at(path: Seq<char>, i: int, verbatim: bool) -> Seq<char> {
    path.subrange(i, i + name_len(path, i, verbatim))
}

/// Where the name behind that at `i` begins.
pub open spec fn next_name(path: Seq<char>, i: int, verbatim: bool) -> int {
    let end = i + name_len(path, i, verbatim);
    if end < path.len() {
        end + 1
    } else {
        end
    }
}

/// The volume that a path on Windows names.
pub open spec fn volume_of(path: Seq<char>) -> Option<VolumeView> {
    if is_verbatim(path) {
        if path.len() >= 8 && path[4] == 'U' && path[5] == 'N' && path[6] == 'C' && is_separator(
            path[7],
            true,
        ) {
            Some(
                VolumeView::VerbatimShare(
                    name_at(path, 8, true),
                    name_at(path, next_name(path, 8, true), true),
                ),
            )
        } else if has_drive(path, 4) && (path.len() == 6 || is_separator(path[6], true)) {
            Some(VolumeView::VerbatimDrive(capital(path[4])))
        } else {
            Some(VolumeView::Verbatim(name_at(path, 4, true)))
        }
    } else if has_two_separators(path) {
        let server = name_at(path, 2, false);
        let share = name_at(path, next_name(path, 2, false), false);
        if path.len() >= 4 && path[2] == '.' && is_separator(path[3], true) {
            Some(VolumeView::Device(name_at(path, 4, false)))
        } else if server.len() > 0 && share.len() > 0 {
            Some(VolumeView::Share(server, share))
        } else {
            None
        }
    } else if has_drive(path, 0) {
        Some(VolumeView::Drive(capital(path[0])))
    } else {
        None
    }
}

/// How long the text is that names the volume of a path.
pub open spec fn volume_len(path: Seq<char>) -> nat {
    match volume_of(path) {
        None => 0,
        Some(VolumeView::Verbatim(name)) => 4 + name.len(),
        Some(VolumeView::VerbatimShare(server, share)) => if share.len() > 0 {
            9 + server.len() + share.len()
        } else {
            8 + server.len()
        },
        Some(VolumeView::VerbatimDrive(_)) => 6,
        Some(VolumeView::Device(name)) => 4 + name.len(),
        Some(VolumeView::Share(server, share)) => 3 + server.len() + share.len(),
        Some(VolumeView::Drive(_)) => 2,
    }
}

/// What the `i`-th piece between separators is: empty ones are no parts, and
/// `.` is one only at the beginning, or everywhere.
pub open spec fn part_at(pieces: Seq<Seq<char>>, i: int, first_dot: bool, every_dot: bool) -> Option<
    PartView,
> {
    if pieces[i].len() == 0 {
        None
    } else if pieces[i] == "."@ {
        if every_dot || (first_dot && i == 0) {
            Some(PartView::Current)
        } else {
            None
        }
    } else if pieces[i] == ".."@ {
        Some(PartView::Parent)
    } else {
        Some(PartView::Name(pieces[i]))
    }
}

/// The parts among the first `n` pieces.
pub open spec fn parts_from(pieces: Seq<Seq<char>>, first_dot: bool, every_dot: bool, n: nat) -> Seq<
    PartView,
>
    decreases n,
{
    if n == 0 || n > pieces.len() {
        Seq::empty()
    } else {
        let before = parts_from(pieces, first_dot, every_dot, (n - 1) as nat);
        match part_at(pieces, n - 1, first_dot, every_dot) {
            Some(p) => before.push(p),
            None => before,
        }
    }
}

/// A path with `/` between its parts.
pub open spec fn forward(path: Seq<char>) -> Seq<char> {
    path.map_values(
        |c: char|
            if c == '\\' {
                '/'
            } else {
                c
            },
    )
}

/// The pieces of a path behind its volume and its root.
pub open spec fn pieces_of(body: Seq<char>, windows: bool, verbatim: bool) -> Seq<Seq<char>> {
    if verbatim {
        split_of(body, '\\')
    } else if windows {
        split_of(forward(body), '/')
    } else {
        split_of(body, '/')
    }
}

/// A path taken apart.
pub open spec fn laid_out(path: Seq<char>, windows: bool) -> LayoutView {
    let volume = if windows {
        volume_of(path)
    } else {
        None
    };
    let n = if windows {
        volume_len(path) as int
    } else {
        0
    };
    let verbatim = windows && is_verbatim(path);
    let rest = path.skip(n);
    let body = if starts_at_root(rest, windows) {
        rest.skip(1)
    } else {
        rest
    };
    let rooted = starts_at_root(rest, windows) || volume matches Some(VolumeView::Device(_))
        || volume matches Some(VolumeView::Share(_, _));
    let pieces = pieces_of(body, windows, verbatim);
    let named = parts_from(pieces, volume is None && !rooted, verbatim, pieces.len());
    LayoutView {
        volume,
        lead: path.take(n),
        parts: if rooted {
            seq![PartView::Root] + named
        } else {
            named
        },
    }
}

/// Whether a path says by itself where it leads.
pub open spec fn is_full(path: Seq<char>, windows: bool) -> bool {
    if windows {
        match volume_of(path) {
            None => false,
            Some(VolumeView::Drive(_)) => starts_at_root(path.skip(2), true),
            Some(_) => true,
        }
    } else {
        is_rooted(path)
    }
}

/// Parts with one more behind them: the root takes their place, `.` adds
/// nothing, and `..` takes a name back.
pub open spec fn followed(parts: Seq<PartView>, part: PartView) -> Seq<PartView> {
    match part {
        PartView::Root => seq![PartView::Root],
        PartView::Current => parts,
        PartView::Parent => if parts.len() > 0 && parts.last() is Name {
            parts.drop_last()
        } else {
            parts
        },
        other => parts.push(other),
    }
}

/// Parts with the first `n` of others behind them.
pub open spec fn followed_all(parts: Seq<PartView>, more: Seq<PartView>, n: int) -> Seq<PartView>
    decreases n,
{
    if n <= 0 || n > more.len() {
        parts
    } else {
        followed(followed_all(parts, more, n - 1), more[n - 1])
    }
}

/// What is written between the parts of a path.
pub open spec fn separator(windows: bool) -> Seq<char> {
    if windows {
        "\\"@
    } else {
        "/"@
    }
}

/// A part as it is written.
pub open spec fn part_text(part: PartView, windows: bool) -> Seq<char> {
    match part {
        PartView::Prefix(s) => s,
        PartView::Root => separator(windows),
        PartView::Current => "."@,
        PartView::Parent => ".."@,
        PartView::Name(s) => s,
    }
}

/// Whether nothing is written between a volume and a part behind it.
pub open spec fn is_close(v: LayoutView) -> bool {
    v.lead.len() == 0 || v.volume matches Some(VolumeView::Drive(_))
}

/// A volume and the first `n` parts behind it as they are written.
pub open spec fn written_path(v: LayoutView, parts: Seq<PartView>, n: int, windows: bool) -> Seq<char>
    decreases n,
{
    if n <= 0 || n > parts.len() {
        v.lead
    } else {
        let before = written_path(v, parts, n - 1, windows);
        let close = if n > 1 {
            parts[n - 2] is Root
        } else {
            is_close(v)
        };
        if close || parts[n - 1] is Root {
            before + part_text(parts[n - 1], windows)
        } else {
            before + separator(windows) + part_text(parts[n - 1], windows)
        }
    }
}

/// A path that was given, below a directory. One that says by itself where it
/// leads stands for itself. On Windows so does one that names a volume, one that
/// begins at the root keeps the volume of the directory, and below a verbatim
/// directory `.` and `..` are taken out.
pub open spec fn joined_on(base: Seq<char>, path: Seq<char>, windows: bool) -> Seq<char> {
    if !windows {
        joined(base, path)
    } else if volume_of(path) is Some {
        path
    } else if is_verbatim(base) && path.len() > 0 {
        let above = laid_out(base, true);
        let below = laid_out(path, true).parts;
        let parts = followed_all(above.parts, below, below.len() as int);
        written_path(above, parts, parts.len() as int, true)
    } else if starts_at_root(path, true) {
        base.take(volume_len(base) as int) + path
    } else if base.len() == 0 || is_separator(base.last(), true) || (has_drive(base, 0)
        && base.len() == 2) {
        base + path
    } else {
        base + "\\"@ + path
    }
}

/// Whether a path lies in a directory or is that directory, part by part. All
/// paths lie in the empty one.
pub open spec fn lies_in_on(path: Seq<char>, dir: Seq<char>, windows: bool) -> bool {
    let a = laid_out(path, windows);
    let b = laid_out(dir, windows);
    ||| b.volume is None && b.parts.len() == 0
    ||| {
        &&& a.volume == b.volume
        &&& b.parts.len() <= a.parts.len()
        &&& a.parts.take(b.parts.len() as int) == b.parts
    }
}

/// By what a volume is ordered.
pub open spec fn volume_key(volume: Option<VolumeView>) -> Seq<Seq<char>> {
    match volume {
        None => Seq::empty(),
        Some(VolumeView::Verbatim(name)) => seq!["0"@ + name],
        Some(VolumeView::VerbatimShare(server, share)) => seq!["1"@ + server, share],
        Some(VolumeView::VerbatimDrive(c)) => seq!["2"@.push(c)],
        Some(VolumeView::Device(name)) => seq!["3"@ + name],
        Some(VolumeView::Share(server, share)) => seq!["4"@ + server, share],
        Some(VolumeView::Drive(c)) => seq!["5"@.push(c)],
    }
}

/// By what a part is ordered: by its kind, then by its text.
pub open spec fn part_key(part: PartView) -> Seq<char> {
    match part {
        PartView::Prefix(s) => "5"@ + s,
        PartView::Root => "6"@,
        PartView::Current => "7"@,
        PartView::Parent => "8"@,
        PartView::Name(s) => "9"@ + s,
    }
}

/// By what a path is ordered: by its volume, then part by part; the root comes
/// before `.`, that before `..`, and that before names.
pub open spec fn path_key(path: Seq<char>, windows: bool) -> Seq<Seq<char>> {
    let v = laid_out(path, windows);
    volume_key(v.volume) + v.parts.map_values(|p: PartView| part_key(p))
}

fn separates(c: char, windows: bool) -> (r: bool)
    ensures
        r == is_separator(c, windows),
{
    c == '/' || (windows && c == '\\')
}

fn drive_at(v: &Vec<char>, i: usize) -> (r: bool)
    requires
        i <= 4,
    ensures
        r == has_drive(v@, i as int),
{
    v.len() >= i + 2 && (('a' <= v[i] && v[i] <= 'z') || ('A' <= v[i] && v[i] <= 'Z')) && v[i + 1]
        == ':'
}

fn begins_verbatim(v: &Vec<char>) -> (r: bool)
    ensures
        r == is_verbatim(v@),
{
    v.len() >= 4 && v[0] == '\\' && v[1] == '\\' && v[2] == '?' && v[3] == '\\'
}

fn capital_of(c: char) -> (r: char)
    ensures
        r == capital(c),
{
    if 'a' <= c && c <= 'z' {
        ((c as u8) - 32) as char
    } else {
        c
    }
}

fn forward_from(v: &Vec<char>, from: usize) -> (r: String)
    requires
        from <= v@.len(),
    ensures
        r@ == forward(v@.skip(from as int)),
{
    let ghost want = forward(v@.skip(from as int));
    let mut out: Vec<char> = Vec::new();
    let mut i: usize = from;
    while i < v.len()
        invariant
            from <= i <= v@.len(),
            want == forward(v@.skip(from as int)),
            out@ == want.take(i - from),
        decreases v@.len() - i,
    {
        let c = if v[i] == '\\' {
            '/'
        } else {
            v[i]
        };
        proof {
            assert(want[i - from] == c);
            assert(want.take(i + 1 - from) =~= want.take(i - from).push(c));
        }
        out.push(c);
        i += 1;
    }
    proof {
        assert(want.take(want.len() as int) =~= want);
    }
    let n = out.len();
    proof {
        assert(out@.subrange(0, n as int) =~= want);
    }
    string_from(&out, 0, n)
}

fn name_end(v: &Vec<char>, from: usize, verbatim: bool) -> (r: usize)
    requires
        from <= v@.len(),
    ensures
        r == from + name_len(v@, from as int, verbatim),
        from <= r <= v@.len(),
{
    let mut i: usize = from;
    while i < v.len() && v[i] != '\\' && (v[i] != '/' || verbatim)
        invariant
            from <= i <= v@.len(),
            from + name_len(v@, from as int, verbatim) == i + name_len(v@, i as int, verbatim),
        decreases v@.len() - i,
    {
        i += 1;
    }
    i
}

fn two_names(v: &Vec<char>, from: usize, verbatim: bool) -> (r: (String, String, usize))
    requires
        from <= v@.len(),
    ensures
        r.0@ == name_at(v@, from as int, verbatim),
        r.1@ == name_at(v@, next_name(v@, from as int, verbatim), verbatim),
        r.2 == from + r.0@.len() + if r.1@.len() > 0 {
            1 + r.1@.len()
        } else {
            0
        },
        r.2 <= v@.len(),
{
    let end = name_end(v, from, verbatim);
    let next: usize = if end < v.len() {
        end + 1
    } else {
        end
    };
    let last = name_end(v, next, verbatim);
    let first = string_from(v, from, end);
    let second = string_from(v, next, last);
    let stop: usize = if next < last {
        last
    } else {
        end
    };
    (first, second, stop)
}

fn read_volume(v: &Vec<char>) -> (r: (Option<PathVolume>, usize))
    ensures
        opt_volume(r.0) == volume_of(v@),
        r.1 == volume_len(v@),
        r.1 <= v@.len(),
{
    if begins_verbatim(v) {
        if v.len() >= 8 && v[4] == 'U' && v[5] == 'N' && v[6] == 'C' && separates(v[7], true) {
            let (server, share, n) = two_names(v, 8, true);
            (Some(PathVolume::VerbatimShare(server, share)), n)
        } else if drive_at(v, 4) && (v.len() == 6 || separates(v[6], true)) {
            (Some(PathVolume::VerbatimDrive(capital_of(v[4]))), 6)
        } else {
            let end = name_end(v, 4, true);
            (Some(PathVolume::Verbatim(string_from(v, 4, end))), end)
        }
    } else if v.len() >= 2 && separates(v[0], true) && separates(v[1], true) {
        if v.len() >= 4 && v[2] == '.' && separates(v[3], true) {
            let end = name_end(v, 4, false);
            (Some(PathVolume::Device(string_from(v, 4, end))), end)
        } else {
            let (server, share, n) = two_names(v, 2, false);
            if server.as_str().is_empty() || share.as_str().is_empty() {
                (None, 0)
            } else {
                (Some(PathVolume::Share(server, share)), n)
            }
        }
    } else if drive_at(v, 0) {
        (Some(PathVolume::Drive(capital_of(v[0]))), 2)
    } else {
        (None, 0)
    }
}

fn push_part(parts: &mut Vec<PathPart>, part: PathPart)
    ensures
        part_views(final(parts)@) == part_views(old(parts)@).push(part@),
{
    let ghost before = parts@;
    parts.push(part);
    proof {
        assert(part_views(parts@) =~= part_views(before).push(part@));
    }
}

/// Takes a path apart.
pub fn layout(path: &str, windows: bool) -> (r: PathLayout)
    ensures
        r@ == laid_out(path@, windows),
{
    let v = chars_of(path);
    let (volume, n) = if windows {
        read_volume(&v)
    } else {
        (None, 0)
    };
    let ghost rest = path@.skip(n as int);
    let at_root = n < v.len() && separates(v[n], windows);
    let from: usize = if at_root {
        n + 1
    } else {
        n
    };
    let rooted = at_root || match &volume {
        Some(PathVolume::Device(_)) => true,
        Some(PathVolume::Share(_, _)) => true,
        _ => false,
    };
    let verbatim = windows && begins_verbatim(&v);
    let ghost body = if at_root {
        rest.skip(1)
    } else {
        rest
    };
    proof {
        assert(rest.len() > 0 ==> rest[0] == v@[n as int]);
        assert(v@.skip(from as int) =~= body);
        assert(v@.subrange(from as int, v@.len() as int) =~= body);
        assert(v@.subrange(0, n as int) =~= path@.take(n as int));
    }
    let first_dot = volume.is_none() && !rooted;
    let ghost all = pieces_of(body, windows, verbatim);
    let pieces = if verbatim {
        split_char(string_from(&v, from, v.len()).as_str(), '\\')
    } else if windows {
        split_char(forward_from(&v, from).as_str(), '/')
    } else {
        split_char(string_from(&v, from, v.len()).as_str(), '/')
    };
    let mut parts: Vec<PathPart> = Vec::new();
    let ghost head = if rooted {
        seq![PartView::Root]
    } else {
        Seq::empty()
    };
    proof {
        assert(part_views(parts@) =~= Seq::empty());
    }
    if rooted {
        push_part(&mut parts, PathPart::Root);
    }
    let mut i: usize = 0;
    proof {
        assert(part_views(parts@) =~= head + parts_from(all, first_dot, verbatim, 0));
    }
    while i < pieces.len()
        invariant
            i <= pieces@.len(),
            texts(pieces@) == all,
            part_views(parts@) == head + parts_from(all, first_dot, verbatim, i as nat),
        decreases pieces@.len() - i,
    {
        proof {
            assert(texts(pieces@)[i as int] == pieces@[i as int]@);
            reveal_strlit(".");
            reveal_strlit("..");
        }
        let piece = pieces[i].as_str();
        let ghost before = parts_from(all, first_dot, verbatim, i as nat);
        if piece.is_empty() {
        } else if str_eq(piece, ".") {
            if verbatim || (first_dot && i == 0) {
                push_part(&mut parts, PathPart::Current);
                proof {
                    assert((head + before).push(PartView::Current) =~= head + before.push(
                        PartView::Current,
                    ));
                }
            }
        } else if str_eq(piece, "..") {
            push_part(&mut parts, PathPart::Parent);
            proof {
                assert((head + before).push(PartView::Parent) =~= head + before.push(
                    PartView::Parent,
                ));
            }
        } else {
            push_part(&mut parts, PathPart::Name(piece.to_owned()));
            proof {
                assert((head + before).push(PartView::Name(piece@)) =~= head + before.push(
                    PartView::Name(piece@),
                ));
            }
        }
        i += 1;
    }
    let lead = string_from(&v, 0, n);
    let r = PathLayout { volume, lead, parts };
    proof {
        let named = parts_from(all, first_dot, verbatim, all.len());
        assert(all.len() == pieces@.len());
        assert(Seq::<PartView>::empty() + named =~= named);
    }
    r
}

/// Whether a path says by itself where it leads.
pub fn is_full_path(path: &str, windows: bool) -> (r: bool)
    ensures
        r == is_full(path@, windows),
{
    let v = chars_of(path);
    if !windows {
        return v.len() > 0 && v[0] == '/';
    }
    match read_volume(&v).0 {
        None => false,
        Some(PathVolume::Drive(_)) => v.len() > 2 && separates(v[2], true),
        Some(_) => true,
    }
}

fn follow(parts: &mut Vec<PathPart>, part: &PathPart)
    ensures
        part_views(final(parts)@) == followed(part_views(old(parts)@), part@),
{
    let ghost before = parts@;
    proof {
        assert(part_views(before).len() == before.len());
        if before.len() > 0 {
            assert(part_views(before).last() == before.last()@);
            assert(part_views(before).drop_last() =~= part_views(before.drop_last()));
        }
    }
    match part {
        PathPart::Root => {
            parts.clear();
            parts.push(PathPart::Root);
            proof {
                assert(part_views(parts@) =~= seq![PartView::Root]);
            }
        },
        PathPart::Current => {},
        PathPart::Parent => {
            let named = parts.len() > 0 && matches!(&parts[parts.len() - 1], PathPart::Name(_));
            if named {
                parts.pop();
                proof {
                    assert(parts@ =~= before.drop_last());
                }
            }
        },
        PathPart::Name(s) => push_part(parts, PathPart::Name(s.clone())),
        PathPart::Prefix(s) => push_part(parts, PathPart::Prefix(s.clone())),
    }
}

fn separator_text(windows: bool) -> (r: &'static str)
    ensures
        r@ == separator(windows),
{
    if windows {
        "\\"
    } else {
        "/"
    }
}

fn text_of(part: &PathPart, windows: bool) -> (r: &str)
    ensures
        r@ == part_text(part@, windows),
{
    match part {
        PathPart::Prefix(s) => s.as_str(),
        PathPart::Root => separator_text(windows),
        PathPart::Current => ".",
        PathPart::Parent => "..",
        PathPart::Name(s) => s.as_str(),
    }
}

/// Writes a volume and the parts behind it.
pub fn write_path(volume: &Option<PathVolume>, lead: &str, parts: &Vec<PathPart>, windows: bool) -> (r:
    String)
    ensures
        r@ == written_path(
            (LayoutView { volume: opt_volume(*volume), lead: lead@, parts: part_views(parts@) }),
            part_views(parts@),
            parts@.len() as int,
            windows,
        ),
{
    let ghost all = part_views(parts@);
    let ghost v = LayoutView { volume: opt_volume(*volume), lead: lead@, parts: all };
    let starts_close = lead.is_empty() || matches!(volume, Some(PathVolume::Drive(_)));
    let mut out = lead.to_owned();
    let mut i: usize = 0;
    while i < parts.len()
        invariant
            i <= parts@.len(),
            all == part_views(parts@),
            starts_close == is_close(v),
            out@ == written_path(v, all, i as int, windows),
        decreases parts@.len() - i,
    {
        proof {
            assert(all[i as int] == parts@[i as int]@);
            assert(i > 0 ==> all[i - 1] == parts@[i - 1]@);
        }
        let close = if i > 0 {
            matches!(&parts[i - 1], PathPart::Root)
        } else {
            starts_close
        };
        if !close && !matches!(&parts[i], PathPart::Root) {
            out.append(separator_text(windows));
        }
        out.append(text_of(&parts[i], windows));
        i += 1;
    }
    out
}

/// What is written depends on the volume and the parts alone.
pub proof fn lemma_written_path(v: LayoutView, w: LayoutView, parts: Seq<PartView>, n: int, windows: bool)
    requires
        v.volume == w.volume,
        v.lead == w.lead,
    ensures
        written_path(v, parts, n, windows) == written_path(w, parts, n, windows),
    decreases n,
{
    if n > 0 && n <= parts.len() {
        lemma_written_path(v, w, parts, n - 1, windows);
    }
}

fn join_verbatim(base: &str, path: &str) -> (r: String)
    ensures
        ({
            let above = laid_out(base@, true);
            let below = laid_out(path@, true).parts;
            let parts = followed_all(above.parts, below, below.len() as int);
            r@ == written_path(above, parts, parts.len() as int, true)
        }),
{
    let above = layout(base, true);
    let below = layout(path, true);
    let ghost whole = above@;
    let ghost up = part_views(above.parts@);
    let ghost down = part_views(below.parts@);
    let mut parts = above.parts;
    let mut i: usize = 0;
    while i < below.parts.len()
        invariant
            i <= below.parts@.len(),
            down == part_views(below.parts@),
            part_views(parts@) == followed_all(up, down, i as int),
        decreases below.parts@.len() - i,
    {
        proof {
            assert(down[i as int] == below.parts@[i as int]@);
        }
        follow(&mut parts, &below.parts[i]);
        i += 1;
    }
    proof {
        let shown = part_views(parts@);
        assert(shown.len() == parts@.len());
        let used = LayoutView { parts: shown, ..whole };
        lemma_written_path(whole, used, shown, shown.len() as int, true);
    }
    write_path(&above.volume, above.lead.as_str(), &parts, true)
}

/// A path that was given, below a directory.
pub fn join_path(base: &str, path: &str, windows: bool) -> (r: String)
    ensures
        r@ == joined_on(base@, path@, windows),
{
    let b = chars_of(base);
    let p = chars_of(path);
    if !windows {
        return if (p.len() > 0 && p[0] == '/') || b.len() == 0 {
            path.to_owned()
        } else if b[b.len() - 1] == '/' {
            cat2(base, path)
        } else {
            cat3(base, "/", path)
        };
    }
    if read_volume(&p).0.is_some() {
        path.to_owned()
    } else if begins_verbatim(&b) && p.len() > 0 {
        join_verbatim(base, path)
    } else if p.len() > 0 && separates(p[0], true) {
        let n = read_volume(&b).1;
        proof {
            assert(base@.take(n as int) =~= base@.subrange(0, n as int));
        }
        cat2(string_from(&b, 0, n).as_str(), path)
    } else if b.len() == 0 || separates(b[b.len() - 1], true) || (drive_at(&b, 0) && b.len() == 2) {
        cat2(base, path)
    } else {
        cat3(base, "\\", path)
    }
}

/// A path that says by itself where it leads is taken as it is, whatever the
/// directory.
pub proof fn law_full_path_stands_for_itself(base: Seq<char>, path: Seq<char>, windows: bool)
    requires
        is_full(path, windows),
    ensures
        joined_on(base, path, windows) == path,
{
}

/// Joining paths one after the other is joining them from the right.
pub proof fn law_join_is_associative(a: Seq<char>, b: Seq<char>, c: Seq<char>)
    requires
        b.len() > 0,
    ensures
        joined(joined(a, b), c) == joined(a, joined(b, c)),
{
    reveal_strlit("/");
    if !is_rooted(c) {
        if is_rooted(b) || a.len() == 0 {
        } else if a.last() == '/' {
            assert((a + b).last() == b.last());
            assert((a + b) + c =~= a + (b + c));
            assert((a + b) + "/"@ + c =~= a + (b + "/"@ + c));
            assert((b + c)[0] == b[0]);
            assert((b + "/"@ + c)[0] == b[0]);
        } else {
            assert((a + "/"@ + b).last() == b.last());
            assert((a + "/"@ + b) + c =~= a + "/"@ + (b + c));
            assert((a + "/"@ + b) + "/"@ + c =~= a + "/"@ + (b + "/"@ + c));
            assert((b + c)[0] == b[0]);
            assert((b + "/"@ + c)[0] == b[0]);
        }
    }
}

fn same_volume(a: &Option<PathVolume>, b: &Option<PathVolume>) -> (r: bool)
    ensures
        r == (opt_volume(*a) == opt_volume(*b)),
{
    match (a, b) {
        (None, None) => true,
        (Some(PathVolume::Verbatim(x)), Some(PathVolume::Verbatim(y))) => str_eq(
            x.as_str(),
            y.as_str(),
        ),
        (Some(PathVolume::VerbatimShare(x, s)), Some(PathVolume::VerbatimShare(y, t))) => str_eq(
            x.as_str(),
            y.as_str(),
        ) && str_eq(s.as_str(), t.as_str()),
        (Some(PathVolume::VerbatimDrive(x)), Some(PathVolume::VerbatimDrive(y))) => *x == *y,
        (Some(PathVolume::Device(x)), Some(PathVolume::Device(y))) => str_eq(
            x.as_str(),
            y.as_str(),
        ),
        (Some(PathVolume::Share(x, s)), Some(PathVolume::Share(y, t))) => str_eq(
            x.as_str(),
            y.as_str(),
        ) && str_eq(s.as_str(), t.as_str()),
        (Some(PathVolume::Drive(x)), Some(PathVolume::Drive(y))) => *x == *y,
        _ => false,
    }
}

fn same_part(a: &PathPart, b: &PathPart) -> (r: bool)
    ensures
        r == (a@ == b@),
{
    match (a, b) {
        (PathPart::Prefix(x), PathPart::Prefix(y)) => str_eq(x.as_str(), y.as_str()),
        (PathPart::Root, PathPart::Root) => true,
        (PathPart::Current, PathPart::Current) => true,
        (PathPart::Parent, PathPart::Parent) => true,
        (PathPart::Name(x), PathPart::Name(y)) => str_eq(x.as_str(), y.as_str()),
        _ => false,
    }
}

/// Whether a path lies in a directory or is that directory, part by part.
pub fn path_lies_in(path: &str, dir: &str, windows: bool) -> (r: bool)
    ensures
        r == lies_in_on(path@, dir@, windows),
{
    let a = layout(path, windows);
    let b = layout(dir, windows);
    let ghost pa = part_views(a.parts@);
    let ghost pb = part_views(b.parts@);
    if b.volume.is_none() && b.parts.len() == 0 {
        return true;
    }
    if !same_volume(&a.volume, &b.volume) || b.parts.len() > a.parts.len() {
        return false;
    }
    let mut i: usize = 0;
    while i < b.parts.len()
        invariant
            i <= b.parts@.len() <= a.parts@.len(),
            a@ == laid_out(path@, windows),
            b@ == laid_out(dir@, windows),
            pa == part_views(a.parts@),
            pb == part_views(b.parts@),
            forall|k: int| 0 <= k < i ==> pa[k] == pb[k],
        decreases b.parts@.len() - i,
    {
        proof {
            assert(pa[i as int] == a.parts@[i as int]@);
            assert(pb[i as int] == b.parts@[i as int]@);
        }
        if !same_part(&a.parts[i], &b.parts[i]) {
            proof {
                assert(pa.take(pb.len() as int)[i as int] == pa[i as int]);
            }
            return false;
        }
        i += 1;
    }
    proof {
        assert(pa.take(pb.len() as int) =~= pb);
    }
    true
}

/// A path lies in itself, and what lies in a directory of another lies in that
/// other too.
pub proof fn law_lying_in_is_an_order(a: Seq<char>, b: Seq<char>, c: Seq<char>, windows: bool)
    ensures
        lies_in_on(a, a, windows),
        lies_in_on(a, b, windows) && lies_in_on(b, c, windows) ==> lies_in_on(a, c, windows),
{
    let p = laid_out(a, windows).parts;
    let q = laid_out(b, windows).parts;
    let r = laid_out(c, windows).parts;
    assert(p.take(p.len() as int) =~= p);
    if r.len() <= q.len() <= p.len() {
        assert(p.take(q.len() as int).take(r.len() as int) =~= p.take(r.len() as int));
    }
}

fn push_key(keys: &mut Vec<String>, key: String)
    ensures
        texts(final(keys)@) == texts(old(keys)@).push(key@),
{
    proof {
        lemma_texts_push(keys@, key);
    }
    keys.push(key);
}

fn drive_key(kind: &str, c: char) -> (r: String)
    ensures
        r@ == kind@.push(c),
{
    let mut out = kind.to_owned();
    out.push(c);
    out
}

/// By what a path is ordered.
pub fn order_key(path: &str, windows: bool) -> (r: Vec<String>)
    ensures
        texts(r@) == path_key(path@, windows),
{
    let v = layout(path, windows);
    let mut out: Vec<String> = Vec::new();
    proof {
        assert(texts(out@) =~= Seq::empty());
    }
    match &v.volume {
        None => {},
        Some(PathVolume::Verbatim(name)) => push_key(&mut out, cat2("0", name.as_str())),
        Some(PathVolume::VerbatimShare(server, share)) => {
            push_key(&mut out, cat2("1", server.as_str()));
            push_key(&mut out, share.clone());
        },
        Some(PathVolume::VerbatimDrive(c)) => push_key(&mut out, drive_key("2", *c)),
        Some(PathVolume::Device(name)) => push_key(&mut out, cat2("3", name.as_str())),
        Some(PathVolume::Share(server, share)) => {
            push_key(&mut out, cat2("4", server.as_str()));
            push_key(&mut out, share.clone());
        },
        Some(PathVolume::Drive(c)) => push_key(&mut out, drive_key("5", *c)),
    }
    let ghost head = volume_key(opt_volume(v.volume));
    let ghost all = part_views(v.parts@).map_values(|p: PartView| part_key(p));
    let mut i: usize = 0;
    proof {
        assert(texts(out@) =~= head);
        assert(head + all.take(0) =~= head);
    }
    while i < v.parts.len()
        invariant
            i <= v.parts@.len(),
            all == part_views(v.parts@).map_values(|p: PartView| part_key(p)),
            texts(out@) == head + all.take(i as int),
        decreases v.parts@.len() - i,
    {
        let key = match &v.parts[i] {
            PathPart::Prefix(s) => cat2("5", s.as_str()),
            PathPart::Root => "6".to_owned(),
            PathPart::Current => "7".to_owned(),
            PathPart::Parent => "8".to_owned(),
            PathPart::Name(s) => cat2("9", s.as_str()),
        };
        proof {
            assert(all[i as int] == key@);
            assert((head + all.take(i as int)).push(key@) =~= head + all.take(i + 1));
        }
        push_key(&mut out, key);
        i += 1;
    }
    proof {
        assert(all.take(v.parts@.len() as int) =~= all);
    }
    out
}

/// Whether a text names one thing in a directory.
pub open spec fn is_name(s: Seq<char>) -> bool {
    s.len() > 0 && s != "."@ && s != ".."@ && !s.contains('/')
}

/// The parts that names are.
pub open spec fn named_parts(names: Seq<Seq<char>>) -> Seq<PartView> {
    Seq::new(names.len(), |i: int| PartView::Name(names[i]))
}

proof fn lemma_names_are_split(names: Seq<Seq<char>>)
    requires
        names.len() > 0,
        forall|i: int| 0 <= i < names.len() ==> is_name(#[trigger] names[i]),
    ensures
        split_of(join_of(names, "/"@), '/') == names,
        join_of(names, "/"@).len() > 0,
        join_of(names, "/"@)[0] != '/',
    decreases names.len(),
{
    reveal_strlit("/");
    assert("/"@ =~= seq!['/']);
    assert(is_name(names[0]));
    assert(names[0][0] != '/') by {
        if names[0][0] == '/' {
            assert(names[0].contains('/'));
        }
    }
    if names.len() == 1 {
        law_split_takes_parts_in_order(names[0], '/', Seq::empty());
        assert(seq![names[0]] =~= names);
    } else {
        let rest = names.skip(1);
        assert forall|i: int| 0 <= i < rest.len() implies is_name(#[trigger] rest[i]) by {
            assert(is_name(names[i + 1]));
        }
        lemma_names_are_split(rest);
        law_joined_lists_follow_each_other(names.take(1), rest, "/"@);
        assert(names.take(1) + rest =~= names);
        assert(names.take(1)[0] == names[0]);
        law_split_takes_parts_in_order(names[0], '/', join_of(rest, "/"@));
        assert(seq![names[0]] + rest =~= names);
    }
}

proof fn lemma_names_are_parts(
    names: Seq<Seq<char>>,
    first_dot: bool,
    every_dot: bool,
    n: nat,
)
    requires
        n <= names.len(),
        forall|i: int| 0 <= i < names.len() ==> is_name(#[trigger] names[i]),
    ensures
        parts_from(names, first_dot, every_dot, n) == named_parts(names).take(n as int),
    decreases n,
{
    if n > 0 {
        lemma_names_are_parts(names, first_dot, every_dot, (n - 1) as nat);
        assert(is_name(names[n - 1]));
        assert(named_parts(names).take(n as int) =~= named_parts(names).take(n - 1).push(
            PartView::Name(names[n - 1]),
        ));
    } else {
        assert(named_parts(names).take(0) =~= Seq::empty());
    }
}

/// A path of names is made of these names, below the root where it begins with a
/// slash.
pub proof fn law_path_is_made_of_its_names(names: Seq<Seq<char>>)
    requires
        names.len() > 0,
        forall|i: int| 0 <= i < names.len() ==> is_name(#[trigger] names[i]),
    ensures
        ({
            let path = join_of(names, "/"@);
            &&& laid_out(path, false).volume is None && laid_out("/"@ + path, false).volume is None
            &&& laid_out(path, false).parts == named_parts(names)
            &&& laid_out("/"@ + path, false).parts == seq![PartView::Root] + named_parts(names)
        }),
{
    reveal_strlit("/");
    let path = join_of(names, "/"@);
    lemma_names_are_split(names);
    lemma_names_are_parts(names, true, false, names.len());
    lemma_names_are_parts(names, false, false, names.len());
    assert(named_parts(names).take(names.len() as int) =~= named_parts(names));
    assert(path.skip(0) =~= path);
    let rooted = "/"@ + path;
    assert(rooted.skip(0) =~= rooted);
    assert(rooted[0] == '/');
    assert(rooted.skip(1) =~= path);
}

/// What is below a directory lies in it; what is below another does not.
pub proof fn law_what_is_below_lies_in_it(
    dir: Seq<Seq<char>>,
    below: Seq<Seq<char>>,
    other: Seq<Seq<char>>,
    i: int,
)
    requires
        dir.len() > 0,
        other.len() > 0,
        forall|k: int| 0 <= k < dir.len() ==> is_name(#[trigger] dir[k]),
        forall|k: int| 0 <= k < below.len() ==> is_name(#[trigger] below[k]),
        forall|k: int| 0 <= k < other.len() ==> is_name(#[trigger] other[k]),
    ensures
        lies_in_on("/"@ + join_of(dir + below, "/"@), "/"@ + join_of(dir, "/"@), false),
        0 <= i < dir.len() && i < other.len() && dir[i] != other[i] ==> !lies_in_on(
            "/"@ + join_of(other, "/"@),
            "/"@ + join_of(dir, "/"@),
            false,
        ),
        other.len() < dir.len() ==> !lies_in_on(
            "/"@ + join_of(other, "/"@),
            "/"@ + join_of(dir, "/"@),
            false,
        ),
{
    let all = dir + below;
    assert forall|k: int| 0 <= k < all.len() implies is_name(#[trigger] all[k]) by {
        if k < dir.len() {
            assert(is_name(dir[k]));
        } else {
            assert(is_name(below[k - dir.len()]));
        }
    }
    law_path_is_made_of_its_names(all);
    law_path_is_made_of_its_names(dir);
    law_path_is_made_of_its_names(other);
    let d = seq![PartView::Root] + named_parts(dir);
    let a = seq![PartView::Root] + named_parts(all);
    let o = seq![PartView::Root] + named_parts(other);
    assert(a.take(d.len() as int) =~= d);
    if 0 <= i < dir.len() && i < other.len() && dir[i] != other[i] {
        assert(d[i + 1] == PartView::Name(dir[i]));
        assert(o[i + 1] == PartView::Name(other[i]));
        if o.len() >= d.len() {
            assert(o.take(d.len() as int)[i + 1] == o[i + 1]);
        }
    }
}

/// A path is written with a slash between its names.
pub proof fn law_path_is_written_with_its_names(names: Seq<Seq<char>>, n: int)
    requires
        0 < n <= names.len(),
    ensures
        ({
            let parts = seq![PartView::Root] + named_parts(names);
            let v = LayoutView { volume: None, lead: Seq::empty(), parts };
            written_path(v, parts, n + 1, false) == "/"@ + join_of(names.take(n), "/"@)
        }),
    decreases n,
{
    let parts = seq![PartView::Root] + named_parts(names);
    let v = LayoutView { volume: None, lead: Seq::empty(), parts };
    reveal_with_fuel(written_path, 3);
    assert(parts[0] is Root);
    assert(parts[n] == PartView::Name(names[n - 1]));
    assert(written_path(v, parts, 1, false) =~= "/"@);
    if n == 1 {
        assert(names.take(1)[0] == names[0]);
    } else {
        law_path_is_written_with_its_names(names, n - 1);
        assert(parts[n - 1] == PartView::Name(names[n - 2]));
        let all = names.take(n);
        assert(all.drop_last() =~= names.take(n - 1));
        assert(all.last() == names[n - 1]);
        let before = join_of(names.take(n - 1), "/"@);
        assert("/"@ + before + "/"@ + names[n - 1] =~= "/"@ + (before + "/"@ + names[n - 1]));
    }
}

/// A step up undoes a name, never more; a dot stays; the root begins anew.
pub proof fn law_steps_through_a_path(parts: Seq<PartView>, name: Seq<char>)
    ensures
        followed(parts, PartView::Name(name)) == parts.push(PartView::Name(name)),
        followed(followed(parts, PartView::Name(name)), PartView::Parent) == parts,
        followed(parts, PartView::Current) == parts,
        followed(parts, PartView::Root) == seq![PartView::Root],
        parts.len() > 0 && parts.last() is Root ==> followed(parts, PartView::Parent) == parts,
        parts.len() == 0 ==> followed(parts, PartView::Parent) == parts,
{
    assert(parts.push(PartView::Name(name)).drop_last() =~= parts);
}

/// Empty pieces and dots inside a path mean nothing, two dots mean a step up.
pub proof fn law_dots_in_a_path(pieces: Seq<Seq<char>>, i: int)
    requires
        0 <= i < pieces.len(),
    ensures
        pieces[i].len() == 0 ==> part_at(pieces, i, true, false) is None,
        pieces[i] == "."@ && i > 0 ==> part_at(pieces, i, true, false) is None,
        pieces[i] == "."@ && i == 0 ==> part_at(pieces, i, true, false) == Some(PartView::Current)
            && part_at(pieces, i, false, false) is None,
        pieces[i] == ".."@ ==> part_at(pieces, i, true, false) == Some(PartView::Parent),
        is_name(pieces[i]) ==> part_at(pieces, i, true, false) == Some(PartView::Name(pieces[i])),
{
    reveal_strlit(".");
    reveal_strlit("..");
    assert("."@.len() == 1);
    assert(".."@.len() == 2);
}

/// A relative path goes below its base; one from the root stands for itself.
pub proof fn law_relative_path_goes_below(base: Seq<char>, path: Seq<char>)
    requires
        base.len() > 0,
    ensures
        path.len() > 0 && path[0] == '/' ==> joined_on(base, path, false) == path,
        (path.len() == 0 || path[0] != '/') && base.last() != '/' ==> joined_on(base, path, false)
            == base + "/"@ + path,
        (path.len() == 0 || path[0] != '/') && base.last() == '/' ==> joined_on(base, path, false)
            == base + path,
        !is_verbatim(base) && path.len() > 0 && path[0] != '/' && path[0] != '\\' && (path.len() == 1
            || path[1] != ':') && base.last() != '/' && base.last() != '\\' && base.last() != ':'
            ==> joined_on(base, path, true) == base + "\\"@ + path,
        !is_verbatim(base) && path.len() > 0 && path[0] != '/' && path[0] != '\\' && (path.len() == 1
            || path[1] != ':') && (base.last() == '/' || base.last() == '\\') ==> joined_on(
            base,
            path,
            true,
        ) == base + path,
        path.len() > 2 && 'a' <= path[0] <= 'z' && path[1] == ':' ==> joined_on(base, path, true)
            == path,
{
}

/// A drive is known by its letter, in either case; a path on it is full only from its
/// root.
pub proof fn law_drive_is_known_by_its_letter(c: char, rest: Seq<char>)
    requires
        'a' <= c <= 'z',
    ensures
        volume_of(seq![c, ':'] + rest) == Some(VolumeView::Drive(((c as int) - 32) as char)),
        volume_of(seq![((c as int) - 32) as char, ':'] + rest) == Some(
            VolumeView::Drive(((c as int) - 32) as char),
        ),
        volume_len(seq![c, ':'] + rest) == 2,
        rest.len() > 0 && rest[0] == '\\' ==> is_full(seq![c, ':'] + rest, true),
        rest.len() > 0 && rest[0] != '\\' && rest[0] != '/' ==> !is_full(seq![c, ':'] + rest, true),
        !is_full(seq![c, ':'] + rest, false),
{
    let path = seq![c, ':'] + rest;
    assert(path[0] == c && path[1] == ':');
    assert(path.skip(2) =~= rest);
    let d = ((c as int) - 32) as char;
    let upper = seq![d, ':'] + rest;
    assert(upper[0] == d && upper[1] == ':');
    assert('A' <= d <= 'Z');
}

/// On Windows a backslash separates like a slash, elsewhere it is part of a name.
pub proof fn law_backslash_separates_on_windows(c: char)
    ensures
        is_separator('/', true) && is_separator('/', false),
        is_separator('\\', true) && !is_separator('\\', false),
        c != '/' && c != '\\' ==> !is_separator(c, true) && !is_separator(c, false),
        separator(true) == "\\"@ && separator(false) == "/"@,
        forward(seq![c]) == (if c == '\\' {
            seq!['/']
        } else {
            seq![c]
        }),
{
    assert(forward(seq![c]) =~= (if c == '\\' {
        seq!['/']
    } else {
        seq![c]
    }));
}

} // verus!
