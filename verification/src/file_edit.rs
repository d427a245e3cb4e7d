//! Text patches: their grammar, and what they do to the lines of a file.

use crate::json::{no_members, put, put_text, text_list, Json, Jv};
use crate::paths::{
    laid_out, layout, lemma_written_path, part_views, write_path, written_path, LayoutView, PartView,
    PathPart,
};
use crate::text::{
    cat2, chars_of, clone_strings, ends_with, has_prefix, has_suffix, is_blank, is_blank_text, join, join_of,
    law_trim_is_idempotent, lemma_texts_push, lines, lines_of, opt_text, starts_with, str_eq,
    strip_prefix, strip_prefix_of, texts, trim, trim_of,
};
use vstd::prelude::*;
use vstd::utf8::{decode_utf8, encode_utf8, valid_utf8};

verus! {

pub const BEGIN_PATCH: &'static str = "*** Begin Patch";
pub const END_PATCH: &'static str = "*** End Patch";
pub const ADD_FILE: &'static str = "*** Add File: ";
pub const DELETE_FILE: &'static str = "*** Delete File: ";
pub const UPDATE_FILE: &'static str = "*** Update File: ";
pub const MOVE_TO: &'static str = "*** Move to: ";
pub const CHANGE_CONTEXT: &'static str = "@@";
pub const END_OF_FILE: &'static str = "*** End of File";

/// Why a patch was refused.
#[derive(Debug)]
pub struct FileEditError(pub String);

/// A new file with its lines.
#[derive(Debug, Clone)]
pub struct AddFile {
    pub path: String,
    pub lines: Vec<String>,
}

/// A file to remove.
#[derive(Debug, Clone)]
pub struct DeleteFile {
    pub path: String,
}

/// One hunk: the lines that it looks for and the lines that replace them.
#[derive(Debug, Clone)]
pub struct UpdateSegment {
    pub started: bool,
    pub anchors: Vec<String>,
    pub old_lines: Vec<String>,
    pub new_lines: Vec<String>,
    pub eof: bool,
}

/// A file to change, and perhaps to move.
#[derive(Debug, Clone)]
pub struct UpdateFile {
    pub path: String,
    pub move_to: Option<String>,
    pub segments: Vec<UpdateSegment>,
}

/// One operation of a patch.
#[derive(Debug, Clone)]
pub enum Operation {
    Add(AddFile),
    Delete(DeleteFile),
    Update(UpdateFile),
}

/// What a hunk says.
#[verifier::ext_equal]
pub ghost struct SegmentView {
    pub started: bool,
    pub anchors: Seq<Seq<char>>,
    pub old_lines: Seq<Seq<char>>,
    pub new_lines: Seq<Seq<char>>,
    pub eof: bool,
}

/// What an operation says.
#[verifier::ext_equal]
pub ghost enum OperationView {
    Add { path: Seq<char>, lines: Seq<Seq<char>> },
    Delete { path: Seq<char> },
    Update { path: Seq<char>, move_to: Option<Seq<char>>, segments: Seq<SegmentView> },
}

impl View for UpdateSegment {
    type V = SegmentView;

    open spec fn view(&self) -> SegmentView {
        SegmentView {
            started: self.started,
            anchors: texts(self.anchors@),
            old_lines: texts(self.old_lines@),
            new_lines: texts(self.new_lines@),
            eof: self.eof,
        }
    }
}

/// What a list of hunks says.
pub open spec fn segment_views(v: Seq<UpdateSegment>) -> Seq<SegmentView> {
    v.map_values(|s: UpdateSegment| s@)
}

impl View for Operation {
    type V = OperationView;

    open spec fn view(&self) -> OperationView {
        match *self {
            Operation::Add(add) => OperationView::Add {
                path: add.path@,
                lines: texts(add.lines@),
            },
            Operation::Delete(del) => OperationView::Delete { path: del.path@ },
            Operation::Update(update) => OperationView::Update {
                path: update.path@,
                move_to: opt_text(update.move_to),
                segments: segment_views(update.segments@),
            },
        }
    }
}

/// What a list of operations says.
pub open spec fn operation_views(v: Seq<Operation>) -> Seq<OperationView> {
    v.map_values(|o: Operation| o@)
}

/// Whether a line begins another operation or ends the patch.
pub open spec fn operation_header(line: Seq<char>) -> bool {
    ||| starts_with(line, ADD_FILE@)
    ||| starts_with(line, DELETE_FILE@)
    ||| starts_with(line, UPDATE_FILE@)
    ||| trim_of(line) == END_PATCH@
}

/// Where the body that begins at line `i` ends.
pub open spec fn body_end(lines: Seq<Seq<char>>, i: int, end: int) -> int
    decreases end - i,
{
    if i >= end || operation_header(lines[i]) {
        i
    } else {
        body_end(lines, i + 1, end)
    }
}

/// The path that a header names: its text without surrounding white space.
pub open spec fn header_path(rest: Seq<char>) -> Result<Seq<char>, Seq<char>> {
    if is_blank(rest) {
        Err("Path must not be empty."@)
    } else {
        Ok(trim_of(rest))
    }
}

/// The `Add File` operation whose header is line `i`, and the line behind it.
pub open spec fn add_file_at(
    lines: Seq<Seq<char>>,
    i: int,
    end: int,
    rest: Seq<char>,
) -> Result<(OperationView, int), Seq<char>> {
    let stop = body_end(lines, i + 1, end);
    match header_path(rest) {
        Err(e) => Err(e),
        Ok(path) => if exists|k: int| i < k < stop && !starts_with(#[trigger] lines[k], "+"@) {
            Err("Add File body lines must start with '+'."@)
        } else if stop == i + 1 {
            Err("Add File body is empty: "@ + path)
        } else {
            Ok((
                OperationView::Add {
                    path,
                    lines: Seq::new((stop - i - 1) as nat, |k: int| lines[i + 1 + k].skip(1)),
                },
                stop,
            ))
        },
    }
}

/// The state in which the body of an update is read.
#[verifier::ext_equal]
pub ghost struct UpdateBody {
    pub segments: Seq<SegmentView>,
    pub current: SegmentView,
    pub changed: bool,
}

/// A hunk of which nothing has been read.
pub open spec fn empty_segment() -> SegmentView {
    SegmentView {
        started: false,
        anchors: Seq::empty(),
        old_lines: Seq::empty(),
        new_lines: Seq::empty(),
        eof: false,
    }
}

/// Whether a line opens a hunk.
pub open spec fn is_context_line(line: Seq<char>) -> bool {
    line == CHANGE_CONTEXT@ || starts_with(line, "@@ "@)
}

/// The anchor that a hunk header names.
pub open spec fn context_anchor(line: Seq<char>) -> Seq<char> {
    match strip_prefix_of(line, "@@ "@) {
        Some(rest) => rest,
        None => Seq::empty(),
    }
}

/// The body with a hunk header read.
pub open spec fn open_hunk(body: UpdateBody, line: Seq<char>) -> UpdateBody {
    let full = body.current.old_lines.len() > 0 || body.current.new_lines.len() > 0;
    let segments = if full { body.segments.push(body.current) } else { body.segments };
    let base = if full { empty_segment() } else { body.current };
    let anchor = context_anchor(line);
    UpdateBody {
        segments,
        current: SegmentView {
            started: true,
            anchors: if anchor.len() > 0 { base.anchors.push(anchor) } else { base.anchors },
            ..base
        },
        changed: body.changed,
    }
}

/// The body with a change line read; `None` where the line is not one.
pub open spec fn change_line(body: UpdateBody, line: Seq<char>) -> Option<UpdateBody> {
    let rest = line.skip(1);
    let kept = line.len() > 0 && line[0] == ' ';
    let gone = line.len() > 0 && line[0] == '-';
    let fresh = line.len() > 0 && line[0] == '+';
    if kept || gone || fresh {
        Some(
            UpdateBody {
                current: SegmentView {
                    old_lines: if kept || gone {
                        body.current.old_lines.push(rest)
                    } else {
                        body.current.old_lines
                    },
                    new_lines: if kept || fresh {
                        body.current.new_lines.push(rest)
                    } else {
                        body.current.new_lines
                    },
                    ..body.current
                },
                changed: true,
                ..body
            },
        )
    } else {
        None
    }
}

/// The body of an update, read from line `i` on, and the line behind it.
pub open spec fn update_body(
    lines: Seq<Seq<char>>,
    i: int,
    end: int,
    body: UpdateBody,
) -> Result<(UpdateBody, int), Seq<char>>
    decreases end - i,
{
    if i >= end || operation_header(lines[i]) {
        Ok((body, i))
    } else if lines[i] == END_OF_FILE@ {
        if i + 1 < end && !operation_header(lines[i + 1]) {
            Err("'*** End of File' must end the Update File body."@)
        } else {
            Ok((UpdateBody { current: SegmentView { eof: true, ..body.current }, ..body }, i + 1))
        }
    } else if is_context_line(lines[i]) {
        update_body(lines, i + 1, end, open_hunk(body, lines[i]))
    } else if !body.current.started {
        Err("Update File hunk must start with '@@'."@)
    } else {
        match change_line(body, lines[i]) {
            Some(next) => update_body(lines, i + 1, end, next),
            None => Err("Update File lines must start with ' ', '-', '+', or '@@'."@),
        }
    }
}

/// The hunks of a body that has been read to its end.
pub open spec fn body_segments(body: UpdateBody) -> Seq<SegmentView> {
    let c = body.current;
    if c.started || c.anchors.len() > 0 || c.old_lines.len() > 0 || c.new_lines.len() > 0
        || c.eof {
        body.segments.push(c)
    } else {
        body.segments
    }
}

/// The destination that line `i` names, and the line behind it.
pub open spec fn move_target(lines: Seq<Seq<char>>, i: int, end: int) -> Result<
    (Option<Seq<char>>, int),
    Seq<char>,
> {
    if i < end && starts_with(lines[i], MOVE_TO@) {
        match header_path(lines[i].skip(MOVE_TO@.len() as int)) {
            Err(e) => Err(e),
            Ok(p) => Ok((Some(p), i + 1)),
        }
    } else {
        Ok((None, i))
    }
}

/// The `Update File` operation whose header is line `i`, and the line behind it.
pub open spec fn update_file_at(
    lines: Seq<Seq<char>>,
    i: int,
    end: int,
    rest: Seq<char>,
) -> Result<(OperationView, int), Seq<char>> {
    match header_path(rest) {
        Err(e) => Err(e),
        Ok(path) => match move_target(lines, i + 1, end) {
            Err(e) => Err(e),
            Ok((move_to, first)) => match update_body(
                lines,
                first,
                end,
                UpdateBody { segments: Seq::empty(), current: empty_segment(), changed: false },
            ) {
                Err(e) => Err(e),
                Ok((body, stop)) => if body.changed {
                    Ok((
                        OperationView::Update { path, move_to, segments: body_segments(body) },
                        stop,
                    ))
                } else {
                    Err("Update File body has no change lines: "@ + path)
                },
            },
        },
    }
}

/// The operation that begins at line `i` and the line behind it; `Ok(None)`
/// for a blank line.
pub open spec fn operation_at(lines: Seq<Seq<char>>, i: int, end: int) -> Result<
    Option<(OperationView, int)>,
    Seq<char>,
> {
    let line = lines[i];
    if starts_with(line, ADD_FILE@) {
        match add_file_at(lines, i, end, line.skip(ADD_FILE@.len() as int)) {
            Ok(found) => Ok(Some(found)),
            Err(e) => Err(e),
        }
    } else if starts_with(line, DELETE_FILE@) {
        match header_path(line.skip(DELETE_FILE@.len() as int)) {
            Ok(path) => Ok(Some((OperationView::Delete { path }, i + 1))),
            Err(e) => Err(e),
        }
    } else if starts_with(line, UPDATE_FILE@) {
        match update_file_at(lines, i, end, line.skip(UPDATE_FILE@.len() as int)) {
            Ok(found) => Ok(Some(found)),
            Err(e) => Err(e),
        }
    } else if is_blank(line) {
        Ok(None)
    } else {
        Err("Invalid operation header: "@ + line)
    }
}

/// The operations from line `i` on, behind those already read. An operation
/// takes at least its header line and ends within the patch.
pub open spec fn operations_from(
    lines: Seq<Seq<char>>,
    i: int,
    end: int,
    done: Seq<OperationView>,
) -> Result<Seq<OperationView>, Seq<char>>
    decreases end - i,
{
    if i >= end {
        if done.len() == 0 {
            Err("Patch must contain at least one operation."@)
        } else {
            Ok(done)
        }
    } else {
        match operation_at(lines, i, end) {
            Err(e) => Err(e),
            Ok(None) => operations_from(lines, i + 1, end, done),
            Ok(Some((op, next))) => if i < next <= end {
                operations_from(lines, next, end, done.push(op))
            } else {
                Err(Seq::empty())
            },
        }
    }
}

/// What a patch text says: its operations in order, or why it is refused.
pub open spec fn patch_of(patch: Seq<char>) -> Result<Seq<OperationView>, Seq<char>> {
    let lines = lines_of(trim_of(patch));
    if lines.len() < 2 || trim_of(lines[0]) != BEGIN_PATCH@ {
        Err("The first line of the patch must be '*** Begin Patch'."@)
    } else if trim_of(lines.last()) != END_PATCH@ {
        Err("The last line of the patch must be '*** End Patch'."@)
    } else {
        operations_from(lines, 1, lines.len() - 1, Seq::empty())
    }
}

/// What parsing gave, as plain values.
pub open spec fn parsed(r: Result<Vec<Operation>, FileEditError>) -> Result<
    Seq<OperationView>,
    Seq<char>,
> {
    match r {
        Ok(ops) => Ok(operation_views(ops@)),
        Err(e) => Err(e.0@),
    }
}

fn refuse(message: &str) -> (r: FileEditError)
    ensures
        r.0@ == message@,
{
    FileEditError(message.to_owned())
}

fn is_operation_header(line: &str) -> (r: bool)
    ensures
        r == operation_header(line@),
{
    has_prefix(line, ADD_FILE) || has_prefix(line, DELETE_FILE) || has_prefix(line, UPDATE_FILE)
        || str_eq(trim(line), END_PATCH)
}

fn non_empty_path(path: &str) -> (r: Result<String, FileEditError>)
    ensures
        match r {
            Ok(p) => header_path(path@) == Ok::<Seq<char>, Seq<char>>(p@),
            Err(e) => header_path(path@) == Err::<Seq<char>, Seq<char>>(e.0@),
        },
{
    let cleaned = trim(path);
    if cleaned.is_empty() {
        Err(refuse("Path must not be empty."))
    } else {
        Ok(cleaned.to_owned())
    }
}

fn tail(line: &str) -> (r: String)
    requires
        line@.len() > 0,
    ensures
        r@ == line@.skip(1),
{
    let n: usize = line.unicode_len();
    proof {
        assert(line@.skip(1) =~= line@.subrange(1, n as int));
    }
    line.substring_char(1, n).to_owned()
}

fn parse_add_file(lines: &Vec<String>, start: usize, end: usize, rest: &str) -> (r: Result<
    (AddFile, usize),
    FileEditError,
>)
    requires
        start < end <= lines@.len(),
    ensures
        match r {
            Ok((op, next)) => start < next <= end && add_file_at(
                texts(lines@),
                start as int,
                end as int,
                rest@,
            ) == Ok::<(OperationView, int), Seq<char>>((Operation::Add(op)@, next as int)),
            Err(e) => add_file_at(texts(lines@), start as int, end as int, rest@) == Err::<
                (OperationView, int),
                Seq<char>,
            >(e.0@),
        },
{
    let path = match non_empty_path(rest) {
        Ok(p) => p,
        Err(e) => return Err(e),
    };
    let ghost all = texts(lines@);
    let ghost stop = body_end(all, start + 1, end as int);
    let mut index: usize = start + 1;
    let mut body: Vec<String> = Vec::new();
    proof {
        reveal_strlit("+");
    }
    while index < end && !is_operation_header(lines[index].as_str())
        invariant
            start < index <= end <= lines@.len(),
            all == texts(lines@),
            body_end(all, index as int, end as int) == stop,
            stop == body_end(all, start + 1, end as int),
            header_path(rest@) == Ok::<Seq<char>, Seq<char>>(path@),
            forall|k: int| start < k < index ==> starts_with(#[trigger] all[k], "+"@),
            texts(body@) == Seq::new((index - start - 1) as nat, |k: int| all[start + 1 + k].skip(1)),
            "+"@ == seq!['+'],
        decreases end - index,
    {
        let line = lines[index].as_str();
        proof {
            assert(all[index as int] == line@);
            lemma_body_end(all, index as int, end as int);
        }
        if !has_prefix(line, "+") {
            proof {
                assert(!starts_with(all[index as int], "+"@));
                lemma_body_end(all, index + 1, end as int);
            }
            return Err(refuse("Add File body lines must start with '+'."));
        }
        let text = tail(line);
        let ghost before = body@;
        body.push(text);
        proof {
            lemma_texts_push(before, text);
            assert(texts(body@) =~= Seq::new((index - start) as nat, |k: int| all[start + 1 + k].skip(1)));
        }
        index += 1;
    }
    if body.len() == 0 {
        proof {
            assert(texts(body@).len() == 0);
        }
        return Err(FileEditError(cat2("Add File body is empty: ", path.as_str())));
    }
    proof {
        assert(texts(body@).len() > 0);
    }
    Ok((AddFile { path, lines: body }, index))
}

proof fn lemma_body_end(lines: Seq<Seq<char>>, i: int, end: int)
    requires
        i <= end,
    ensures
        i <= body_end(lines, i, end) <= end,
    decreases end - i,
{
    if i < end && !operation_header(lines[i]) {
        lemma_body_end(lines, i + 1, end);
    }
}

fn take_segment(current: &mut UpdateSegment) -> (r: UpdateSegment)
    ensures
        r@ == old(current)@,
        final(current)@ == empty_segment(),
{
    let mut fresh = new_segment();
    std::mem::swap(current, &mut fresh);
    fresh
}

fn new_segment() -> (r: UpdateSegment)
    ensures
        r@ == empty_segment(),
{
    let r = UpdateSegment {
        started: false,
        anchors: Vec::new(),
        old_lines: Vec::new(),
        new_lines: Vec::new(),
        eof: false,
    };
    proof {
        assert(r@ =~= empty_segment());
    }
    r
}

/// The ghost state that the reader's variables stand for.
spec fn body_state(segments: Seq<UpdateSegment>, current: UpdateSegment, changed: bool) -> UpdateBody {
    UpdateBody { segments: segment_views(segments), current: current@, changed }
}

fn read_context_line(segments: &mut Vec<UpdateSegment>, current: &mut UpdateSegment, line: &str)
    requires
        is_context_line(line@),
    ensures
        forall|changed: bool|
            body_state(final(segments)@, *final(current), changed) == #[trigger] open_hunk(
                body_state(old(segments)@, *old(current), changed),
                line@,
            ),
{
    let ghost before = segments@;
    let ghost was = *current;
    if current.old_lines.len() > 0 || current.new_lines.len() > 0 {
        let done = take_segment(current);
        segments.push(done);
        proof {
            assert(segment_views(segments@) =~= segment_views(before).push(done@));
        }
    }
    let ghost base = current@;
    current.started = true;
    proof {
        assert(texts(was.old_lines@).len() == was.old_lines@.len());
        assert(texts(was.new_lines@).len() == was.new_lines@.len());
    }
    match strip_prefix(line, "@@ ") {
        Some(header) => {
            if !header.is_empty() {
                let anchor = header.to_owned();
                let ghost old_anchors = current.anchors@;
                current.anchors.push(anchor);
                proof {
                    lemma_texts_push(old_anchors, anchor);
                }
            }
        },
        None => {},
    }
    proof {
        assert forall|changed: bool|
            body_state(segments@, *current, changed) == #[trigger] open_hunk(
                body_state(before, was, changed),
                line@,
            ) by {
            assert(body_state(segments@, *current, changed) =~= open_hunk(
                body_state(before, was, changed),
                line@,
            ));
        }
    }
}

fn read_change_line(current: &mut UpdateSegment, line: &str) -> (r: bool)
    ensures
        forall|segments: Seq<UpdateSegment>, changed: bool|
            (#[trigger] change_line(body_state(segments, *old(current), changed), line@)) == (if r {
                Some(body_state(segments, *final(current), true))
            } else {
                None
            }),
{
    let ghost was = *current;
    if line.unicode_len() == 0 {
        return false;
    }
    let first = line.get_char(0);
    let kept = first == ' ';
    let gone = first == '-';
    let fresh = first == '+';
    if !kept && !gone && !fresh {
        return false;
    }
    if kept || gone {
        let rest = tail(line);
        let ghost before = current.old_lines@;
        current.old_lines.push(rest);
        proof {
            lemma_texts_push(before, rest);
        }
    }
    if kept || fresh {
        let rest = tail(line);
        let ghost before = current.new_lines@;
        current.new_lines.push(rest);
        proof {
            lemma_texts_push(before, rest);
        }
    }
    proof {
        assert forall|segments: Seq<UpdateSegment>, changed: bool|
            (#[trigger] change_line(body_state(segments, was, changed), line@)) == Some(
                body_state(segments, *current, true),
            ) by {
            assert(change_line(body_state(segments, was, changed), line@)->0 =~= body_state(
                segments,
                *current,
                true,
            ));
        }
    }
    true
}

fn parse_update_file(lines: &Vec<String>, start: usize, end: usize, rest: &str) -> (r: Result<
    (UpdateFile, usize),
    FileEditError,
>)
    requires
        start < end <= lines@.len(),
    ensures
        match r {
            Ok((op, next)) => start < next <= end && update_file_at(
                texts(lines@),
                start as int,
                end as int,
                rest@,
            ) == Ok::<(OperationView, int), Seq<char>>((Operation::Update(op)@, next as int)),
            Err(e) => update_file_at(texts(lines@), start as int, end as int, rest@) == Err::<
                (OperationView, int),
                Seq<char>,
            >(e.0@),
        },
{
    let path = match non_empty_path(rest) {
        Ok(p) => p,
        Err(e) => return Err(e),
    };
    let ghost all = texts(lines@);
    let mut index: usize = start + 1;
    let mut move_to: Option<String> = None;
    if index < end {
        match strip_prefix(lines[index].as_str(), MOVE_TO) {
            Some(target) => {
                match non_empty_path(target) {
                    Ok(p) => {
                        move_to = Some(p);
                    },
                    Err(e) => return Err(e),
                }
                index += 1;
            },
            None => {},
        }
    }
    proof {
        assert(move_target(all, start + 1, end as int) == Ok::<(Option<Seq<char>>, int), Seq<char>>(
            (opt_text(move_to), index as int),
        ));
    }
    let mut segments: Vec<UpdateSegment> = Vec::new();
    let mut current = new_segment();
    let mut changed: bool = false;
    let ghost first = index as int;
    let ghost initial = UpdateBody {
        segments: Seq::empty(),
        current: empty_segment(),
        changed: false,
    };
    proof {
        assert(body_state(segments@, current, changed) =~= initial);
    }
    let ghost whole = update_body(all, first, end as int, initial);
    while index < end && !is_operation_header(lines[index].as_str())
        invariant_except_break
            update_body(all, index as int, end as int, body_state(segments@, current, changed))
                == whole,
        invariant
            start < index <= end <= lines@.len(),
            all == texts(lines@),
            whole == update_body(all, first, end as int, initial),
            initial == (UpdateBody {
                segments: Seq::empty(),
                current: empty_segment(),
                changed: false,
            }),
            header_path(rest@) == Ok::<Seq<char>, Seq<char>>(path@),
            move_target(all, start + 1, end as int) == Ok::<(Option<Seq<char>>, int), Seq<char>>(
                (opt_text(move_to), first),
            ),
        ensures
            whole == Ok::<(UpdateBody, int), Seq<char>>(
                (body_state(segments@, current, changed), index as int),
            ),
        decreases end - index,
    {
        let line = lines[index].as_str();
        proof {
            assert(all[index as int] == line@);
        }
        if str_eq(line, END_OF_FILE) {
            if index + 1 < end && !is_operation_header(lines[index + 1].as_str()) {
                proof {
                    assert(all[index + 1] == lines@[index + 1]@);
                }
                return Err(refuse("'*** End of File' must end the Update File body."));
            }
            let ghost was = body_state(segments@, current, changed);
            current.eof = true;
            proof {
                assert(body_state(segments@, current, changed) =~= (UpdateBody {
                    current: SegmentView { eof: true, ..was.current },
                    ..was
                }));
            }
            index += 1;
            break;
        }
        if str_eq(line, CHANGE_CONTEXT) || has_prefix(line, "@@ ") {
            read_context_line(&mut segments, &mut current, line);
            index += 1;
            continue;
        }
        if !current.started {
            return Err(refuse("Update File hunk must start with '@@'."));
        }
        if !read_change_line(&mut current, line) {
            return Err(refuse("Update File lines must start with ' ', '-', '+', or '@@'."));
        }
        changed = true;
        index += 1;
    }
    let ghost body = body_state(segments@, current, changed);
    if current.started || current.anchors.len() > 0 || current.old_lines.len() > 0
        || current.new_lines.len() > 0 || current.eof {
        let ghost before = segments@;
        let ghost last = current@;
        segments.push(current);
        proof {
            assert(segment_views(segments@) =~= segment_views(before).push(last));
        }
    }
    proof {
        assert(segment_views(segments@) == body_segments(body));
    }
    if !changed {
        return Err(FileEditError(cat2("Update File body has no change lines: ", path.as_str())));
    }
    Ok((UpdateFile { path, move_to, segments }, index))
}

/// Reads a patch text into its operations, in order.
pub fn parse_patch(patch: &str) -> (r: Result<Vec<Operation>, FileEditError>)
    ensures
        parsed(r) == patch_of(patch@),
{
    let lines = lines(trim(patch));
    let ghost all = texts(lines@);
    if lines.len() < 2 || !str_eq(trim(lines[0].as_str()), BEGIN_PATCH) {
        proof {
            assert(all.len() == lines@.len());
        }
        return Err(refuse("The first line of the patch must be '*** Begin Patch'."));
    }
    let end: usize = lines.len() - 1;
    if !str_eq(trim(lines[end].as_str()), END_PATCH) {
        return Err(refuse("The last line of the patch must be '*** End Patch'."));
    }
    let mut operations: Vec<Operation> = Vec::new();
    let mut index: usize = 1;
    proof {
        assert(operation_views(operations@) =~= Seq::empty());
    }
    while index < end
        invariant
            1 <= index <= end,
            end == lines@.len() - 1,
            all == texts(lines@),
            operations_from(all, index as int, end as int, operation_views(operations@))
                == operations_from(all, 1, end as int, Seq::empty()),
            patch_of(patch@) == operations_from(all, 1, end as int, Seq::empty()),
        decreases end - index,
    {
        let line = lines[index].as_str();
        let ghost before = operations@;
        proof {
            assert(all[index as int] == line@);
        }
        if let Some(rest) = strip_prefix(line, ADD_FILE) {
            match parse_add_file(&lines, index, end, rest) {
                Ok((op, next)) => {
                    operations.push(Operation::Add(op));
                    proof {
                        assert(operation_views(operations@) =~= operation_views(before).push(Operation::Add(op)@));
                    }
                    index = next;
                },
                Err(e) => return Err(e),
            }
        } else if let Some(rest) = strip_prefix(line, DELETE_FILE) {
            match non_empty_path(rest) {
                Ok(path) => {
                    let op = DeleteFile { path };
                    operations.push(Operation::Delete(op));
                    proof {
                        assert(operation_views(operations@) =~= operation_views(before).push(Operation::Delete(op)@));
                    }
                    index += 1;
                },
                Err(e) => return Err(e),
            }
        } else if let Some(rest) = strip_prefix(line, UPDATE_FILE) {
            match parse_update_file(&lines, index, end, rest) {
                Ok((op, next)) => {
                    operations.push(Operation::Update(op));
                    proof {
                        assert(operation_views(operations@) =~= operation_views(before).push(Operation::Update(op)@));
                    }
                    index = next;
                },
                Err(e) => return Err(e),
            }
        } else if is_blank_text(line) {
            index += 1;
        } else {
            return Err(FileEditError(cat2("Invalid operation header: ", line)));
        }
    }
    if operations.len() == 0 {
        return Err(refuse("Patch must contain at least one operation."));
    }
    Ok(operations)
}

/// Whether the lines from `i` on begin with `needle`.
pub open spec fn matches_at(lines: Seq<Seq<char>>, needle: Seq<Seq<char>>, i: int) -> bool {
    0 <= i && i + needle.len() <= lines.len() && lines.subrange(i, i + needle.len()) == needle
}

/// The first place from `i` on where `needle` stands.
pub open spec fn next_match(lines: Seq<Seq<char>>, needle: Seq<Seq<char>>, i: int) -> Option<int>
    decreases lines.len() + 1 - i,
{
    if i > lines.len() {
        None
    } else if matches_at(lines, needle, i) {
        Some(i)
    } else {
        next_match(lines, needle, i + 1)
    }
}

/// Where an anchor stands, at or behind `start`: it must stand there once.
pub open spec fn anchor_at(lines: Seq<Seq<char>>, anchor: Seq<char>, start: int) -> Result<
    int,
    Seq<char>,
> {
    match next_match(lines, seq![anchor], start) {
        None => Err("Anchor not found: "@ + anchor),
        Some(i) => if next_match(lines, seq![anchor], i + 1) is Some {
            Err("Anchor is not unique after current position: "@ + anchor)
        } else {
            Ok(i)
        },
    }
}

/// The place behind the last of `anchors`, looked for one behind the other.
pub open spec fn behind_anchors(
    lines: Seq<Seq<char>>,
    anchors: Seq<Seq<char>>,
    k: int,
    cursor: int,
) -> Result<int, Seq<char>>
    decreases anchors.len() - k,
{
    if k < 0 || k >= anchors.len() {
        Ok(cursor)
    } else {
        match anchor_at(lines, anchors[k], cursor) {
            Err(e) => Err(e),
            Ok(i) => behind_anchors(lines, anchors, k + 1, i + 1),
        }
    }
}

/// Where the old lines of a hunk stand, at or behind `cursor`.
pub open spec fn target_at(lines: Seq<Seq<char>>, seg: SegmentView, cursor: int) -> Result<
    int,
    Seq<char>,
> {
    let old_lines = seg.old_lines;
    if seg.eof {
        if old_lines.len() <= lines.len() && matches_at(
            lines,
            old_lines,
            lines.len() - old_lines.len(),
        ) {
            Ok(lines.len() - old_lines.len())
        } else {
            Err("End-of-file update target not found."@)
        }
    } else if old_lines.len() == 0 {
        Ok(cursor)
    } else {
        match next_match(lines, old_lines, cursor) {
            None => Err("Update target not found."@),
            Some(i) => if seg.anchors.len() == 0 && next_match(lines, old_lines, i + 1) is Some {
                Err("Update target is not unique."@)
            } else {
                Ok(i)
            },
        }
    }
}

/// `lines` with the `n` lines at `i` replaced.
pub open spec fn replace_lines(
    lines: Seq<Seq<char>>,
    i: int,
    n: int,
    new_lines: Seq<Seq<char>>,
) -> Seq<Seq<char>> {
    lines.take(i) + new_lines + lines.skip(i + n)
}

/// The lines after the hunks from the `k`-th on, each looked for behind the
/// one before.
pub open spec fn apply_from(
    lines: Seq<Seq<char>>,
    segments: Seq<SegmentView>,
    k: int,
    cursor: int,
) -> Result<Seq<Seq<char>>, Seq<char>>
    decreases segments.len() - k,
{
    if k < 0 || k >= segments.len() {
        Ok(lines)
    } else {
        let seg = segments[k];
        match behind_anchors(lines, seg.anchors, 0, cursor) {
            Err(e) => Err(e),
            Ok(from) => match target_at(lines, seg, from) {
                Err(e) => Err(e),
                Ok(i) => apply_from(
                    replace_lines(lines, i, seg.old_lines.len() as int, seg.new_lines),
                    segments,
                    k + 1,
                    i + seg.new_lines.len(),
                ),
            },
        }
    }
}

/// A text made of `lines`, ended by a line feed where `trailing` says so.
pub open spec fn text_of_lines(lines: Seq<Seq<char>>, trailing: bool) -> Seq<char> {
    if trailing {
        join_of(lines, "\n"@) + "\n"@
    } else {
        join_of(lines, "\n"@)
    }
}

/// What the hunks make of a text, or why they do not fit it.
pub open spec fn updated_text(content: Seq<char>, segments: Seq<SegmentView>) -> Result<
    Seq<char>,
    Seq<char>,
> {
    match apply_from(lines_of(content), segments, 0, 0) {
        Err(e) => Err(e),
        Ok(lines) => Ok(text_of_lines(lines, ends_with(content, "\n"@))),
    }
}

pub(crate) proof fn lemma_next_match(lines: Seq<Seq<char>>, needle: Seq<Seq<char>>, i: int)
    requires
        0 <= i,
    ensures
        match next_match(lines, needle, i) {
            Some(j) => i <= j && matches_at(lines, needle, j) && forall|k: int|
                i <= k < j ==> !#[trigger] matches_at(lines, needle, k),
            None => forall|k: int| i <= k ==> !#[trigger] matches_at(lines, needle, k),
        },
    decreases lines.len() + 1 - i,
{
    if i <= lines.len() && !matches_at(lines, needle, i) {
        lemma_next_match(lines, needle, i + 1);
    }
}

fn stands_at(lines: &Vec<String>, needle: &Vec<String>, at: usize) -> (r: bool)
    ensures
        r == matches_at(texts(lines@), texts(needle@), at as int),
{
    let n: usize = needle.len();
    let ghost all = texts(lines@);
    let ghost want = texts(needle@);
    let total: usize = lines.len();
    if at > total || n > total - at {
        return false;
    }
    let mut k: usize = 0;
    while k < n
        invariant
            k <= n == needle@.len(),
            at + n <= total == lines@.len(),
            all == texts(lines@),
            want == texts(needle@),
            forall|j: int| 0 <= j < k ==> all[at + j] == want[j],
        decreases n - k,
    {
        if !str_eq(lines[at + k].as_str(), needle[k].as_str()) {
            proof {
                assert(all[at + k] != want[k as int]);
                assert(all.subrange(at as int, at + n)[k as int] != want[k as int]);
            }
            return false;
        }
        k += 1;
    }
    proof {
        assert(all.subrange(at as int, at + n) =~= want);
    }
    true
}

fn find_next(lines: &Vec<String>, needle: &Vec<String>, start: usize) -> (r: Option<usize>)
    ensures
        match r {
            Some(i) => next_match(texts(lines@), texts(needle@), start as int) == Some(i as int),
            None => next_match(texts(lines@), texts(needle@), start as int) is None,
        },
{
    if start > lines.len() {
        return None;
    }
    let mut i: usize = start;
    while i < lines.len()
        invariant
            i <= lines@.len(),
            next_match(texts(lines@), texts(needle@), i as int) == next_match(
                texts(lines@),
                texts(needle@),
                start as int,
            ),
        decreases lines@.len() - i,
    {
        if stands_at(lines, needle, i) {
            return Some(i);
        }
        i += 1;
    }
    proof {
        assert(next_match(texts(lines@), texts(needle@), i + 1) is None);
    }
    if stands_at(lines, needle, i) {
        Some(i)
    } else {
        None
    }
}

fn find_single_line(lines: &Vec<String>, needle: &str, start: usize) -> (r: Result<
    usize,
    FileEditError,
>)
    ensures
        match r {
            Ok(i) => start <= i < lines@.len() && anchor_at(texts(lines@), needle@, start as int) == Ok::<
                int,
                Seq<char>,
            >(i as int),
            Err(e) => anchor_at(texts(lines@), needle@, start as int) == Err::<int, Seq<char>>(
                e.0@,
            ),
        },
{
    let mut want: Vec<String> = Vec::new();
    want.push(needle.to_owned());
    proof {
        assert(lines.len() == lines@.len());
        assert(texts(want@) =~= seq![needle@]);
        lemma_next_match(texts(lines@), seq![needle@], start as int);
    }
    match find_next(lines, &want, start) {
        None => Err(FileEditError(cat2("Anchor not found: ", needle))),
        Some(i) => {
            if find_next(lines, &want, i + 1).is_some() {
                Err(FileEditError(cat2("Anchor is not unique after current position: ", needle)))
            } else {
                Ok(i)
            }
        },
    }
}

fn find_sequence(lines: &Vec<String>, needle: &Vec<String>, start: usize, require_unique: bool) -> (r:
    Result<usize, FileEditError>)
    requires
        needle@.len() > 0,
    ensures
        ({
            let all = texts(lines@);
            let want = texts(needle@);
            match next_match(all, want, start as int) {
                None => r matches Err(e) && e.0@ == "Update target not found."@,
                Some(i) => if require_unique && next_match(all, want, i + 1) is Some {
                    r matches Err(e) && e.0@ == "Update target is not unique."@
                } else {
                    r matches Ok(at) && at == i && i + needle@.len() <= lines@.len()
                },
            }
        }),
{
    proof {
        assert(lines.len() == lines@.len());
        lemma_next_match(texts(lines@), texts(needle@), start as int);
    }
    match find_next(lines, needle, start) {
        None => Err(refuse("Update target not found.")),
        Some(i) => {
            if require_unique && find_next(lines, needle, i + 1).is_some() {
                Err(refuse("Update target is not unique."))
            } else {
                Ok(i)
            }
        },
    }
}

fn find_at_eof(lines: &Vec<String>, needle: &Vec<String>) -> (r: Result<usize, FileEditError>)
    ensures
        ({
            let all = texts(lines@);
            let want = texts(needle@);
            if want.len() <= all.len() && matches_at(all, want, all.len() - want.len()) {
                r matches Ok(at) && at == all.len() - want.len()
            } else {
                r matches Err(e) && e.0@ == "End-of-file update target not found."@
            }
        }),
{
    if lines.len() < needle.len() || !stands_at(lines, needle, lines.len() - needle.len()) {
        Err(refuse("End-of-file update target not found."))
    } else {
        Ok(lines.len() - needle.len())
    }
}

fn find_target(lines: &Vec<String>, seg: &UpdateSegment, cursor: usize) -> (r: Result<
    usize,
    FileEditError,
>)
    requires
        cursor <= lines@.len(),
    ensures
        match r {
            Ok(i) => i + seg.old_lines@.len() <= lines@.len() && target_at(
                texts(lines@),
                seg@,
                cursor as int,
            ) == Ok::<int, Seq<char>>(i as int),
            Err(e) => target_at(texts(lines@), seg@, cursor as int) == Err::<int, Seq<char>>(e.0@),
        },
{
    if seg.eof {
        find_at_eof(lines, &seg.old_lines)
    } else if seg.old_lines.len() > 0 {
        find_sequence(lines, &seg.old_lines, cursor, seg.anchors.len() == 0)
    } else {
        Ok(cursor)
    }
}

fn pass_anchors(lines: &Vec<String>, anchors: &Vec<String>, start: usize) -> (r: Result<
    usize,
    FileEditError,
>)
    requires
        start <= lines@.len(),
    ensures
        match r {
            Ok(i) => i <= lines@.len() && behind_anchors(
                texts(lines@),
                texts(anchors@),
                0,
                start as int,
            ) == Ok::<int, Seq<char>>(i as int),
            Err(e) => behind_anchors(texts(lines@), texts(anchors@), 0, start as int) == Err::<
                int,
                Seq<char>,
            >(e.0@),
        },
{
    let mut cursor: usize = start;
    let mut k: usize = 0;
    while k < anchors.len()
        invariant
                k <= anchors@.len(),
            cursor <= lines@.len(),
            behind_anchors(texts(lines@), texts(anchors@), k as int, cursor as int)
                == behind_anchors(texts(lines@), texts(anchors@), 0, start as int),
        decreases anchors@.len() - k,
    {
        match find_single_line(lines, anchors[k].as_str(), cursor) {
            Ok(i) => {
                proof {
                    assert(lines.len() == lines@.len());
                }
                cursor = i + 1;
            },
            Err(e) => return Err(e),
        }
        k += 1;
    }
    Ok(cursor)
}

fn splice(lines: &mut Vec<String>, at: usize, n: usize, new_lines: &Vec<String>)
    requires
        at + n <= old(lines)@.len(),
    ensures
        texts(final(lines)@) == replace_lines(
            texts(old(lines)@),
            at as int,
            n as int,
            texts(new_lines@),
        ),
{
    let ghost before = lines@;
    proof {
        assert(lines.len() == lines@.len());
    }
    let mut tail_lines = lines.split_off(at + n);
    lines.truncate(at);
    let mut fresh = clone_strings(new_lines);
    let ghost added = fresh@;
    let ghost rest = tail_lines@;
    lines.append(&mut fresh);
    lines.append(&mut tail_lines);
    proof {
        assert(lines@ =~= before.take(at as int) + added + rest);
        assert(rest =~= before.skip(at + n));
        assert(texts(lines@) =~= texts(before).take(at as int) + texts(added) + texts(before).skip(
            at + n,
        ));
    }
}

/// Applies the hunks of an update to the text of a file.
pub fn apply_update_segments(content: &str, segments: &Vec<UpdateSegment>) -> (r: Result<
    String,
    FileEditError,
>)
    ensures
        match r {
            Ok(text) => updated_text(content@, segment_views(segments@)) == Ok::<
                Seq<char>,
                Seq<char>,
            >(text@),
            Err(e) => updated_text(content@, segment_views(segments@)) == Err::<
                Seq<char>,
                Seq<char>,
            >(e.0@),
        },
{
    let mut file = lines(content);
    let trailing = has_suffix(content, "\n");
    let ghost segs = segment_views(segments@);
    let ghost whole = apply_from(texts(file@), segs, 0, 0);
    let mut cursor: usize = 0;
    let mut k: usize = 0;
    while k < segments.len()
        invariant
            k <= segments@.len(),
            segs == segment_views(segments@),
            cursor <= file@.len(),
            apply_from(texts(file@), segs, k as int, cursor as int) == whole,
            whole == apply_from(lines_of(content@), segs, 0, 0),
        decreases segments@.len() - k,
    {
        let seg = &segments[k];
        proof {
            assert(segs[k as int] == seg@);
        }
        let from = match pass_anchors(&file, &seg.anchors, cursor) {
            Ok(i) => i,
            Err(e) => return Err(e),
        };
        let at = match find_target(&file, seg, from) {
            Ok(i) => i,
            Err(e) => return Err(e),
        };
        let ghost before = file@;
        splice(&mut file, at, seg.old_lines.len(), &seg.new_lines);
        proof {
            assert(texts(file@).len() == file@.len());
            assert(texts(before).len() == before.len());
        }
        proof {
            assert(file.len() == file@.len());
        }
        cursor = at + seg.new_lines.len();
        k += 1;
    }
    let mut joined = join(&file, "\n");
    if trailing {
        joined.append("\n");
    }
    Ok(joined)
}

/// The bytes that mark a file as UTF-8.
pub open spec fn utf8_mark() -> Seq<u8> {
    seq![0xEFu8, 0xBBu8, 0xBFu8]
}

/// The bytes of a file that holds `content`: the mark, then the text.
pub open spec fn encoded_file(content: Seq<char>) -> Seq<u8> {
    utf8_mark() + encode_utf8(content)
}

/// `bytes` without one leading mark.
pub open spec fn without_mark(bytes: Seq<u8>) -> Seq<u8> {
    if bytes.len() >= 3 && bytes.take(3) == utf8_mark() {
        bytes.skip(3)
    } else {
        bytes
    }
}

/// The text that the bytes of a file hold, where they are UTF-8.
pub open spec fn decoded_file(bytes: Seq<u8>) -> Option<Seq<char>> {
    if valid_utf8(without_mark(bytes)) {
        Some(decode_utf8(without_mark(bytes)))
    } else {
        None
    }
}

/// `String::from_utf8` gives the text that the bytes encode, where they are
/// valid UTF-8, and an error where they are not.
#[verifier::external_body]
pub(crate) fn utf8_text(bytes: &Vec<u8>) -> (r: Option<String>)
    ensures
        opt_text(r) == (if valid_utf8(bytes@) {
            Some(decode_utf8(bytes@))
        } else {
            None
        }),
{
    String::from_utf8(bytes.clone()).ok()
}

/// The bytes to store for a text.
pub fn encode_file(content: &str) -> (r: Vec<u8>)
    ensures
        r@ == encoded_file(content@),
{
    let mut out: Vec<u8> = Vec::new();
    out.push(0xEF);
    out.push(0xBB);
    out.push(0xBF);
    let mut body = content.as_bytes_vec();
    out.append(&mut body);
    proof {
        assert(out@ =~= encoded_file(content@));
    }
    out
}

/// The text of a stored file; `display` names the file in the error.
pub fn decode_file(bytes: &Vec<u8>, display: &str) -> (r: Result<String, FileEditError>)
    ensures
        match decoded_file(bytes@) {
            Some(text) => r matches Ok(t) && t@ == text,
            None => r matches Err(e) && e.0@ == "File is not UTF-8: "@ + display@,
        },
{
    let marked = bytes.len() >= 3 && bytes[0] == 0xEF && bytes[1] == 0xBB && bytes[2] == 0xBF;
    let mut body: Vec<u8> = Vec::new();
    let mut i: usize = if marked { 3 } else { 0 };
    let ghost from = i as int;
    proof {
        if bytes@.len() >= 3 {
            if marked {
                assert(bytes@.take(3) =~= utf8_mark());
            } else if bytes@.take(3) == utf8_mark() {
                assert(bytes@.take(3)[0] == 0xEFu8);
                assert(bytes@.take(3)[1] == 0xBBu8);
                assert(bytes@.take(3)[2] == 0xBFu8);
            }
        }
        assert(bytes@.skip(0) =~= bytes@);
        assert(without_mark(bytes@) == bytes@.skip(from));
    }
    while i < bytes.len()
        invariant
            from <= i <= bytes@.len(),
            0 <= from,
            body@ == bytes@.subrange(from, i as int),
        decreases bytes@.len() - i,
    {
        body.push(bytes[i]);
        proof {
            assert(bytes@.subrange(from, i + 1) =~= bytes@.subrange(from, i as int).push(bytes@[i as int]));
        }
        i += 1;
    }
    proof {
        assert(body@ =~= bytes@.skip(from));
    }
    match utf8_text(&body) {
        Some(text) => Ok(text),
        None => Err(FileEditError(cat2("File is not UTF-8: ", display))),
    }
}

/// The bytes of the file that an `Add File` operation creates.
pub fn added_file(op: &AddFile) -> (r: Vec<u8>)
    ensures
        r@ == encoded_file(join_of(texts(op.lines@), "\n"@) + "\n"@),
{
    let mut content = join(&op.lines, "\n");
    content.append("\n");
    encode_file(content.as_str())
}

/// Whether a `Delete File` operation may remove its file; `is_file` says
/// whether there is one.
pub fn check_delete(op: &DeleteFile, is_file: bool) -> (r: Result<(), FileEditError>)
    ensures
        match r {
            Ok(()) => is_file,
            Err(e) => !is_file && e.0@ == "File to delete does not exist: "@ + op.path@,
        },
{
    if is_file {
        Ok(())
    } else {
        Err(FileEditError(cat2("File to delete does not exist: ", op.path.as_str())))
    }
}

/// What an `Update File` operation makes of the file that it names.
pub open spec fn updated_file_of(op: OperationView, file: Option<Seq<u8>>, display: Seq<char>) -> Result<
    Seq<u8>,
    Seq<char>,
> {
    match op {
        OperationView::Update { path, move_to, segments } => match file {
            None => Err("File to update does not exist: "@ + path),
            Some(bytes) => match decoded_file(bytes) {
                None => Err("File is not UTF-8: "@ + display),
                Some(content) => match updated_text(content, segments) {
                    Err(e) => Err(e),
                    Ok(text) => Ok(encoded_file(text)),
                },
            },
        },
        _ => Err(Seq::empty()),
    }
}

/// The bytes to store for an updated file. `file` holds its bytes, where it
/// exists; `display` names it in an error.
pub fn updated_file(op: &UpdateFile, file: Option<&Vec<u8>>, display: &str) -> (r: Result<
    Vec<u8>,
    FileEditError,
>)
    ensures
        ({
            let bytes = match file {
                Some(b) => Some(b@),
                None => None,
            };
            match updated_file_of(Operation::Update(*op)@, bytes, display@) {
                Ok(b) => r matches Ok(out) && out@ == b,
                Err(e) => r matches Err(error) && error.0@ == e,
            }
        }),
{
    match file {
        None => Err(FileEditError(cat2("File to update does not exist: ", op.path.as_str()))),
        Some(bytes) => match decode_file(bytes, display) {
            Err(e) => Err(e),
            Ok(content) => match apply_update_segments(content.as_str(), &op.segments) {
                Err(e) => Err(e),
                Ok(text) => Ok(encode_file(text.as_str())),
            },
        },
    }
}

/// The files that a patch touched, by their displayed paths.
#[derive(Debug)]
pub struct EditReport {
    pub added: Vec<String>,
    pub modified: Vec<String>,
    pub deleted: Vec<String>,
}

/// A list of displayed paths.
pub open spec fn path_list(paths: Seq<String>) -> Jv {
    Jv::Array(texts(paths).map_values(|s: Seq<char>| Jv::Text(s)))
}

impl EditReport {
    /// A report of no change.
    pub fn new() -> (r: Self)
        ensures
            r.added@.len() == 0,
            r.modified@.len() == 0,
            r.deleted@.len() == 0,
    {
        EditReport { added: Vec::new(), modified: Vec::new(), deleted: Vec::new() }
    }

    /// What is told of an edit that was carried out.
    pub fn to_json(&self) -> (r: Json)
        ensures
            r@ == Jv::Object(
                Map::<Seq<char>, Jv>::empty().insert(
                    "status"@,
                    Jv::Text("completed_success"@),
                ).insert("done"@, Jv::Bool(true)).insert("added"@, path_list(self.added@)).insert(
                    "modified"@,
                    path_list(self.modified@),
                ).insert("deleted"@, path_list(self.deleted@)),
            ),
    {
        let mut m = no_members();
        put_text(&mut m, "status", "completed_success");
        put(&mut m, "done", Json::Bool(true));
        put(&mut m, "added", text_list(&self.added));
        put(&mut m, "modified", text_list(&self.modified));
        put(&mut m, "deleted", text_list(&self.deleted));
        Json::Object(m)
    }

    /// Records an operation that was carried out on the file displayed as
    /// `source`, which was moved to `dest` where the operation says so.
    pub fn record(&mut self, op: &Operation, source: &str, dest: &str)
        ensures
            match op@ {
                OperationView::Add { .. } => {
                    &&& texts(final(self).added@) == texts(old(self).added@).push(source@)
                    &&& final(self).modified == old(self).modified
                    &&& final(self).deleted == old(self).deleted
                },
                OperationView::Delete { .. } => {
                    &&& final(self).added == old(self).added
                    &&& final(self).modified == old(self).modified
                    &&& texts(final(self).deleted@) == texts(old(self).deleted@).push(source@)
                },
                OperationView::Update { move_to: Some(_), .. } => {
                    &&& final(self).added == old(self).added
                    &&& texts(final(self).modified@) == texts(old(self).modified@).push(dest@)
                    &&& texts(final(self).deleted@) == texts(old(self).deleted@).push(source@)
                },
                OperationView::Update { move_to: None, .. } => {
                    &&& final(self).added == old(self).added
                    &&& texts(final(self).modified@) == texts(old(self).modified@).push(source@)
                    &&& final(self).deleted == old(self).deleted
                },
            },
    {
        let ghost added = self.added@;
        let ghost modified = self.modified@;
        let ghost deleted = self.deleted@;
        match op {
            Operation::Add(_) => {
                let s = source.to_owned();
                self.added.push(s);
                proof {
                    lemma_texts_push(added, s);
                }
            },
            Operation::Delete(_) => {
                let s = source.to_owned();
                self.deleted.push(s);
                proof {
                    lemma_texts_push(deleted, s);
                }
            },
            Operation::Update(update) => {
                if update.move_to.is_some() {
                    let d = dest.to_owned();
                    self.modified.push(d);
                    let s = source.to_owned();
                    self.deleted.push(s);
                    proof {
                        lemma_texts_push(modified, d);
                        lemma_texts_push(deleted, s);
                    }
                } else {
                    let s = source.to_owned();
                    self.modified.push(s);
                    proof {
                        lemma_texts_push(modified, s);
                    }
                }
            },
        }
    }
}

/// The first `n` components with `.` left out and `..` taken back: a `..`
/// removes the name before it, and nothing where there is none.
pub open spec fn lexical(parts: Seq<PartView>, n: int) -> Seq<PartView>
    decreases n,
{
    if n <= 0 || n > parts.len() {
        Seq::empty()
    } else {
        let before = lexical(parts, n - 1);
        match parts[n - 1] {
            PartView::Current => before,
            PartView::Parent => if before.len() > 0 && before.last() is Name {
                before.drop_last()
            } else {
                before
            },
            other => before.push(other),
        }
    }
}

/// Resolves `.` and `..` by the text of a path alone.
pub fn lexical_resolve(parts: Vec<PathPart>) -> (r: Vec<PathPart>)
    ensures
        part_views(r@) == lexical(part_views(parts@), parts@.len() as int),
{
    let ghost all = part_views(parts@);
    let mut out: Vec<PathPart> = Vec::new();
    let mut i: usize = 0;
    proof {
        assert(part_views(out@) =~= Seq::empty());
    }
    while i < parts.len()
        invariant
            i <= parts@.len(),
            all == part_views(parts@),
            part_views(out@) == lexical(all, i as int),
        decreases parts@.len() - i,
    {
        let ghost before = out@;
        proof {
            assert(all[i as int] == parts@[i as int]@);
            assert(part_views(before).len() == before.len());
            if before.len() > 0 {
                assert(part_views(before).last() == before.last()@);
                assert(part_views(before).drop_last() =~= part_views(before.drop_last()));
            }
        }
        match &parts[i] {
            PathPart::Current => {},
            PathPart::Parent => {
                let named = out.len() > 0 && matches!(&out[out.len() - 1], PathPart::Name(_));
                if named {
                    out.pop();
                    proof {
                        assert(out@ =~= before.drop_last());
                    }
                }
            },
            PathPart::Root => {
                out.push(PathPart::Root);
                proof {
                    assert(part_views(out@) =~= part_views(before).push(PartView::Root));
                }
            },
            PathPart::Prefix(s) => {
                let copy = s.clone();
                out.push(PathPart::Prefix(copy));
                proof {
                    assert(part_views(out@) =~= part_views(before).push(PartView::Prefix(s@)));
                }
            },
            PathPart::Name(s) => {
                let copy = s.clone();
                out.push(PathPart::Name(copy));
                proof {
                    assert(part_views(out@) =~= part_views(before).push(PartView::Name(s@)));
                }
            },
        }
        i += 1;
    }
    out
}

/// A path with `.` and `..` taken out of it.
pub open spec fn lexical_path_of(path: Seq<char>, windows: bool) -> Seq<char> {
    let v = laid_out(path, windows);
    let parts = lexical(v.parts, v.parts.len() as int);
    written_path(v, parts, parts.len() as int, windows)
}

/// Takes `.` and `..` out of a path, by its text alone.
pub fn lexical_path(path: &str, windows: bool) -> (r: String)
    ensures
        r@ == lexical_path_of(path@, windows),
{
    let v = layout(path, windows);
    let ghost whole = v@;
    let parts = lexical_resolve(v.parts);
    proof {
        let shown = part_views(parts@);
        assert(shown.len() == parts@.len());
        assert(whole.parts.len() == part_views(v.parts@).len());
        let used = LayoutView { parts: shown, ..whole };
        lemma_written_path(whole, used, shown, shown.len() as int, windows);
    }
    write_path(&v.volume, v.lead.as_str(), &parts, windows)
}

/// `path` with forward slashes.
pub open spec fn forward_slashes(path: Seq<char>) -> Seq<char> {
    path.map_values(|c: char| if c == '\\' { '/' } else { c })
}

/// How a path is displayed: relative to the workspace where it lies in it.
pub fn relative_display(relative: Option<&str>, path: &str) -> (r: String)
    ensures
        r@ == forward_slashes(match relative {
            Some(rel) => rel@,
            None => path@,
        }),
{
    let shown = match relative {
        Some(rel) => rel,
        None => path,
    };
    let v = chars_of(shown);
    let mut out = String::new();
    let mut i: usize = 0;
    while i < v.len()
        invariant
            i <= v@.len(),
            out@ == forward_slashes(v@.take(i as int)),
        decreases v@.len() - i,
    {
        out.push(if v[i] == '\\' { '/' } else { v[i] });
        proof {
            assert(forward_slashes(v@.take(i + 1)) =~= forward_slashes(v@.take(i as int)).push(
                if v@[i as int] == '\\' { '/' } else { v@[i as int] },
            ));
        }
        i += 1;
    }
    proof {
        assert(v@.take(v@.len() as int) =~= v@);
    }
    out
}

/// A stored text reads back as it was: one mark is written and one is taken
/// off, also where the text itself begins with the mark.
pub proof fn law_stored_text_reads_back(content: Seq<char>)
    ensures
        decoded_file(encoded_file(content)) == Some(content),
{
    let bytes = encoded_file(content);
    assert(bytes.take(3) =~= utf8_mark());
    assert(bytes.skip(3) =~= encode_utf8(content));
    vstd::utf8::encode_utf8_valid_utf8(content);
    vstd::utf8::encode_utf8_decode_utf8(content);
}

/// A resolved path holds neither `.` nor `..`.
pub proof fn law_resolved_path_has_no_dots(parts: Seq<PartView>, n: int)
    requires
        0 <= n <= parts.len(),
    ensures
        forall|i: int|
            0 <= i < lexical(parts, n).len() ==> !(#[trigger] lexical(parts, n)[i] is Current)
                && !(lexical(parts, n)[i] is Parent),
    decreases n,
{
    if n > 0 {
        law_resolved_path_has_no_dots(parts, n - 1);
    }
}

/// Whether a text is a path as a header names it: something, without white
/// space around it.
pub open spec fn is_header_path(path: Seq<char>) -> bool {
    path.len() > 0 && path == trim_of(path)
}

/// Whether a hunk holds a line.
pub open spec fn holds_line(seg: SegmentView) -> bool {
    seg.old_lines.len() > 0 || seg.new_lines.len() > 0
}

/// Whether one of the hunks holds a line.
pub open spec fn some_line(segments: Seq<SegmentView>) -> bool {
    exists|k: int| 0 <= k < segments.len() && holds_line(#[trigger] segments[k])
}

/// Whether an operation names a file and says something about it.
pub open spec fn operation_says_something(op: OperationView) -> bool {
    match op {
        OperationView::Add { path, lines } => is_header_path(path) && lines.len() > 0,
        OperationView::Delete { path } => is_header_path(path),
        OperationView::Update { path, move_to, segments } => {
            &&& is_header_path(path)
            &&& some_line(segments)
            &&& move_to matches Some(dest) ==> is_header_path(dest)
        },
    }
}

proof fn lemma_some_line_push(segments: Seq<SegmentView>, seg: SegmentView)
    ensures
        some_line(segments) || holds_line(seg) ==> some_line(segments.push(seg)),
{
    let longer = segments.push(seg);
    if holds_line(seg) {
        assert(longer[segments.len() as int] == seg);
    } else if some_line(segments) {
        let k = choose|k: int| 0 <= k < segments.len() && holds_line(#[trigger] segments[k]);
        assert(longer[k] == segments[k]);
    }
}

proof fn lemma_update_body(lines: Seq<Seq<char>>, i: int, end: int, body: UpdateBody)
    requires
        body.changed ==> some_line(body.segments) || holds_line(body.current),
    ensures
        update_body(lines, i, end, body) matches Ok((done, _)) ==> (done.changed ==> some_line(
            done.segments,
        ) || holds_line(done.current)),
    decreases end - i,
{
    if i >= end || operation_header(lines[i]) || lines[i] == END_OF_FILE@ {
    } else if is_context_line(lines[i]) {
        lemma_some_line_push(body.segments, body.current);
        lemma_update_body(lines, i + 1, end, open_hunk(body, lines[i]));
    } else if body.current.started {
        if let Some(next) = change_line(body, lines[i]) {
            lemma_update_body(lines, i + 1, end, next);
        }
    }
}

proof fn lemma_header_path(rest: Seq<char>)
    ensures
        header_path(rest) matches Ok(path) ==> is_header_path(path),
{
    law_trim_is_idempotent(rest);
}

proof fn lemma_operation_at(lines: Seq<Seq<char>>, i: int, end: int)
    ensures
        operation_at(lines, i, end) matches Ok(Some(found)) ==> (found.1 > i
            ==> operation_says_something(found.0)),
{
    let line = lines[i];
    lemma_header_path(line.skip(ADD_FILE@.len() as int));
    lemma_header_path(line.skip(DELETE_FILE@.len() as int));
    lemma_header_path(line.skip(UPDATE_FILE@.len() as int));
    lemma_header_path(lines[i + 1].skip(MOVE_TO@.len() as int));
    if let Ok((_, first)) = move_target(lines, i + 1, end) {
        let start = UpdateBody {
            segments: Seq::empty(),
            current: empty_segment(),
            changed: false,
        };
        lemma_update_body(lines, first, end, start);
        if let Ok((body, _)) = update_body(lines, first, end, start) {
            lemma_some_line_push(body.segments, body.current);
        }
    }
}

/// Whether operations are those that begin at some lines of a patch, each behind
/// the end of the one before.
pub open spec fn come_in_order(
    lines: Seq<Seq<char>>,
    end: int,
    ops: Seq<OperationView>,
    starts: Seq<int>,
) -> bool {
    &&& starts.len() == ops.len()
    &&& forall|k: int|
        0 <= k < ops.len() ==> {
            &&& operation_at(lines, #[trigger] starts[k], end) matches Ok(Some(found))
            &&& found.0 == ops[k]
            &&& 1 <= starts[k] < found.1 <= end
        }
    &&& forall|a: int, b: int|
        0 <= a < b < ops.len() ==> (operation_at(lines, #[trigger] starts[a], end)->Ok_0->Some_0).1
            <= #[trigger] starts[b]
}

/// Whether operations come in the order of their headers.
pub open spec fn have_order(lines: Seq<Seq<char>>, end: int, ops: Seq<OperationView>) -> bool {
    exists|starts: Seq<int>| come_in_order(lines, end, ops, starts)
}

proof fn lemma_operations_from(
    lines: Seq<Seq<char>>,
    i: int,
    end: int,
    done: Seq<OperationView>,
    starts: Seq<int>,
)
    requires
        1 <= i,
        forall|k: int| 0 <= k < done.len() ==> operation_says_something(#[trigger] done[k]),
        come_in_order(lines, end, done, starts),
        forall|k: int|
            0 <= k < done.len() ==> (operation_at(
                lines,
                #[trigger] starts[k],
                end,
            )->Ok_0->Some_0).1 <= i,
    ensures
        operations_from(lines, i, end, done) matches Ok(ops) ==> ops.len() > 0 && forall|k: int|
            0 <= k < ops.len() ==> operation_says_something(#[trigger] ops[k]),
        operations_from(lines, i, end, done) matches Ok(ops) ==> have_order(lines, end, ops),
    decreases end - i,
{
    if i < end {
        match operation_at(lines, i, end) {
            Err(_) => {},
            Ok(None) => lemma_operations_from(lines, i + 1, end, done, starts),
            Ok(Some((op, next))) => {
                if i < next <= end {
                    lemma_operation_at(lines, i, end);
                    let more = done.push(op);
                    let behind = starts.push(i);
                    assert forall|k: int| 0 <= k < more.len() implies {
                        &&& operation_at(lines, #[trigger] behind[k], end) matches Ok(Some(found))
                        &&& found.0 == more[k]
                        &&& 1 <= behind[k] < found.1 <= end
                        &&& found.1 <= next
                    } by {
                        if k < done.len() {
                            assert(behind[k] == starts[k]);
                        }
                    }
                    assert forall|a: int, b: int| 0 <= a < b < more.len() implies (operation_at(
                        lines,
                        #[trigger] behind[a],
                        end,
                    )->Ok_0->Some_0).1 <= #[trigger] behind[b] by {
                        assert(behind[a] == starts[a]);
                        if b < done.len() {
                            assert(behind[b] == starts[b]);
                        }
                    }
                    lemma_operations_from(lines, next, end, more, behind);
                }
            },
        }
    } else {
        assert(come_in_order(lines, end, done, starts));
    }
}

/// A patch that is accepted holds at least one operation. Each names a file,
/// without white space around its path, and says something about it: an added
/// file has a line, an updated one a hunk with a line. The operations come in
/// the order of their headers.
pub proof fn law_accepted_patch_says_something(patch: Seq<char>)
    ensures
        patch_of(patch) matches Ok(ops) ==> ops.len() > 0 && forall|k: int|
            0 <= k < ops.len() ==> operation_says_something(#[trigger] ops[k]),
        ({
            let lines = lines_of(trim_of(patch));
            let end = lines.len() - 1;
            patch_of(patch) matches Ok(ops) ==> have_order(lines, end, ops)
        }),
{
    let lines = lines_of(trim_of(patch));
    let end = lines.len() - 1;
    let none: Seq<int> = Seq::empty();
    assert(come_in_order(lines, end, Seq::empty(), none));
    lemma_operations_from(lines, 1, end, Seq::empty(), none);
}

/// White space around a patch says nothing.
pub proof fn law_patch_reads_like_its_trimmed_form(patch: Seq<char>)
    ensures
        patch_of(trim_of(patch)) == patch_of(patch),
{
    law_trim_is_idempotent(patch);
}

/// A hunk that replaces lines by themselves changes nothing, wherever it fits.
pub proof fn law_context_only_hunks_change_nothing(
    lines: Seq<Seq<char>>,
    segments: Seq<SegmentView>,
    k: int,
    cursor: int,
)
    requires
        0 <= k,
        0 <= cursor <= lines.len(),
        forall|j: int| 0 <= j < segments.len() ==> (#[trigger] segments[j]).old_lines == segments[j].new_lines,
    ensures
        apply_from(lines, segments, k, cursor) matches Ok(out) ==> out == lines,
    decreases segments.len() - k,
{
    if k < segments.len() {
        let seg = segments[k];
        lemma_behind_anchors(lines, seg.anchors, 0, cursor);
        if let Ok(from) = behind_anchors(lines, seg.anchors, 0, cursor) {
            lemma_next_match(lines, seg.old_lines, from);
            if let Ok(i) = target_at(lines, seg, from) {
                let n = seg.old_lines.len() as int;
                if n > 0 || seg.eof {
                    assert(matches_at(lines, seg.old_lines, i));
                }
                assert(replace_lines(lines, i, n, seg.new_lines) =~= lines);
                law_context_only_hunks_change_nothing(lines, segments, k + 1, i + n);
            }
        }
    }
}

pub(crate) proof fn lemma_behind_anchors(
    lines: Seq<Seq<char>>,
    anchors: Seq<Seq<char>>,
    k: int,
    cursor: int,
)
    requires
        0 <= cursor <= lines.len(),
    ensures
        behind_anchors(lines, anchors, k, cursor) matches Ok(i) ==> cursor <= i <= lines.len(),
    decreases anchors.len() - k,
{
    if 0 <= k < anchors.len() {
        lemma_next_match(lines, seq![anchors[k]], cursor);
        if let Ok(i) = anchor_at(lines, anchors[k], cursor) {
            lemma_behind_anchors(lines, anchors, k + 1, i + 1);
        }
    }
}

/// The file is updated by its text: what is stored is the new text of what was stored.
pub proof fn law_stored_file_is_updated_by_its_text(
    path: Seq<char>,
    move_to: Option<Seq<char>>,
    segments: Seq<SegmentView>,
    content: Seq<char>,
    display: Seq<char>,
)
    ensures
        ({
            let op = OperationView::Update { path, move_to, segments };
            &&& updated_file_of(op, Some(encoded_file(content)), display) == match updated_text(
                content,
                segments,
            ) {
                Ok(text) => Ok::<Seq<u8>, Seq<char>>(encoded_file(text)),
                Err(e) => Err(e),
            }
            &&& updated_file_of(op, None, display) is Err
        }),
{
    law_stored_text_reads_back(content);
}

/// A path without dots is the same when it is resolved; a step up takes away the name in
/// front of it.
pub proof fn law_resolving_steps_up(parts: Seq<PartView>, n: int)
    requires
        0 <= n <= parts.len(),
    ensures
        (forall|i: int|
            0 <= i < n ==> (#[trigger] parts[i]) is Name || parts[i] is Root || parts[i] is Prefix)
            ==> lexical(parts, n) == parts.take(n),
        n > 0 && parts[n - 1] is Name ==> lexical(parts, n) == lexical(parts, n - 1).push(
            parts[n - 1],
        ),
        n > 1 && parts[n - 1] is Parent && parts[n - 2] is Name ==> lexical(parts, n) == lexical(
            parts,
            n - 2,
        ),
        n > 0 && parts[n - 1] is Current ==> lexical(parts, n) == lexical(parts, n - 1),
    decreases n,
{
    if n > 0 {
        law_resolving_steps_up(parts, n - 1);
        if forall|i: int|
            0 <= i < n ==> (#[trigger] parts[i]) is Name || parts[i] is Root || parts[i] is Prefix {
            assert(parts.take(n) =~= parts.take(n - 1).push(parts[n - 1]));
            assert(parts[n - 1] is Name || parts[n - 1] is Root || parts[n - 1] is Prefix);
        }
        if n > 1 && parts[n - 1] is Parent && parts[n - 2] is Name {
            assert(lexical(parts, n - 2).push(parts[n - 2]).drop_last() =~= lexical(parts, n - 2));
        }
    } else {
        assert(parts.take(0) =~= Seq::empty());
    }
}

/// A path is shown with slashes, whatever separates it.
pub proof fn law_paths_are_shown_with_slashes(path: Seq<char>, i: int)
    requires
        0 <= i < path.len(),
    ensures
        forward_slashes(path).len() == path.len(),
        path[i] == '\\' ==> forward_slashes(path)[i] == '/',
        path[i] != '\\' ==> forward_slashes(path)[i] == path[i],
{
}

/// A report lists its paths in their order.
pub proof fn law_report_lists_its_paths(paths: Seq<String>, i: int)
    requires
        0 <= i < paths.len(),
    ensures
        path_list(paths) matches Jv::Array(items) && items.len() == paths.len() && items[i]
            == Jv::Text(paths[i]@),
{
}

} // verus!
