//! What patches mean: how a patch that is written down is read, and what its
//! hunks do to the lines of a file.

use crate::file_edit::{
    add_file_at, apply_from, behind_anchors, body_end, body_segments, empty_segment,
    law_context_only_hunks_change_nothing, lemma_behind_anchors, lemma_next_match, matches_at,
    next_match, operation_at, operation_header, operations_from, patch_of, replace_lines, target_at,
    update_body, update_file_at, updated_text, OperationView, SegmentView, UpdateBody,
};
use crate::text::{
    is_blank, join_of, law_lines_spell_the_text, law_parts_are_found, lines_of, starts_with, trim_of,
};
use vstd::prelude::*;

verus! {

/// A line of a hunk: its mark, and the text behind it.
pub ghost struct Change {
    pub mark: char,
    pub text: Seq<char>,
}

/// A hunk as its author means it.
pub ghost struct Hunk {
    pub anchors: Seq<Seq<char>>,
    pub changes: Seq<Change>,
    pub eof: bool,
}

/// The texts of the first `n` lines of a hunk but those with the mark
/// `left_out`.
pub open spec fn side(changes: Seq<Change>, left_out: char, n: int) -> Seq<Seq<char>>
    decreases n,
{
    if n <= 0 || n > changes.len() {
        Seq::empty()
    } else if changes[n - 1].mark == left_out {
        side(changes, left_out, n - 1)
    } else {
        side(changes, left_out, n - 1).push(changes[n - 1].text)
    }
}

/// The lines in which a hunk is written down: its headers, its marked lines, and
/// the note that it ends the file.
pub open spec fn hunk_lines(h: Hunk) -> Seq<Seq<char>> {
    let heads = if h.anchors.len() == 0 {
        seq!["@@"@]
    } else {
        Seq::new(h.anchors.len(), |i: int| "@@ "@ + h.anchors[i])
    };
    let marked = Seq::new(h.changes.len(), |i: int| seq![h.changes[i].mark] + h.changes[i].text);
    let note = if h.eof { seq!["*** End of File"@] } else { Seq::empty() };
    heads + marked + note
}

/// The lines in which the first `n` hunks are written down.
pub open spec fn hunks_lines(hunks: Seq<Hunk>, n: int) -> Seq<Seq<char>>
    decreases n,
{
    if n <= 0 || n > hunks.len() {
        Seq::empty()
    } else {
        hunks_lines(hunks, n - 1) + hunk_lines(hunks[n - 1])
    }
}

/// Whether a line of a hunk can be written down: it has one of the three marks,
/// and does not look like the end of the patch.
pub open spec fn can_stand(c: Change) -> bool {
    &&& c.mark == ' ' || c.mark == '-' || c.mark == '+'
    &&& trim_of(seq![c.mark] + c.text) != "*** End Patch"@
}

/// Whether hunks can be written down: each has a line, no anchor is empty, and
/// only the last may end the file.
pub open spec fn can_be_written(hunks: Seq<Hunk>) -> bool {
    forall|k: int|
        0 <= k < hunks.len() ==> {
            let h = #[trigger] hunks[k];
            &&& h.changes.len() > 0
            &&& h.eof ==> k == hunks.len() - 1
            &&& forall|i: int| 0 <= i < h.changes.len() ==> can_stand(#[trigger] h.changes[i])
            &&& forall|i: int| 0 <= i < h.anchors.len() ==> (#[trigger] h.anchors[i]).len() > 0
        }
}

/// What is read of a hunk: lines with a space or a minus are looked for, lines
/// with a space or a plus take their place.
pub open spec fn hunk_read(h: Hunk) -> SegmentView {
    SegmentView {
        started: true,
        anchors: h.anchors,
        old_lines: side(h.changes, '+', h.changes.len() as int),
        new_lines: side(h.changes, '-', h.changes.len() as int),
        eof: h.eof,
    }
}

/// Whether the lines from `i` on are `part`, and what follows ends a body.
pub open spec fn stand_in(lines: Seq<Seq<char>>, i: int, end: int, part: Seq<Seq<char>>) -> bool {
    let stop = i + part.len();
    &&& 0 <= i <= stop <= end <= lines.len()
    &&& lines.subrange(i, stop) == part
    &&& stop < end ==> operation_header(lines[stop])
}

proof fn lemma_not_trimmed_in_front(s: Seq<char>)
    requires
        s.len() > 0,
        !crate::text::is_ws(s[0]),
    ensures
        trim_of(s).len() > 0,
        trim_of(s)[0] == s[0],
    decreases s.len(),
{
    if crate::text::is_ws(s.last()) {
        assert(s.len() > 1);
        lemma_not_trimmed_in_front(s.drop_last());
        assert(crate::text::trim_start_of(s) == s);
        assert(crate::text::trim_start_of(s.drop_last()) == s.drop_last());
    } else {
        assert(trim_of(s) == s);
    }
}

proof fn lemma_literals()
    ensures
        "*** End Patch"@.len() == 13,
        "*** End Patch"@[0] == '*',
        "*** Begin Patch"@.len() == 15,
        "*** Begin Patch"@[0] == '*',
        "*** End of File"@.len() == 15,
        "*** End of File"@[0] == '*',
        "*** End of File"@[4] == 'E',
        "*** Add File: "@.len() == 14,
        "*** Add File: "@[0] == '*',
        "*** Add File: "@[4] == 'A',
        "*** Delete File: "@.len() == 17,
        "*** Delete File: "@[0] == '*',
        "*** Delete File: "@[4] == 'D',
        "*** Update File: "@.len() == 17,
        "*** Update File: "@[0] == '*',
        "*** Update File: "@[4] == 'U',
        "*** Move to: "@.len() == 13,
        "*** Move to: "@[0] == '*',
        "*** Move to: "@[4] == 'M',
        "@@"@ == seq!['@', '@'],
        "@@ "@ == seq!['@', '@', ' '],
        "+"@ == seq!['+'],
{
    reveal_strlit("*** End Patch");
    reveal_strlit("*** Begin Patch");
    reveal_strlit("*** End of File");
    reveal_strlit("*** Add File: ");
    reveal_strlit("*** Delete File: ");
    reveal_strlit("*** Update File: ");
    reveal_strlit("*** Move to: ");
    reveal_strlit("@@");
    reveal_strlit("@@ ");
    reveal_strlit("+");
    assert("@@"@ =~= seq!['@', '@']);
    assert("@@ "@ =~= seq!['@', '@', ' ']);
    assert("+"@ =~= seq!['+']);
}

proof fn lemma_no_header(line: Seq<char>)
    requires
        line.len() > 0,
        line[0] != '*',
        trim_of(line) != "*** End Patch"@,
    ensures
        !operation_header(line),
        line != "*** End of File"@,
{
    lemma_literals();
    assert(line.take(14)[0] == line[0] || line.len() < 14);
    assert(line.take(17)[0] == line[0] || line.len() < 17);
}

/// A body whose current hunk has read more lines.
spec fn with_changes(body: UpdateBody, changes: Seq<Change>, n: int) -> UpdateBody {
    UpdateBody {
        current: SegmentView {
            old_lines: body.current.old_lines + side(changes, '+', n),
            new_lines: body.current.new_lines + side(changes, '-', n),
            ..body.current
        },
        changed: body.changed || n > 0,
        ..body
    }
}

proof fn lemma_changes(
    lines: Seq<Seq<char>>,
    i: int,
    end: int,
    body: UpdateBody,
    changes: Seq<Change>,
    n: int,
)
    requires
        body.current.started,
        0 <= n <= changes.len(),
        0 <= i,
        i + n <= end <= lines.len(),
        forall|k: int| 0 <= k < changes.len() ==> can_stand(#[trigger] changes[k]),
        forall|k: int|
            0 <= k < n ==> #[trigger] lines[i + k] == seq![changes[k].mark] + changes[k].text,
    ensures
        update_body(lines, i, end, body) == update_body(
            lines,
            i + n,
            end,
            with_changes(body, changes, n),
        ),
    decreases n,
{
    if n == 0 {
        assert(with_changes(body, changes, 0) =~= body);
    } else {
        lemma_changes(lines, i, end, body, changes, n - 1);
        let k = n - 1;
        let c = changes[k];
        let line = lines[i + k];
        lemma_literals();
        assert(line[0] == c.mark);
        assert(line.skip(1) =~= c.text);
        lemma_no_header(line);
        assert(!starts_with(line, "@@ "@)) by {
            if starts_with(line, "@@ "@) {
                assert(line.take(3)[0] == '@');
            }
        }
        let before = with_changes(body, changes, k);
        let after = with_changes(body, changes, n);
        assert(crate::file_edit::change_line(before, line) == Some(after)) by {
            assert(crate::file_edit::change_line(before, line)->0 =~= after);
        }
    }
}

proof fn lemma_heads(
    lines: Seq<Seq<char>>,
    i: int,
    end: int,
    body: UpdateBody,
    anchors: Seq<Seq<char>>,
    n: int,
)
    requires
        body.current == empty_segment(),
        0 < n <= anchors.len(),
        0 <= i,
        i + n <= end <= lines.len(),
        forall|k: int| 0 <= k < anchors.len() ==> (#[trigger] anchors[k]).len() > 0,
        forall|k: int| 0 <= k < n ==> #[trigger] lines[i + k] == "@@ "@ + anchors[k],
    ensures
        update_body(lines, i, end, body) == update_body(
            lines,
            i + n,
            end,
            UpdateBody {
                current: SegmentView {
                    started: true,
                    anchors: anchors.take(n),
                    ..empty_segment()
                },
                ..body
            },
        ),
    decreases n,
{
    let k = n - 1;
    let line = lines[i + k];
    lemma_literals();
    assert(line[0] == '@');
    lemma_not_trimmed_in_front(line);
    lemma_no_header(line);
    assert(line.take(3) =~= "@@ "@);
    assert(line.skip(3) =~= anchors[k]);
    if n > 1 {
        lemma_heads(lines, i, end, body, anchors, n - 1);
        assert(anchors.take(n) =~= anchors.take(n - 1).push(anchors[k]));
        let before = UpdateBody {
            current: SegmentView {
                started: true,
                anchors: anchors.take(k),
                ..empty_segment()
            },
            ..body
        };
        assert(crate::file_edit::open_hunk(before, line) =~= UpdateBody {
            current: SegmentView { started: true, anchors: anchors.take(n), ..empty_segment() },
            ..body
        });
    } else {
        assert(anchors.take(1) =~= Seq::<Seq<char>>::empty().push(anchors[0]));
        assert(crate::file_edit::open_hunk(body, line) =~= UpdateBody {
            current: SegmentView { started: true, anchors: anchors.take(n), ..empty_segment() },
            ..body
        });
    }
}

/// What has been read of the first `n` hunks when the next header comes.
spec fn hunks_read(hunks: Seq<Hunk>, n: int) -> Seq<SegmentView> {
    Seq::new(n as nat, |k: int| hunk_read(hunks[k]))
}

proof fn lemma_open_hunk_closes(lines: Seq<Seq<char>>, i: int, end: int, body: UpdateBody)
    requires
        0 <= i < end <= lines.len(),
        body.current.old_lines.len() > 0 || body.current.new_lines.len() > 0,
        lines[i] == "@@"@ || starts_with(lines[i], "@@ "@),
    ensures
        update_body(lines, i, end, body) == update_body(
            lines,
            i,
            end,
            UpdateBody {
                segments: body.segments.push(body.current),
                current: empty_segment(),
                changed: body.changed,
            },
        ),
{
    let fresh = UpdateBody {
        segments: body.segments.push(body.current),
        current: empty_segment(),
        changed: body.changed,
    };
    lemma_literals();
    let line = lines[i];
    if starts_with(line, "@@ "@) {
        assert(line.take(3)[0] == line[0]);
    }
    lemma_not_trimmed_in_front(line);
    lemma_no_header(line);
    assert(crate::file_edit::open_hunk(body, line) =~= crate::file_edit::open_hunk(fresh, line));
}

proof fn lemma_side_of_some(changes: Seq<Change>, n: int)
    requires
        0 < n <= changes.len(),
        forall|k: int| 0 <= k < changes.len() ==> can_stand(#[trigger] changes[k]),
    ensures
        side(changes, '+', n).len() > 0 || side(changes, '-', n).len() > 0,
{
    assert(can_stand(changes[n - 1]));
}

/// The body behind the first `n` hunks, none of which ends the file.
spec fn body_behind(hunks: Seq<Hunk>, n: int) -> UpdateBody {
    if n <= 0 {
        UpdateBody { segments: Seq::empty(), current: empty_segment(), changed: false }
    } else {
        UpdateBody {
            segments: hunks_read(hunks, n - 1),
            current: SegmentView { eof: false, ..hunk_read(hunks[n - 1]) },
            changed: true,
        }
    }
}

proof fn lemma_one_hunk(lines: Seq<Seq<char>>, i: int, end: int, hunks: Seq<Hunk>, n: int)
    requires
        can_be_written(hunks),
        0 <= n < hunks.len(),
        0 <= i,
        i + hunk_lines(hunks[n]).len() <= end <= lines.len(),
        lines.subrange(i, i + hunk_lines(hunks[n]).len()) == hunk_lines(hunks[n]),
    ensures
        update_body(lines, i, end, body_behind(hunks, n)) == update_body(
            lines,
            i + hunk_lines(hunks[n]).len() - (if hunks[n].eof { 1int } else { 0int }),
            end,
            body_behind(hunks, n + 1),
        ),
{
    let h = hunks[n];
    let part = hunk_lines(h);
    let m = h.anchors.len() as int;
    let heads = if m == 0 { 1int } else { m };
    let count = h.changes.len() as int;
    assert(part.len() == heads + count + (if h.eof { 1int } else { 0int }));
    assert forall|k: int| 0 <= k < part.len() implies lines[i + k] == #[trigger] part[k] by {
        assert(lines.subrange(i, i + part.len())[k] == lines[i + k]);
    }
    lemma_literals();
    let start = body_behind(hunks, n);
    let fresh = UpdateBody {
        segments: hunks_read(hunks, n),
        current: empty_segment(),
        changed: start.changed,
    };
    assert(lines[i] == part[0]);
    if m > 0 {
        assert(part[0] == "@@ "@ + h.anchors[0]);
        assert(lines[i].take(3) =~= "@@ "@);
    }
    if n > 0 {
        let last = hunks[n - 1];
        assert(!last.eof);
        lemma_side_of_some(last.changes, last.changes.len() as int);
        lemma_open_hunk_closes(lines, i, end, start);
        assert(start.segments.push(start.current) =~= hunks_read(hunks, n));
    } else {
        assert(start.segments =~= hunks_read(hunks, 0));
    }
    assert(update_body(lines, i, end, start) == update_body(lines, i, end, fresh));
    let opened = UpdateBody {
        current: SegmentView { started: true, anchors: h.anchors, ..empty_segment() },
        ..fresh
    };
    if m == 0 {
        assert(lines[i] == "@@"@);
        lemma_not_trimmed_in_front(lines[i]);
        lemma_no_header(lines[i]);
        assert(!starts_with(lines[i], "@@ "@));
        assert(crate::file_edit::open_hunk(fresh, lines[i]) =~= opened);
    } else {
        assert forall|k: int| 0 <= k < m implies #[trigger] lines[i + k] == "@@ "@ + h.anchors[k] by {
            assert(part[k] == "@@ "@ + h.anchors[k]);
        }
        lemma_heads(lines, i, end, fresh, h.anchors, m);
        assert(h.anchors.take(m) =~= h.anchors);
    }
    assert(update_body(lines, i, end, fresh) == update_body(lines, i + heads, end, opened));
    assert forall|k: int| 0 <= k < count implies #[trigger] lines[i + heads + k] == seq![
        h.changes[k].mark,
    ] + h.changes[k].text by {
        assert(part[heads + k] == seq![h.changes[k].mark] + h.changes[k].text);
    }
    lemma_changes(lines, i + heads, end, opened, h.changes, count);
    assert(with_changes(opened, h.changes, count) =~= body_behind(hunks, n + 1));
}

proof fn lemma_hunks(lines: Seq<Seq<char>>, i: int, end: int, hunks: Seq<Hunk>, n: int)
    requires
        can_be_written(hunks),
        0 <= n <= hunks.len(),
        0 <= i,
        i + hunks_lines(hunks, n).len() <= end <= lines.len(),
        lines.subrange(i, i + hunks_lines(hunks, n).len()) == hunks_lines(hunks, n),
    ensures
        update_body(lines, i, end, body_behind(hunks, 0)) == update_body(
            lines,
            i + hunks_lines(hunks, n).len() - (if n > 0 && hunks[n - 1].eof { 1int } else { 0int }),
            end,
            body_behind(hunks, n),
        ),
    decreases n,
{
    if n > 0 {
        let before = hunks_lines(hunks, n - 1);
        let all = hunks_lines(hunks, n);
        let last = hunk_lines(hunks[n - 1]);
        let j = i + before.len();
        assert(lines.subrange(i, j) =~= before) by {
            assert(lines.subrange(i, j) =~= lines.subrange(i, i + all.len()).take(before.len() as int));
            assert(all.take(before.len() as int) =~= before);
        }
        assert(lines.subrange(j, j + last.len()) =~= last) by {
            assert(lines.subrange(j, j + last.len()) =~= lines.subrange(i, i + all.len()).skip(
                before.len() as int,
            ));
            assert(all.skip(before.len() as int) =~= last);
        }
        lemma_hunks(lines, i, end, hunks, n - 1);
        if n > 1 {
            assert(!hunks[n - 2].eof);
        }
        lemma_one_hunk(lines, j, end, hunks, n - 1);
    }
}

/// The hunks of an update are read as they were written: of each hunk the lines
/// with a space or a minus are looked for, and the lines with a space or a plus
/// are put in their place, in the order in which they stand in the patch.
pub proof fn law_written_hunks_are_read(lines: Seq<Seq<char>>, i: int, end: int, hunks: Seq<Hunk>)
    requires
        can_be_written(hunks),
        hunks.len() > 0,
        stand_in(lines, i, end, hunks_lines(hunks, hunks.len() as int)),
    ensures
        update_body(
            lines,
            i,
            end,
            UpdateBody { segments: Seq::empty(), current: empty_segment(), changed: false },
        ) matches Ok((body, next)) && body.changed && next == i + hunks_lines(
            hunks,
            hunks.len() as int,
        ).len() && body_segments(body) == Seq::new(hunks.len(), |k: int| hunk_read(hunks[k])),
{
    let n = hunks.len() as int;
    let all = hunks_lines(hunks, n);
    let stop = i + all.len();
    lemma_hunks(lines, i, end, hunks, n);
    let body = body_behind(hunks, n);
    let last = hunks[n - 1];
    let done = UpdateBody { current: hunk_read(last), ..body };
    lemma_literals();
    if last.eof {
        let part = hunk_lines(last);
        assert(part.last() == "*** End of File"@);
        assert(all.last() == part.last());
        assert(lines.subrange(i, stop).last() == lines[stop - 1]);
        let line = lines[stop - 1];
        assert(!operation_header(line)) by {
            assert(line.take(14)[4] == line[4]);
            assert(trim_of(line).len() != 13) by {
                assert(crate::text::trim_start_of(line) == line);
                reveal_strlit("*** End of File");
                assert(crate::text::trim_end_of(line) == line);
            }
        }
        assert(update_body(lines, stop - 1, end, body) == Ok::<(UpdateBody, int), Seq<char>>(
            (done, stop),
        )) by {
            assert(done =~= UpdateBody {
                current: SegmentView { eof: true, ..body.current },
                ..body
            });
        }
    } else {
        assert(done =~= body);
    }
    assert(body_segments(done) =~= Seq::new(hunks.len(), |k: int| hunk_read(hunks[k])));
}

/// An operation as its author means it.
pub ghost enum Order {
    Add { path: Seq<char>, lines: Seq<Seq<char>> },
    Delete { path: Seq<char> },
    Update { path: Seq<char>, move_to: Option<Seq<char>>, hunks: Seq<Hunk> },
}

/// The lines in which an operation is written down.
pub open spec fn order_lines(o: Order) -> Seq<Seq<char>> {
    match o {
        Order::Add { path, lines } => seq!["*** Add File: "@ + path] + Seq::new(
            lines.len(),
            |i: int| "+"@ + lines[i],
        ),
        Order::Delete { path } => seq!["*** Delete File: "@ + path],
        Order::Update { path, move_to, hunks } => seq!["*** Update File: "@ + path] + (
        match move_to {
            Some(dest) => seq!["*** Move to: "@ + dest],
            None => Seq::empty(),
        }) + hunks_lines(hunks, hunks.len() as int),
    }
}

/// Whether a text can be written as a path: something, without white space
/// around it.
pub open spec fn is_path(path: Seq<char>) -> bool {
    path.len() > 0 && trim_of(path) == path
}

/// Whether an operation can be written down.
pub open spec fn can_be_ordered(o: Order) -> bool {
    match o {
        Order::Add { path, lines } => is_path(path) && lines.len() > 0,
        Order::Delete { path } => is_path(path),
        Order::Update { path, move_to, hunks } => {
            &&& is_path(path)
            &&& move_to matches Some(dest) ==> is_path(dest)
            &&& hunks.len() > 0
            &&& can_be_written(hunks)
        },
    }
}

/// What is read of an operation.
pub open spec fn order_read(o: Order) -> OperationView {
    match o {
        Order::Add { path, lines } => OperationView::Add { path, lines },
        Order::Delete { path } => OperationView::Delete { path },
        Order::Update { path, move_to, hunks } => OperationView::Update {
            path,
            move_to,
            segments: Seq::new(hunks.len(), |k: int| hunk_read(hunks[k])),
        },
    }
}

/// The lines in which the first `n` operations are written down.
pub open spec fn orders_lines(orders: Seq<Order>, n: int) -> Seq<Seq<char>>
    decreases n,
{
    if n <= 0 || n > orders.len() {
        Seq::empty()
    } else {
        orders_lines(orders, n - 1) + order_lines(orders[n - 1])
    }
}

proof fn lemma_blank(path: Seq<char>)
    requires
        is_path(path),
    ensures
        !crate::text::is_blank(path),
{
}

proof fn lemma_head_of_order(o: Order)
    ensures
        order_lines(o).len() > 0,
        operation_header(order_lines(o)[0]),
        order_lines(o)[0].len() >= 14,
        order_lines(o)[0][0] == '*',
        match o {
            Order::Add { path, .. } => {
                &&& starts_with(order_lines(o)[0], "*** Add File: "@)
                &&& order_lines(o)[0].skip(14) == path
            },
            Order::Delete { path } => {
                &&& !starts_with(order_lines(o)[0], "*** Add File: "@)
                &&& starts_with(order_lines(o)[0], "*** Delete File: "@)
                &&& order_lines(o)[0].skip(17) == path
            },
            Order::Update { path, .. } => {
                &&& !starts_with(order_lines(o)[0], "*** Add File: "@)
                &&& !starts_with(order_lines(o)[0], "*** Delete File: "@)
                &&& starts_with(order_lines(o)[0], "*** Update File: "@)
                &&& order_lines(o)[0].skip(17) == path
            },
        },
{
    lemma_literals();
    let line = order_lines(o)[0];
    match o {
        Order::Add { path, lines } => {
            assert(line == "*** Add File: "@ + path);
            assert(line.take(14) =~= "*** Add File: "@);
            assert(line.skip(14) =~= path);
        },
        Order::Delete { path } => {
            assert(line == "*** Delete File: "@ + path);
            assert(line.take(17) =~= "*** Delete File: "@);
            assert(line.skip(17) =~= path);
            assert(line.take(14)[4] == 'D');
        },
        Order::Update { path, move_to, hunks } => {
            assert(line == "*** Update File: "@ + path);
            assert(line.take(17) =~= "*** Update File: "@);
            assert(line.skip(17) =~= path);
            assert(line.take(14)[4] == 'U');
            assert(line.take(17)[4] == 'U');
        },
    }
}

proof fn lemma_body_of_add(lines: Seq<Seq<char>>, i: int, stop: int, end: int)
    requires
        0 <= i <= stop <= end <= lines.len(),
        forall|k: int| i <= k < stop ==> (#[trigger] lines[k]).len() > 0 && lines[k][0] == '+',
        stop < end ==> operation_header(lines[stop]),
    ensures
        body_end(lines, i, end) == stop,
    decreases stop - i,
{
    if i < stop {
        lemma_not_trimmed_in_front(lines[i]);
        lemma_literals();
        lemma_no_header(lines[i]);
        lemma_body_of_add(lines, i + 1, stop, end);
    }
}

proof fn lemma_order(lines: Seq<Seq<char>>, i: int, end: int, o: Order)
    requires
        can_be_ordered(o),
        stand_in(lines, i, end, order_lines(o)),
    ensures
        operation_at(lines, i, end) == Ok::<Option<(OperationView, int)>, Seq<char>>(
            Some((order_read(o), i + order_lines(o).len())),
        ),
{
    let part = order_lines(o);
    let stop = i + part.len();
    lemma_head_of_order(o);
    lemma_literals();
    assert forall|k: int| 0 <= k < part.len() implies lines[i + k] == #[trigger] part[k] by {
        assert(lines.subrange(i, stop)[k] == lines[i + k]);
    }
    assert(lines[i] == part[0]);
    match o {
        Order::Add { path, lines: body } => {
            lemma_blank(path);
            assert forall|k: int| i + 1 <= k < stop implies (#[trigger] lines[k]).len() > 0
                && lines[k][0] == '+' && starts_with(lines[k], "+"@) by {
                assert(part[k - i] == "+"@ + body[k - i - 1]);
                assert(lines[i + (k - i)] == part[k - i]);
                assert(lines[k].take(1) =~= "+"@);
            }
            lemma_body_of_add(lines, i + 1, stop, end);
            let read = Seq::new((stop - i - 1) as nat, |k: int| lines[i + 1 + k].skip(1));
            assert(read =~= body) by {
                assert forall|k: int| 0 <= k < body.len() implies read[k] == body[k] by {
                    assert(part[k + 1] == "+"@ + body[k]);
                    assert(lines[i + (k + 1)] == part[k + 1]);
                    assert(lines[i + 1 + k].skip(1) =~= body[k]);
                }
            }
            assert(add_file_at(lines, i, end, path) == Ok::<(OperationView, int), Seq<char>>(
                (order_read(o), stop),
            ));
        },
        Order::Delete { path } => {
            lemma_blank(path);
        },
        Order::Update { path, move_to, hunks } => {
            lemma_blank(path);
            let rest = hunks_lines(hunks, hunks.len() as int);
            let first = i + 1 + (if move_to is Some { 1int } else { 0int });
            lemma_hunks_begin(hunks);
            assert(part.len() == first - i + rest.len());
            assert(lines.subrange(first, stop) =~= rest) by {
                assert(part.skip(first - i) =~= rest);
                assert(lines.subrange(first, stop) =~= lines.subrange(i, stop).skip(first - i));
            }
            if let Some(dest) = move_to {
                lemma_blank(dest);
                assert(part[1] == "*** Move to: "@ + dest);
                assert(lines[i + 1] == part[1]);
                assert(lines[i + 1].take(13) =~= "*** Move to: "@);
                assert(lines[i + 1].skip(13) =~= dest);
            } else {
                assert(part[1] == rest[0]);
                assert(lines[i + 1] == part[1]);
                assert(!starts_with(lines[i + 1], "*** Move to: "@)) by {
                    assert(lines[i + 1].take(13)[0] == lines[i + 1][0] || lines[i + 1].len() < 13);
                }
            }
            assert(crate::file_edit::move_target(lines, i + 1, end) == Ok::<
                (Option<Seq<char>>, int),
                Seq<char>,
            >((move_to, first)));
            law_written_hunks_are_read(lines, first, end, hunks);
            assert(update_file_at(lines, i, end, path) == Ok::<(OperationView, int), Seq<char>>(
                (order_read(o), stop),
            ));
        },
    }
}

proof fn lemma_hunks_begin(hunks: Seq<Hunk>)
    requires
        hunks.len() > 0,
    ensures
        hunks_lines(hunks, hunks.len() as int).len() > 0,
        hunks_lines(hunks, hunks.len() as int)[0].len() > 0,
        hunks_lines(hunks, hunks.len() as int)[0][0] == '@',
{
    lemma_hunks_begin_from(hunks, hunks.len() as int);
}

proof fn lemma_hunks_begin_from(hunks: Seq<Hunk>, n: int)
    requires
        0 < n <= hunks.len(),
    ensures
        hunks_lines(hunks, n).len() > 0,
        hunks_lines(hunks, n)[0].len() > 0,
        hunks_lines(hunks, n)[0][0] == '@',
    decreases n,
{
    lemma_literals();
    if n == 1 {
        let h = hunks[0];
        let part = hunk_lines(h);
        assert(hunks_lines(hunks, 0).len() == 0);
        assert(hunks_lines(hunks, 1) =~= part);
        if h.anchors.len() == 0 {
            assert(part[0] == "@@"@);
        } else {
            assert(part[0] == "@@ "@ + h.anchors[0]);
        }
    } else {
        lemma_hunks_begin_from(hunks, n - 1);
        assert(hunks_lines(hunks, n)[0] == hunks_lines(hunks, n - 1)[0]);
    }
}

/// The lines of the operations from the `n`-th on, and the line that ends the
/// patch.
spec fn rest_of_patch(orders: Seq<Order>, n: int) -> Seq<Seq<char>>
    decreases orders.len() - n,
{
    if n < 0 || n >= orders.len() {
        seq!["*** End Patch"@]
    } else {
        order_lines(orders[n]) + rest_of_patch(orders, n + 1)
    }
}

proof fn lemma_rest_of_patch(orders: Seq<Order>, n: int)
    requires
        0 <= n <= orders.len(),
    ensures
        orders_lines(orders, n) + rest_of_patch(orders, n) == orders_lines(
            orders,
            orders.len() as int,
        ) + seq!["*** End Patch"@],
    decreases orders.len() - n,
{
    if n < orders.len() {
        lemma_rest_of_patch(orders, n + 1);
        assert(orders_lines(orders, n) + rest_of_patch(orders, n) =~= orders_lines(orders, n + 1)
            + rest_of_patch(orders, n + 1));
    }
}

proof fn lemma_orders(lines: Seq<Seq<char>>, i: int, orders: Seq<Order>, n: int)
    requires
        0 <= n <= orders.len(),
        orders.len() > 0,
        forall|k: int| 0 <= k < orders.len() ==> can_be_ordered(#[trigger] orders[k]),
        0 <= i < lines.len(),
        lines.skip(i) == rest_of_patch(orders, n),
    ensures
        operations_from(
            lines,
            i,
            lines.len() - 1,
            Seq::new(n as nat, |k: int| order_read(orders[k])),
        ) == Ok::<Seq<OperationView>, Seq<char>>(
            Seq::new(orders.len(), |k: int| order_read(orders[k])),
        ),
    decreases orders.len() - n,
{
    let end = lines.len() - 1;
    let done = Seq::new(n as nat, |k: int| order_read(orders[k]));
    let all = Seq::new(orders.len(), |k: int| order_read(orders[k]));
    if n == orders.len() {
        assert(done =~= all);
        assert(lines.skip(i).len() == 1);
    } else {
        let o = orders[n];
        let part = order_lines(o);
        let rest = rest_of_patch(orders, n + 1);
        let stop = i + part.len();
        lemma_head_of_order(o);
        assert(rest.len() > 0 && operation_header(rest[0])) by {
            if n + 1 < orders.len() {
                lemma_head_of_order(orders[n + 1]);
                assert(rest[0] == order_lines(orders[n + 1])[0]);
            } else {
                lemma_literals();
                assert(trim_of("*** End Patch"@) == "*** End Patch"@) by {
                    reveal_strlit("*** End Patch");
                    assert(crate::text::trim_start_of("*** End Patch"@) == "*** End Patch"@);
                }
            }
        }
        assert(lines.skip(i).len() == part.len() + rest.len());
        assert(lines.subrange(i, stop) =~= part) by {
            assert(lines.subrange(i, stop) =~= lines.skip(i).take(part.len() as int));
            assert((part + rest).take(part.len() as int) =~= part);
        }
        assert(lines.skip(stop) =~= rest) by {
            assert(lines.skip(stop) =~= lines.skip(i).skip(part.len() as int));
            assert((part + rest).skip(part.len() as int) =~= rest);
        }
        assert(lines[stop] == lines.skip(stop)[0]);
        lemma_order(lines, i, end, o);
        lemma_orders(lines, stop, orders, n + 1);
        assert(done.push(order_read(o)) =~= Seq::new(
            (n + 1) as nat,
            |k: int| order_read(orders[k]),
        ));
    }
}

/// A patch is read as it was written: each operation with its path, an added
/// file with its lines, an updated one with its destination and its hunks, all
/// in the order in which they were written.
#[verifier::rlimit(60)]
pub proof fn law_written_patch_is_read(patch: Seq<char>, orders: Seq<Order>)
    requires
        orders.len() > 0,
        forall|k: int| 0 <= k < orders.len() ==> can_be_ordered(#[trigger] orders[k]),
        lines_of(trim_of(patch)) == seq!["*** Begin Patch"@] + orders_lines(
            orders,
            orders.len() as int,
        ) + seq!["*** End Patch"@],
    ensures
        patch_of(patch) == Ok::<Seq<OperationView>, Seq<char>>(
            Seq::new(orders.len(), |k: int| order_read(orders[k])),
        ),
{
    let lines = lines_of(trim_of(patch));
    let body = orders_lines(orders, orders.len() as int) + seq!["*** End Patch"@];
    assert(lines =~= seq!["*** Begin Patch"@] + body);
    lemma_literals();
    lemma_rest_of_patch(orders, 0);
    assert(orders_lines(orders, 0) + rest_of_patch(orders, 0) =~= rest_of_patch(orders, 0));
    assert(lines.skip(1) =~= body);
    reveal_strlit("*** Begin Patch");
    reveal_strlit("*** End Patch");
    assert(lines[0] == "*** Begin Patch"@);
    assert(lines.last() == "*** End Patch"@);
    assert(trim_of("*** Begin Patch"@) == "*** Begin Patch"@) by {
        assert(crate::text::trim_start_of("*** Begin Patch"@) == "*** Begin Patch"@);
    }
    assert(trim_of("*** End Patch"@) == "*** End Patch"@) by {
        assert(crate::text::trim_start_of("*** End Patch"@) == "*** End Patch"@);
    }
    assert(Seq::<OperationView>::empty() =~= Seq::new(0, |k: int| order_read(orders[k])));
    lemma_orders(lines, 1, orders, 0);
}

proof fn lemma_match_behind(
    front: Seq<Seq<char>>,
    rest: Seq<Seq<char>>,
    needle: Seq<Seq<char>>,
    i: int,
)
    requires
        0 <= i,
    ensures
        next_match(front + rest, needle, front.len() + i) == match next_match(rest, needle, i) {
            Some(j) => Some(front.len() + j),
            None => None,
        },
    decreases rest.len() + 1 - i,
{
    if i <= rest.len() {
        let all = front + rest;
        let at = front.len() + i;
        if i + needle.len() <= rest.len() {
            assert(all.subrange(at, at + needle.len()) =~= rest.subrange(i, i + needle.len()));
        }
        assert(matches_at(all, needle, at) == matches_at(rest, needle, i));
        if !matches_at(rest, needle, i) {
            lemma_match_behind(front, rest, needle, i + 1);
        }
    }
}

proof fn lemma_anchors_behind(
    front: Seq<Seq<char>>,
    rest: Seq<Seq<char>>,
    anchors: Seq<Seq<char>>,
    k: int,
    cursor: int,
)
    requires
        0 <= cursor,
        0 <= k,
    ensures
        behind_anchors(front + rest, anchors, k, front.len() + cursor) == match behind_anchors(
            rest,
            anchors,
            k,
            cursor,
        ) {
            Ok(i) => Ok::<int, Seq<char>>(front.len() + i),
            Err(e) => Err(e),
        },
    decreases anchors.len() - k,
{
    if k < anchors.len() {
        let a = seq![anchors[k]];
        lemma_match_behind(front, rest, a, cursor);
        lemma_next_match(rest, a, cursor);
        if let Some(i) = next_match(rest, a, cursor) {
            lemma_match_behind(front, rest, a, i + 1);
            lemma_anchors_behind(front, rest, anchors, k + 1, i + 1);
        }
    }
}

proof fn lemma_target_in_bounds(lines: Seq<Seq<char>>, seg: SegmentView, cursor: int)
    requires
        0 <= cursor <= lines.len(),
    ensures
        target_at(lines, seg, cursor) matches Ok(i) ==> 0 <= i && i + seg.old_lines.len()
            <= lines.len(),
{
    lemma_next_match(lines, seg.old_lines, cursor);
}

/// What stands in front of the place that the hunks have reached is neither
/// looked at nor changed.
pub proof fn law_hunks_leave_what_is_behind_them(
    front: Seq<Seq<char>>,
    rest: Seq<Seq<char>>,
    segments: Seq<SegmentView>,
    k: int,
    cursor: int,
)
    requires
        0 <= cursor <= rest.len(),
        0 <= k,
        forall|j: int| 0 <= j < segments.len() ==> !(#[trigger] segments[j]).eof,
    ensures
        apply_from(front + rest, segments, k, front.len() + cursor) == match apply_from(
            rest,
            segments,
            k,
            cursor,
        ) {
            Ok(out) => Ok::<Seq<Seq<char>>, Seq<char>>(front + out),
            Err(e) => Err(e),
        },
    decreases segments.len() - k,
{
    if k < segments.len() {
        let seg = segments[k];
        let all = front + rest;
        lemma_anchors_behind(front, rest, seg.anchors, 0, cursor);
        lemma_behind_anchors(rest, seg.anchors, 0, cursor);
        if let Ok(from) = behind_anchors(rest, seg.anchors, 0, cursor) {
            lemma_match_behind(front, rest, seg.old_lines, from);
            lemma_next_match(rest, seg.old_lines, from);
            if let Some(i) = next_match(rest, seg.old_lines, from) {
                lemma_match_behind(front, rest, seg.old_lines, i + 1);
            }
            lemma_target_in_bounds(rest, seg, from);
            if let Ok(i) = target_at(rest, seg, from) {
                let n = seg.old_lines.len() as int;
                let out = replace_lines(rest, i, n, seg.new_lines);
                assert(replace_lines(all, front.len() + i, n, seg.new_lines) =~= front + out);
                law_hunks_leave_what_is_behind_them(
                    front,
                    out,
                    segments,
                    k + 1,
                    i + seg.new_lines.len(),
                );
            }
        }
    } else {
    }
}

proof fn lemma_apply_shifted(
    lines: Seq<Seq<char>>,
    segments: Seq<SegmentView>,
    k: int,
    cursor: int,
)
    requires
        0 < segments.len(),
        0 <= k,
    ensures
        apply_from(lines, segments, k + 1, cursor) == apply_from(lines, segments.skip(1), k, cursor),
    decreases segments.len() - k,
{
    if k + 1 < segments.len() {
        let seg = segments[k + 1];
        assert(segments.skip(1)[k] == seg);
        if let Ok(from) = behind_anchors(lines, seg.anchors, 0, cursor) {
            if let Ok(i) = target_at(lines, seg, from) {
                lemma_apply_shifted(
                    replace_lines(lines, i, seg.old_lines.len() as int, seg.new_lines),
                    segments,
                    k + 1,
                    i + seg.new_lines.len(),
                );
            }
        }
    }
}

proof fn lemma_first_match(lines: Seq<Seq<char>>, needle: Seq<Seq<char>>, from: int, at: int)
    requires
        0 <= from <= at,
        at + needle.len() <= lines.len(),
        lines.subrange(at, at + needle.len()) == needle,
        forall|j: int|
            from <= j < at && j + needle.len() <= lines.len() ==> #[trigger] lines.subrange(
                j,
                j + needle.len(),
            ) != needle,
    ensures
        next_match(lines, needle, from) == Some(at),
    decreases at - from,
{
    if from < at {
        assert(lines.subrange(from, from + needle.len()) != needle);
        lemma_first_match(lines, needle, from + 1, at);
    }
}

proof fn lemma_no_match(lines: Seq<Seq<char>>, needle: Seq<Seq<char>>, from: int)
    requires
        0 <= from,
        forall|j: int|
            from <= j && j + needle.len() <= lines.len() ==> #[trigger] lines.subrange(
                j,
                j + needle.len(),
            ) != needle,
    ensures
        next_match(lines, needle, from) is None,
    decreases lines.len() + 1 - from,
{
    if from <= lines.len() {
        if from + needle.len() <= lines.len() {
            assert(lines.subrange(from, from + needle.len()) != needle);
        }
        lemma_no_match(lines, needle, from + 1);
    }
}

/// A hunk without anchors whose old lines stand at one place puts its new lines
/// there; all lines before and behind stay, and the other hunks go on behind.
pub proof fn law_hunk_replaces_its_old_lines(
    before: Seq<Seq<char>>,
    behind: Seq<Seq<char>>,
    segments: Seq<SegmentView>,
)
    requires
        segments.len() > 0,
        segments[0].anchors.len() == 0,
        segments[0].old_lines.len() > 0,
        forall|j: int| 0 <= j < segments.len() ==> !(#[trigger] segments[j]).eof,
        ({
            let old_lines = segments[0].old_lines;
            let lines = before + old_lines + behind;
            forall|j: int|
                0 <= j && j + old_lines.len() <= lines.len() && #[trigger] lines.subrange(
                    j,
                    j + old_lines.len(),
                ) == old_lines ==> j == before.len()
        }),
    ensures
        apply_from(before + segments[0].old_lines + behind, segments, 0, 0) == match apply_from(
            behind,
            segments.skip(1),
            0,
            0,
        ) {
            Ok(out) => Ok::<Seq<Seq<char>>, Seq<char>>(before + segments[0].new_lines + out),
            Err(e) => Err(e),
        },
{
    let seg = segments[0];
    let lines = before + seg.old_lines + behind;
    let at = before.len() as int;
    let n = seg.old_lines.len() as int;
    assert(lines.subrange(at, at + n) =~= seg.old_lines);
    lemma_first_match(lines, seg.old_lines, 0, at);
    lemma_no_match(lines, seg.old_lines, at + 1);
    let front = before + seg.new_lines;
    assert(replace_lines(lines, at, n, seg.new_lines) =~= front + behind);
    law_hunks_leave_what_is_behind_them(front, behind, segments, 1, 0);
    lemma_apply_shifted(behind, segments, 0, 0);
}

/// A hunk with an anchor goes to the first place behind the line that the anchor
/// names, which must be there once; without old lines its new lines come right
/// behind that line.
pub proof fn law_anchored_hunk_stays_behind_its_anchor(
    before: Seq<Seq<char>>,
    between: Seq<Seq<char>>,
    behind: Seq<Seq<char>>,
    segments: Seq<SegmentView>,
)
    requires
        segments.len() > 0,
        segments[0].anchors.len() == 1,
        segments[0].old_lines.len() == 0 ==> between.len() == 0,
        forall|j: int| 0 <= j < segments.len() ==> !(#[trigger] segments[j]).eof,
        !before.contains(segments[0].anchors[0]),
        !between.contains(segments[0].anchors[0]),
        !segments[0].old_lines.contains(segments[0].anchors[0]),
        !behind.contains(segments[0].anchors[0]),
        ({
            let old_lines = segments[0].old_lines;
            let rest = between + old_lines + behind;
            forall|j: int|
                0 <= j < between.len() && j + old_lines.len() <= rest.len()
                    ==> #[trigger] rest.subrange(j, j + old_lines.len()) != old_lines
        }),
    ensures
        ({
            let kept = before + segments[0].anchors + between;
            apply_from(kept + segments[0].old_lines + behind, segments, 0, 0) == match apply_from(
                behind,
                segments.skip(1),
                0,
                0,
            ) {
                Ok(out) => Ok::<Seq<Seq<char>>, Seq<char>>(kept + segments[0].new_lines + out),
                Err(e) => Err(e),
            }
        }),
{
    let seg = segments[0];
    let anchor = seg.anchors[0];
    let rest = between + seg.old_lines + behind;
    let kept = before + seg.anchors + between;
    let lines = kept + seg.old_lines + behind;
    let at = before.len() as int;
    let n = seg.old_lines.len() as int;
    let needle = seq![anchor];
    assert(needle =~= seg.anchors);
    assert(lines =~= (before + seg.anchors) + rest);
    assert(lines.subrange(at, at + 1) =~= needle);
    assert forall|j: int| 0 <= j && j != at && j + 1 <= lines.len() implies #[trigger] lines.subrange(
        j,
        j + 1,
    ) != needle by {
        assert(lines.subrange(j, j + 1)[0] == lines[j]);
        if j < at {
            assert(lines[j] == before[j]);
        } else {
            let r = j - at - 1;
            assert(lines[j] == rest[r]);
            if r < between.len() {
                assert(rest[r] == between[r]);
            } else if r < between.len() + n {
                assert(rest[r] == seg.old_lines[r - between.len()]);
            } else {
                assert(rest[r] == behind[r - between.len() - n]);
            }
        }
    }
    lemma_first_match(lines, needle, 0, at);
    lemma_no_match(lines, needle, at + 1);
    assert(behind_anchors(lines, seg.anchors, 1, at + 1) == Ok::<int, Seq<char>>(at + 1));
    assert(behind_anchors(lines, seg.anchors, 0, 0) == Ok::<int, Seq<char>>(at + 1));
    let m = between.len() as int;
    assert(rest.subrange(m, m + n) =~= seg.old_lines);
    if n > 0 {
        lemma_first_match(rest, seg.old_lines, 0, m);
        lemma_match_behind(before + seg.anchors, rest, seg.old_lines, 0);
    }
    assert(target_at(lines, seg, at + 1) == Ok::<int, Seq<char>>(at + 1 + m));
    let front = kept + seg.new_lines;
    assert(replace_lines(lines, at + 1 + m, n, seg.new_lines) =~= front + behind);
    law_hunks_leave_what_is_behind_them(front, behind, segments, 1, 0);
    lemma_apply_shifted(behind, segments, 0, 0);
}

/// A hunk that ends the file replaces the last lines of the file.
pub proof fn law_last_hunk_replaces_the_end(before: Seq<Seq<char>>, seg: SegmentView)
    requires
        seg.eof,
        seg.anchors.len() == 0,
    ensures
        apply_from(before + seg.old_lines, seq![seg], 0, 0) == Ok::<Seq<Seq<char>>, Seq<char>>(
            before + seg.new_lines,
        ),
{
    let lines = before + seg.old_lines;
    let at = before.len() as int;
    let n = seg.old_lines.len() as int;
    assert(lines.subrange(at, at + n) =~= seg.old_lines);
    assert(replace_lines(lines, at, n, seg.new_lines) =~= before + seg.new_lines);
    assert(apply_from(
        before + seg.new_lines,
        seq![seg],
        1,
        at + seg.new_lines.len(),
    ) == Ok::<Seq<Seq<char>>, Seq<char>>(before + seg.new_lines));
}

/// A hunk whose old lines stand nowhere is refused, and so is one without
/// anchors whose old lines stand at two places.
pub proof fn law_hunk_without_its_place_is_refused(
    lines: Seq<Seq<char>>,
    seg: SegmentView,
    segments: Seq<SegmentView>,
    a: int,
    b: int,
)
    requires
        segments.len() > 0,
        segments[0] == seg,
        seg.anchors.len() == 0,
        !seg.eof,
        seg.old_lines.len() > 0,
        ({
            let n = seg.old_lines.len();
            ||| forall|j: int|
                0 <= j && j + n <= lines.len() ==> #[trigger] lines.subrange(j, j + n) != seg.old_lines
            ||| 0 <= a < b && b + n <= lines.len() && lines.subrange(a, a + n) == seg.old_lines
                && lines.subrange(b, b + n) == seg.old_lines
        }),
    ensures
        apply_from(lines, segments, 0, 0) is Err,
{
    let n = seg.old_lines.len();
    lemma_next_match(lines, seg.old_lines, 0);
    match next_match(lines, seg.old_lines, 0) {
        None => {},
        Some(i) => {
            assert(lines.subrange(i, i + n) == seg.old_lines);
            assert(matches_at(lines, seg.old_lines, b));
            assert(matches_at(lines, seg.old_lines, a));
            assert(i <= a);
            lemma_next_match(lines, seg.old_lines, i + 1);
        },
    }
}

proof fn lemma_context_sides(changes: Seq<Change>, n: int)
    requires
        0 <= n <= changes.len(),
        forall|k: int| 0 <= k < changes.len() ==> (#[trigger] changes[k]).mark == ' ',
    ensures
        side(changes, '+', n) == side(changes, '-', n),
    decreases n,
{
    if n > 0 {
        lemma_context_sides(changes, n - 1);
    }
}

/// An update whose hunks hold nothing but context leaves the text of a file as it
/// was, wherever the hunks fit. The text has no carriage returns.
pub proof fn law_context_only_update_keeps_the_text(content: Seq<char>, hunks: Seq<Hunk>)
    requires
        !content.contains('\r'),
        forall|k: int, i: int|
            #![trigger hunks[k].changes[i]]
            0 <= k < hunks.len() && 0 <= i < hunks[k].changes.len() ==> hunks[k].changes[i].mark
                == ' ',
    ensures
        updated_text(content, Seq::new(hunks.len(), |k: int| hunk_read(hunks[k]))) matches Ok(out)
            ==> out == content,
{
    let segments = Seq::new(hunks.len(), |k: int| hunk_read(hunks[k]));
    assert forall|k: int| 0 <= k < segments.len() implies (#[trigger] segments[k]).old_lines
        == segments[k].new_lines by {
        let changes = hunks[k].changes;
        assert forall|i: int| 0 <= i < changes.len() implies (#[trigger] changes[i]).mark == ' ' by {
            assert(hunks[k].changes[i].mark == ' ');
        }
        lemma_context_sides(changes, changes.len() as int);
    }
    law_context_only_hunks_change_nothing(lines_of(content), segments, 0, 0);
    law_lines_spell_the_text(content);
    reveal_strlit("\n");
    assert("\n"@ =~= seq!['\n']);
    if content.len() > 0 {
        assert(content.skip(content.len() - 1) =~= seq![content.last()]);
        assert(seq![content.last()][0] == content.last());
        assert("\n"@[0] == '\n');
    }
    if let Ok(out) = updated_text(content, segments) {
        assert(out =~= content);
    }
}

/// A patch that does not begin and end with its marks, or says nothing between them, is
/// refused.
pub proof fn law_unmarked_patch_is_refused(patch: Seq<char>)
    ensures
        ({
            let lines = lines_of(trim_of(patch));
            &&& lines.len() == 0 || trim_of(lines[0]) != "*** Begin Patch"@ ==> patch_of(
                patch,
            ) is Err
            &&& lines.len() < 2 || trim_of(lines.last()) != "*** End Patch"@ ==> patch_of(
                patch,
            ) is Err
            &&& lines.len() == 2 ==> patch_of(patch) is Err
        }),
{
}

/// A line where an operation should begin must be a header: any other line that is not
/// blank is refused, and so is a header without a path.
pub proof fn law_operation_needs_its_header(
    lines: Seq<Seq<char>>,
    i: int,
    end: int,
    blanks: Seq<char>,
)
    requires
        0 <= i < end <= lines.len(),
        is_blank(blanks),
    ensures
        !is_blank(lines[i]) && !starts_with(lines[i], "*** Add File: "@) && !starts_with(
            lines[i],
            "*** Delete File: "@,
        ) && !starts_with(lines[i], "*** Update File: "@) ==> operation_at(lines, i, end) is Err,
        lines[i] == "*** Add File: "@ + blanks ==> operation_at(lines, i, end) is Err,
        lines[i] == "*** Delete File: "@ + blanks ==> operation_at(lines, i, end) is Err,
        lines[i] == "*** Update File: "@ + blanks ==> operation_at(lines, i, end) is Err,
{
    lemma_literals();
    reveal_strlit("*** Add File: ");
    reveal_strlit("*** Delete File: ");
    reveal_strlit("*** Update File: ");
    let line = lines[i];
    law_parts_are_found("*** Add File: "@, blanks, Seq::empty());
    law_parts_are_found("*** Delete File: "@, blanks, Seq::empty());
    law_parts_are_found("*** Update File: "@, blanks, Seq::empty());
    if line == "*** Add File: "@ + blanks {
        assert(line.skip(14) =~= blanks);
    }
    if line == "*** Delete File: "@ + blanks {
        assert(line.skip(17) =~= blanks);
        assert(line.take(14)[4] == line[4]);
        assert(line[4] == 'D');
    }
    if line == "*** Update File: "@ + blanks {
        assert(line.skip(17) =~= blanks);
        assert(line.take(14)[4] == line[4]);
        assert(line.take(17)[4] == line[4]);
        assert(line[4] == 'U');
    }
}

/// A line of an added file that has no plus in front is refused, and so is an added
/// file without lines.
pub proof fn law_added_file_has_lines_with_a_plus(
    lines: Seq<Seq<char>>,
    i: int,
    end: int,
    path: Seq<char>,
)
    requires
        0 <= i < end <= lines.len(),
    ensures
        i + 1 < end && !operation_header(lines[i + 1]) && (lines[i + 1].len() == 0 || lines[i
            + 1][0] != '+') ==> add_file_at(lines, i, end, path) is Err,
        i + 1 == end || operation_header(lines[i + 1]) ==> add_file_at(lines, i, end, path) is Err,
{
    reveal_strlit("+");
    if i + 1 < end && !operation_header(lines[i + 1]) {
        lemma_body_goes_on(lines, i + 1, end);
        let line = lines[i + 1];
        if line.len() == 0 || line[0] != '+' {
            assert(!starts_with(line, "+"@)) by {
                if line.len() > 0 {
                    assert(line.take(1)[0] == line[0]);
                }
            }
            assert(i < i + 1 < body_end(lines, i + 1, end) && !starts_with(lines[i + 1], "+"@));
        }
    }
}

proof fn lemma_body_goes_on(lines: Seq<Seq<char>>, i: int, end: int)
    requires
        0 <= i < end <= lines.len(),
        !operation_header(lines[i]),
    ensures
        body_end(lines, i, end) > i,
{
    lemma_body_end_is_not_before(lines, i + 1, end);
}

proof fn lemma_body_end_is_not_before(lines: Seq<Seq<char>>, i: int, end: int)
    requires
        0 <= i <= end <= lines.len(),
    ensures
        body_end(lines, i, end) >= i,
    decreases end - i,
{
    if i < end && !operation_header(lines[i]) {
        lemma_body_end_is_not_before(lines, i + 1, end);
    }
}

/// A line of an update that is no change is refused, and so is a change in front of the
/// first hunk.
pub proof fn law_update_needs_its_changes(
    lines: Seq<Seq<char>>,
    i: int,
    end: int,
    body: UpdateBody,
)
    requires
        0 <= i < end <= lines.len(),
        !operation_header(lines[i]),
        lines[i] != "*** End of File"@,
        lines[i] != "@@"@ && !starts_with(lines[i], "@@ "@),
    ensures
        !body.current.started ==> update_body(lines, i, end, body) is Err,
        lines[i].len() == 0 || (lines[i][0] != ' ' && lines[i][0] != '-' && lines[i][0] != '+')
            ==> update_body(lines, i, end, body) is Err,
{
}

/// An update without a line behind its header is refused.
pub proof fn law_empty_update_is_refused(
    lines: Seq<Seq<char>>,
    i: int,
    end: int,
    path: Seq<char>,
)
    requires
        0 <= i < end <= lines.len(),
        i + 1 == end || (operation_header(lines[i + 1]) && !starts_with(
            lines[i + 1],
            "*** Move to: "@,
        )),
    ensures
        update_file_at(lines, i, end, path) is Err,
{
}

/// A hunk whose anchor stands nowhere behind the place reached, or at two places there,
/// is refused.
pub proof fn law_anchor_must_stand_once(
    lines: Seq<Seq<char>>,
    segments: Seq<SegmentView>,
    a: int,
    b: int,
)
    requires
        segments.len() > 0,
        segments[0].anchors.len() > 0,
        ({
            let anchor = segments[0].anchors[0];
            ||| !lines.contains(anchor)
            ||| 0 <= a < b < lines.len() && lines[a] == anchor && lines[b] == anchor
        }),
    ensures
        apply_from(lines, segments, 0, 0) is Err,
{
    let anchor = segments[0].anchors[0];
    let needle = seq![anchor];
    lemma_next_match(lines, needle, 0);
    if let Some(i) = next_match(lines, needle, 0) {
        assert(lines.subrange(i, i + 1)[0] == lines[i]);
        assert(lines[i] == anchor);
        assert(lines.subrange(b, b + 1) =~= needle);
        assert(lines.subrange(a, a + 1) =~= needle);
        assert(matches_at(lines, needle, a));
        assert(matches_at(lines, needle, b));
        assert(i <= a);
        lemma_next_match(lines, needle, i + 1);
    }
}

/// A hunk that ends the file is refused where the file does not end with its old lines.
pub proof fn law_end_must_be_the_end(lines: Seq<Seq<char>>, seg: SegmentView)
    requires
        seg.eof,
        seg.anchors.len() == 0,
        seg.old_lines.len() > lines.len() || lines.skip(lines.len() - seg.old_lines.len())
            != seg.old_lines,
    ensures
        apply_from(lines, seq![seg], 0, 0) is Err,
{
    let n = seg.old_lines.len();
    if n <= lines.len() {
        assert(lines.subrange(lines.len() - n, lines.len() as int) =~= lines.skip(lines.len() - n));
    }
    assert(seq![seg][0] == seg);
}

/// A hunk of new lines alone puts them where the hunks before it ended.
pub proof fn law_new_lines_alone_are_put_in(
    lines: Seq<Seq<char>>,
    seg: SegmentView,
    cursor: int,
)
    requires
        0 <= cursor <= lines.len(),
        !seg.eof,
        seg.anchors.len() == 0,
        seg.old_lines.len() == 0,
    ensures
        apply_from(lines, seq![seg], 0, cursor) == Ok::<Seq<Seq<char>>, Seq<char>>(
            lines.take(cursor) + seg.new_lines + lines.skip(cursor),
        ),
{
    assert(seq![seg][0] == seg);
    let out = lines.take(cursor) + seg.new_lines + lines.skip(cursor);
    assert(apply_from(out, seq![seg], 1, cursor + seg.new_lines.len()) == Ok::<
        Seq<Seq<char>>,
        Seq<char>,
    >(out));
}

/// The text of a file is its lines after the hunks; it ends with a line feed if it did
/// before.
pub proof fn law_updated_text_is_its_lines(
    content: Seq<char>,
    segments: Seq<SegmentView>,
    lines: Seq<Seq<char>>,
)
    requires
        apply_from(lines_of(content), segments, 0, 0) == Ok::<Seq<Seq<char>>, Seq<char>>(lines),
    ensures
        content.len() > 0 && content.last() == '\n' ==> updated_text(content, segments) == Ok::<
            Seq<char>,
            Seq<char>,
        >(join_of(lines, "\n"@) + "\n"@),
        content.len() == 0 || content.last() != '\n' ==> updated_text(content, segments) == Ok::<
            Seq<char>,
            Seq<char>,
        >(join_of(lines, "\n"@)),
{
    reveal_strlit("\n");
    assert("\n"@ =~= seq!['\n']);
    if content.len() > 0 {
        assert(content.skip(content.len() - 1) =~= seq![content.last()]);
        assert(seq![content.last()][0] == content.last());
        assert("\n"@[0] == '\n');
    }
}

} // verus!
