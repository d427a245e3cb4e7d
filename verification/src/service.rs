//! The sessions of an agent.

use crate::json::{
    clone_items, compact_json, compact_text, fields, is_braced, is_one_line, is_read_as, json_read,
    json_views, lemma_json_views, lemma_json_views_push, no_members, parse_json, put, put_text,
    read_result, reads_back, tree, written, Json, Jv, Member, Tree,
};
use crate::order::{is_arrangement, is_sorted_by, sort_order};
use crate::session::{MetaView, SessionMetaPayload};
use crate::text::{
    cat2, cat3, lemma_lines_appended, lemma_texts_push, lines, lines_of, opt_str, opt_text, str_eq, texts, trim, trim_of,
};
use vstd::prelude::*;

verus! {

/// What the stored data of sessions say.
pub open spec fn meta_views(v: Seq<SessionMetaPayload>) -> Seq<MetaView> {
    Seq::new(v.len(), |i: int| v[i]@)
}

/// Whether a session belongs to a list: one that is asked for a directory
/// holds the sessions of that directory.
pub open spec fn in_directory(m: MetaView, cwd: Option<Seq<char>>) -> bool {
    cwd is None || cwd == Some(m.cwd)
}

/// Whether the `i`-th data count: they belong to the list, and no later data
/// of the same session do.
pub open spec fn counts(all: Seq<MetaView>, cwd: Option<Seq<char>>, i: int) -> bool {
    &&& in_directory(all[i], cwd)
    &&& forall|j: int|
        i < j < all.len() && in_directory(#[trigger] all[j], cwd) ==> all[j].session_id
            != all[i].session_id
}

/// The data that count, from `i` on.
pub open spec fn survivors(all: Seq<MetaView>, cwd: Option<Seq<char>>, i: int) -> Seq<MetaView>
    decreases all.len() - i,
{
    if i < 0 || i >= all.len() {
        Seq::empty()
    } else if counts(all, cwd, i) {
        seq![all[i]] + survivors(all, cwd, i + 1)
    } else {
        survivors(all, cwd, i + 1)
    }
}

/// By what a list of sessions is ordered: the time of the last change.
pub open spec fn change_times(v: Seq<MetaView>) -> Seq<Seq<char>> {
    Seq::new(
        v.len(),
        |i: int|
            match v[i].updated_at {
                Some(t) => t,
                None => ""@,
            },
    )
}

/// Whether `list` holds the sessions of `kept`, the one changed last first.
pub open spec fn newest_first(list: Seq<MetaView>, kept: Seq<MetaView>) -> bool {
    exists|order: Seq<usize>|
        {
            &&& #[trigger] is_arrangement(order, kept.len())
            &&& is_sorted_by(order, change_times(kept), true)
            &&& list == Seq::new(kept.len(), |k: int| kept[order[k] as int])
        }
}

fn copy_text(v: &Option<String>) -> (r: Option<String>)
    ensures
        opt_text(r) == opt_text(*v),
{
    match v {
        Some(s) => Some(s.clone()),
        None => None,
    }
}

impl SessionMetaPayload {
    /// A copy of the data.
    pub fn copy(&self) -> (r: Self)
        ensures
            r@ == self@,
    {
        SessionMetaPayload {
            session_id: self.session_id.clone(),
            cwd: self.cwd.clone(),
            title: copy_text(&self.title),
            model_id: self.model_id.clone(),
            mode_id: self.mode_id,
            state: self.state,
            stop_reason: self.stop_reason,
            updated_at: copy_text(&self.updated_at),
            max_running_turn: self.max_running_turn,
            runtime_tools: self.runtime_tools,
            tool_schemas: clone_items(&self.tool_schemas),
            pending_model_id: copy_text(&self.pending_model_id),
            reasoning_mode: self.reasoning_mode,
            pending_reasoning_mode: self.pending_reasoning_mode,
        }
    }
}

fn belongs(m: &SessionMetaPayload, cwd: Option<&str>) -> (r: bool)
    ensures
        r == in_directory(m@, opt_str(cwd)),
{
    match cwd {
        None => true,
        Some(c) => str_eq(m.cwd.as_str(), c),
    }
}

fn is_current(all: &Vec<SessionMetaPayload>, cwd: Option<&str>, i: usize) -> (r: bool)
    requires
        i < all@.len(),
    ensures
        r == counts(meta_views(all@), opt_str(cwd), i as int),
{
    let ghost views = meta_views(all@);
    let ghost filter = opt_str(cwd);
    if !belongs(&all[i], cwd) {
        return false;
    }
    proof {
        assert(all.len() == all@.len());
    }
    let mut j: usize = i + 1;
    while j < all.len()
        invariant
            i < j <= all@.len(),
            views == meta_views(all@),
            filter == opt_str(cwd),
            in_directory(views[i as int], filter),
            forall|k: int|
                i < k < j && in_directory(#[trigger] views[k], filter) ==> views[k].session_id
                    != views[i as int].session_id,
        decreases all@.len() - j,
    {
        if belongs(&all[j], cwd) && str_eq(all[j].session_id.as_str(), all[i].session_id.as_str()) {
            proof {
                assert(views[j as int] == all@[j as int]@);
            }
            return false;
        }
        j += 1;
    }
    true
}

proof fn lemma_survivors_step(all: Seq<MetaView>, cwd: Option<Seq<char>>, i: int, head: Seq<MetaView>)
    requires
        0 <= i < all.len(),
    ensures
        counts(all, cwd, i) ==> head + survivors(all, cwd, i) == head.push(all[i]) + survivors(
            all,
            cwd,
            i + 1,
        ),
        !counts(all, cwd, i) ==> survivors(all, cwd, i) == survivors(all, cwd, i + 1),
{
    if counts(all, cwd, i) {
        assert(head + survivors(all, cwd, i) =~= head.push(all[i]) + survivors(all, cwd, i + 1));
    }
}

/// Lists sessions, the one changed last first: those of a directory, or all.
/// `all` holds what is stored of them, and behind it the live ones; where a
/// session occurs more than once, the last counts.
pub fn list_sessions(all: &Vec<SessionMetaPayload>, cwd: Option<&str>) -> (r: Vec<
    SessionMetaPayload,
>)
    ensures
        newest_first(meta_views(r@), survivors(meta_views(all@), opt_str(cwd), 0)),
{
    let ghost views = meta_views(all@);
    let ghost filter = opt_str(cwd);
    let ghost wanted = survivors(views, filter, 0);
    let mut kept: Vec<usize> = Vec::new();
    let ghost mut kept_views: Seq<MetaView> = Seq::empty();
    let mut keys: Vec<String> = Vec::new();
    let mut i: usize = 0;
    proof {
        assert(kept_views + survivors(views, filter, 0) =~= wanted);
    }
    while i < all.len()
        invariant
            i <= all@.len(),
            views == meta_views(all@),
            filter == opt_str(cwd),
            wanted == survivors(views, filter, 0),
            kept_views + survivors(views, filter, i as int) == wanted,
            kept@.len() == kept_views.len(),
            keys@.len() == kept_views.len(),
            forall|k: int|
                0 <= k < kept@.len() ==> (#[trigger] kept@[k]) < all@.len() && kept_views[k]
                    == views[kept@[k] as int],
            forall|k: int|
                0 <= k < keys@.len() ==> (#[trigger] keys@[k])@ == change_times(kept_views)[k],
        decreases all@.len() - i,
    {
        proof {
            lemma_survivors_step(views, filter, i as int, kept_views);
        }
        if is_current(all, cwd, i) {
            let key = match &all[i].updated_at {
                Some(t) => t.clone(),
                None => "".to_owned(),
            };
            kept.push(i);
            keys.push(key);
            proof {
                kept_views = kept_views.push(views[i as int]);
            }
        }
        i += 1;
    }
    proof {
        assert(kept_views + survivors(views, filter, i as int) =~= kept_views);
        assert(texts(keys@) =~= change_times(wanted));
    }
    let order = sort_order(&keys, true);
    let mut r: Vec<SessionMetaPayload> = Vec::new();
    let mut k: usize = 0;
    while k < order.len()
        invariant
            k <= order@.len(),
            views == meta_views(all@),
            is_arrangement(order@, kept@.len()),
            kept@.len() == wanted.len(),
            forall|k: int|
                0 <= k < kept@.len() ==> (#[trigger] kept@[k]) < all@.len() && wanted[k]
                    == views[kept@[k] as int],
            r@.len() == k,
            forall|j: int| 0 <= j < k ==> (#[trigger] r@[j])@ == wanted[order@[j] as int],
        decreases order@.len() - k,
    {
        proof {
            assert(order@[k as int] < kept@.len());
            assert(kept@[order@[k as int] as int] < all@.len());
        }
        r.push(all[kept[order[k]]].copy());
        k += 1;
    }
    proof {
        assert(meta_views(r@) =~= Seq::new(wanted.len(), |k: int| wanted[order@[k] as int]));
        assert(is_arrangement(order@, wanted.len()));
    }
    r
}

/// Whether data are among those that count, from `i` on.
pub open spec fn counts_somewhere(all: Seq<MetaView>, cwd: Option<Seq<char>>, i: int, m: MetaView) -> bool {
    exists|j: int| i <= j < all.len() && #[trigger] counts(all, cwd, j) && all[j] == m
}

/// In a list every session occurs once, and with the last data of it that
/// belong to the list.
pub proof fn law_sessions_are_listed_once(all: Seq<MetaView>, cwd: Option<Seq<char>>, i: int)
    requires
        0 <= i <= all.len(),
    ensures
        forall|a: int, b: int|
            #![trigger survivors(all, cwd, i)[a], survivors(all, cwd, i)[b]]
            0 <= a < b < survivors(all, cwd, i).len() ==> survivors(all, cwd, i)[a].session_id
                != survivors(all, cwd, i)[b].session_id,
        forall|a: int|
            0 <= a < survivors(all, cwd, i).len() ==> counts_somewhere(
                all,
                cwd,
                i,
                #[trigger] survivors(all, cwd, i)[a],
            ),
    decreases all.len() - i,
{
    if i < all.len() {
        law_sessions_are_listed_once(all, cwd, i + 1);
        let s = survivors(all, cwd, i);
        let t = survivors(all, cwd, i + 1);
        let shift: int = if counts(all, cwd, i) {
            1
        } else {
            0
        };
        assert forall|a: int| 0 <= a < s.len() implies counts_somewhere(
            all,
            cwd,
            i,
            #[trigger] s[a],
        ) by {
            if a < shift {
                assert(counts(all, cwd, i) && all[i] == s[a]);
            } else {
                assert(s[a] == t[a - shift]);
                assert(counts_somewhere(all, cwd, i + 1, t[a - shift]));
            }
        }
        assert forall|a: int, b: int| 0 <= a < b < s.len() implies #[trigger] s[a].session_id
            != #[trigger] s[b].session_id by {
            assert(s[b] == t[b - shift]);
            assert(counts_somewhere(all, cwd, i + 1, t[b - shift]));
            if a >= shift {
                assert(s[a] == t[a - shift]);
            }
        }
    }
}

/// The JSON texts of a transcript: its lines without surrounding white space,
/// without the blank ones.
pub open spec fn transcript_texts(lines: Seq<Seq<char>>, n: nat) -> Seq<Seq<char>>
    decreases n,
{
    if n == 0 || n > lines.len() {
        Seq::empty()
    } else {
        let before = transcript_texts(lines, (n - 1) as nat);
        let line = trim_of(lines[n - 1]);
        if line.len() == 0 {
            before
        } else {
            before.push(line)
        }
    }
}

/// Splits a transcript into the JSON texts of its events.
pub fn transcript_lines(raw: &str) -> (r: Vec<String>)
    ensures
        texts(r@) == transcript_texts(
            lines_of(raw@),
            lines_of(raw@).len(),
        ),
{
    let all_lines = lines(raw);
    let ghost all = lines_of(raw@);
    let mut r: Vec<String> = Vec::new();
    let mut i: usize = 0;
    proof {
        assert(texts(r@) =~= Seq::empty());
    }
    while i < all_lines.len()
        invariant
            i <= all_lines@.len(),
            all == lines_of(raw@),
            texts(all_lines@) == all,
            texts(r@) == transcript_texts(all, i as nat),
        decreases all_lines@.len() - i,
    {
        proof {
            assert(texts(all_lines@)[i as int] == all_lines@[i as int]@);
        }
        let text = trim(all_lines[i].as_str());
        if !text.is_empty() {
            let owned = text.to_owned();
            proof {
                lemma_texts_push(r@, owned);
            }
            r.push(owned);
        }
        i += 1;
    }
    r
}

/// What a line of a transcript holds, by what was read of it; `display` names
/// the file in an error.
pub open spec fn event_of(read: Result<Jv, Seq<char>>, display: Seq<char>) -> Result<Jv, Seq<char>> {
    match read {
        Ok(v) => Ok(v),
        Err(e) => Err("parse JSONL line in "@ + display + ": "@ + e),
    }
}

/// Takes the event out of what was read of a line of a transcript.
pub fn check_transcript_line(read: Result<Json, String>, display: &str) -> (r: Result<Json, String>)
    ensures
        read_result(r) == event_of(read_result(read), display@),
        read is Ok ==> r == read,
{
    match read {
        Ok(v) => Ok(v),
        Err(e) => Err(cat2(cat3("parse JSONL line in ", display, ": ").as_str(), e.as_str())),
    }
}

/// The events of the first `n` texts; the first that is no JSON is an error.
pub open spec fn events_read(texts: Seq<Seq<char>>, n: nat, display: Seq<char>) -> Result<
    Seq<Jv>,
    Seq<char>,
>
    decreases n,
{
    if n == 0 || n > texts.len() {
        Ok(Seq::empty())
    } else {
        match events_read(texts, (n - 1) as nat, display) {
            Err(e) => Err(e),
            Ok(before) => match event_of(json_read(texts[n - 1]), display) {
                Ok(v) => Ok(before.push(v)),
                Err(e) => Err(e),
            },
        }
    }
}

proof fn lemma_events_fail(texts: Seq<Seq<char>>, i: nat, n: nat, display: Seq<char>)
    requires
        i <= n <= texts.len(),
        events_read(texts, i, display) is Err,
    ensures
        events_read(texts, n, display) == events_read(texts, i, display),
    decreases n,
{
    if i < n {
        lemma_events_fail(texts, i, (n - 1) as nat, display);
    }
}

/// The events of a transcript, or what is wrong with it.
pub open spec fn transcript_events(raw: Seq<char>, display: Seq<char>) -> Result<
    Seq<Jv>,
    Seq<char>,
> {
    let t = transcript_texts(lines_of(raw), lines_of(raw).len());
    events_read(t, t.len(), display)
}

/// Reads the events of a transcript; `display` names the file in an error.
pub fn read_transcript(raw: &str, display: &str) -> (r: Result<Vec<Json>, String>)
    ensures
        match transcript_events(raw@, display@) {
            Ok(vs) => r matches Ok(v) && json_views(v@) == vs,
            Err(m) => r matches Err(e) && e@ == m,
        },
{
    let found = transcript_lines(raw);
    let ghost t = transcript_texts(lines_of(raw@), lines_of(raw@).len());
    let mut out: Vec<Json> = Vec::new();
    let mut i: usize = 0;
    proof {
        lemma_json_views(out@);
        assert(json_views(out@) =~= Seq::empty());
    }
    while i < found.len()
        invariant
            i <= found@.len(),
            t == transcript_texts(lines_of(raw@), lines_of(raw@).len()),
            texts(found@) == t,
            events_read(t, i as nat, display@) == Ok::<Seq<Jv>, Seq<char>>(json_views(out@)),
        decreases found@.len() - i,
    {
        proof {
            assert(texts(found@)[i as int] == found@[i as int]@);
        }
        match check_transcript_line(parse_json(found[i].as_str()), display) {
            Ok(v) => {
                proof {
                    lemma_json_views_push(out@, v);
                }
                out.push(v);
            },
            Err(e) => {
                proof {
                    lemma_events_fail(t, (i + 1) as nat, t.len(), display@);
                }
                return Err(e);
            },
        }
        i += 1;
    }
    Ok(out)
}

/// An event of a transcript.
pub open spec fn event_json(now: Seq<char>, update: Map<Seq<char>, Jv>) -> Jv {
    Jv::Object(
        Map::<Seq<char>, Jv>::empty().insert("updated_at"@, Jv::Text(now)).insert(
            "update"@,
            Jv::Object(update),
        ),
    )
}

/// An event of a transcript as it is written down.
pub open spec fn event_tree(now: Seq<char>, update: Seq<(Seq<char>, Tree)>) -> Tree {
    Tree::Object(seq![("updated_at"@, Tree::Text(now)), ("update"@, Tree::Object(update))])
}

/// An event of a transcript: an update, and when it came.
pub fn transcript_event(now: &str, update: Vec<Member>) -> (r: Json)
    ensures
        r is Object,
        r@ == event_json(now@, fields(update@)),
        tree(r) == event_tree(now@, written(update@)),
{
    let mut m = no_members();
    put_text(&mut m, "updated_at", now);
    put(&mut m, "update", Json::Object(update));
    proof {
        assert(written(m@) =~= event_tree(now@, written(update@))->Object_0);
    }
    Json::Object(m)
}

/// Whether a text is the line of an event: it stands on one line, and the event
/// is what is read of it.
pub open spec fn tells_event(line: Seq<char>, event: Jv) -> bool {
    &&& is_one_line(line)
    &&& is_braced(line)
    &&& is_read_as(line, event)
}

/// The line that a transcript gets for an event.
pub fn transcript_line(event: &Json) -> (r: String)
    ensures
        r@ == compact_text(tree(*event)) + "\n"@,
        event is Object && reads_back(tree(*event)) ==> tells_event(
            compact_text(tree(*event)),
            event@,
        ),
{
    cat2(compact_json(event).as_str(), "\n")
}

proof fn lemma_texts_of_prefix(a: Seq<Seq<char>>, b: Seq<Seq<char>>, n: nat)
    requires
        n <= a.len(),
        n <= b.len(),
        forall|i: int| 0 <= i < n ==> a[i] == b[i],
    ensures
        transcript_texts(a, n) == transcript_texts(b, n),
    decreases n,
{
    if n > 0 {
        lemma_texts_of_prefix(a, b, (n - 1) as nat);
    }
}

proof fn lemma_events_of_prefix(a: Seq<Seq<char>>, b: Seq<Seq<char>>, n: nat, display: Seq<char>)
    requires
        n <= a.len(),
        n <= b.len(),
        forall|i: int| 0 <= i < n ==> a[i] == b[i],
    ensures
        events_read(a, n, display) == events_read(b, n, display),
    decreases n,
{
    if n > 0 {
        lemma_events_of_prefix(a, b, (n - 1) as nat, display);
    }
}

/// A transcript to which the line of an event is appended is read as before,
/// with that event last. Its text is empty, or its last line has ended.
pub proof fn law_appended_event_is_read_last(
    raw: Seq<char>,
    line: Seq<char>,
    event: Jv,
    display: Seq<char>,
)
    requires
        raw.len() > 0 ==> raw.last() == '\n',
        tells_event(line, event),
    ensures
        transcript_events(raw + line + "\n"@, display) == match transcript_events(raw, display) {
            Ok(events) => Ok::<Seq<Jv>, Seq<char>>(events.push(event)),
            Err(e) => Err(e),
        },
{
    let before = lines_of(raw);
    let after = lines_of(raw + line + "\n"@);
    let n = before.len();
    assert(!line.contains('\n')) by {
        if line.contains('\n') {
            let i = choose|i: int| 0 <= i < line.len() && line[i] == '\n';
            assert('\u{20}' <= line[i]);
        }
    }
    lemma_lines_appended(raw, line);
    assert(after == before.push(line));
    lemma_texts_of_prefix(after, before, n);
    assert(trim_of(line) == line);
    let t = transcript_texts(before, n);
    assert(transcript_texts(after, after.len()) == t.push(line));
    lemma_events_of_prefix(t.push(line), t, t.len(), display);
}

/// A transcript is read whole or not at all: of one that is read, each text
/// gives its event, in order.
pub proof fn law_transcript_is_read_whole(texts: Seq<Seq<char>>, n: nat, display: Seq<char>)
    requires
        n <= texts.len(),
    ensures
        match events_read(texts, n, display) {
            Ok(events) => events.len() == n && forall|i: int|
                0 <= i < n ==> json_read(#[trigger] texts[i]) == Ok::<Jv, Seq<char>>(events[i]),
            Err(_) => exists|i: int| 0 <= i < n && json_read(#[trigger] texts[i]) is Err,
        },
    decreases n,
{
    if n > 0 {
        law_transcript_is_read_whole(texts, (n - 1) as nat, display);
        if events_read(texts, (n - 1) as nat, display) is Ok {
            assert(json_read(texts[n - 1]) is Ok || json_read(texts[n - 1]) is Err);
        }
    }
}

/// A session of the directory is listed, by its last entry.
pub proof fn law_session_is_listed(all: Seq<MetaView>, cwd: Option<Seq<char>>, i: int, j: int)
    requires
        0 <= i <= j < all.len(),
        cwd is None || cwd == Some(all[j].cwd),
        forall|k: int|
            j < k < all.len() && (cwd is None || cwd == Some((#[trigger] all[k]).cwd))
                ==> all[k].session_id != all[j].session_id,
    ensures
        survivors(all, cwd, i).contains(all[j]),
    decreases j - i,
{
    let s = survivors(all, cwd, i);
    if i == j {
        assert(counts(all, cwd, j));
        assert(s[0] == all[j]);
    } else {
        law_session_is_listed(all, cwd, i + 1, j);
        let rest = survivors(all, cwd, i + 1);
        let k = choose|k: int| 0 <= k < rest.len() && rest[k] == all[j];
        if counts(all, cwd, i) {
            assert(s[k + 1] == all[j]);
        } else {
            assert(s[k] == all[j]);
        }
    }
}

/// Only sessions of the directory are listed, where one is asked for.
pub proof fn law_only_the_directory_is_listed(all: Seq<MetaView>, cwd: Seq<char>, i: int, a: int)
    requires
        0 <= i <= all.len(),
        0 <= a < survivors(all, Some(cwd), i).len(),
    ensures
        survivors(all, Some(cwd), i)[a].cwd == cwd,
        exists|j: int| i <= j < all.len() && #[trigger] all[j] == survivors(all, Some(cwd), i)[a],
    decreases all.len() - i,
{
    let s = survivors(all, Some(cwd), i);
    let rest = survivors(all, Some(cwd), i + 1);
    if i < all.len() {
        if counts(all, Some(cwd), i) {
            if a == 0 {
                assert(s[a] == all[i]);
            } else {
                assert(s[a] == rest[a - 1]);
                law_only_the_directory_is_listed(all, cwd, i + 1, a - 1);
            }
        } else {
            law_only_the_directory_is_listed(all, cwd, i + 1, a);
        }
    }
}

/// An event is kept with the time that it was told.
pub proof fn law_event_keeps_its_time(now: Seq<char>, update: Map<Seq<char>, Jv>)
    ensures
        event_json(now, update) == Jv::Object(
            map!["updated_at"@ => Jv::Text(now), "update"@ => Jv::Object(update)],
        ),
{
}

/// A transcript that cannot be read says where and why.
pub proof fn law_broken_transcript_says_where(e: Seq<char>, display: Seq<char>)
    ensures
        event_of(Err(e), display) == Err::<Jv, Seq<char>>(
            "parse JSONL line in "@ + display + ": "@ + e,
        ),
{
}

/// A list is made of the sessions that are kept, each as often as it is kept, and the
/// one that changed last stands first.
pub proof fn law_list_holds_what_is_kept(list: Seq<MetaView>, kept: Seq<MetaView>, a: int)
    requires
        newest_first(list, kept),
    ensures
        list.len() == kept.len(),
        0 <= a < list.len() ==> kept.contains(list[a]),
{
    let order = choose|order: Seq<usize>|
        {
            &&& #[trigger] is_arrangement(order, kept.len())
            &&& is_sorted_by(order, change_times(kept), true)
            &&& list == Seq::new(kept.len(), |k: int| kept[order[k] as int])
        };
    if 0 <= a < list.len() {
        assert(list[a] == kept[order[a] as int]);
    }
}

/// An event is written with its time first and what happened behind it.
pub proof fn law_event_is_written_with_its_time(now: Seq<char>, update: Seq<(Seq<char>, Tree)>)
    ensures
        event_tree(now, update) matches Tree::Object(m) && m.len() == 2 && m[0].0 == "updated_at"@
            && m[0].1 == Tree::Text(now) && m[1].0 == "update"@ && m[1].1 == Tree::Object(update),
{
}

} // verus!
