//! How often the models were called, and for how many tokens, day by day.

use crate::days::{date_read, day_map, days_go_up, parse_date, DayEntry, DayTable};
use crate::file_edit::utf8_text;
use crate::json::{
    as_count, as_text, field, json_read, json_views, lemma_json_views, parse_json, text_field, Json,
    Jv,
};
use crate::text::{lines, lines_of, opt_str, str_eq, texts};
use vstd::prelude::*;
use vstd::utf8::{decode_utf8, encode_utf8, valid_utf8};

verus! {

/// The date that a time stamp begins with: its first ten bytes.
pub open spec fn date_text(stamp: Seq<char>) -> Option<Seq<char>> {
    let bytes = encode_utf8(stamp);
    if bytes.len() < 10 || !valid_utf8(bytes.take(10)) {
        None
    } else {
        Some(decode_utf8(bytes.take(10)))
    }
}

/// The day of a time stamp.
pub open spec fn stamp_day(stamp: Seq<char>) -> Option<int> {
    match date_text(stamp) {
        Some(s) => date_read(s),
        None => None,
    }
}

/// A day as a number.
pub open spec fn opt_day(d: Option<i32>) -> Option<int> {
    match d {
        Some(d) => Some(d as int),
        None => None,
    }
}

/// The day of a time stamp.
pub fn parse_date_prefix(value: &str) -> (r: Option<i32>)
    ensures
        opt_day(r) == stamp_day(value@),
{
    let bytes = value.as_bytes();
    if bytes.len() < 10 {
        return None;
    }
    let mut head: Vec<u8> = Vec::new();
    let mut i: usize = 0;
    while i < 10
        invariant
            i <= 10,
            bytes@.len() >= 10,
            head@ == bytes@.take(i as int),
        decreases 10 - i,
    {
        proof {
            assert(bytes@.take(i + 1) =~= bytes@.take(i as int).push(bytes@[i as int]));
        }
        head.push(bytes[i]);
        i += 1;
    }
    match utf8_text(&head) {
        Some(s) => parse_date(s.as_str()),
        None => None,
    }
}

/// The day of a directory `year/month/day`, by the names of its parts.
pub fn session_dir_date(year: &str, month: &str, day: &str) -> (r: Option<i32>)
    ensures
        opt_day(r) == date_read(year@ + "-"@ + month@ + "-"@ + day@),
{
    parse_date(crate::text::cat5(year, "-", month, "-", day).as_str())
}

/// The day of a session: that of its time stamp, or else that of its
/// directory.
pub fn session_date(updated_at: Option<&str>, dir_date: Option<i32>) -> (r: Option<i32>)
    ensures
        opt_day(r) == match opt_str(updated_at) {
            Some(s) => match stamp_day(s) {
                Some(d) => Some(d),
                None => opt_day(dir_date),
            },
            None => opt_day(dir_date),
        },
{
    match updated_at {
        Some(s) => match parse_date_prefix(s) {
            Some(d) => Some(d),
            None => dir_date,
        },
        None => dir_date,
    }
}

/// What an event of a transcript tells: its kind, its day and how many tokens
/// were in use.
#[derive(Debug)]
pub struct TranscriptNews {
    pub kind: String,
    pub day: Option<i32>,
    pub used: Option<u64>,
}

/// What an event of a transcript tells.
#[verifier::ext_equal]
pub ghost struct NewsView {
    pub kind: Seq<char>,
    pub day: Option<int>,
    pub used: Option<int>,
}

impl View for TranscriptNews {
    type V = NewsView;

    open spec fn view(&self) -> NewsView {
        NewsView {
            kind: self.kind@,
            day: opt_day(self.day),
            used: match self.used {
                Some(n) => Some(n as int),
                None => None,
            },
        }
    }
}

/// What a list of events tells.
pub open spec fn news_views(news: Seq<TranscriptNews>) -> Seq<NewsView> {
    Seq::new(news.len(), |i: int| news[i]@)
}

/// A member of a member.
pub open spec fn inner_field(v: Jv, outer: Seq<char>, inner: Seq<char>) -> Option<Jv> {
    match field(v, outer) {
        Some(x) => field(x, inner),
        None => None,
    }
}

/// The kind of an event of a transcript.
pub open spec fn update_kind(v: Jv) -> Seq<char> {
    match as_text(inner_field(v, "update"@, "session_update"@)) {
        Some(s) => s,
        None => ""@,
    }
}

/// What an event of a transcript tells.
pub open spec fn news_of(v: Jv) -> NewsView {
    NewsView {
        kind: update_kind(v),
        day: match text_field(v, "updated_at"@) {
            Some(s) => stamp_day(s),
            None => None,
        },
        used: as_count(inner_field(v, "update"@, "used"@)),
    }
}

/// The kind of an event of a transcript.
pub fn transcript_update_type(value: &Json) -> (r: &str)
    ensures
        r@ == update_kind(value@),
{
    match value.get("update") {
        Some(update) => update.str_or("session_update", ""),
        None => "",
    }
}

/// The day of an event of a transcript.
pub fn transcript_date(value: &Json) -> (r: Option<i32>)
    ensures
        opt_day(r) == news_of(value@).day,
{
    match value.get_str("updated_at") {
        Some(s) => parse_date_prefix(s),
        None => None,
    }
}

/// What an event of a transcript tells.
pub fn read_news(value: &Json) -> (r: TranscriptNews)
    ensures
        r@ == news_of(value@),
{
    let used = match value.get("update") {
        Some(update) => match update.get("used") {
            Some(n) => n.as_u64(),
            None => None,
        },
        None => None,
    };
    TranscriptNews {
        kind: transcript_update_type(value).to_owned(),
        day: transcript_date(value),
        used,
    }
}

/// What the first `n` lines of a transcript tell; a line that cannot be read
/// tells nothing.
pub open spec fn news_of_lines(lines: Seq<Seq<char>>, n: nat) -> Seq<NewsView>
    decreases n,
{
    if n == 0 || n > lines.len() {
        Seq::empty()
    } else {
        let before = news_of_lines(lines, (n - 1) as nat);
        match json_read(lines[n - 1]) {
            Ok(v) => before.push(news_of(v)),
            Err(_) => before,
        }
    }
}

/// What a transcript tells.
pub open spec fn transcript_news_of(text: Seq<char>) -> Seq<NewsView> {
    news_of_lines(lines_of(text), lines_of(text).len())
}

/// What a transcript tells.
pub fn transcript_news(text: &str) -> (r: Vec<TranscriptNews>)
    ensures
        news_views(r@) == transcript_news_of(text@),
{
    let all = lines(text);
    let mut news: Vec<TranscriptNews> = Vec::new();
    let mut i: usize = 0;
    proof {
        assert(news_views(news@) =~= Seq::empty());
    }
    while i < all.len()
        invariant
            i <= all@.len(),
            news_views(news@) == news_of_lines(texts(all@), i as nat),
        decreases all@.len() - i,
    {
        proof {
            assert(texts(all@)[i as int] == all@[i as int]@);
        }
        match parse_json(all[i].as_str()) {
            Ok(value) => {
                let item = read_news(&value);
                proof {
                    assert(news_views(news@.push(item)) =~= news_views(news@).push(item@));
                }
                news.push(item);
            },
            Err(_) => {},
        }
        i += 1;
    }
    news
}

/// Whether an event is part of a model call.
pub open spec fn is_call_kind(kind: Seq<char>) -> bool {
    kind == "agent_thought_chunk"@ || kind == "agent_message_chunk"@ || kind == "tool_call"@
}

/// Whether an event is part of a model call.
pub fn is_model_call_event(update_type: &str) -> (r: bool)
    ensures
        r == is_call_kind(update_type@),
{
    str_eq(update_type, "agent_thought_chunk") || str_eq(update_type, "agent_message_chunk")
        || str_eq(update_type, "tool_call")
}

/// Additions by day: what is added to which day, in order.
pub open spec fn additions(v: Seq<DayEntry<u64>>) -> Seq<(int, int)> {
    Seq::new(v.len(), |i: int| (v[i].day as int, v[i].value as int))
}

/// The model calls among the first `n` events: a call is a run of events that
/// are part of one, and counts for the day of its first event.
pub open spec fn call_starts(news: Seq<NewsView>, n: nat) -> Seq<(int, int)>
    decreases n,
{
    if n == 0 || n > news.len() {
        Seq::empty()
    } else {
        let before = call_starts(news, (n - 1) as nat);
        let event = news[n - 1];
        let goes_on = n >= 2 && is_call_kind(news[n - 2].kind);
        if is_call_kind(event.kind) && !goes_on && event.day is Some {
            before.push((event.day->0, 1))
        } else {
            before
        }
    }
}

/// Whether an event tells how many tokens are in use on a day.
pub open spec fn tells_usage(e: NewsView) -> bool {
    e.kind == "usage_update"@ && e.day is Some && e.used is Some
}

/// The last usage among the first `n` events.
pub open spec fn last_usage(news: Seq<NewsView>, n: nat) -> Option<int>
    decreases n,
{
    if n == 0 || n > news.len() {
        None
    } else if tells_usage(news[n - 1]) {
        news[n - 1].used
    } else {
        last_usage(news, (n - 1) as nat)
    }
}

/// The tokens that the first `n` events add: what came to the usage since it
/// was last told, or all of it where it was not told or fell.
pub open spec fn token_steps(news: Seq<NewsView>, n: nat) -> Seq<(int, int)>
    decreases n,
{
    if n == 0 || n > news.len() {
        Seq::empty()
    } else {
        let before = token_steps(news, (n - 1) as nat);
        let event = news[n - 1];
        if tells_usage(event) {
            let used = event.used->0;
            let step = match last_usage(news, (n - 1) as nat) {
                Some(previous) => if used < previous {
                    used
                } else {
                    used - previous
                },
                None => used,
            };
            before.push((event.day->0, step))
        } else {
            before
        }
    }
}

/// What a day has in a table, or nothing.
pub open spec fn total_of(m: Map<int, int>, day: int) -> int {
    if m.contains_key(day) {
        m[day]
    } else {
        0
    }
}

/// The totals of the first `n` additions.
pub open spec fn day_totals(adds: Seq<(int, int)>, n: nat) -> Map<int, int>
    decreases n,
{
    if n == 0 || n > adds.len() {
        Map::empty()
    } else {
        let before = day_totals(adds, (n - 1) as nat);
        let (day, amount) = adds[n - 1];
        before.insert(day, total_of(before, day) + amount)
    }
}

/// Whether no total is greater than `max`.
pub open spec fn totals_fit(m: Map<int, int>, max: int) -> bool {
    forall|day: int| #[trigger] m.contains_key(day) ==> m[day] <= max
}

/// The totals of a table.
pub open spec fn table_totals(m: Map<int, u64>) -> Map<int, int> {
    m.map_values(|n: u64| n as int)
}

proof fn lemma_totals_grow(adds: Seq<(int, int)>, m: nat, n: nat, day: int)
    requires
        m <= n <= adds.len(),
        forall|i: int| 0 <= i < adds.len() ==> (#[trigger] adds[i]).1 >= 0,
        day_totals(adds, m).contains_key(day),
    ensures
        day_totals(adds, n).contains_key(day),
        day_totals(adds, m)[day] <= day_totals(adds, n)[day],
    decreases n,
{
    if m < n {
        lemma_totals_grow(adds, m, (n - 1) as nat, day);
        assert(adds[n - 1].1 >= 0);
    }
}

/// Adds up what is added to each day; gives nothing where a total is greater
/// than `max`.
pub fn sum_days(adds: &Vec<DayEntry<u64>>, max: u64) -> (r: Option<DayTable<u64>>)
    ensures
        ({
            let totals = day_totals(additions(adds@), adds@.len());
            if totals_fit(totals, max as int) {
                r matches Some(t) && table_totals(t@) == totals
            } else {
                r is None
            }
        }),
{
    let ghost all = additions(adds@);
    let mut table: DayTable<u64> = DayTable::new();
    let mut i: usize = 0;
    proof {
        assert(table_totals(table@) =~= Map::<int, int>::empty());
    }
    while i < adds.len()
        invariant
            i <= adds@.len(),
            all == additions(adds@),
            table_totals(table@) == day_totals(all, i as nat),
            totals_fit(day_totals(all, i as nat), max as int),
        decreases adds@.len() - i,
    {
        let day = adds[i].day;
        let amount = adds[i].value;
        let ghost before = day_totals(all, i as nat);
        proof {
            assert(all[i as int] == (day as int, amount as int));
        }
        let known = match table.get(day) {
            Some(n) => n,
            None => 0,
        };
        proof {
            assert(known as int == total_of(before, day as int)) by {
                assert(table_totals(table@).contains_key(day as int) == table@.contains_key(
                    day as int,
                ));
            }
            if before.contains_key(day as int) {
                assert(known <= max);
            }
        }
        if known > max || amount > max - known {
            proof {
                let after = day_totals(all, (i + 1) as nat);
                assert(after.contains_key(day as int));
                assert(after[day as int] > max);
                lemma_totals_grow(all, (i + 1) as nat, all.len(), day as int);
                let last = day_totals(all, all.len());
                assert(last.contains_key(day as int));
            }
            return None;
        }
        let ghost old_table = table@;
        table.put(day, known + amount);
        proof {
            let after = day_totals(all, (i + 1) as nat);
            assert(table_totals(table@) =~= after);
            assert forall|d: int| #[trigger] after.contains_key(d) implies after[d] <= max by {
                if d != day {
                    assert(before.contains_key(d));
                }
            }
        }
        i += 1;
    }
    Some(table)
}

fn push_addition(adds: &mut Vec<DayEntry<u64>>, day: i32, value: u64)
    ensures
        additions(final(adds)@) == additions(old(adds)@).push((day as int, value as int)),
{
    let ghost before = adds@;
    adds.push(DayEntry { day, value });
    proof {
        assert(additions(adds@) =~= additions(before).push((day as int, value as int)));
    }
}

/// The model calls of each day; nothing where a day has more than can be
/// counted.
pub fn model_call_days(news: &Vec<TranscriptNews>) -> (r: Option<DayTable<u64>>)
    ensures
        ({
            let totals = calls_by_day(news_views(news@));
            if totals_fit(totals, u32::MAX as int) {
                r matches Some(t) && table_totals(t@) == totals
            } else {
                r is None
            }
        }),
{
    let ghost all = news_views(news@);
    let mut adds: Vec<DayEntry<u64>> = Vec::new();
    let mut in_model_call = false;
    let mut i: usize = 0;
    proof {
        assert(additions(adds@) =~= Seq::empty());
    }
    while i < news.len()
        invariant
            i <= news@.len(),
            all == news_views(news@),
            in_model_call == (i > 0 && is_call_kind(all[i - 1].kind)),
            additions(adds@) == call_starts(all, i as nat),
        decreases news@.len() - i,
    {
        let event = &news[i];
        proof {
            assert(all[i as int] == event@);
        }
        if is_model_call_event(event.kind.as_str()) {
            if !in_model_call {
                match event.day {
                    Some(day) => push_addition(&mut adds, day, 1),
                    None => {},
                }
            }
            in_model_call = true;
        } else {
            in_model_call = false;
        }
        i += 1;
    }
    proof {
        assert(additions(adds@).len() == adds@.len());
    }
    sum_days(&adds, u32::MAX as u64)
}

/// The model calls of each day.
pub open spec fn calls_by_day(news: Seq<NewsView>) -> Map<int, int> {
    let adds = call_starts(news, news.len());
    day_totals(adds, adds.len())
}

/// The tokens of each day.
pub open spec fn tokens_by_day(news: Seq<NewsView>) -> Map<int, int> {
    let adds = token_steps(news, news.len());
    day_totals(adds, adds.len())
}

/// The tokens of each day; nothing where a day has more than can be counted.
pub fn token_days(news: &Vec<TranscriptNews>) -> (r: Option<DayTable<u64>>)
    ensures
        ({
            let totals = tokens_by_day(news_views(news@));
            if totals_fit(totals, u64::MAX as int) {
                r matches Some(t) && table_totals(t@) == totals
            } else {
                r is None
            }
        }),
{
    let ghost all = news_views(news@);
    let mut adds: Vec<DayEntry<u64>> = Vec::new();
    let mut previous: Option<u64> = None;
    let mut i: usize = 0;
    proof {
        assert(additions(adds@) =~= Seq::empty());
    }
    while i < news.len()
        invariant
            i <= news@.len(),
            all == news_views(news@),
            last_usage(all, i as nat) == match previous {
                Some(n) => Some(n as int),
                None => None,
            },
            additions(adds@) == token_steps(all, i as nat),
        decreases news@.len() - i,
    {
        let event = &news[i];
        proof {
            assert(all[i as int] == event@);
        }
        if str_eq(event.kind.as_str(), "usage_update") {
            match (event.day, event.used) {
                (Some(day), Some(used)) => {
                    let step = match previous {
                        Some(n) => if used < n {
                            used
                        } else {
                            used - n
                        },
                        None => used,
                    };
                    push_addition(&mut adds, day, step);
                    previous = Some(used);
                },
                _ => {},
            }
        }
        i += 1;
    }
    proof {
        assert(additions(adds@).len() == adds@.len());
    }
    sum_days(&adds, u64::MAX)
}

/// The model calls of each day of a transcript; nothing where a day has more
/// than can be counted.
pub fn model_call_days_from_transcript(text: &str) -> (r: Option<DayTable<u64>>)
    ensures
        ({
            let totals = calls_by_day(transcript_news_of(text@));
            if totals_fit(totals, u32::MAX as int) {
                r matches Some(t) && table_totals(t@) == totals
            } else {
                r is None
            }
        }),
{
    model_call_days(&transcript_news(text))
}

/// The tokens of each day of a transcript; nothing where a day has more than
/// can be counted.
pub fn token_days_from_transcript(text: &str) -> (r: Option<DayTable<u64>>)
    ensures
        ({
            let totals = tokens_by_day(transcript_news_of(text@));
            if totals_fit(totals, u64::MAX as int) {
                r matches Some(t) && table_totals(t@) == totals
            } else {
                r is None
            }
        }),
{
    token_days(&transcript_news(text))
}

/// A further event of a model call that is under way starts no call.
pub proof fn law_stream_chunks_count_once(news: Seq<NewsView>, event: NewsView)
    requires
        news.len() > 0,
        is_call_kind(news.last().kind),
    ensures
        calls_by_day(news.push(event)) == calls_by_day(news),
{
    let longer = news.push(event);
    lemma_call_starts_of_prefix(longer, news, news.len());
    assert(longer[longer.len() - 2] == news.last());
}

proof fn lemma_call_starts_of_prefix(longer: Seq<NewsView>, news: Seq<NewsView>, n: nat)
    requires
        n <= news.len() <= longer.len(),
        forall|i: int| 0 <= i < news.len() ==> #[trigger] longer[i] == news[i],
    ensures
        call_starts(longer, n) == call_starts(news, n),
    decreases n,
{
    if n > 0 {
        lemma_call_starts_of_prefix(longer, news, (n - 1) as nat);
        assert(longer[n - 1] == news[n - 1]);
        if n >= 2 {
            assert(longer[n - 2] == news[n - 2]);
        }
    }
}

/// The sum of the first `n` additions, whatever their days.
pub open spec fn sum_of(adds: Seq<(int, int)>, n: nat) -> int
    decreases n,
{
    if n == 0 || n > adds.len() {
        0
    } else {
        sum_of(adds, (n - 1) as nat) + adds[n - 1].1
    }
}

/// Whether the usage never falls in the first `n` events.
pub open spec fn usage_never_falls(news: Seq<NewsView>, n: nat) -> bool
    decreases n,
{
    if n == 0 || n > news.len() {
        true
    } else {
        &&& usage_never_falls(news, (n - 1) as nat)
        &&& tells_usage(news[n - 1]) ==> match last_usage(news, (n - 1) as nat) {
            Some(previous) => previous <= news[n - 1].used->0,
            None => true,
        }
    }
}

proof fn lemma_sum_of_push(adds: Seq<(int, int)>, a: (int, int), n: nat)
    requires
        n <= adds.len(),
    ensures
        sum_of(adds.push(a), n) == sum_of(adds, n),
    decreases n,
{
    if n > 0 {
        lemma_sum_of_push(adds, a, (n - 1) as nat);
    }
}

proof fn lemma_steps_add_up(news: Seq<NewsView>, n: nat)
    requires
        n <= news.len(),
        usage_never_falls(news, n),
    ensures
        sum_of(token_steps(news, n), token_steps(news, n).len()) == match last_usage(news, n) {
            Some(used) => used,
            None => 0,
        },
    decreases n,
{
    if n > 0 {
        lemma_steps_add_up(news, (n - 1) as nat);
        let before = token_steps(news, (n - 1) as nat);
        let after = token_steps(news, n);
        if tells_usage(news[n - 1]) {
            lemma_sum_of_push(before, after.last(), before.len());
            assert(after =~= before.push(after.last()));
        }
    }
}

/// Where the usage never falls, the tokens of all days together are the usage
/// that was told last.
pub proof fn law_token_steps_add_up(news: Seq<NewsView>)
    requires
        usage_never_falls(news, news.len()),
    ensures
        ({
            let steps = token_steps(news, news.len());
            sum_of(steps, steps.len()) == match last_usage(news, news.len()) {
                Some(used) => used,
                None => 0,
            }
        }),
{
    lemma_steps_add_up(news, news.len());
}

/// The model calls and the tokens of a day.
#[derive(Debug, Clone, Copy, PartialEq, Eq, Structural)]
pub struct DailyModelUsage {
    pub calls: u32,
    pub tokens: u64,
}

/// The usage of a day.
pub open spec fn usage_of(m: Map<int, DailyModelUsage>, day: int) -> DailyModelUsage {
    if m.contains_key(day) {
        m[day]
    } else {
        DailyModelUsage { calls: 0, tokens: 0 }
    }
}

/// A usage with more calls, as far as they can be counted.
pub open spec fn more_calls(u: DailyModelUsage, calls: int) -> DailyModelUsage {
    DailyModelUsage {
        calls: if u.calls + calls > u32::MAX {
            u32::MAX
        } else {
            (u.calls + calls) as u32
        },
        tokens: u.tokens,
    }
}

/// A usage with more tokens, as far as they can be counted.
pub open spec fn more_tokens(u: DailyModelUsage, tokens: int) -> DailyModelUsage {
    DailyModelUsage {
        calls: u.calls,
        tokens: if u.tokens + tokens > u64::MAX {
            u64::MAX
        } else {
            (u.tokens + tokens) as u64
        },
    }
}

fn usage_on(days: &DayTable<DailyModelUsage>, date: i32) -> (r: DailyModelUsage)
    ensures
        r == usage_of(days@, date as int),
{
    match days.get(date) {
        Some(u) => u,
        None => DailyModelUsage { calls: 0, tokens: 0 },
    }
}

/// Adds model calls to a day.
pub fn add_daily_calls(days: &mut DayTable<DailyModelUsage>, date: i32, calls: u32)
    ensures
        final(days)@ == old(days)@.insert(
            date as int,
            more_calls(usage_of(old(days)@, date as int), calls as int),
        ),
{
    let entry = usage_on(days, date);
    let calls = if entry.calls > u32::MAX - calls {
        u32::MAX
    } else {
        entry.calls + calls
    };
    days.put(date, DailyModelUsage { calls, tokens: entry.tokens });
}

/// Adds tokens to a day.
pub fn add_daily_tokens(days: &mut DayTable<DailyModelUsage>, date: i32, tokens: u64)
    ensures
        final(days)@ == old(days)@.insert(
            date as int,
            more_tokens(usage_of(old(days)@, date as int), tokens as int),
        ),
{
    let entry = usage_on(days, date);
    let tokens = if entry.tokens > u64::MAX - tokens {
        u64::MAX
    } else {
        entry.tokens + tokens
    };
    days.put(date, DailyModelUsage { calls: entry.calls, tokens });
}

/// What a session used: day by day as far as its transcript tells, and in all
/// for its own day elsewhere.
#[derive(Debug)]
pub struct SessionUsage {
    pub date: Option<i32>,
    pub call_days: DayTable<u64>,
    pub token_days: DayTable<u64>,
    pub model_call_count: usize,
    pub used: u64,
}

/// A table with the calls of each day of another.
pub open spec fn with_call_days(m: Map<int, DailyModelUsage>, t: Map<int, u64>) -> Map<
    int,
    DailyModelUsage,
> {
    Map::new(
        |d: int| m.contains_key(d) || t.contains_key(d),
        |d: int|
            if t.contains_key(d) {
                more_calls(usage_of(m, d), t[d] as int)
            } else {
                m[d]
            },
    )
}

/// A table with the tokens of each day of another.
pub open spec fn with_token_days(m: Map<int, DailyModelUsage>, t: Map<int, u64>) -> Map<
    int,
    DailyModelUsage,
> {
    Map::new(
        |d: int| m.contains_key(d) || t.contains_key(d),
        |d: int|
            if t.contains_key(d) {
                more_tokens(usage_of(m, d), t[d] as int)
            } else {
                m[d]
            },
    )
}

/// A table with the calls of a session.
pub open spec fn with_session_calls(m: Map<int, DailyModelUsage>, s: SessionUsage) -> Map<
    int,
    DailyModelUsage,
> {
    if s.call_days@ == Map::<int, u64>::empty() {
        match s.date {
            Some(d) => m.insert(
                d as int,
                more_calls(usage_of(m, d as int), s.model_call_count as int),
            ),
            None => m,
        }
    } else {
        with_call_days(m, s.call_days@)
    }
}

/// A table with the tokens of a session.
pub open spec fn with_session_tokens(m: Map<int, DailyModelUsage>, s: SessionUsage) -> Map<
    int,
    DailyModelUsage,
> {
    if s.token_days@ == Map::<int, u64>::empty() {
        match s.date {
            Some(d) => m.insert(d as int, more_tokens(usage_of(m, d as int), s.used as int)),
            None => m,
        }
    } else {
        with_token_days(m, s.token_days@)
    }
}

/// What the first `n` sessions used.
pub open spec fn usage_by_day(sessions: Seq<SessionUsage>, n: nat) -> Map<int, DailyModelUsage>
    decreases n,
{
    if n == 0 || n > sessions.len() {
        Map::empty()
    } else {
        let before = usage_by_day(sessions, (n - 1) as nat);
        with_session_tokens(with_session_calls(before, sessions[n - 1]), sessions[n - 1])
    }
}

proof fn lemma_later_day_is_new<T>(entries: Seq<DayEntry<T>>, n: nat)
    requires
        days_go_up(entries),
        n < entries.len(),
    ensures
        !day_map(entries, n).contains_key(entries[n as int].day as int),
{
    lemma_days_below(entries, n, n as int);
}

proof fn lemma_days_below<T>(entries: Seq<DayEntry<T>>, n: nat, at: int)
    requires
        days_go_up(entries),
        n <= at < entries.len(),
    ensures
        !day_map(entries, n).contains_key(entries[at].day as int),
    decreases n,
{
    if n > 0 {
        lemma_days_below(entries, (n - 1) as nat, at);
        assert(entries[n - 1].day < entries[at].day);
    }
}

fn add_call_days(days: &mut DayTable<DailyModelUsage>, table: &DayTable<u64>)
    ensures
        final(days)@ == with_call_days(old(days)@, table@),
{
    let entries = table.entries();
    let ghost start = days@;
    let mut i: usize = 0;
    proof {
        assert(with_call_days(start, day_map(entries@, 0)) =~= start);
    }
    while i < entries.len()
        invariant
            i <= entries@.len(),
            days_go_up(entries@),
            days@ == with_call_days(start, day_map(entries@, i as nat)),
        decreases entries@.len() - i,
    {
        let day = entries[i].day;
        let value = entries[i].value;
        let calls: u32 = if value > u32::MAX as u64 {
            u32::MAX
        } else {
            value as u32
        };
        proof {
            lemma_later_day_is_new(entries@, i as nat);
        }
        let ghost before = days@;
        add_daily_calls(days, day, calls);
        proof {
            assert(usage_of(before, day as int) == usage_of(start, day as int));
            assert(days@ =~= with_call_days(start, day_map(entries@, (i + 1) as nat)));
        }
        i += 1;
    }
}

fn add_token_days(days: &mut DayTable<DailyModelUsage>, table: &DayTable<u64>)
    ensures
        final(days)@ == with_token_days(old(days)@, table@),
{
    let entries = table.entries();
    let ghost start = days@;
    let mut i: usize = 0;
    proof {
        assert(with_token_days(start, day_map(entries@, 0)) =~= start);
    }
    while i < entries.len()
        invariant
            i <= entries@.len(),
            days_go_up(entries@),
            days@ == with_token_days(start, day_map(entries@, i as nat)),
        decreases entries@.len() - i,
    {
        let day = entries[i].day;
        let value = entries[i].value;
        proof {
            lemma_later_day_is_new(entries@, i as nat);
        }
        let ghost before = days@;
        add_daily_tokens(days, day, value);
        proof {
            assert(usage_of(before, day as int) == usage_of(start, day as int));
            assert(days@ =~= with_token_days(start, day_map(entries@, (i + 1) as nat)));
        }
        i += 1;
    }
}

/// What all sessions used, day by day.
pub fn daily_model_usage(sessions: &Vec<SessionUsage>) -> (r: DayTable<DailyModelUsage>)
    ensures
        r@ == usage_by_day(sessions@, sessions@.len()),
{
    let mut days: DayTable<DailyModelUsage> = DayTable::new();
    let mut i: usize = 0;
    while i < sessions.len()
        invariant
            i <= sessions@.len(),
            days@ == usage_by_day(sessions@, i as nat),
        decreases sessions@.len() - i,
    {
        let session = &sessions[i];
        if session.call_days.is_empty() {
            match session.date {
                Some(date) => {
                    let calls: u32 = if session.model_call_count > u32::MAX as usize {
                        u32::MAX
                    } else {
                        session.model_call_count as u32
                    };
                    add_daily_calls(&mut days, date, calls);
                },
                None => {},
            }
        } else {
            add_call_days(&mut days, &session.call_days);
        }
        if session.token_days.is_empty() {
            match session.date {
                Some(date) => add_daily_tokens(&mut days, date, session.used),
                None => {},
            }
        } else {
            add_token_days(&mut days, &session.token_days);
        }
        i += 1;
    }
    days
}

/// How many of the first `n` messages are replies of the model.
pub open spec fn replies(messages: Seq<Jv>, n: nat) -> nat
    decreases n,
{
    if n == 0 || n > messages.len() {
        0
    } else {
        replies(messages, (n - 1) as nat) + if text_field(messages[n - 1], "role"@) == Some(
            "assistant"@,
        ) {
            1nat
        } else {
            0
        }
    }
}

/// How many messages are replies of the model.
pub fn assistant_message_count(messages: &Vec<Json>) -> (r: usize)
    ensures
        r == replies(json_views(messages@), messages@.len()),
{
    let mut found: usize = 0;
    let mut i: usize = 0;
    proof {
        lemma_json_views(messages@);
    }
    while i < messages.len()
        invariant
            i <= messages@.len(),
            json_views(messages@).len() == messages@.len(),
            forall|k: int|
                0 <= k < messages@.len() ==> #[trigger] json_views(messages@)[k] == messages@[k]@,
            found <= i,
            found == replies(json_views(messages@), i as nat),
        decreases messages@.len() - i,
    {
        proof {
            assert(json_views(messages@)[i as int] == messages@[i as int]@);
        }
        match messages[i].get_str("role") {
            Some(role) => if str_eq(role, "assistant") {
                found += 1;
            },
            None => {},
        }
        i += 1;
    }
    found
}

/// The sum of the calls of the first `n` days.
pub open spec fn calls_in(entries: Seq<DayEntry<DailyModelUsage>>, n: nat) -> int
    decreases n,
{
    if n == 0 || n > entries.len() {
        0
    } else {
        calls_in(entries, (n - 1) as nat) + entries[n - 1].value.calls
    }
}

proof fn lemma_calls_grow(entries: Seq<DayEntry<DailyModelUsage>>, m: nat, n: nat)
    requires
        m <= n <= entries.len(),
    ensures
        calls_in(entries, m) <= calls_in(entries, n),
    decreases n,
{
    if m < n {
        lemma_calls_grow(entries, m, (n - 1) as nat);
    }
}

/// The model calls of all days together; nothing where they are more than can
/// be counted.
pub fn total_calls(entries: &Vec<DayEntry<DailyModelUsage>>) -> (r: Option<u32>)
    ensures
        if calls_in(entries@, entries@.len()) <= u32::MAX {
            r matches Some(n) && n == calls_in(entries@, entries@.len())
        } else {
            r is None
        },
{
    let mut total: u32 = 0;
    let mut i: usize = 0;
    while i < entries.len()
        invariant
            i <= entries@.len(),
            total == calls_in(entries@, i as nat),
        decreases entries@.len() - i,
    {
        let calls = entries[i].value.calls;
        if calls > u32::MAX - total {
            proof {
                lemma_calls_grow(entries@, (i + 1) as nat, entries@.len());
            }
            return None;
        }
        total += calls;
        i += 1;
    }
    Some(total)
}

/// The most model calls of a day.
pub fn peak_calls(entries: &Vec<DayEntry<DailyModelUsage>>) -> (r: u32)
    ensures
        forall|i: int| 0 <= i < entries@.len() ==> (#[trigger] entries@[i]).value.calls <= r,
        r == 0 || exists|i: int| 0 <= i < entries@.len() && (#[trigger] entries@[i]).value.calls == r,
{
    let mut peak: u32 = 0;
    let mut i: usize = 0;
    while i < entries.len()
        invariant
            i <= entries@.len(),
            forall|k: int| 0 <= k < i ==> (#[trigger] entries@[k]).value.calls <= peak,
            peak == 0 || exists|k: int|
                0 <= k < i && (#[trigger] entries@[k]).value.calls == peak,
        decreases entries@.len() - i,
    {
        if entries[i].value.calls > peak {
            peak = entries[i].value.calls;
            proof {
                assert(entries@[i as int].value.calls == peak);
            }
        }
        i += 1;
    }
    peak
}

/// A call of the model that begins counts once, on its day.
pub proof fn law_call_counts_on_its_day(news: Seq<NewsView>, event: NewsView, day: int)
    requires
        event.kind == "agent_thought_chunk"@ || event.kind == "agent_message_chunk"@ || event.kind
            == "tool_call"@,
        event.day == Some(day),
        news.len() > 0 ==> !is_call_kind(news.last().kind),
    ensures
        calls_by_day(news.push(event)) == calls_by_day(news).insert(
            day,
            total_of(calls_by_day(news), day) + 1,
        ),
{
    let longer = news.push(event);
    lemma_call_starts_of_prefix(longer, news, news.len());
    let before = call_starts(news, news.len());
    let after = call_starts(longer, longer.len());
    if news.len() > 0 {
        assert(longer[longer.len() - 2] == news.last());
    }
    assert(longer[longer.len() - 1] == event);
    assert(after == before.push((day, 1)));
    lemma_day_totals_of_push(before, (day, 1), before.len());
}

/// News of another kind, and news without a day, count as no call.
pub proof fn law_other_news_are_no_calls(news: Seq<NewsView>, event: NewsView)
    requires
        event.day is None || (event.kind != "agent_thought_chunk"@ && event.kind
            != "agent_message_chunk"@ && event.kind != "tool_call"@),
    ensures
        calls_by_day(news.push(event)) == calls_by_day(news),
{
    let longer = news.push(event);
    lemma_call_starts_of_prefix(longer, news, news.len());
    assert(longer[longer.len() - 1] == event);
}

proof fn lemma_day_totals_of_push(adds: Seq<(int, int)>, e: (int, int), n: nat)
    requires
        n <= adds.len(),
    ensures
        day_totals(adds.push(e), n) == day_totals(adds, n),
        n == adds.len() ==> day_totals(adds.push(e), n + 1) == day_totals(adds, n).insert(
            e.0,
            total_of(day_totals(adds, n), e.0) + e.1,
        ),
    decreases n,
{
    if n > 0 {
        lemma_day_totals_of_push(adds, e, (n - 1) as nat);
        assert(adds.push(e)[n - 1] == adds[n - 1]);
    }
    assert(adds.push(e)[adds.len() as int] == e);
}

/// The tokens in use count on their day, as far as they are more than were in use
/// before; where they fell, all of them count.
pub proof fn law_new_tokens_count_on_their_day(
    news: Seq<NewsView>,
    event: NewsView,
    day: int,
    used: int,
)
    requires
        event.kind == "usage_update"@,
        event.day == Some(day),
        event.used == Some(used),
    ensures
        ({
            let before = tokens_by_day(news);
            let after = tokens_by_day(news.push(event));
            let step = match last_usage(news, news.len()) {
                Some(p) => if p <= used {
                    used - p
                } else {
                    used
                },
                None => used,
            };
            after == before.insert(day, total_of(before, day) + step)
        }),
        last_usage(news.push(event), news.len() + 1) == Some(used),
        last_usage(Seq::empty(), 0) is None,
{
    let longer = news.push(event);
    lemma_token_steps_of_prefix(longer, news, news.len());
    assert(longer[longer.len() - 1] == event);
    let before = token_steps(news, news.len());
    let step = match last_usage(news, news.len()) {
        Some(p) => if p <= used {
            used - p
        } else {
            used
        },
        None => used,
    };
    assert(token_steps(longer, longer.len()) == before.push((day, step)));
    lemma_day_totals_of_push(before, (day, step), before.len());
}

/// News of another kind count no tokens.
pub proof fn law_other_news_use_no_tokens(news: Seq<NewsView>, event: NewsView)
    requires
        event.kind != "usage_update"@ || event.day is None || event.used is None,
    ensures
        tokens_by_day(news.push(event)) == tokens_by_day(news),
        last_usage(news.push(event), news.len() + 1) == last_usage(news, news.len()),
{
    let longer = news.push(event);
    lemma_token_steps_of_prefix(longer, news, news.len());
    assert(longer[longer.len() - 1] == event);
}

proof fn lemma_token_steps_of_prefix(longer: Seq<NewsView>, news: Seq<NewsView>, n: nat)
    requires
        n <= news.len() <= longer.len(),
        forall|i: int| 0 <= i < news.len() ==> longer[i] == news[i],
    ensures
        token_steps(longer, n) == token_steps(news, n),
        last_usage(longer, n) == last_usage(news, n),
    decreases n,
{
    if n > 0 {
        lemma_token_steps_of_prefix(longer, news, (n - 1) as nat);
        assert(longer[n - 1] == news[n - 1]);
    }
}

/// What happened is read from the update of a transcript entry, and when from its time
/// stamp.
pub proof fn law_news_are_read_from_the_entry(v: Jv, update: Jv, stamp: Seq<char>)
    ensures
        field(v, "update"@) == Some(update) ==> {
            &&& text_field(update, "session_update"@) matches Some(kind) ==> news_of(v).kind == kind
            &&& news_of(v).used == as_count(field(update, "used"@))
        },
        text_field(v, "updated_at"@) == Some(stamp) ==> news_of(v).day == stamp_day(stamp),
        text_field(v, "updated_at"@) is None ==> news_of(v).day is None,
{
}

/// Entries are read in their order; a line that is no entry is passed over.
pub proof fn law_entries_are_read_in_order(a: Seq<Seq<char>>, b: Seq<Seq<char>>, n: nat)
    requires
        n <= b.len(),
    ensures
        news_of_lines(a + b, a.len() + n) == news_of_lines(a, a.len()) + news_of_lines(b, n),
        n == 1 ==> news_of_lines(b, 1) == match json_read(b[0]) {
            Ok(v) => seq![news_of(v)],
            Err(_) => Seq::empty(),
        },
    decreases n,
{
    if n == 0 {
        lemma_news_of_prefix(a, b, a.len());
        assert(news_of_lines(a, a.len()) + news_of_lines(b, 0) =~= news_of_lines(a, a.len()));
    } else {
        law_entries_are_read_in_order(a, b, (n - 1) as nat);
        assert((a + b)[a.len() + n - 1] == b[n - 1]);
        assert(news_of_lines(a + b, a.len() + n) =~= news_of_lines(a, a.len()) + news_of_lines(
            b,
            n,
        ));
        if n == 1 {
            assert(news_of_lines(b, 0).len() == 0);
            if let Ok(v) = json_read(b[0]) {
                assert(news_of_lines(b, 1) =~= seq![news_of(v)]);
            } else {
                assert(news_of_lines(b, 1) =~= Seq::empty());
            }
        }
    }
}

proof fn lemma_news_of_prefix(a: Seq<Seq<char>>, b: Seq<Seq<char>>, n: nat)
    requires
        n <= a.len(),
    ensures
        news_of_lines(a + b, n) == news_of_lines(a, n),
    decreases n,
{
    if n > 0 {
        lemma_news_of_prefix(a, b, (n - 1) as nat);
        assert((a + b)[n - 1] == a[n - 1]);
    }
}

/// A session adds its own calls and tokens to each day, and leaves other days alone.
pub proof fn law_session_adds_to_its_days(m: Map<int, DailyModelUsage>, s: SessionUsage, d: int)
    ensures
        s.call_days@.contains_key(d) ==> with_session_calls(m, s).contains_key(d) && (usage_of(
            m,
            d,
        ).calls + s.call_days@[d] <= u32::MAX ==> with_session_calls(m, s)[d].calls == usage_of(
            m,
            d,
        ).calls + s.call_days@[d]),
        s.call_days@.contains_key(d) ==> with_session_calls(m, s)[d].tokens == usage_of(m, d).tokens,
        s.token_days@.contains_key(d) ==> with_session_tokens(m, s).contains_key(d) && (usage_of(
            m,
            d,
        ).tokens + s.token_days@[d] <= u64::MAX ==> with_session_tokens(m, s)[d].tokens == usage_of(
            m,
            d,
        ).tokens + s.token_days@[d]),
        s.token_days@.contains_key(d) ==> with_session_tokens(m, s)[d].calls == usage_of(m, d).calls,
        s.date != Some(d as i32) && !s.call_days@.contains_key(d) && i32::MIN <= d <= i32::MAX
            ==> usage_of(with_session_calls(m, s), d) == usage_of(m, d),
        s.date != Some(d as i32) && !s.token_days@.contains_key(d) && i32::MIN <= d <= i32::MAX
            ==> usage_of(with_session_tokens(m, s), d) == usage_of(m, d),
{
    assert(!Map::<int, u64>::empty().contains_key(d));
}

/// A session whose days are not known counts on its own date.
pub proof fn law_session_counts_on_its_date(m: Map<int, DailyModelUsage>, s: SessionUsage, date: i32)
    requires
        s.date == Some(date),
    ensures
        s.call_days@ == Map::<int, u64>::empty() && usage_of(m, date as int).calls
            + s.model_call_count <= u32::MAX ==> with_session_calls(m, s)[date as int].calls
            == usage_of(m, date as int).calls + s.model_call_count,
        s.token_days@ == Map::<int, u64>::empty() && usage_of(m, date as int).tokens + s.used
            <= u64::MAX ==> with_session_tokens(m, s)[date as int].tokens == usage_of(
            m,
            date as int,
        ).tokens + s.used,
{
}

/// Sessions add up, one after the other.
pub proof fn law_sessions_add_up(sessions: Seq<SessionUsage>, n: nat)
    requires
        0 < n <= sessions.len(),
    ensures
        usage_by_day(sessions, n) == with_session_tokens(
            with_session_calls(usage_by_day(sessions, (n - 1) as nat), sessions[n - 1]),
            sessions[n - 1],
        ),
        usage_by_day(sessions, 0).dom() == Set::<int>::empty(),
{
    assert(Map::<int, DailyModelUsage>::empty().dom() =~= Set::empty());
}

/// A count that is too large stays at the largest.
pub proof fn law_counts_stop_at_the_largest(u: DailyModelUsage, n: int)
    requires
        n >= 0,
    ensures
        u.calls + n > u32::MAX ==> more_calls(u, n).calls == u32::MAX,
        u.calls + n <= u32::MAX ==> more_calls(u, n).calls == u.calls + n,
        u.tokens + n > u64::MAX ==> more_tokens(u, n).tokens == u64::MAX,
        u.tokens + n <= u64::MAX ==> more_tokens(u, n).tokens == u.tokens + n,
        more_calls(u, n).tokens == u.tokens && more_tokens(u, n).calls == u.calls,
{
}

/// The answers of the assistant are counted, and only they.
pub proof fn law_answers_are_counted(messages: Seq<Jv>, m: Jv)
    ensures
        text_field(m, "role"@) == Some("assistant"@) ==> replies(
            messages.push(m),
            messages.len() + 1,
        ) == replies(messages, messages.len()) + 1,
        text_field(m, "role"@) != Some("assistant"@) ==> replies(
            messages.push(m),
            messages.len() + 1,
        ) == replies(messages, messages.len()),
        replies(Seq::empty(), 0) == 0,
{
    lemma_replies_prefix(messages, m, messages.len());
    assert(messages.push(m)[messages.len() as int] == m);
}

proof fn lemma_replies_prefix(messages: Seq<Jv>, m: Jv, n: nat)
    requires
        n <= messages.len(),
    ensures
        replies(messages.push(m), n) == replies(messages, n),
    decreases n,
{
    if n > 0 {
        lemma_replies_prefix(messages, m, (n - 1) as nat);
        assert(messages.push(m)[n - 1] == messages[n - 1]);
    }
}

/// The calls of some days are added up.
pub proof fn law_calls_add_up(
    entries: Seq<DayEntry<DailyModelUsage>>,
    e: DayEntry<DailyModelUsage>,
)
    ensures
        calls_in(entries.push(e), entries.len() + 1) == calls_in(entries, entries.len())
            + e.value.calls,
        calls_in(Seq::empty(), 0) == 0,
{
    lemma_calls_in_prefix(entries, e, entries.len());
    assert(entries.push(e)[entries.len() as int] == e);
}

proof fn lemma_calls_in_prefix(
    entries: Seq<DayEntry<DailyModelUsage>>,
    e: DayEntry<DailyModelUsage>,
    n: nat,
)
    requires
        n <= entries.len(),
    ensures
        calls_in(entries.push(e), n) == calls_in(entries, n),
    decreases n,
{
    if n > 0 {
        lemma_calls_in_prefix(entries, e, (n - 1) as nat);
        assert(entries.push(e)[n - 1] == entries[n - 1]);
    }
}

} // verus!
