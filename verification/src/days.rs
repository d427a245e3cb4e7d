//! Days, and what is counted by day.

use std::collections::BTreeMap;
use vstd::prelude::*;
use vstd::std_specs::btree::increasing_seq;
use vstd::std_specs::cmp::OrdSpec;
use vstd::std_specs::iter::IteratorSpec;

verus! {

/// What stands for a day in a table. A day is its number in the proleptic
/// Gregorian calendar; January 1 of the year 1 is day 1.
#[derive(Debug, Clone, Copy)]
pub struct DayEntry<T> {
    pub day: i32,
    pub value: T,
}

/// What the first `n` entries say.
pub open spec fn day_map<T>(entries: Seq<DayEntry<T>>, n: nat) -> Map<int, T>
    decreases n,
{
    if n == 0 || n > entries.len() {
        Map::empty()
    } else {
        day_map(entries, (n - 1) as nat).insert(entries[n - 1].day as int, entries[n - 1].value)
    }
}

/// What all entries say.
pub open spec fn days_of<T>(entries: Seq<DayEntry<T>>) -> Map<int, T> {
    day_map(entries, entries.len())
}

/// Whether the days of entries go up.
pub open spec fn days_go_up<T>(entries: Seq<DayEntry<T>>) -> bool {
    forall|i: int, j: int|
        #![trigger entries[i], entries[j]]
        0 <= i < j < entries.len() ==> entries[i].day < entries[j].day
}

proof fn lemma_day_map<T>(entries: Seq<DayEntry<T>>, n: nat)
    requires
        days_go_up(entries),
        n <= entries.len(),
    ensures
        forall|i: int|
            0 <= i < n ==> day_map(entries, n).contains_key((#[trigger] entries[i]).day as int)
                && day_map(entries, n)[entries[i].day as int] == entries[i].value,
        forall|d: int|
            day_map(entries, n).contains_key(d) ==> exists|i: int|
                0 <= i < n && (#[trigger] entries[i]).day == d,
    decreases n,
{
    if n > 0 {
        lemma_day_map(entries, (n - 1) as nat);
        assert forall|d: int| day_map(entries, n).contains_key(d) implies exists|i: int|
            0 <= i < n && (#[trigger] entries[i]).day == d by {
            if d == entries[n - 1].day {
                assert(entries[n - 1].day == d);
            } else {
                assert(day_map(entries, (n - 1) as nat).contains_key(d));
            }
        }
    }
}

/// A value for each of some days, in the order of the days.
#[derive(Debug)]
pub struct DayTable<T> {
    days: BTreeMap<i32, T>,
}

impl<T> View for DayTable<T> {
    type V = Map<int, T>;

    closed spec fn view(&self) -> Map<int, T> {
        by_number(self.days@)
    }
}

/// A map whose days are plain numbers.
spec fn by_number<T>(days: Map<i32, T>) -> Map<int, T> {
    Map::new(
        |d: int| i32::MIN <= d <= i32::MAX && days.contains_key(d as i32),
        |d: int| days[d as i32],
    )
}

proof fn lemma_keys_go_up(keys: Seq<&i32>)
    requires
        increasing_seq(keys),
    ensures
        forall|i: int, j: int|
            #![trigger keys[i], keys[j]]
            0 <= i < j < keys.len() ==> *keys[i] < *keys[j],
{
    broadcast use vstd::laws_cmp::group_laws_cmp;

    assert(vstd::laws_cmp::obeys_cmp::<&i32>());
    assert forall|i: int, j: int|
        #![trigger keys[i], keys[j]]
        0 <= i < j < keys.len() implies *keys[i] < *keys[j] by {
        assert(OrdSpec::cmp_spec(&keys[i], &keys[j]) is Less);
    }
}

impl<T: Copy> DayTable<T> {
    /// A table without days.
    pub fn new() -> (r: Self)
        ensures
            r@ == Map::<int, T>::empty(),
    {
        let r = DayTable { days: BTreeMap::new() };
        proof {
            assert(r@ =~= Map::<int, T>::empty());
        }
        r
    }

    /// The days and their values, the earliest first.
    pub fn entries(&self) -> (r: Vec<DayEntry<T>>)
        ensures
            days_go_up(r@),
            days_of(r@) == self@,
    {
        let all = self.days.keys();
        let ghost keys = all.remaining();
        let mut out: Vec<DayEntry<T>> = Vec::new();
        for key in iter: all
            invariant
                iter.seq() == keys,
                keys.unref().to_set() == self.days@.dom(),
                out@.len() == iter.index(),
                forall|i: int|
                    0 <= i < out@.len() ==> (#[trigger] out@[i]).day == *keys[i] && out@[i].value
                        == self.days@[*keys[i]],
        {
            proof {
                assert(keys.unref()[iter.index()] == *key);
                assert(keys.unref().to_set().contains(*key));
            }
            if let Some(value) = self.days.get(key) {
                out.push(DayEntry { day: *key, value: *value });
            }
        }
        proof {
            lemma_keys_go_up(keys);
            assert forall|i: int, j: int|
                #![trigger out@[i], out@[j]]
                0 <= i < j < out@.len() implies out@[i].day < out@[j].day by {
                assert(*keys[i] == out@[i].day);
                assert(*keys[j] == out@[j].day);
            }
            lemma_day_map(out@, out@.len());
            let said = days_of(out@);
            assert forall|d: int| said.contains_key(d) implies self@.contains_key(d) && said[d]
                == self@[d] by {
                let i = choose|i: int| 0 <= i < out@.len() && (#[trigger] out@[i]).day == d;
                assert(keys.unref()[i] == *keys[i]);
                assert(keys.unref().to_set().contains(*keys[i]));
            }
            assert forall|d: int| self@.contains_key(d) implies said.contains_key(d) by {
                let k = d as i32;
                assert(self.days@.contains_key(k));
                assert(keys.unref().to_set().contains(k));
                let i = choose|i: int| 0 <= i < keys.len() && keys.unref()[i] == k;
                assert(out@[i].day == k);
            }
            assert(said =~= self@);
        }
        out
    }

    /// Whether the table holds no day.
    pub fn is_empty(&self) -> (r: bool)
        ensures
            r == (self@ == Map::<int, T>::empty()),
    {
        proof {
            if self.days@.dom().is_empty() {
                assert(self@ =~= Map::<int, T>::empty());
            } else {
                let d = self.days@.dom().choose();
                assert(self@.contains_key(d as int));
            }
        }
        self.days.is_empty()
    }

    /// The value of a day.
    pub fn get(&self, day: i32) -> (r: Option<T>)
        ensures
            r == if self@.contains_key(day as int) {
                Some(self@[day as int])
            } else {
                None
            },
    {
        match self.days.get(&day) {
            Some(v) => Some(*v),
            None => None,
        }
    }

    /// Gives a day a value.
    pub fn put(&mut self, day: i32, value: T)
        ensures
            final(self)@ == old(self)@.insert(day as int, value),
    {
        self.days.insert(day, value);
        proof {
            assert(self@ =~= old(self)@.insert(day as int, value));
        }
    }
}

/// What `chrono` makes of a date in the form `2026-06-13`: the number of the
/// day.
pub uninterp spec fn date_read(s: Seq<char>) -> Option<int>;

/// `chrono::NaiveDate::parse_from_str` with the format `%Y-%m-%d`, as the
/// number of the day that `num_days_from_ce` gives. Which day it is, if any,
/// depends on the text alone.
#[verifier::external_body]
pub(crate) fn parse_date(s: &str) -> (r: Option<i32>)
    ensures
        match date_read(s@) {
            Some(day) => r matches Some(d) && d == day,
            None => r is None,
        },
{
    chrono::NaiveDate::parse_from_str(s, "%Y-%m-%d").ok().map(|date| chrono::Datelike::num_days_from_ce(&date))
}

/// What `chrono` says of the month of a day.
pub uninterp spec fn month_read(day: int) -> Option<int>;

/// `chrono::NaiveDate::from_num_days_from_ce_opt` and `month`: the month of a
/// day, from 1 to 12, or nothing where the day is out of range. It depends on
/// the day alone.
#[verifier::external_body]
pub(crate) fn month_of_day(day: i32) -> (r: Option<u32>)
    ensures
        match month_read(day as int) {
            Some(month) => r matches Some(m) && m == month && 1 <= m <= 12,
            None => r is None,
        },
{
    chrono::NaiveDate::from_num_days_from_ce_opt(day).map(|date| chrono::Datelike::month(&date))
}

/// A table of days holds under each day what was last put there.
pub proof fn law_day_holds_what_was_put<T>(entries: Seq<DayEntry<T>>, e: DayEntry<T>)
    ensures
        days_of(entries.push(e)) == days_of(entries).insert(e.day as int, e.value),
        days_of(Seq::<DayEntry<T>>::empty()) == Map::<int, T>::empty(),
{
    lemma_day_map_prefix(entries, e, entries.len());
    assert(entries.push(e)[entries.len() as int] == e);
}

proof fn lemma_day_map_prefix<T>(entries: Seq<DayEntry<T>>, e: DayEntry<T>, n: nat)
    requires
        n <= entries.len(),
    ensures
        day_map(entries.push(e), n) == day_map(entries, n),
    decreases n,
{
    if n > 0 {
        lemma_day_map_prefix(entries, e, (n - 1) as nat);
        assert(entries.push(e)[n - 1] == entries[n - 1]);
    }
}

} // verus!
