//! The heat map of model calls: one column for a week, one row for a weekday.

use crate::days::{month_of_day, month_read, DayTable};
use crate::text::chars_of;
use crate::usage::{usage_of, DailyModelUsage};
use vstd::prelude::*;

verus! {

/// How many weeks fit into an area of a width.
pub open spec fn weeks_of(width: int) -> int {
    let cells = (width - 6) / 2;
    if cells < 4 {
        4
    } else if cells > 53 {
        53
    } else {
        cells
    }
}

/// How many weeks fit into an area of a width: two columns for each besides
/// the border and the names of the days, but never fewer than 4 nor more than
/// 53.
pub fn heatmap_week_count(width: u16) -> (r: usize)
    ensures
        r == weeks_of(width as int),
{
    let inner: u16 = if width < 2 {
        0
    } else {
        width - 2
    };
    let grid: u16 = if inner < 4 {
        0
    } else {
        inner - 4
    };
    let cells: u16 = grid / 2;
    if cells < 4 {
        4
    } else if cells > 53 {
        53
    } else {
        cells as usize
    }
}

/// The weekday of a day: 0 for Monday to 6 for Sunday.
pub open spec fn weekday_of(day: int) -> int {
    (day - 1) % 7
}

/// The Monday that a map of some weeks begins with; the last week is that of
/// today.
pub open spec fn first_monday(today: int, weeks: int) -> int {
    today - weekday_of(today) - 7 * (if weeks > 0 {
        weeks - 1
    } else {
        0
    })
}

/// The Monday that a map of some weeks begins with.
pub fn heatmap_start_date(today: i32, week_count: usize) -> (r: i32)
    requires
        first_monday(today as int, week_count as int) >= i32::MIN,
    ensures
        r == first_monday(today as int, week_count as int),
{
    let shifted: i64 = today as i64 - 1;
    let weekday: i64 = ((shifted % 7) + 7) % 7;
    proof {
        assert(weekday == (today as int - 1) % 7);
    }
    let back: usize = if week_count > 0 {
        week_count - 1
    } else {
        0
    };
    let days: i64 = 7 * (back as i64);
    (today as i64 - weekday - days) as i32
}

/// The first day of a map is a Monday, and today lies in its last week.
pub proof fn law_map_ends_this_week(today: int, weeks: int)
    requires
        weeks > 0,
    ensures
        weekday_of(first_monday(today, weeks)) == 0,
        first_monday(today, weeks) + 7 * (weeks - 1) <= today < first_monday(today, weeks) + 7
            * weeks,
{
}

/// The name of a month.
pub open spec fn month_name(month: int) -> Seq<char> {
    if month == 1 {
        "Jan"@
    } else if month == 2 {
        "Feb"@
    } else if month == 3 {
        "Mar"@
    } else if month == 4 {
        "Apr"@
    } else if month == 5 {
        "May"@
    } else if month == 6 {
        "Jun"@
    } else if month == 7 {
        "Jul"@
    } else if month == 8 {
        "Aug"@
    } else if month == 9 {
        "Sep"@
    } else if month == 10 {
        "Oct"@
    } else if month == 11 {
        "Nov"@
    } else {
        "Dec"@
    }
}

/// The name of a month.
pub fn month_label(month: u32) -> (r: &'static str)
    ensures
        r@ == month_name(month as int),
{
    match month {
        1 => "Jan",
        2 => "Feb",
        3 => "Mar",
        4 => "Apr",
        5 => "May",
        6 => "Jun",
        7 => "Jul",
        8 => "Aug",
        9 => "Sep",
        10 => "Oct",
        11 => "Nov",
        _ => "Dec",
    }
}

/// The name of a weekday, by its row.
pub fn weekday_label(row: usize) -> (r: &'static str)
    ensures
        r@ == match row {
            0 => "Mon"@,
            1 => "Tue"@,
            2 => "Wed"@,
            3 => "Thu"@,
            4 => "Fri"@,
            5 => "Sat"@,
            _ => "Sun"@,
        },
{
    match row {
        0 => "Mon",
        1 => "Tue",
        2 => "Wed",
        3 => "Thu",
        4 => "Fri",
        5 => "Sat",
        _ => "Sun",
    }
}

/// A row of characters with a text written from `at` on, as far as it fits.
pub open spec fn written(row: Seq<char>, at: int, text: Seq<char>) -> Seq<char> {
    Seq::new(
        row.len(),
        |i: int|
            if at <= i < at + text.len() {
                text[i - at]
            } else {
                row[i]
            },
    )
}

/// The row of month names after the first `n` weeks: a name stands where the
/// month of a week is not that of the week before.
pub open spec fn month_row(months: Seq<u32>, n: nat) -> Seq<char>
    decreases n,
{
    if n == 0 || n > months.len() {
        Seq::new(4 + 2 * months.len(), |i: int| ' ')
    } else {
        let before = month_row(months, (n - 1) as nat);
        if n == 1 || months[n - 2] != months[n - 1] {
            written(before, 4 + 2 * (n - 1), month_name(months[n - 1] as int))
        } else {
            before
        }
    }
}

fn write_label(row: &mut Vec<char>, at: usize, label: &str)
    ensures
        final(row)@ == written(old(row)@, at as int, label@),
{
    let text = chars_of(label);
    let ghost start = row@;
    let mut k: usize = 0;
    proof {
        assert(written(start, at as int, text@.take(0)) =~= start);
    }
    while k < text.len() && k < row.len() && at < row.len() - k
        invariant
            k <= text@.len(),
            row@.len() == start.len(),
            row@ == written(start, at as int, text@.take(k as int)),
        decreases text@.len() - k,
    {
        row.set(at + k, text[k]);
        proof {
            assert(row@ =~= written(start, at as int, text@.take(k + 1)));
        }
        k += 1;
    }
    proof {
        assert(row@ =~= written(start, at as int, text@));
    }
}

/// The row of month names above the map, by the month of each week.
pub fn month_header(months: &Vec<u32>) -> (r: Vec<char>)
    requires
        4 + 2 * months@.len() <= usize::MAX,
    ensures
        r@ == month_row(months@, months@.len()),
{
    let mut row: Vec<char> = Vec::new();
    let width: usize = 4 + 2 * months.len();
    let mut i: usize = 0;
    while i < width
        invariant
            i <= width,
            row@ == Seq::new(i as nat, |k: int| ' '),
        decreases width - i,
    {
        row.push(' ');
        proof {
            assert(row@ =~= Seq::new((i + 1) as nat, |k: int| ' '));
        }
        i += 1;
    }
    proof {
        assert(row@ =~= month_row(months@, 0));
    }
    let mut col: usize = 0;
    while col < months.len()
        invariant
            4 + 2 * months@.len() <= usize::MAX,
            col <= months@.len(),
            row@ == month_row(months@, col as nat),
        decreases months@.len() - col,
    {
        if col == 0 || months[col - 1] != months[col] {
            write_label(&mut row, 4 + 2 * col, month_label(months[col]));
        }
        col += 1;
    }
    row
}

/// Whether `months` are the months of the weeks from `start` on.
pub open spec fn months_from(months: Seq<u32>, start: int, weeks: int) -> bool {
    &&& months.len() == weeks
    &&& forall|i: int|
        0 <= i < months.len() ==> month_read(start + 7 * i) == Some((#[trigger] months[i]) as int)
}

/// The row of month names above a map that begins on a day; nothing where one
/// of its weeks is out of the calendar.
pub fn heatmap_month_header(start: i32, week_count: usize) -> (r: Option<Vec<char>>)
    requires
        start + 7 * week_count <= i32::MAX,
    ensures
        match r {
            Some(row) => exists|months: Seq<u32>|
                #[trigger] months_from(months, start as int, week_count as int) && row@
                    == month_row(months, months.len()),
            None => exists|i: int|
                0 <= i < week_count && (#[trigger] month_read(start + 7 * i)) is None,
        },
{
    let mut months: Vec<u32> = Vec::new();
    let mut col: usize = 0;
    while col < week_count
        invariant
            col <= week_count,
            start + 7 * week_count <= i32::MAX,
            months_from(months@, start as int, col as int),
        decreases week_count - col,
    {
        let day: i32 = (start as i64 + 7 * (col as i64)) as i32;
        match month_of_day(day) {
            Some(month) => {
                months.push(month);
            },
            None => {
                proof {
                    assert(month_read(start + 7 * (col as int)) is None);
                }
                return None;
            },
        }
        col += 1;
    }
    Some(month_header(&months))
}

/// A place of the map.
#[derive(Debug, Clone, Copy, PartialEq, Eq, Structural)]
pub enum HeatCell {
    /// A day that has not come.
    Ahead,
    /// A day and its model calls.
    Calls(u32),
}

/// A place of the map.
pub open spec fn cell_of(usage: Map<int, DailyModelUsage>, day: int, today: int) -> HeatCell {
    if day > today {
        HeatCell::Ahead
    } else {
        HeatCell::Calls(usage_of(usage, day).calls)
    }
}

/// One row of the map.
pub fn heatmap_day_line(
    row: usize,
    start: i32,
    today: i32,
    week_count: usize,
    usage: &DayTable<DailyModelUsage>,
) -> (r: Vec<HeatCell>)
    requires
        week_count > 0 ==> start + 7 * (week_count - 1) + row <= i32::MAX,
    ensures
        r@ == Seq::new(
            week_count as nat,
            |col: int| cell_of(usage@, start + 7 * col + row, today as int),
        ),
{
    let ghost want = Seq::new(
        week_count as nat,
        |col: int| cell_of(usage@, start + 7 * col + row, today as int),
    );
    let mut cells: Vec<HeatCell> = Vec::new();
    let mut col: usize = 0;
    while col < week_count
        invariant
            col <= week_count,
            week_count > 0 ==> start + 7 * (week_count - 1) + row <= i32::MAX,
            want == Seq::new(
                week_count as nat,
                |col: int| cell_of(usage@, start + 7 * col + row, today as int),
            ),
            cells@ == want.take(col as int),
        decreases week_count - col,
    {
        let day: i32 = (start as i64 + 7 * (col as i64) + row as i64) as i32;
        let cell = if day > today {
            HeatCell::Ahead
        } else {
            match usage.get(day) {
                Some(u) => HeatCell::Calls(u.calls),
                None => HeatCell::Calls(0),
            }
        };
        proof {
            assert(want[col as int] == cell);
            assert(want.take(col + 1) =~= want.take(col as int).push(cell));
        }
        cells.push(cell);
        col += 1;
    }
    proof {
        assert(want.take(want.len() as int) =~= want);
    }
    cells
}

/// How warm a day is shown: by the quarter of the peak that its calls reach.
#[derive(Debug, Clone, Copy, PartialEq, Eq, Structural)]
pub enum HeatLevel {
    Cold,
    UpToQuarter,
    UpToHalf,
    UpToThreeQuarters,
    Above,
}

/// How warm a day is shown.
pub open spec fn level_of(calls: int, peak: int) -> HeatLevel {
    if calls == 0 || peak == 0 {
        HeatLevel::Cold
    } else if 4 * calls <= peak {
        HeatLevel::UpToQuarter
    } else if 2 * calls <= peak {
        HeatLevel::UpToHalf
    } else if 4 * calls <= 3 * peak {
        HeatLevel::UpToThreeQuarters
    } else {
        HeatLevel::Above
    }
}

/// How warm a day is shown.
pub fn heat_level(calls: u32, peak_calls: u32) -> (r: HeatLevel)
    ensures
        r == level_of(calls as int, peak_calls as int),
{
    let c: u64 = calls as u64;
    let p: u64 = peak_calls as u64;
    if c == 0 || p == 0 {
        HeatLevel::Cold
    } else if 4 * c <= p {
        HeatLevel::UpToQuarter
    } else if 2 * c <= p {
        HeatLevel::UpToHalf
    } else if 4 * c <= 3 * p {
        HeatLevel::UpToThreeQuarters
    } else {
        HeatLevel::Above
    }
}

/// Months have their English names.
pub proof fn law_months_have_names(m: int)
    ensures
        month_name(1) == "Jan"@ && month_name(2) == "Feb"@ && month_name(3) == "Mar"@,
        month_name(4) == "Apr"@ && month_name(5) == "May"@ && month_name(6) == "Jun"@,
        month_name(7) == "Jul"@ && month_name(8) == "Aug"@ && month_name(9) == "Sep"@,
        month_name(10) == "Oct"@ && month_name(11) == "Nov"@ && month_name(12) == "Dec"@,
        month_name(m).len() == 3,
{
    reveal_strlit("Jan");
    reveal_strlit("Feb");
    reveal_strlit("Mar");
    reveal_strlit("Apr");
    reveal_strlit("May");
    reveal_strlit("Jun");
    reveal_strlit("Jul");
    reveal_strlit("Aug");
    reveal_strlit("Sep");
    reveal_strlit("Oct");
    reveal_strlit("Nov");
    reveal_strlit("Dec");
}

/// The last month that begins is named above its first week.
pub proof fn law_month_is_named_above_its_week(months: Seq<u32>, n: nat, k: int)
    requires
        0 < n < months.len(),
        0 <= k < 3,
        n == 1 || months[n - 2] != months[n - 1],
    ensures
        month_row(months, n).len() == 4 + 2 * months.len(),
        month_row(months, n)[4 + 2 * (n - 1) + k] == month_name(months[n - 1] as int)[k],
        forall|i: int|
            0 <= i < 4 + 2 * (n - 1) ==> (#[trigger] month_row(months, n)[i]) == month_row(
                months,
                (n - 1) as nat,
            )[i],
        month_row(months, 0)[k] == ' ',
{
    law_months_have_names(months[n - 1] as int);
    lemma_month_row_len(months, (n - 1) as nat);
}

proof fn lemma_month_row_len(months: Seq<u32>, n: nat)
    requires
        n <= months.len(),
    ensures
        month_row(months, n).len() == 4 + 2 * months.len(),
    decreases n,
{
    if n > 0 {
        lemma_month_row_len(months, (n - 1) as nat);
    }
}

/// As many weeks are shown as there is room for at two columns each, and never fewer
/// than four or more than a year.
pub proof fn law_weeks_fill_the_width(width: int)
    ensures
        4 <= weeks_of(width) <= 53,
        14 <= width <= 112 ==> 2 * weeks_of(width) <= width - 6 < 2 * weeks_of(width) + 2,
        width > 112 ==> weeks_of(width) == 53,
{
}

/// A day that has not come is left open; another shows its calls.
pub proof fn law_day_shows_its_calls(usage: Map<int, DailyModelUsage>, day: int, today: int)
    ensures
        day > today ==> cell_of(usage, day, today) is Ahead,
        day <= today && usage.contains_key(day) ==> cell_of(usage, day, today) == HeatCell::Calls(
            usage[day].calls,
        ),
        day <= today && !usage.contains_key(day) ==> cell_of(usage, day, today) == HeatCell::Calls(
            0,
        ),
{
}

/// A day is as warm as its calls are a share of those of the warmest day.
pub proof fn law_warmth_is_a_share_of_the_peak(calls: int, peak: int)
    requires
        0 < peak,
        0 <= calls <= peak,
    ensures
        level_of(calls, peak) is Cold <==> calls == 0,
        level_of(calls, peak) is UpToQuarter <==> 0 < calls && 4 * calls <= peak,
        level_of(calls, peak) is UpToHalf <==> peak < 4 * calls && 2 * calls <= peak,
        level_of(calls, peak) is UpToThreeQuarters <==> peak < 2 * calls && 4 * calls <= 3 * peak,
        level_of(calls, peak) is Above <==> 3 * peak < 4 * calls,
{
}

} // verus!
