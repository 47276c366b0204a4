//! The weekly aggregator.
//!
//! Buckets tracked hours by ISO week, computes the per-week gap between
//! tracked and due hours, and folds a running cumulative balance across the
//! weeks in chronological order.

use vstd::arithmetic::div_mod::lemma_div_is_ordered;
use vstd::arithmetic::mul::lemma_mul_upper_bound;
use vstd::prelude::*;

use crate::calendar::{date_day_number, month_number, month_of};
use crate::date::Date;
use crate::due::{
    due_hours_per_week, lemma_sum_due_hours_bounds, spec_due_hours, spec_sum_due_hours,
    NOMINAL_CENTIHOURS_MAX,
};
use crate::week::{
    enumerate_weeks, monday_of_week, week_index, week_index_of, DateRange, IsoWeek, WEEK_INDEX_MAX,
};

verus! {

/// One recorded work session: the day it was spent on and its duration in
/// centihours.
#[derive(Clone, Copy, Debug, PartialEq, Eq, Structural)]
pub struct TimeEntry {
    pub spent_date: Date,
    pub hours: i64,
}

impl TimeEntry {
    /// A well-formed entry: a real calendar date and a non-negative
    /// duration.
    pub open spec fn wf(self) -> bool {
        &&& self.spent_date.wf()
        &&& 0 <= self.hours
    }

    /// The day count of the entry's date.
    pub open spec fn spec_day(self) -> int {
        crate::calendar::day_num_of(
            self.spent_date.year as int,
            self.spent_date.month as int,
            self.spent_date.day as int,
        )
    }
}

/// A batch of time entries, as handed over by the time-tracking source.
#[derive(Debug)]
pub struct TimeEntries {
    pub time_entries: Vec<TimeEntry>,
}

/// Whether an entry counts toward week `w` (a week index) of the range
/// `[from_day, to_day]`: its date lies inside the range and falls in that
/// week.
pub open spec fn entry_in_week(e: TimeEntry, from_day: int, to_day: int, w: int) -> bool {
    &&& from_day <= e.spec_day() <= to_day
    &&& week_index_of(e.spec_day()) == w
}

/// The total duration of all entries of the batch, counted or not.
pub open spec fn sum_hours(s: Seq<TimeEntry>) -> int
    decreases s.len(),
{
    if s.len() == 0 {
        0
    } else {
        sum_hours(s.drop_last()) + s.last().hours
    }
}

/// The tracked hours of week `w`: the total duration of the entries that
/// count toward that week.
pub open spec fn spec_tracked_hours(s: Seq<TimeEntry>, from_day: int, to_day: int, w: int) -> int
    decreases s.len(),
{
    if s.len() == 0 {
        0
    } else {
        spec_tracked_hours(s.drop_last(), from_day, to_day, w) + if entry_in_week(
            s.last(),
            from_day,
            to_day,
            w,
        ) {
            s.last().hours as int
        } else {
            0
        }
    }
}

/// The tracked hours of all weeks with indices in `[wlo, whi)` together.
pub open spec fn spec_tracked_hours_in_weeks(
    s: Seq<TimeEntry>,
    from_day: int,
    to_day: int,
    wlo: int,
    whi: int,
) -> int
    decreases s.len(),
{
    if s.len() == 0 {
        0
    } else {
        spec_tracked_hours_in_weeks(s.drop_last(), from_day, to_day, wlo, whi) + if from_day
            <= s.last().spec_day() <= to_day && wlo <= week_index_of(s.last().spec_day()) < whi {
            s.last().hours as int
        } else {
            0
        }
    }
}

/// The per-week gap: tracked hours minus due hours of week `w`.
pub open spec fn spec_diff(
    s: Seq<TimeEntry>,
    from_day: int,
    to_day: int,
    nominal: int,
    w: int,
) -> int {
    spec_tracked_hours(s, from_day, to_day, w) - spec_due_hours(w, from_day, to_day, nominal)
}

/// The sum of the per-week gaps of the first `n` weeks touched by the
/// range, starting at the range's start week.
pub open spec fn spec_sum_diffs(
    s: Seq<TimeEntry>,
    from_day: int,
    to_day: int,
    nominal: int,
    n: nat,
) -> int
    decreases n,
{
    if n == 0 {
        0
    } else {
        spec_sum_diffs(s, from_day, to_day, nominal, (n - 1) as nat) + spec_diff(
            s,
            from_day,
            to_day,
            nominal,
            week_index_of(from_day) + n - 1,
        )
    }
}

/// All entries have non-negative durations.
pub open spec fn all_entries_wf(s: Seq<TimeEntry>) -> bool {
    forall|i: int| 0 <= i < s.len() ==> (#[trigger] s[i]).wf()
}

/// The tracked hours of any band of weeks lie between zero and the batch's
/// total.
proof fn lemma_tracked_hours_in_weeks_bounds(
    s: Seq<TimeEntry>,
    from_day: int,
    to_day: int,
    wlo: int,
    whi: int,
)
    requires
        all_entries_wf(s),
    ensures
        0 <= spec_tracked_hours_in_weeks(s, from_day, to_day, wlo, whi) <= sum_hours(s),
    decreases s.len(),
{
    if s.len() > 0 {
        assert(all_entries_wf(s.drop_last())) by {
            assert(forall|i: int|
                0 <= i < s.len() - 1 ==> s.drop_last()[i] == #[trigger] s[i]);
        }
        lemma_tracked_hours_in_weeks_bounds(s.drop_last(), from_day, to_day, wlo, whi);
        assert(s.last().wf());
    }
}

/// Splitting the last week off a band of weeks splits its tracked hours:
/// each entry counts toward `[wlo, whi)` exactly when it counts toward
/// `[wlo, whi - 1)` or toward week `whi - 1` itself.
proof fn lemma_tracked_hours_in_weeks_split(
    s: Seq<TimeEntry>,
    from_day: int,
    to_day: int,
    wlo: int,
    whi: int,
)
    requires
        wlo < whi,
    ensures
        spec_tracked_hours_in_weeks(s, from_day, to_day, wlo, whi)
            == spec_tracked_hours_in_weeks(s, from_day, to_day, wlo, whi - 1)
            + spec_tracked_hours(s, from_day, to_day, whi - 1),
    decreases s.len(),
{
    if s.len() > 0 {
        lemma_tracked_hours_in_weeks_split(s.drop_last(), from_day, to_day, wlo, whi);
    }
}

/// The sum of the first `n` per-week gaps equals the tracked hours of those
/// `n` weeks together, minus their due hours together.
proof fn lemma_sum_diffs_as_difference(
    s: Seq<TimeEntry>,
    from_day: int,
    to_day: int,
    nominal: int,
    n: nat,
)
    ensures
        spec_sum_diffs(s, from_day, to_day, nominal, n) == spec_tracked_hours_in_weeks(
            s,
            from_day,
            to_day,
            week_index_of(from_day),
            week_index_of(from_day) + n,
        ) - spec_sum_due_hours(from_day, to_day, nominal, n),
    decreases n,
{
    let start = week_index_of(from_day);
    if n == 0 {
        lemma_tracked_hours_in_weeks_empty(s, from_day, to_day, start);
    } else {
        lemma_sum_diffs_as_difference(s, from_day, to_day, nominal, (n - 1) as nat);
        lemma_tracked_hours_in_weeks_split(s, from_day, to_day, start, start + n);
    }
}

/// An empty band of weeks tracks no hours.
proof fn lemma_tracked_hours_in_weeks_empty(
    s: Seq<TimeEntry>,
    from_day: int,
    to_day: int,
    wlo: int,
)
    ensures
        spec_tracked_hours_in_weeks(s, from_day, to_day, wlo, wlo) == 0,
    decreases s.len(),
{
    if s.len() > 0 {
        lemma_tracked_hours_in_weeks_empty(s.drop_last(), from_day, to_day, wlo);
    }
}

/// Any sum of per-week gaps lies between the negated due-hours sum and the
/// batch's total duration.
proof fn lemma_sum_diffs_bounds(
    s: Seq<TimeEntry>,
    from_day: int,
    to_day: int,
    nominal: int,
    n: nat,
)
    requires
        all_entries_wf(s),
        from_day <= to_day,
        0 <= nominal,
    ensures
        -(2 * nominal * n) <= spec_sum_diffs(s, from_day, to_day, nominal, n) <= sum_hours(s),
{
    let start = week_index_of(from_day);
    lemma_sum_diffs_as_difference(s, from_day, to_day, nominal, n);
    lemma_tracked_hours_in_weeks_bounds(s, from_day, to_day, start, start + n);
    lemma_sum_due_hours_bounds(from_day, to_day, nominal, n);
}

/// A prefix of the batch never tracks more than the whole batch.
proof fn lemma_sum_hours_prefix(s: Seq<TimeEntry>, n: int)
    requires
        all_entries_wf(s),
        0 <= n <= s.len(),
    ensures
        0 <= sum_hours(s.take(n)) <= sum_hours(s),
    decreases s.len() - n,
{
    if n == s.len() {
        assert(s.take(n) =~= s);
        lemma_sum_hours_nonneg(s);
    } else {
        lemma_sum_hours_prefix(s, n + 1);
        assert(s.take(n + 1).drop_last() =~= s.take(n));
        assert(s.take(n + 1).last() == s[n]);
        assert(s[n].wf());
        assert(all_entries_wf(s.take(n))) by {
            assert(forall|i: int| 0 <= i < n ==> s.take(n)[i] == #[trigger] s[i]);
        }
        lemma_sum_hours_nonneg(s.take(n));
    }
}

/// The English name of month `m` (1 = January).
pub open spec fn spec_month_name(m: int) -> Seq<char> {
    if m == 1 {
        "January"@
    } else if m == 2 {
        "February"@
    } else if m == 3 {
        "March"@
    } else if m == 4 {
        "April"@
    } else if m == 5 {
        "May"@
    } else if m == 6 {
        "June"@
    } else if m == 7 {
        "July"@
    } else if m == 8 {
        "August"@
    } else if m == 9 {
        "September"@
    } else if m == 10 {
        "October"@
    } else if m == 11 {
        "November"@
    } else {
        "December"@
    }
}

/// The English name of month `m`.
pub fn month_name(m: u8) -> (r: String)
    requires
        1 <= m <= 12,
    ensures
        r@ == spec_month_name(m as int),
{
    if m == 1 {
        "January".to_owned()
    } else if m == 2 {
        "February".to_owned()
    } else if m == 3 {
        "March".to_owned()
    } else if m == 4 {
        "April".to_owned()
    } else if m == 5 {
        "May".to_owned()
    } else if m == 6 {
        "June".to_owned()
    } else if m == 7 {
        "July".to_owned()
    } else if m == 8 {
        "August".to_owned()
    } else if m == 9 {
        "September".to_owned()
    } else if m == 10 {
        "October".to_owned()
    } else if m == 11 {
        "November".to_owned()
    } else {
        "December".to_owned()
    }
}

/// One week's summary: the week, the month name of its Monday (a purely
/// presentational label), and the due, tracked and gap figures in
/// centihours.
#[derive(Debug)]
pub struct WeeklySummary {
    pub isoweek: IsoWeek,
    pub month: String,
    pub expected_hours: i64,
    pub tracked_hours: i64,
    pub diff: i64,
}

/// A week's summary together with the running sum of the gaps of all weeks
/// up to and including it, in chronological order.
#[derive(Debug)]
pub struct EnhancedWeeklySummary {
    pub output: WeeklySummary,
    pub accumulated_diff: i64,
}

/// What the summary at position `i` of the computed list says: it describes
/// the `i`-th week touched by the range, carries that week's calendar
/// labels, its due and tracked hours and their gap, and the running sum of
/// the gaps of the first `i + 1` weeks.
pub open spec fn spec_summary_ok(
    s: Seq<TimeEntry>,
    range: DateRange,
    nominal: int,
    i: int,
    e: EnhancedWeeklySummary,
) -> bool {
    let from_day = range.from_day as int;
    let to_day = range.to_day as int;
    let w = week_index_of(from_day) + i;
    &&& e.output.isoweek.index == w
    &&& e.output.isoweek.wf()
    &&& e.output.month@ == spec_month_name(month_of(monday_of_week(w)))
    &&& e.output.expected_hours == spec_due_hours(w, from_day, to_day, nominal)
    &&& e.output.tracked_hours == spec_tracked_hours(s, from_day, to_day, w)
    &&& e.output.diff == e.output.tracked_hours - e.output.expected_hours
    &&& e.accumulated_diff == spec_sum_diffs(s, from_day, to_day, nominal, (i + 1) as nat)
}

/// The whole computation: one `EnhancedWeeklySummary` per week touched by
/// the range, in chronological order. Entries outside the range are
/// excluded before grouping; weeks without entries track zero hours. The
/// cumulative figure of each summary is the sum of the gaps of all weeks up
/// to it, so the one carried by the last week equals the sum of all the
/// individual weekly gaps.
pub fn compute_stats(range: &DateRange, nominal: i64, entries: &TimeEntries) -> (r: Vec<
    EnhancedWeeklySummary,
>)
    requires
        range.wf(),
        0 <= nominal <= NOMINAL_CENTIHOURS_MAX,
        all_entries_wf(entries.time_entries@),
        sum_hours(entries.time_entries@) <= i64::MAX,
    ensures
        r@.len() == range.spec_num_weeks(),
        forall|i: int|
            0 <= i < r@.len() ==> spec_summary_ok(
                entries.time_entries@,
                *range,
                nominal as int,
                i,
                #[trigger] r@[i],
            ),
        r@.len() > 0 ==> r@[r@.len() - 1].accumulated_diff == spec_sum_diffs(
            entries.time_entries@,
            range.from_day as int,
            range.to_day as int,
            nominal as int,
            r@.len() as nat,
        ),
{
    let ghost es = entries.time_entries@;
    let ghost from_day = range.from_day as int;
    let ghost to_day = range.to_day as int;
    let ghost start = week_index_of(from_day);

    let weeks = enumerate_weeks(range);

    let mut entry_days: Vec<i64> = Vec::new();
    let mut j: usize = 0;
    while j < entries.time_entries.len()
        invariant
            all_entries_wf(es),
            es == entries.time_entries@,
            j <= es.len(),
            entry_days@.len() == j,
            forall|i: int| 0 <= i < j ==> entry_days@[i] == (#[trigger] es[i]).spec_day(),
        decreases es.len() - j,
    {
        let d = date_day_number(&entries.time_entries[j].spent_date);
        entry_days.push(d);
        j = j + 1;
    }

    let mut out: Vec<EnhancedWeeklySummary> = Vec::new();
    let mut acc: i64 = 0;
    let mut k: usize = 0;
    while k < weeks.len()
        invariant
            range.wf(),
            0 <= nominal <= NOMINAL_CENTIHOURS_MAX,
            all_entries_wf(es),
            es == entries.time_entries@,
            sum_hours(es) <= i64::MAX,
            from_day == range.from_day as int,
            to_day == range.to_day as int,
            start == week_index_of(from_day),
            weeks@.len() == range.spec_num_weeks(),
            forall|i: int|
                0 <= i < weeks@.len() ==> (#[trigger] weeks@[i]).index == start + i,
            forall|i: int| 0 <= i < weeks@.len() ==> (#[trigger] weeks@[i]).wf(),
            entry_days@.len() == es.len(),
            forall|i: int| 0 <= i < es.len() ==> entry_days@[i] == (#[trigger] es[i]).spec_day(),
            k <= weeks@.len(),
            out@.len() == k,
            acc == spec_sum_diffs(es, from_day, to_day, nominal as int, k as nat),
            forall|i: int|
                0 <= i < k ==> spec_summary_ok(es, *range, nominal as int, i, #[trigger] out@[i]),
        decreases weeks@.len() - k,
    {
        let w = weeks[k];
        let expected = due_hours_per_week(w, range, nominal);

        let mut tracked_hours: i64 = 0;
        let mut j: usize = 0;
        while j < entries.time_entries.len()
            invariant
                range.wf(),
                all_entries_wf(es),
                es == entries.time_entries@,
                sum_hours(es) <= i64::MAX,
                from_day == range.from_day as int,
                to_day == range.to_day as int,
                entry_days@.len() == es.len(),
                forall|i: int|
                    0 <= i < es.len() ==> entry_days@[i] == (#[trigger] es[i]).spec_day(),
                j <= es.len(),
                tracked_hours == spec_tracked_hours(es.take(j as int), from_day, to_day, w.index as int),
                0 <= tracked_hours <= sum_hours(es.take(j as int)),
            decreases es.len() - j,
        {
            proof {
                assert(es.take(j + 1).drop_last() =~= es.take(j as int));
                assert(es.take(j + 1).last() == es[j as int]);
                lemma_sum_hours_prefix(es, j + 1);
            }
            let d = entry_days[j];
            if range.from_day <= d && d <= range.to_day {
                let wi = week_index(d);
                if wi == w.index {
                    tracked_hours = tracked_hours + entries.time_entries[j].hours;
                }
            }
            j = j + 1;
        }
        proof {
            assert(es.take(es.len() as int) =~= es);
        }

        let diff = tracked_hours - expected;
        proof {
            lemma_sum_diffs_bounds(es, from_day, to_day, nominal as int, (k + 1) as nat);
            lemma_div_is_ordered(to_day - 1, crate::calendar::DAY_NUM_MAX - 1, 7);
            lemma_div_is_ordered(0, from_day - 1, 7);
            lemma_mul_upper_bound(
                2 * nominal,
                2 * NOMINAL_CENTIHOURS_MAX as int,
                k + 1,
                WEEK_INDEX_MAX + 1,
            );
        }
        acc = acc + diff;

        let monday = 7 * w.index + 1;
        let m = month_number(monday);
        let month = month_name(m);
        out.push(
            EnhancedWeeklySummary {
                output: WeeklySummary {
                    isoweek: w,
                    month,
                    expected_hours: expected,
                    tracked_hours,
                    diff,
                },
                accumulated_diff: acc,
            },
        );
        k = k + 1;
    }
    out
}

/// The total duration of a batch of well-formed entries is non-negative.
proof fn lemma_sum_hours_nonneg(s: Seq<TimeEntry>)
    requires
        all_entries_wf(s),
    ensures
        0 <= sum_hours(s),
    decreases s.len(),
{
    if s.len() > 0 {
        assert(all_entries_wf(s.drop_last())) by {
            assert(forall|i: int|
                0 <= i < s.len() - 1 ==> s.drop_last()[i] == #[trigger] s[i]);
        }
        lemma_sum_hours_nonneg(s.drop_last());
        assert(s.last().wf());
    }
}

} // verus!
