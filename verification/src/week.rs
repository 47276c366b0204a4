//! ISO weeks over day counts.
//!
//! Because ISO-8601 weeks run Monday through Sunday and day 1 of the
//! library's day count (0001-01-01) is a Monday, a date's week is fully
//! determined by plain arithmetic on its day count: days `7*w + 1` through
//! `7*w + 7` form week number `w` of the count. The ISO (year, week) pair is
//! only a label for such a block, supplied by the trusted calendar boundary.

use vstd::arithmetic::div_mod::{
    lemma_div_is_ordered, lemma_div_multiples_vanish, lemma_fundamental_div_mod,
};
use vstd::prelude::*;

use crate::calendar::{
    date_day_number, day_num_of, iso_label_of, iso_week_label, DAY_NUM_MAX, DAY_NUM_MIN,
};
use crate::date::Date;

verus! {

/// The chronological index of the Monday-aligned week containing day `day`:
/// week 0 is days 1..=7 (the week of 0001-01-01), week 1 is days 8..=14,
/// and so on.
pub open spec fn week_index_of(day: int) -> int {
    (day - 1) / 7
}

/// The 1-based Monday-origin weekday number of day `day`
/// (Monday = 1 .. Sunday = 7).
pub open spec fn weekday_of(day: int) -> int {
    (day - 1) % 7 + 1
}

/// The day count of the Monday that opens week `w`.
pub open spec fn monday_of_week(w: int) -> int {
    7 * w + 1
}

/// The week index of the last handled day, 9999-12-31.
pub const WEEK_INDEX_MAX: i64 = 521722;

/// The chronological index of the week containing day `day`.
pub fn week_index(day: i64) -> (r: i64)
    requires
        DAY_NUM_MIN <= day <= DAY_NUM_MAX,
    ensures
        r == week_index_of(day as int),
        0 <= r <= WEEK_INDEX_MAX,
{
    (((day - 1) as u64) / 7) as i64
}

/// The 1-based Monday-origin weekday number of day `day`.
pub fn weekday(day: i64) -> (r: u8)
    requires
        DAY_NUM_MIN <= day <= DAY_NUM_MAX,
    ensures
        r == weekday_of(day as int),
        1 <= r <= 7,
{
    ((((day - 1) as u64) % 7) + 1) as u8
}

/// An ISO-8601 week. `index` is the canonical chronological key (the week's
/// position in the Monday-aligned day count); `year` and `week` are the
/// ISO (year, week number) label of the same week, so two values compare
/// equal exactly when they name the same calendar week.
#[derive(Clone, Copy, Debug, PartialEq, Eq, Structural)]
pub struct IsoWeek {
    pub index: i64,
    pub year: i32,
    pub week: u8,
}

impl IsoWeek {
    /// A well-formed ISO week: the index lies in the handled range and the
    /// (year, week) label is the calendar's label of that week's Monday.
    pub open spec fn wf(self) -> bool {
        &&& 0 <= self.index <= WEEK_INDEX_MAX
        &&& self.year as int == iso_label_of(monday_of_week(self.index as int)).0
        &&& self.week as int == iso_label_of(monday_of_week(self.index as int)).1
    }

    /// The ISO week containing the given date.
    pub fn of_date(d: &Date) -> (r: IsoWeek)
        requires
            d.wf(),
        ensures
            r.index == week_index_of(day_num_of(d.year as int, d.month as int, d.day as int)),
            r.wf(),
    {
        let day = date_day_number(d);
        Self::of_day(day)
    }

    /// The ISO week containing the day with count `day`.
    pub(crate) fn of_day(day: i64) -> (r: IsoWeek)
        requires
            DAY_NUM_MIN <= day <= DAY_NUM_MAX,
        ensures
            r.index == week_index_of(day as int),
            r.wf(),
    {
        let idx = week_index(day);
        Self::of_index(idx)
    }

    /// The ISO week with chronological index `idx`.
    pub(crate) fn of_index(idx: i64) -> (r: IsoWeek)
        requires
            0 <= idx <= WEEK_INDEX_MAX,
        ensures
            r.index == idx,
            r.wf(),
    {
        let monday = 7 * idx + 1;
        let (year, week) = iso_week_label(monday);
        IsoWeek { index: idx, year, week }
    }
}

/// A calendar date interval, held as the day counts of its two endpoints.
/// Well-formedness carries the range's one invariant: the interval is not
/// empty and lies within the handled days.
#[derive(Clone, Copy, Debug, PartialEq, Eq, Structural)]
pub struct DateRange {
    pub from_day: i64,
    pub to_day: i64,
}

impl DateRange {
    /// A well-formed range: `from` does not fall after `to`, and both lie
    /// within the handled days.
    pub open spec fn wf(self) -> bool {
        DAY_NUM_MIN <= self.from_day <= self.to_day <= DAY_NUM_MAX
    }

    /// The week index of the range's first day.
    pub open spec fn spec_start_week(self) -> int {
        week_index_of(self.from_day as int)
    }

    /// The week index of the range's last day.
    pub open spec fn spec_end_week(self) -> int {
        week_index_of(self.to_day as int)
    }

    /// How many distinct weeks the range touches.
    pub open spec fn spec_num_weeks(self) -> int {
        self.spec_end_week() - self.spec_start_week() + 1
    }

    /// Builds the range `[from, to]`, returning `None` exactly when `from`
    /// falls after `to`.
    pub fn new(from: &Date, to: &Date) -> (r: Option<DateRange>)
        requires
            from.wf(),
            to.wf(),
        ensures
            r is Some <==> day_num_of(from.year as int, from.month as int, from.day as int)
                <= day_num_of(to.year as int, to.month as int, to.day as int),
            r is Some ==> (r->Some_0).from_day
                == day_num_of(from.year as int, from.month as int, from.day as int),
            r is Some ==> (r->Some_0).to_day
                == day_num_of(to.year as int, to.month as int, to.day as int),
            r is Some ==> (r->Some_0).wf(),
    {
        let from_day = date_day_number(from);
        let to_day = date_day_number(to);
        if from_day <= to_day {
            Some(DateRange { from_day, to_day })
        } else {
            None
        }
    }
}

/// The ordered, deduplicated weeks touched by the range: exactly the weeks
/// with indices from the range's start week through its end week, each
/// carrying its calendar label. Their indices are consecutive, so they are
/// strictly increasing with no gaps.
pub fn enumerate_weeks(range: &DateRange) -> (r: Vec<IsoWeek>)
    requires
        range.wf(),
    ensures
        r@.len() == range.spec_num_weeks(),
        r@.len() >= 1,
        forall|i: int| 0 <= i < r@.len() ==> (#[trigger] r@[i]).index == range.spec_start_week() + i,
        forall|i: int| 0 <= i < r@.len() ==> (#[trigger] r@[i]).wf(),
        forall|i: int, j: int| 0 <= i < j < r@.len() ==> r@[i].index < r@[j].index,
{
    let start = week_index(range.from_day);
    let end = week_index(range.to_day);
    proof {
        lemma_div_is_ordered(range.from_day - 1, range.to_day - 1, 7);
    }
    let count = (end - start + 1) as usize;
    let mut r: Vec<IsoWeek> = Vec::new();
    let mut k: usize = 0;
    while k < count
        invariant
            0 <= start <= end <= WEEK_INDEX_MAX,
            count == end - start + 1,
            k <= count,
            r@.len() == k,
            forall|i: int| 0 <= i < k ==> (#[trigger] r@[i]).index == start + i,
            forall|i: int| 0 <= i < k ==> (#[trigger] r@[i]).wf(),
        decreases count - k,
    {
        let w = IsoWeek::of_index(start + k as i64);
        r.push(w);
        k = k + 1;
    }
    r
}

/// Every day of a well-formed range `[from_day, to_day]` falls in a week
/// whose index lies between the range's start and end week, and every week
/// index in that interval contains at least one day of the range: the start
/// week contains `from_day` itself, and each later week in the interval
/// contains its own Monday. Together with the consecutive indices that
/// `enumerate_weeks` returns, the enumerated weeks therefore partition the
/// range's days: each day of the range belongs to exactly one listed week.
pub proof fn lemma_weeks_cover_range(from_day: int, to_day: int)
    requires
        from_day <= to_day,
    ensures
        forall|d: int|
            from_day <= d <= to_day ==> week_index_of(from_day) <= #[trigger] week_index_of(d)
                <= week_index_of(to_day),
        forall|w: int|
            week_index_of(from_day) < w <= week_index_of(to_day) ==> from_day
                <= #[trigger] monday_of_week(w) <= to_day && week_index_of(monday_of_week(w)) == w,
{
    assert forall|d: int| from_day <= d <= to_day implies week_index_of(from_day)
        <= #[trigger] week_index_of(d) <= week_index_of(to_day) by {
        lemma_div_is_ordered(from_day - 1, d - 1, 7);
        lemma_div_is_ordered(d - 1, to_day - 1, 7);
    }
    assert forall|w: int|
        week_index_of(from_day) < w <= week_index_of(to_day) implies from_day
        <= #[trigger] monday_of_week(w) <= to_day && week_index_of(monday_of_week(w)) == w by {
        lemma_fundamental_div_mod(from_day - 1, 7);
        lemma_fundamental_div_mod(to_day - 1, 7);
        assert(week_index_of(monday_of_week(w)) == w) by {
            lemma_div_multiples_vanish(w, 7);
        }
    }
}

} // verus!
