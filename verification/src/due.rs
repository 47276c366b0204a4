//! The due-hours calculator.
//!
//! For one ISO week, the overall date range and a nominal full-time
//! weekly-hours figure, this module computes the hours that were expected
//! to be worked in that week's intersection with the range. The policy is a
//! fixed list of rules, tried in priority order; in particular the
//! weekend-start rule is tried before the single-week rule, so a range
//! confined to one weekend owes nothing even when it starts and ends in the
//! same week.
//!
//! Hours are centihours (hundredths of an hour). A day's worth of hours is
//! a fifth of the nominal weekly figure, so a span of `days` days owes
//! `days * nominal / 5` centihours, rounded down.

use vstd::arithmetic::div_mod::{
    lemma_div_is_ordered, lemma_div_multiples_vanish, lemma_fundamental_div_mod,
    lemma_div_pos_is_pos,
};
use vstd::arithmetic::mul::{
    lemma_mul_inequality, lemma_mul_is_distributive_sub, lemma_mul_nonnegative,
};
use vstd::prelude::*;

use crate::week::{week_index, week_index_of, weekday, weekday_of, DateRange, IsoWeek};

verus! {

/// Upper bound on the nominal weekly hours figure, in centihours, so that
/// every intermediate product and week-by-week sum of the computation fits
/// in a machine integer.
pub const NOMINAL_CENTIHOURS_MAX: i64 = 1_000_000_000_000;

/// The centihours due in week `week` (a week index) of the range
/// `[from_day, to_day]` under the nominal weekly figure `nominal`, as a
/// list of rules tried in priority order:
///
/// 1. a week entirely outside the range owes nothing;
/// 2. if the range starts on a weekend, its start week owes nothing (even
///    when start and end week coincide);
/// 3. a range starting and ending in the same week owes one day's worth of
///    hours per calendar day from `from` to `to` inclusive, weekends
///    within the span notwithstanding;
/// 4. the start week of a longer range owes the days from `from` through
///    that week's Friday;
/// 5. the end week owes the full nominal figure when the range ends on a
///    weekend, else the days from Monday through `to`;
/// 6. a week strictly between start and end week owes the full nominal
///    figure.
pub open spec fn spec_due_hours(week: int, from_day: int, to_day: int, nominal: int) -> int {
    let start_week = week_index_of(from_day);
    let end_week = week_index_of(to_day);
    let start_wd = weekday_of(from_day);
    let end_wd = weekday_of(to_day);
    if week < start_week || week > end_week {
        0
    } else if week == start_week && start_wd > 5 {
        0
    } else if week == start_week && week == end_week {
        (end_wd - start_wd + 1) * nominal / 5
    } else if week == start_week {
        (5 - start_wd + 1) * nominal / 5
    } else if week == end_week {
        if end_wd > 5 {
            nominal
        } else {
            end_wd * nominal / 5
        }
    } else {
        nominal
    }
}

/// For spans of at most `bound` days, `days * nominal / 5` is at most
/// `bound * nominal / 5`, and in particular at most `nominal` for spans of
/// up to five days and at most `2 * nominal` for spans of up to ten.
proof fn lemma_days_worth_bounds(days: int, nominal: int)
    requires
        0 <= days,
        0 <= nominal,
    ensures
        0 <= days * nominal / 5,
        days <= 5 ==> days * nominal / 5 <= nominal,
        days <= 10 ==> days * nominal / 5 <= 2 * nominal,
{
    lemma_mul_nonnegative(days, nominal);
    lemma_div_pos_is_pos(days * nominal, 5);
    if days <= 5 {
        lemma_mul_inequality(days, 5, nominal);
        lemma_div_is_ordered(days * nominal, 5 * nominal, 5);
        lemma_div_multiples_vanish(nominal, 5);
    }
    if days <= 10 {
        lemma_mul_inequality(days, 10, nominal);
        lemma_div_is_ordered(days * nominal, 10 * nominal, 5);
        lemma_div_multiples_vanish(2 * nominal, 5);
        assert(5 * (2 * nominal) == 10 * nominal);
    }
}

/// Two days of the same week stand in the same order as their weekday
/// numbers.
proof fn lemma_same_week_weekday_order(a: int, b: int)
    requires
        a <= b,
        week_index_of(a) == week_index_of(b),
    ensures
        weekday_of(a) <= weekday_of(b),
        b - a == weekday_of(b) - weekday_of(a),
{
    lemma_fundamental_div_mod(a - 1, 7);
    lemma_fundamental_div_mod(b - 1, 7);
}

/// The hours due in `week` of the range, in centihours.
pub fn due_hours_per_week(week: IsoWeek, range: &DateRange, nominal: i64) -> (r: i64)
    requires
        range.wf(),
        0 <= nominal <= NOMINAL_CENTIHOURS_MAX,
    ensures
        r == spec_due_hours(
            week.index as int,
            range.from_day as int,
            range.to_day as int,
            nominal as int,
        ),
        0 <= r <= 2 * nominal,
{
    let start_week = week_index(range.from_day);
    let end_week = week_index(range.to_day);
    let start_wd = weekday(range.from_day);
    let end_wd = weekday(range.to_day);
    proof {
        lemma_div_is_ordered(range.from_day - 1, range.to_day - 1, 7);
    }
    if week.index < start_week || week.index > end_week {
        0
    } else if week.index == start_week && start_wd > 5 {
        0
    } else if week.index == start_week && week.index == end_week {
        proof {
            lemma_same_week_weekday_order(range.from_day as int, range.to_day as int);
            lemma_days_worth_bounds((end_wd - start_wd + 1) as int, nominal as int);
        }
        let days = (end_wd - start_wd + 1) as u64;
        ((days * nominal as u64) / 5) as i64
    } else if week.index == start_week {
        proof {
            lemma_days_worth_bounds((5 - start_wd + 1) as int, nominal as int);
        }
        let days = (5 - start_wd + 1) as u64;
        ((days * nominal as u64) / 5) as i64
    } else if week.index == end_week {
        if end_wd > 5 {
            nominal
        } else {
            proof {
                lemma_days_worth_bounds(end_wd as int, nominal as int);
            }
            ((end_wd as u64 * nominal as u64) / 5) as i64
        }
    } else {
        nominal
    }
}

/// The due hours of any week are never negative.
pub proof fn lemma_due_hours_nonneg(week: int, from_day: int, to_day: int, nominal: int)
    requires
        from_day <= to_day,
        0 <= nominal,
    ensures
        0 <= spec_due_hours(week, from_day, to_day, nominal),
{
    lemma_div_is_ordered(from_day - 1, to_day - 1, 7);
    if week_index_of(from_day) == week_index_of(to_day) {
        lemma_same_week_weekday_order(from_day, to_day);
        lemma_days_worth_bounds(weekday_of(to_day) - weekday_of(from_day) + 1, nominal);
    }
    if weekday_of(from_day) <= 5 {
        lemma_days_worth_bounds(5 - weekday_of(from_day) + 1, nominal);
    }
    lemma_days_worth_bounds(weekday_of(to_day), nominal);
}

/// The due hours of any week never exceed the nominal weekly figure. The
/// one family of ranges left out: a range starting and ending in the same
/// week and spanning more than five calendar days (it starts on a Monday
/// or Tuesday and ends on the following Saturday or Sunday), for which the
/// single-week rule counts every calendar day of the span as a working day
/// and so owes more than one nominal week.
pub proof fn lemma_due_hours_at_most_nominal(week: int, from_day: int, to_day: int, nominal: int)
    requires
        from_day <= to_day,
        0 <= nominal,
        week_index_of(from_day) == week_index_of(to_day) ==> to_day - from_day < 5,
    ensures
        spec_due_hours(week, from_day, to_day, nominal) <= nominal,
{
    lemma_div_is_ordered(from_day - 1, to_day - 1, 7);
    if week_index_of(from_day) == week_index_of(to_day) {
        lemma_same_week_weekday_order(from_day, to_day);
        lemma_days_worth_bounds(weekday_of(to_day) - weekday_of(from_day) + 1, nominal);
    }
    if weekday_of(from_day) <= 5 {
        lemma_days_worth_bounds(5 - weekday_of(from_day) + 1, nominal);
    }
    lemma_days_worth_bounds(weekday_of(to_day), nominal);
}

/// A week strictly outside the range owes nothing.
pub proof fn lemma_due_hours_outside_range(week: int, from_day: int, to_day: int, nominal: int)
    requires
        week < week_index_of(from_day) || week > week_index_of(to_day),
    ensures
        spec_due_hours(week, from_day, to_day, nominal) == 0,
{
}

/// The due hours of any week never exceed twice the nominal weekly figure
/// (the single-week rule can count up to seven calendar days, each worth a
/// fifth of the nominal figure).
proof fn lemma_due_hours_le_double(week: int, from_day: int, to_day: int, nominal: int)
    requires
        from_day <= to_day,
        0 <= nominal,
    ensures
        spec_due_hours(week, from_day, to_day, nominal) <= 2 * nominal,
{
    lemma_div_is_ordered(from_day - 1, to_day - 1, 7);
    if week_index_of(from_day) == week_index_of(to_day) {
        lemma_same_week_weekday_order(from_day, to_day);
        lemma_days_worth_bounds(weekday_of(to_day) - weekday_of(from_day) + 1, nominal);
    }
    if weekday_of(from_day) <= 5 {
        lemma_days_worth_bounds(5 - weekday_of(from_day) + 1, nominal);
    }
    lemma_days_worth_bounds(weekday_of(to_day), nominal);
}

/// The sum of the due hours of the first `n` weeks touched by the range
/// `[from_day, to_day]`, starting at the range's start week.
pub open spec fn spec_sum_due_hours(from_day: int, to_day: int, nominal: int, n: nat) -> int
    decreases n,
{
    if n == 0 {
        0
    } else {
        spec_sum_due_hours(from_day, to_day, nominal, (n - 1) as nat) + spec_due_hours(
            week_index_of(from_day) + n - 1,
            from_day,
            to_day,
            nominal,
        )
    }
}

/// Any sum of week-by-week due hours is non-negative and at most twice the
/// nominal figure per summed week.
pub proof fn lemma_sum_due_hours_bounds(from_day: int, to_day: int, nominal: int, n: nat)
    requires
        from_day <= to_day,
        0 <= nominal,
    ensures
        0 <= spec_sum_due_hours(from_day, to_day, nominal, n) <= 2 * nominal * n,
    decreases n,
{
    if n > 0 {
        lemma_sum_due_hours_bounds(from_day, to_day, nominal, (n - 1) as nat);
        lemma_due_hours_nonneg(week_index_of(from_day) + n - 1, from_day, to_day, nominal);
        lemma_due_hours_le_double(week_index_of(from_day) + n - 1, from_day, to_day, nominal);
        lemma_mul_is_distributive_sub(2 * nominal, n as int, 1);
    }
}

/// Under a range running from a Monday to a Friday, every week the range
/// touches owes exactly the nominal figure.
proof fn lemma_due_hours_full_week_mon_fri(week: int, from_day: int, to_day: int, nominal: int)
    requires
        from_day <= to_day,
        0 <= nominal,
        weekday_of(from_day) == 1,
        weekday_of(to_day) == 5,
        week_index_of(from_day) <= week <= week_index_of(to_day),
    ensures
        spec_due_hours(week, from_day, to_day, nominal) == nominal,
{
    lemma_div_multiples_vanish(nominal, 5);
    assert(5 * nominal == nominal * 5);
    if week == week_index_of(from_day) && week == week_index_of(to_day) {
        assert((weekday_of(to_day) - weekday_of(from_day) + 1) * nominal == 5 * nominal);
    } else if week == week_index_of(from_day) {
        assert((5 - weekday_of(from_day) + 1) * nominal == 5 * nominal);
    } else if week == week_index_of(to_day) {
        assert(weekday_of(to_day) * nominal == 5 * nominal);
    }
}

/// For a range spanning whole working weeks — `from` a Monday and `to` a
/// Friday, so no weekend clipping occurs at either end — the due hours of
/// the weeks the range touches sum to the nominal figure times the number
/// of weeks.
pub proof fn lemma_due_hours_whole_weeks_sum(from_day: int, to_day: int, nominal: int, n: nat)
    requires
        from_day <= to_day,
        0 <= nominal,
        weekday_of(from_day) == 1,
        weekday_of(to_day) == 5,
        n <= week_index_of(to_day) - week_index_of(from_day) + 1,
    ensures
        spec_sum_due_hours(from_day, to_day, nominal, n) == nominal * n,
    decreases n,
{
    if n == 0 {
    } else {
        lemma_due_hours_whole_weeks_sum(from_day, to_day, nominal, (n - 1) as nat);
        lemma_div_is_ordered(from_day - 1, to_day - 1, 7);
        lemma_due_hours_full_week_mon_fri(
            week_index_of(from_day) + n - 1,
            from_day,
            to_day,
            nominal,
        );
        lemma_mul_is_distributive_sub(nominal, n as int, 1);
    }
}

} // verus!
