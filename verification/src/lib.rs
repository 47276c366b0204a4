//! Weekly working-hours accounting.
//!
//! Given a calendar date range and a nominal full-time weekly-hours figure,
//! this library enumerates the ISO weeks touched by the range, apportions the
//! hours that were due in each partial or full week, and folds actually
//! tracked hours against that baseline into per-week summaries with a running
//! cumulative overtime balance.
//!
//! Hours are held as fixed-point integers in hundredths of an hour, so that
//! every step of the computation has an exact arithmetic specification.

mod calendar;
mod date;
mod due;
mod render;
mod stats;
mod week;

pub use calendar::{day_num_of, iso_label_of, month_of, DAY_NUM_MAX, DAY_NUM_MIN};
pub use date::Date;
pub use due::{
    due_hours_per_week, lemma_due_hours_at_most_nominal, lemma_due_hours_nonneg,
    lemma_due_hours_outside_range, lemma_due_hours_whole_weeks_sum, lemma_sum_due_hours_bounds,
    spec_due_hours, spec_sum_due_hours, NOMINAL_CENTIHOURS_MAX,
};
pub use render::{bar_segments, hash_count, spec_hash_count};
pub use stats::{
    all_entries_wf, compute_stats, entry_in_week, month_name, spec_diff, spec_month_name,
    spec_sum_diffs, spec_summary_ok, spec_tracked_hours, spec_tracked_hours_in_weeks, sum_hours,
    EnhancedWeeklySummary, TimeEntries, TimeEntry, WeeklySummary,
};
pub use week::{
    enumerate_weeks, lemma_weeks_cover_range, monday_of_week, week_index, week_index_of, weekday,
    weekday_of, DateRange, IsoWeek, WEEK_INDEX_MAX,
};
