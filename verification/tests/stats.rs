//! Tests for the weekly aggregator and the rendering figures.

use workweek::{
    bar_segments, compute_stats, hash_count, month_name, Date, DateRange, TimeEntries, TimeEntry,
};

fn date(y: i32, m: u8, d: u8) -> Date {
    Date::new(y, m, d).unwrap()
}

fn entry(y: i32, m: u8, d: u8, hours: i64) -> TimeEntry {
    TimeEntry { spent_date: date(y, m, d), hours }
}

#[test]
fn test_compute_stats_two_weeks_with_running_balance() {
    // Mon 2024-01-22 .. Fri 2024-02-02, 30-hour weeks.
    let range = DateRange::new(&date(2024, 1, 22), &date(2024, 2, 2)).unwrap();
    let entries = TimeEntries {
        time_entries: vec![
            entry(2024, 1, 22, 800),
            entry(2024, 1, 23, 700),
            entry(2024, 1, 30, 3000),
            // outside the range: must be excluded before grouping
            entry(2024, 1, 19, 500),
            entry(2024, 2, 5, 900),
        ],
    };
    let stats = compute_stats(&range, 3000, &entries);
    assert_eq!(stats.len(), 2);

    assert_eq!((stats[0].output.isoweek.year, stats[0].output.isoweek.week), (2024, 4));
    assert_eq!(stats[0].output.expected_hours, 3000);
    assert_eq!(stats[0].output.tracked_hours, 1500);
    assert_eq!(stats[0].output.diff, -1500);
    assert_eq!(stats[0].accumulated_diff, -1500);
    assert_eq!(stats[0].output.month, "January");

    assert_eq!((stats[1].output.isoweek.year, stats[1].output.isoweek.week), (2024, 5));
    assert_eq!(stats[1].output.expected_hours, 3000);
    assert_eq!(stats[1].output.tracked_hours, 3000);
    assert_eq!(stats[1].output.diff, 0);
    assert_eq!(stats[1].accumulated_diff, -1500);
    assert_eq!(stats[1].output.month, "January");
}

#[test]
fn test_compute_stats_weeks_without_entries_track_zero() {
    let range = DateRange::new(&date(2024, 1, 22), &date(2024, 2, 9)).unwrap();
    let entries = TimeEntries { time_entries: vec![entry(2024, 1, 24, 1200)] };
    let stats = compute_stats(&range, 3000, &entries);
    assert_eq!(stats.len(), 3);
    assert_eq!(stats[0].output.tracked_hours, 1200);
    assert_eq!(stats[1].output.tracked_hours, 0);
    assert_eq!(stats[2].output.tracked_hours, 0);
    assert_eq!(stats[1].output.diff, -3000);
    assert_eq!(stats[2].accumulated_diff, -1800 - 3000 - 3000);
}

#[test]
fn test_compute_stats_weekend_entries_count_toward_their_week() {
    // Sat 2024-01-27 belongs to the week of Mon 2024-01-22.
    let range = DateRange::new(&date(2024, 1, 22), &date(2024, 1, 28)).unwrap();
    let entries = TimeEntries { time_entries: vec![entry(2024, 1, 27, 400)] };
    let stats = compute_stats(&range, 3000, &entries);
    assert_eq!(stats.len(), 1);
    assert_eq!(stats[0].output.tracked_hours, 400);
}

#[test]
fn test_compute_stats_month_label_follows_the_weeks_monday() {
    // The week of Mon 2024-01-29 runs into February but is labelled by
    // its Monday's month.
    let range = DateRange::new(&date(2024, 1, 29), &date(2024, 2, 2)).unwrap();
    let stats = compute_stats(&range, 3000, &TimeEntries { time_entries: vec![] });
    assert_eq!(stats.len(), 1);
    assert_eq!(stats[0].output.month, "January");
    let range_feb = DateRange::new(&date(2024, 2, 5), &date(2024, 2, 9)).unwrap();
    let stats_feb = compute_stats(&range_feb, 3000, &TimeEntries { time_entries: vec![] });
    assert_eq!(stats_feb[0].output.month, "February");
}

#[test]
fn test_cumulative_diff_equals_sum_of_weekly_diffs() {
    let range = DateRange::new(&date(2024, 1, 15), &date(2024, 2, 9)).unwrap();
    let entries = TimeEntries {
        time_entries: vec![
            entry(2024, 1, 15, 3500),
            entry(2024, 1, 23, 2000),
            entry(2024, 1, 31, 3100),
            entry(2024, 2, 8, 2950),
        ],
    };
    let stats = compute_stats(&range, 3000, &entries);
    let total: i64 = stats.iter().map(|s| s.output.diff).sum();
    assert_eq!(stats.last().unwrap().accumulated_diff, total);
    let mut running: i64 = 0;
    for s in &stats {
        running += s.output.diff;
        assert_eq!(s.accumulated_diff, running);
    }
}

#[test]
fn test_month_name_values() {
    assert_eq!(month_name(1), "January");
    assert_eq!(month_name(6), "June");
    assert_eq!(month_name(12), "December");
}

#[test]
fn test_hash_count_floors_whole_hours() {
    assert_eq!(hash_count(0), 0);
    assert_eq!(hash_count(-250), 0);
    assert_eq!(hash_count(99), 0);
    assert_eq!(hash_count(100), 1);
    assert_eq!(hash_count(3050), 30);
}

#[test]
fn test_bar_segments_split_by_sign_of_diff() {
    assert_eq!(bar_segments(3000, 1500, -1500), (15, 15, true));
    assert_eq!(bar_segments(3000, 3400, 400), (30, 4, false));
    assert_eq!(bar_segments(3000, 3000, 0), (30, 0, false));
}
