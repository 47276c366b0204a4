//! Tests for dates, day counts, weekdays and week enumeration.

use workweek::{enumerate_weeks, week_index, weekday, Date, DateRange, IsoWeek};

fn date(y: i32, m: u8, d: u8) -> Date {
    Date::new(y, m, d).unwrap()
}

#[test]
fn test_date_new_rejects_invalid_days() {
    assert!(Date::new(2023, 2, 29).is_none());
    assert!(Date::new(2024, 2, 29).is_some());
    assert!(Date::new(2024, 2, 30).is_none());
    assert!(Date::new(2024, 4, 31).is_none());
    assert!(Date::new(2024, 13, 1).is_none());
    assert!(Date::new(2024, 0, 1).is_none());
    assert!(Date::new(2024, 1, 0).is_none());
    assert!(Date::new(0, 1, 1).is_none());
    assert!(Date::new(10000, 1, 1).is_none());
    assert!(Date::new(1900, 2, 29).is_none());
    assert!(Date::new(2000, 2, 29).is_some());
}

#[test]
fn test_date_range_requires_order() {
    let from = date(2024, 1, 26);
    let to = date(2024, 1, 22);
    assert!(DateRange::new(&from, &to).is_none());
    assert!(DateRange::new(&to, &from).is_some());
    assert!(DateRange::new(&from, &from).is_some());
}

#[test]
fn test_day_count_matches_the_proleptic_gregorian_calendar() {
    // 1970-01-01 is day 719163 of the proleptic Gregorian calendar.
    let epoch = date(1970, 1, 1);
    let range = DateRange::new(&epoch, &epoch).unwrap();
    assert_eq!(range.from_day, 719163);
    // 0001-01-01 is day 1.
    let first = date(1, 1, 1);
    let range_first = DateRange::new(&first, &first).unwrap();
    assert_eq!(range_first.from_day, 1);
}

#[test]
fn test_weekday_numbers_from_monday() {
    // 2024-01-22 was a Monday, 2024-01-28 a Sunday.
    let mon = DateRange::new(&date(2024, 1, 22), &date(2024, 1, 22)).unwrap();
    assert_eq!(weekday(mon.from_day), 1);
    let fri = DateRange::new(&date(2024, 1, 26), &date(2024, 1, 26)).unwrap();
    assert_eq!(weekday(fri.from_day), 5);
    let sun = DateRange::new(&date(2024, 1, 28), &date(2024, 1, 28)).unwrap();
    assert_eq!(weekday(sun.from_day), 7);
}

#[test]
fn test_iso_week_labels() {
    let w = IsoWeek::of_date(&date(2024, 1, 22));
    assert_eq!(w.year, 2024);
    assert_eq!(w.week, 4);
    // 2014-12-29 belongs to week 1 of ISO year 2015.
    let boundary = IsoWeek::of_date(&date(2014, 12, 29));
    assert_eq!(boundary.year, 2015);
    assert_eq!(boundary.week, 1);
}

#[test]
fn test_same_week_shares_index_and_label() {
    let mon = IsoWeek::of_date(&date(2024, 1, 22));
    let sun = IsoWeek::of_date(&date(2024, 1, 28));
    assert_eq!(mon, sun);
    let next_mon = IsoWeek::of_date(&date(2024, 1, 29));
    assert_eq!(next_mon.index, mon.index + 1);
}

#[test]
fn test_enumerate_weeks_single_week() {
    let range = DateRange::new(&date(2024, 1, 23), &date(2024, 1, 25)).unwrap();
    let weeks = enumerate_weeks(&range);
    assert_eq!(weeks.len(), 1);
    assert_eq!(weeks[0].year, 2024);
    assert_eq!(weeks[0].week, 4);
}

#[test]
fn test_enumerate_weeks_spans_weekend_boundary() {
    let range = DateRange::new(&date(2024, 1, 27), &date(2024, 1, 30)).unwrap();
    let weeks = enumerate_weeks(&range);
    assert_eq!(weeks.len(), 2);
    assert_eq!((weeks[0].year, weeks[0].week), (2024, 4));
    assert_eq!((weeks[1].year, weeks[1].week), (2024, 5));
    assert!(weeks[0].index < weeks[1].index);
}

#[test]
fn test_enumerate_weeks_across_year_boundary() {
    // 2023-12-25 opens 2023-W52; 2024-01-01 opens 2024-W01.
    let range = DateRange::new(&date(2023, 12, 25), &date(2024, 1, 7)).unwrap();
    let weeks = enumerate_weeks(&range);
    assert_eq!(weeks.len(), 2);
    assert_eq!((weeks[0].year, weeks[0].week), (2023, 52));
    assert_eq!((weeks[1].year, weeks[1].week), (2024, 1));
    assert_eq!(weeks[1].index, weeks[0].index + 1);
}

#[test]
fn test_enumerated_weeks_cover_every_day_of_the_range() {
    let from = date(2024, 1, 27);
    let to = date(2024, 3, 5);
    let range = DateRange::new(&from, &to).unwrap();
    let weeks = enumerate_weeks(&range);
    let mut day = range.from_day;
    while day <= range.to_day {
        let idx = week_index(day);
        assert!(weeks.iter().filter(|w| w.index == idx).count() == 1);
        day += 1;
    }
}
