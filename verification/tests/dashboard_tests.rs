use gitmirrors::dashboard::fill_daily_counts;
use gitmirrors::dashboard::DailyLogCount;

#[test]
fn week_is_filled_oldest_first_with_zeroes() {
    let today: i64 = 20_000;
    let raw = vec![(today, 4), (today - 2, 9)];
    let week = fill_daily_counts(&raw, today);
    assert_eq!(week.len(), 7);
    for (i, entry) in week.iter().enumerate() {
        assert_eq!(entry.day, today - 6 + i as i64);
    }
    assert_eq!(week[6], DailyLogCount { day: today, count: 4 });
    assert_eq!(week[4], DailyLogCount { day: today - 2, count: 9 });
    assert_eq!(week[0].count, 0);
    assert_eq!(week[5].count, 0);
}

#[test]
fn first_record_for_a_day_wins() {
    let today: i64 = 20_000;
    let raw = vec![(today, 5), (today, 7)];
    let week = fill_daily_counts(&raw, today);
    assert_eq!(week[6].count, 5);
}

#[test]
fn empty_rows_give_an_all_zero_week() {
    let week = fill_daily_counts(&Vec::new(), 6);
    assert_eq!(week.len(), 7);
    assert!(week.iter().all(|e| e.count == 0));
    assert_eq!(week[0].day, 0);
}
