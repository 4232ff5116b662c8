use mirai::schedule::due;
use mirai::schedule::get_seconds_till_minute;
use mirai::schedule::seconds_till_minute;
use mirai::schedule::should_update_wallpaper;
use mirai::schedule::Timestamp;

const DAY: i32 = 739_000;

fn at(day: i32, hour: u32, minute: u32, second: u32) -> Timestamp {
    Timestamp::new(day, hour * 3600 + minute * 60 + second, 0)
}

#[test]
fn first_rotation_is_due() {
    assert!(due(1440, None, at(DAY, 1, 0, 0)));
    assert!(due(1, None, at(DAY, 0, 0, 0)));
}

#[test]
fn daily_interval_is_not_due_again_on_the_same_day() {
    let last = at(DAY, 0, 0, 1);
    assert!(!due(1440, Some(last), at(DAY, 23, 59, 59)));
    assert!(!due(1440, Some(last), last));
}

#[test]
fn a_new_day_is_always_due() {
    let last = at(DAY, 23, 59, 59);
    assert!(due(1440, Some(last), at(DAY + 1, 0, 0, 0)));
    assert!(due(1440, Some(last), at(DAY + 1, 23, 59, 59)));
    assert!(due(1440, Some(at(DAY, 10, 0, 0)), at(DAY - 1, 10, 0, 0)));
    assert!(due(60, Some(at(DAY, 10, 30, 0)), at(DAY + 7, 10, 30, 0)));
}

#[test]
fn hourly_buckets_start_at_midnight() {
    let last = at(DAY, 10, 59, 59);
    assert!(!due(60, Some(last), at(DAY, 10, 0, 0)));
    assert!(!due(60, Some(last), at(DAY, 10, 59, 59)));
    assert!(due(60, Some(last), at(DAY, 11, 0, 0)));
    assert!(due(60, Some(last), at(DAY, 9, 59, 59)));
}

#[test]
fn buckets_of_ninety_minutes() {
    // 00:00-01:29 is bucket 0, 01:30-02:59 is bucket 1.
    assert!(!due(90, Some(at(DAY, 0, 0, 0)), at(DAY, 1, 29, 59)));
    assert!(due(90, Some(at(DAY, 0, 0, 0)), at(DAY, 1, 30, 0)));
    assert!(!due(90, Some(at(DAY, 1, 30, 0)), at(DAY, 2, 59, 59)));
    assert!(due(90, Some(at(DAY, 2, 59, 59)), at(DAY, 3, 0, 0)));
}

#[test]
fn seconds_within_a_minute_do_not_matter() {
    assert!(!due(1, Some(at(DAY, 5, 5, 0)), at(DAY, 5, 5, 59)));
    assert!(due(1, Some(at(DAY, 5, 5, 59)), at(DAY, 5, 6, 0)));
}

#[test]
fn an_interval_longer_than_a_day_has_one_bucket() {
    assert!(!due(u32::MAX, Some(at(DAY, 0, 0, 0)), at(DAY, 23, 59, 59)));
    assert!(due(u32::MAX, Some(at(DAY, 0, 0, 0)), at(DAY + 1, 0, 0, 0)));
}

#[test]
fn bucket_and_minute_of_day() {
    let t = at(DAY, 13, 37, 42);
    assert_eq!(t.minute_of_day(), 13 * 60 + 37);
    assert_eq!(t.bucket(60), 13);
    assert_eq!(t.bucket(1440), 0);
    assert_eq!(t.bucket(1), 817);
    assert_eq!(t.bucket(100), 8);
}

#[test]
fn timestamp_keeps_its_parts() {
    let t = Timestamp::new(-3, 86_399, 999_999_999);
    assert_eq!(t.day, -3);
    assert_eq!(t.second, 86_399);
    assert_eq!(t.nano, 999_999_999);
    assert_eq!(t, Timestamp { day: -3, second: 86_399, nano: 999_999_999 });
}

#[test]
fn seconds_till_the_next_minute() {
    assert_eq!(seconds_till_minute(0), 60);
    assert_eq!(seconds_till_minute(1), 59);
    assert_eq!(seconds_till_minute(59), 1);
    assert_eq!(seconds_till_minute(60), 60);
    assert_eq!(seconds_till_minute(1_700_000_017), 60 - 1_700_000_017 % 60);
    assert_eq!(seconds_till_minute(u64::MAX), 60 - u64::MAX % 60);
}

#[test]
fn seconds_till_the_next_minute_by_the_clock() {
    let seconds = get_seconds_till_minute();
    assert!((1..=60).contains(&seconds));
}

#[test]
fn the_clock_gives_a_time_of_day() {
    let now = Timestamp::now();
    assert!(now.second < 86_400);
    assert!(now.nano < 2_000_000_000);
    // Well after the year 2000, counted from January 1 of year 1.
    assert!(now.day > 730_000);
}

#[test]
fn by_the_clock_a_first_rotation_is_due() {
    assert!(should_update_wallpaper(1440, None));
    assert!(should_update_wallpaper(1, None));
}

#[test]
fn by_the_clock_a_rotation_of_another_day_is_past() {
    let now = Timestamp::now();
    let long_ago = Timestamp::new(now.day - 2, now.second, now.nano);
    assert!(should_update_wallpaper(1440, Some(long_ago)));
}
