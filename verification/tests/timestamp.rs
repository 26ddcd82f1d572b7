use lumbermill::timestamp::{
    MAX_UNIX_MILLIS, MAX_UNIX_SECONDS, MIN_UNIX_MILLIS, MIN_UNIX_SECONDS,
};
use lumbermill::Timestamp;

#[test]
fn the_epoch() {
    let t = Timestamp::unix_epoch();
    assert_eq!(t.unix_millis(), 0);
    assert_eq!(t.unix_timestamp(), 0);
    assert_eq!((t.hour(), t.minute(), t.second(), t.millisecond()), (0, 0, 0, 0));
    assert_eq!(t.date(), "1970-01-01");
    assert_eq!(t.clock(), "00:00:00.000Z");
    assert_eq!(t.instant(), "1970-01-01T00:00:00.000Z");
    assert_eq!(Timestamp::from_unix_millis(0), Some(t));
    assert_eq!(Timestamp::from_unix_timestamp(0), Some(t));
}

#[test]
fn the_time_of_day() {
    // 2019-01-01T00:00:00Z, as the `time` crate's documentation has it
    let t = Timestamp::from_unix_timestamp(1_546_300_800).unwrap();
    assert_eq!(t.instant(), "2019-01-01T00:00:00.000Z");

    // 2024-03-09T12:34:56.789Z
    let t = Timestamp::from_unix_millis(1_709_987_696_789).unwrap();
    assert_eq!(t.unix_timestamp(), 1_709_987_696);
    assert_eq!((t.hour(), t.minute(), t.second(), t.millisecond()), (12, 34, 56, 789));
    assert_eq!(t.date(), "2024-03-09");
    assert_eq!(t.clock(), "12:34:56.789Z");
    assert_eq!(t.instant(), "2024-03-09T12:34:56.789Z");
}

#[test]
fn small_fields_are_padded() {
    // 2000-02-29T01:02:03.004Z
    let t = Timestamp::from_unix_millis(951_786_123_004).unwrap();
    assert_eq!(t.instant(), "2000-02-29T01:02:03.004Z");
}

#[test]
fn before_the_epoch_the_fields_count_up() {
    let t = Timestamp::from_unix_millis(-1).unwrap();
    assert_eq!(t.unix_timestamp(), -1);
    assert_eq!((t.hour(), t.minute(), t.second(), t.millisecond()), (23, 59, 59, 999));
    assert_eq!(t.instant(), "1969-12-31T23:59:59.999Z");

    let t = Timestamp::from_unix_millis(-1_000).unwrap();
    assert_eq!(t.unix_timestamp(), -1);
    assert_eq!(t.millisecond(), 0);

    let t = Timestamp::from_unix_millis(-1_001).unwrap();
    assert_eq!(t.unix_timestamp(), -2);
    assert_eq!(t.millisecond(), 999);
    assert_eq!(t.clock(), "23:59:58.999Z");
}

#[test]
fn the_ends_of_the_calendar() {
    assert_eq!(MIN_UNIX_MILLIS, MIN_UNIX_SECONDS * 1000);
    assert_eq!(MAX_UNIX_MILLIS, MAX_UNIX_SECONDS * 1000 + 999);

    let first = Timestamp::from_unix_millis(MIN_UNIX_MILLIS).unwrap();
    assert_eq!(first.unix_timestamp(), MIN_UNIX_SECONDS);
    assert_eq!(first.instant(), "-9999-01-01T00:00:00.000Z");
    assert_eq!(Timestamp::from_unix_timestamp(MIN_UNIX_SECONDS), Some(first));

    let last = Timestamp::from_unix_millis(MAX_UNIX_MILLIS).unwrap();
    assert_eq!(last.unix_timestamp(), MAX_UNIX_SECONDS);
    assert_eq!(last.instant(), "9999-12-31T23:59:59.999Z");
}

#[test]
fn outside_the_calendar_there_is_no_timestamp() {
    assert_eq!(Timestamp::from_unix_millis(MIN_UNIX_MILLIS - 1), None);
    assert_eq!(Timestamp::from_unix_millis(MAX_UNIX_MILLIS + 1), None);
    assert_eq!(Timestamp::from_unix_millis(i64::MIN), None);
    assert_eq!(Timestamp::from_unix_millis(i64::MAX), None);
    assert_eq!(Timestamp::from_unix_timestamp(MIN_UNIX_SECONDS - 1), None);
    assert_eq!(Timestamp::from_unix_timestamp(MAX_UNIX_SECONDS + 1), None);
    assert_eq!(Timestamp::from_unix_timestamp(i64::MAX), None);
}

#[test]
fn the_clock_gives_a_time_of_this_century() {
    let now = Timestamp::now_utc();
    assert!(now.date().as_str() >= "2019-01-01");
    assert!(now.unix_millis() > 1_546_300_800_000);
    let later = Timestamp::now_utc();
    assert!(later.unix_millis() >= now.unix_millis() - 1_000);
}

#[test]
fn from_nanoseconds_the_rest_is_cut() {
    let t = Timestamp::from_unix_nanos(1_709_987_696_789_999_999).unwrap();
    assert_eq!(t.unix_millis(), 1_709_987_696_789);
    assert_eq!(Timestamp::from_unix_nanos(0), Some(Timestamp::unix_epoch()));
    assert_eq!(Timestamp::from_unix_nanos(999_999), Some(Timestamp::unix_epoch()));
    assert_eq!(Timestamp::from_unix_nanos(-1).unwrap().unix_millis(), -1);
    assert_eq!(Timestamp::from_unix_nanos(-1_000_000).unwrap().unix_millis(), -1);
    assert_eq!(Timestamp::from_unix_nanos(-1_000_001).unwrap().unix_millis(), -2);
}

#[test]
fn from_nanoseconds_at_the_ends_of_the_calendar() {
    let first = MIN_UNIX_MILLIS as i128 * 1_000_000;
    let last = MAX_UNIX_MILLIS as i128 * 1_000_000 + 999_999;
    assert_eq!(Timestamp::from_unix_nanos(first).unwrap().unix_millis(), MIN_UNIX_MILLIS);
    assert_eq!(Timestamp::from_unix_nanos(last).unwrap().unix_millis(), MAX_UNIX_MILLIS);
    assert_eq!(Timestamp::from_unix_nanos(first - 1), None);
    assert_eq!(Timestamp::from_unix_nanos(last + 1), None);
    assert_eq!(Timestamp::from_unix_nanos(i128::MIN), None);
    assert_eq!(Timestamp::from_unix_nanos(i128::MAX), None);
}

#[test]
fn an_instant_with_a_given_date() {
    let t = Timestamp::from_unix_millis(1_709_987_696_789).unwrap();
    assert_eq!(t.instant_with("DATE"), "DATET12:34:56.789Z");
    assert_eq!(t.instant_with(&t.date()), t.instant());
}
