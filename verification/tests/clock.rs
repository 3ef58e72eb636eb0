use guildkeeper::clock::elapsed_time;
use guildkeeper::clock::timestamp_string;

#[test]
fn elapsed_time_is_the_clamped_difference() {
    assert_eq!(elapsed_time(100, 160), 60);
    assert_eq!(elapsed_time(160, 100), 0);
    assert_eq!(elapsed_time(5, 5), 0);
    assert_eq!(elapsed_time(-10, 10), 20);
    assert_eq!(elapsed_time(i64::MIN, i64::MAX), u64::MAX);
    assert_eq!(elapsed_time(i64::MAX, i64::MIN), 0);
}

#[test]
fn timestamp_string_writes_date_and_time() {
    assert_eq!(timestamp_string(0), Some("1970-01-01 00:00:00".to_string()));
    assert_eq!(timestamp_string(1_431_648_000), Some("2015-05-15 00:00:00".to_string()));
    assert_eq!(timestamp_string(1_700_000_000), Some("2023-11-14 22:13:20".to_string()));
    assert_eq!(timestamp_string(-1), Some("1969-12-31 23:59:59".to_string()));
}

#[test]
fn timestamp_string_of_a_time_beyond_the_calendar_is_none() {
    assert_eq!(timestamp_string(i64::MAX), None);
    assert_eq!(timestamp_string(i64::MIN), None);
}
