use nice_trader::generators::{datetime_tag, get_datetime_tag, MAX_UTC_MILLIS, MIN_UTC_MILLIS};

#[test]
fn test_datetime_tag() {
    assert_eq!(get_datetime_tag(1705311005000), "20240115-093005");
    assert_eq!(get_datetime_tag(0), "19700101-000000");
    assert_eq!(datetime_tag(2024, 1, 5, 9, 3, 7), "20240105-090307");
    assert_eq!(datetime_tag(-44, 3, 15, 12, 0, 0), "-440315-120000");
    assert_eq!(datetime_tag(7, 12, 31, 23, 59, 59), "71231-235959");
}

#[test]
fn test_datetime_tag_range_ends() {
    assert_eq!(get_datetime_tag(MAX_UTC_MILLIS as u64), "2621421231-235959");
    assert_eq!(get_datetime_tag(MIN_UTC_MILLIS as u64), "-2621430101-000000");
}

#[test]
fn test_datetime_tag_calendar() {
    assert_eq!(get_datetime_tag((-1i64) as u64), "19691231-235959");
    assert_eq!(get_datetime_tag(1709164800000), "20240229-000000");
    assert_eq!(get_datetime_tag((-2203845904000i64) as u64), "19000301-123456");
    assert_eq!(get_datetime_tag((-62135596800000i64) as u64), "10101-000000");
}
