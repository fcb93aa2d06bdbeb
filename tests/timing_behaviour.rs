use hourglass::timing::{
    parse_time, parse_timestamp, place_on_day, TimeParseError, TimeRange, TimeRangeError,
    DAY_MILLIS,
};

#[test]
fn parses_single_parts() {
    assert_eq!(parse_time("90s"), Ok(90));
    assert_eq!(parse_time("2m"), Ok(120));
    assert_eq!(parse_time("3h"), Ok(10800));
    assert_eq!(parse_time("1d"), Ok(86400));
    assert_eq!(parse_time("1y"), Ok(31536000));
}

#[test]
fn parses_several_parts() {
    assert_eq!(parse_time("1m30s"), Ok(90));
    assert_eq!(parse_time("1y2d3h4m5s"), Ok(31536000 + 2 * 86400 + 3 * 3600 + 4 * 60 + 5));
    assert_eq!(parse_time("0s"), Ok(0));
    assert_eq!(parse_time(""), Ok(0));
}

#[test]
fn refuses_short_parts() {
    assert_eq!(parse_time("s"), Err(TimeParseError::TooShort));
    assert_eq!(parse_time("5"), Err(TimeParseError::TooShort));
    assert_eq!(parse_time("1ms"), Err(TimeParseError::TooShort));
}

#[test]
fn refuses_bad_units() {
    assert_eq!(parse_time("90"), Err(TimeParseError::BadUnit));
    assert_eq!(parse_time("5x"), Err(TimeParseError::BadUnit));
    assert_eq!(parse_time("5\u{e9}"), Err(TimeParseError::BadUnit));
    assert_eq!(parse_time("1m5"), Err(TimeParseError::TooShort));
}

#[test]
fn refuses_numbers_too_large() {
    assert_eq!(parse_time("99999999999999999999s"), Err(TimeParseError::BadNumber));
    assert_eq!(parse_time("18446744073709551615s"), Ok(u64::MAX));
    assert_eq!(parse_time("18446744073709551615m"), Err(TimeParseError::TooLong));
    assert_eq!(parse_time("18446744073709551615s1s"), Err(TimeParseError::TooLong));
}

#[test]
fn range_needs_some_argument() {
    assert_eq!(
        TimeRange::try_from_args(None, None, None, 0).err(),
        Some(TimeRangeError::Undefined)
    );
    assert_eq!(
        TimeRange::try_from_args(Some(5), None, None, 0).err(),
        Some(TimeRangeError::NoDuration)
    );
}

#[test]
fn range_from_length_or_end_alone() {
    let r = TimeRange::try_from_args(None, None, Some(60_000), 1_000).unwrap();
    assert_eq!((r.start, r.duration), (1_000, 60_000));
    let r = TimeRange::try_from_args(None, Some(10_000), None, 4_000).unwrap();
    assert_eq!((r.start, r.duration), (4_000, 6_000));
    let r = TimeRange::try_from_args(None, Some(10_000), Some(3_000), 0).unwrap();
    assert_eq!((r.start, r.duration), (7_000, 3_000));
}

#[test]
fn range_from_begin() {
    let r = TimeRange::try_from_args(Some(2_000), None, Some(5_000), 0).unwrap();
    assert_eq!((r.start, r.duration), (2_000, 5_000));
    let r = TimeRange::try_from_args(Some(2_000), Some(9_000), None, 0).unwrap();
    assert_eq!((r.start, r.duration), (2_000, 7_000));
}

#[test]
fn range_end_before_begin_is_tomorrow() {
    let r = TimeRange::try_from_args(Some(9_000), Some(2_000), None, 0).unwrap();
    assert_eq!((r.start, r.duration), (9_000, 2_000 + DAY_MILLIS as i128 - 9_000));
    let r = TimeRange::try_from_args(Some(9_000), Some(9_000), None, 0).unwrap();
    assert_eq!(r.duration, DAY_MILLIS as i128);
}

#[test]
fn range_with_all_three_must_agree() {
    let r = TimeRange::try_from_args(Some(1_000), Some(4_000), Some(3_000), 0).unwrap();
    assert_eq!((r.start, r.duration), (1_000, 3_000));
    assert_eq!(
        TimeRange::try_from_args(Some(1_000), Some(4_000), Some(2_000), 0).err(),
        Some(TimeRangeError::Mismatch)
    );
}

#[test]
fn places_time_of_day() {
    assert_eq!(place_on_day(1_000_000, Some(61), Some(7)), Some(1_061_000));
    assert_eq!(place_on_day(1_000_000, None, Some(3_600)), Some(4_600_000));
    assert_eq!(place_on_day(1_000_000, None, None), None);
}

#[test]
fn reads_timestamps() {
    let day = 86_400_000 * 100;
    assert_eq!(parse_timestamp("14:30:15", day), Some(day + (14 * 3600 + 30 * 60 + 15) * 1000));
    assert_eq!(parse_timestamp("14:30", day), Some(day + (14 * 3600 + 30 * 60) * 1000));
    assert_eq!(parse_timestamp("noon", day), None);
    assert_eq!(parse_timestamp("25:00", day), None);
}
