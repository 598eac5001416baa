use utc_datetime::IllegalTimeError;
use utc_datetime::UtcDatetime;
use utc_datetime::days_of_the_month;
use utc_datetime::days_of_the_year;
use utc_datetime::leap_year;

#[test]
fn test1() {
    let a_utc_datetime = UtcDatetime::from_string("时间:2021年2月28日23点59分0秒").unwrap();
    assert_eq!(a_utc_datetime, UtcDatetime::new(2021, 2, 28, 23, 59, 0).unwrap());
}

#[test]
fn test2() {
    let a = UtcDatetime::from_string("2020-12-31 23:59:59").unwrap();
    let b = UtcDatetime::from_string("2020/12/31 23:59:59").unwrap();
    assert!(a == b);
}

#[test]
fn test3() {
    let a = UtcDatetime::new(2020, 4, 28, 12, 12, 12).unwrap();
    assert_eq!(a.weekday(), 2);
}

#[test]
fn test4() {
    let dt_1 = UtcDatetime::new(2020, 4, 28, 12, 30, 12).unwrap();
    let dt_2 = UtcDatetime::new(2020, 4, 28, 12, 12, 29).unwrap();
    assert!(dt_1 > dt_2);
}

#[test]
fn create_round_trips_fields() {
    let dt = UtcDatetime::new(2021, 11, 15, 0, 0, 0).unwrap();
    assert_eq!(dt.to_display_string(), "2021-11-15 00:00:00");
    let dt = UtcDatetime::new(1970, 1, 2, 3, 4, 5).unwrap();
    assert_eq!(dt.to_display_string(), "1970-01-02 03:04:05");
    let dt = UtcDatetime::new(2020, 12, 31, 23, 59, 59).unwrap();
    assert_eq!(dt.to_display_string(), "2020-12-31 23:59:59");
}

#[test]
fn create_rejects_year() {
    assert!(matches!(
        UtcDatetime::new(1969, 1, 1, 0, 0, 0),
        Err(IllegalTimeError::YearNumberError)
    ));
}

#[test]
fn create_rejects_month_before_day() {
    // Validation runs in field order: a bad month wins over a bad day.
    assert!(matches!(
        UtcDatetime::new(2020, 13, 99, 0, 0, 0),
        Err(IllegalTimeError::MonthNumberError)
    ));
    assert!(matches!(
        UtcDatetime::new(2020, 0, 1, 0, 0, 0),
        Err(IllegalTimeError::MonthNumberError)
    ));
}

#[test]
fn create_rejects_day() {
    assert!(matches!(
        UtcDatetime::new(2021, 2, 29, 0, 0, 0),
        Err(IllegalTimeError::DayNumberError)
    ));
    assert!(matches!(
        UtcDatetime::new(2020, 2, 30, 0, 0, 0),
        Err(IllegalTimeError::DayNumberError)
    ));
    assert!(matches!(
        UtcDatetime::new(2020, 4, 31, 0, 0, 0),
        Err(IllegalTimeError::DayNumberError)
    ));
    assert!(matches!(
        UtcDatetime::new(2020, 1, 0, 0, 0, 0),
        Err(IllegalTimeError::DayNumberError)
    ));
}

#[test]
fn create_rejects_hour_minute_second() {
    assert!(matches!(
        UtcDatetime::new(2020, 1, 1, 24, 0, 0),
        Err(IllegalTimeError::HourNumberError)
    ));
    assert!(matches!(
        UtcDatetime::new(2020, 1, 1, 23, 60, 0),
        Err(IllegalTimeError::MinuteNumberError)
    ));
    assert!(matches!(
        UtcDatetime::new(2020, 1, 1, 23, 59, 60),
        Err(IllegalTimeError::SecondNumberError)
    ));
}

#[test]
fn leap_year_rule() {
    assert!(leap_year(2000));
    assert!(!leap_year(1900));
    assert!(!leap_year(2021));
    assert!(leap_year(2024));
}

#[test]
fn days_per_month() {
    assert_eq!(days_of_the_month(2020, 2).unwrap(), 29);
    assert_eq!(days_of_the_month(2020, 3).unwrap(), 31);
    assert_eq!(days_of_the_month(2021, 2).unwrap(), 28);
}

#[test]
fn days_per_month_rejects_month() {
    assert!(matches!(
        days_of_the_month(2020, 0),
        Err(IllegalTimeError::MonthNumberError)
    ));
    assert!(matches!(
        days_of_the_month(2020, 13),
        Err(IllegalTimeError::MonthNumberError)
    ));
}

#[test]
fn days_per_year() {
    assert_eq!(days_of_the_year(2020), 366);
    assert_eq!(days_of_the_year(2021), 365);
}

#[test]
fn timestamp_value() {
    let dt = UtcDatetime::new(2020, 2, 2, 2, 2, 2).unwrap();
    assert_eq!(dt.timestamp().unwrap(), 1580608922);
}

#[test]
fn timestamp_epoch_start() {
    let dt = UtcDatetime::new(1970, 1, 1, 0, 0, 0).unwrap();
    assert_eq!(dt.timestamp().unwrap(), 0);
}

#[test]
fn weekday_values() {
    assert_eq!(UtcDatetime::new(2021, 11, 15, 0, 0, 0).unwrap().weekday(), 1);
    assert_eq!(UtcDatetime::new(2020, 4, 28, 12, 12, 12).unwrap().weekday(), 2);
    assert_eq!(UtcDatetime::new(1970, 1, 1, 0, 0, 0).unwrap().weekday(), 4);
    assert_eq!(UtcDatetime::new(2021, 11, 14, 0, 0, 0).unwrap().weekday(), 0);
}

#[test]
fn from_string_equals_create() {
    let parsed = UtcDatetime::from_string("2020-12-31 23:59:59").unwrap();
    assert_eq!(parsed, UtcDatetime::new(2020, 12, 31, 23, 59, 59).unwrap());
}

#[test]
fn from_string_token_count() {
    assert!(matches!(
        UtcDatetime::from_string("2020-12-31"),
        Err(IllegalTimeError::TimeStringError)
    ));
    assert!(matches!(
        UtcDatetime::from_string("1-2-3 4:5"),
        Err(IllegalTimeError::TimeStringError)
    ));
    assert!(matches!(
        UtcDatetime::from_string("1 2 3 4 5 6 7"),
        Err(IllegalTimeError::TimeStringError)
    ));
    assert!(matches!(
        UtcDatetime::from_string(""),
        Err(IllegalTimeError::TimeStringError)
    ));
}

#[test]
fn from_string_token_overflow() {
    // A year token past 16 bits, or any other token past 8 bits, is a string
    // error rather than a crash.
    assert!(matches!(
        UtcDatetime::from_string("99999-1-1 0 0 0"),
        Err(IllegalTimeError::TimeStringError)
    ));
    assert!(matches!(
        UtcDatetime::from_string("2020-300-1 0 0 0"),
        Err(IllegalTimeError::TimeStringError)
    ));
}

#[test]
fn from_string_field_error() {
    // A token that fits its width but fails validation reports that field.
    assert!(matches!(
        UtcDatetime::from_string("2020-200-1 0 0 0"),
        Err(IllegalTimeError::MonthNumberError)
    ));
    assert!(matches!(
        UtcDatetime::from_string("1969-1-1 0 0 0"),
        Err(IllegalTimeError::YearNumberError)
    ));
}

#[test]
fn ordering_is_lexicographic() {
    let a = UtcDatetime::new(2020, 4, 28, 12, 30, 12).unwrap();
    let b = UtcDatetime::new(2020, 4, 28, 12, 12, 29).unwrap();
    assert!(a > b);
    assert!(b < a);
    let c = UtcDatetime::new(2021, 1, 1, 0, 0, 0).unwrap();
    assert!(c > a);
    let d = UtcDatetime::new(2020, 4, 28, 12, 30, 12).unwrap();
    assert!(a == d);
    assert!(a <= d && a >= d);
}

#[test]
fn display_parse_round_trip_is_stable() {
    let first = UtcDatetime::from_string("时间:2021年2月28日23点59分0秒").unwrap();
    let s1 = first.to_display_string();
    let second = UtcDatetime::from_string(&s1).unwrap();
    assert_eq!(second, first);
    let s2 = second.to_display_string();
    assert_eq!(s2, s1);
    let third = UtcDatetime::from_string(&s2).unwrap();
    let s3 = third.to_display_string();
    assert_eq!(s3, s1);
}

#[test]
fn error_messages() {
    assert_eq!(
        UtcDatetime::new(1969, 1, 1, 0, 0, 0).unwrap_err().message(),
        "Year Number Error"
    );
    assert_eq!(
        UtcDatetime::from_string("oops").unwrap_err().message(),
        "The format of the input time string is not standardized"
    );
}
