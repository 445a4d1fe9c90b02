use rrule_text::datetime::{DateTime, Time};
use rrule_text::frequency::Frequency;
use rrule_text::month::Month;
use rrule_text::n_weekday::NWeekday;
use rrule_text::value_type::ValueType;
use rrule_text::weekday::Weekday;

#[test]
fn n_weekday_decodes_ordinal_and_day() {
    let a = NWeekday::from_str("2MO").unwrap();
    assert_eq!(a, NWeekday { n: Some(2), weekday: Weekday::Monday });
    let b = NWeekday::from_str("-1FR").unwrap();
    assert_eq!(b, NWeekday { n: Some(-1), weekday: Weekday::Friday });
    assert_eq!(a.to_string(), "2MO");
    assert_eq!(b.to_string(), "-1FR");
}

#[test]
fn n_weekday_without_ordinal() {
    let a = NWeekday::from_str("su").unwrap();
    assert_eq!(a, NWeekday { n: None, weekday: Weekday::Sunday });
    assert_eq!(a.to_string(), "SU");
}

#[test]
fn n_weekday_rejects_bad_tokens() {
    assert!(NWeekday::from_str("2XX").is_err());
    assert!(NWeekday::from_str("+2MO").is_err());
    assert!(NWeekday::from_str("M").is_err());
    assert!(NWeekday::from_str("99999MO").is_err());
}

#[test]
fn frequency_keywords_any_case() {
    assert_eq!(Frequency::from_str("daily").unwrap(), Frequency::Daily);
    assert_eq!(Frequency::from_str("SecondLy").unwrap(), Frequency::Secondly);
    assert!(Frequency::from_str("FORTNIGHTLY").is_err());
    assert_eq!(Frequency::Yearly.to_string(), "YEARLY");
}

#[test]
fn month_numbers() {
    assert_eq!(Month::from_str("1").unwrap(), Month::January);
    assert_eq!(Month::from_str("12").unwrap(), Month::December);
    assert!(Month::from_str("13").is_err());
    assert!(Month::from_str("0").is_err());
    assert!(Month::from_str("01").is_err());
    assert_eq!(Month::October.to_string(), "10");
}

#[test]
fn weekday_codes() {
    assert_eq!(Weekday::from_str("th").unwrap(), Weekday::Thursday);
    assert!(Weekday::from_str("XY").is_err());
    assert_eq!(Weekday::Wednesday.to_string(), "WE");
}

#[test]
fn value_type_markers() {
    assert_eq!(ValueType::from_str("date").unwrap(), ValueType::Date);
    assert_eq!(ValueType::from_str("DATE-TIME").unwrap(), ValueType::DateTime);
    assert!(ValueType::from_str("TIME").is_err());
    assert_eq!(ValueType::DateTime.to_string(), "DATE-TIME");
}

#[test]
fn datetime_date_only() {
    let d = DateTime::from_str("20220101").unwrap();
    assert_eq!(d, DateTime { year: 2022, month: 1, day: 1, time: None });
    assert_eq!(d.derive_value_type(), ValueType::Date);
    assert_eq!(d.to_string(), "20220101");
}

#[test]
fn datetime_utc_and_floating() {
    let d = DateTime::from_str("20220105T100000Z").unwrap();
    assert_eq!(
        d.time,
        Some(Time { hour: 10, minute: 0, second: 0, offset: Some(0) })
    );
    assert_eq!(d.to_string(), "20220105T100000Z");
    let f = DateTime::from_str("20220105T100000").unwrap();
    assert_eq!(f.time.unwrap().offset, None);
    assert_eq!(f.to_string(), "20220105T100000");
    assert_eq!(f.derive_value_type(), ValueType::DateTime);
}

#[test]
fn datetime_pads_fields() {
    let d = DateTime {
        year: 987,
        month: 3,
        day: 4,
        time: Some(Time { hour: 5, minute: 6, second: 7, offset: Some(0) }),
    };
    assert_eq!(d.to_string(), "09870304T050607Z");
    assert_eq!(DateTime::from_str("09870304T050607Z").unwrap(), d);
}

#[test]
fn datetime_rejects_bad_text() {
    assert!(DateTime::from_str("2022010").is_err());
    assert!(DateTime::from_str("2022AB01").is_err());
    assert!(DateTime::from_str("20220101T0900").is_err());
    assert!(DateTime::from_str("20220101T09x000").is_err());
    assert!(DateTime::from_str("20220101T090000X").is_err());
    assert!(DateTime::from_str("20220101X090000").is_err());
}

#[test]
fn datetime_messages_name_the_field() {
    assert_eq!(DateTime::from_str("2022AB01").err().unwrap(), "Invalid month: AB");
    assert_eq!(DateTime::from_str("20220101T09XX00").err().unwrap(), "Invalid minute: XX");
    assert_eq!(DateTime::from_str("2022010").err().unwrap(), "Invalid datetime string: 2022010");
    assert_eq!(DateTime::from_str("20220101X090000").err().unwrap(), "Invalid datetime string: 20220101X090000");
}

#[test]
fn frequency_long_s_is_upper_cased() {
    assert_eq!(Frequency::from_str("\u{17f}econdly").unwrap(), Frequency::Secondly);
    assert_eq!(Frequency::from_str("FORTNIGHTLY").err().unwrap(), "Invalid frequency: FORTNIGHTLY");
}
