use rrule_text::date_list::DateList;
use rrule_text::datetime::{DateTime, Time};
use rrule_text::dtstart::DtStart;
use rrule_text::frequency::Frequency;
use rrule_text::parameters::Parameters;
use rrule_text::property::{Error, Property, Value};
use rrule_text::properties::Properties;
use rrule_text::rrule::RRule;
use rrule_text::rule_set::RRuleSet;
use rrule_text::value_type::ValueType;

fn utc(y: u32, mo: u32, d: u32, h: u32, mi: u32, s: u32) -> DateTime {
    DateTime {
        year: y,
        month: mo,
        day: d,
        time: Some(Time { hour: h, minute: mi, second: s, offset: Some(0) }),
    }
}

fn floating(y: u32, mo: u32, d: u32, h: u32, mi: u32, s: u32) -> DateTime {
    DateTime {
        year: y,
        month: mo,
        day: d,
        time: Some(Time { hour: h, minute: mi, second: s, offset: None }),
    }
}

#[test]
fn round_trip_daily_interval() {
    let start = DtStart::new(utc(2022, 1, 1, 9, 0, 0), None, None).unwrap();
    let rule = RRule::new(Frequency::Daily).set_interval(Some(2));
    let set = RRuleSet::new(start).set_rrules(vec![rule]).unwrap();
    let text = set.to_string();
    assert_eq!(text, "DTSTART:20220101T090000Z\nRRULE:FREQ=DAILY;INTERVAL=2");
    let back = RRuleSet::from_str(&text).unwrap();
    assert_eq!(back.rrules().len(), 1);
    assert_eq!(*back.rrules()[0].frequency(), Frequency::Daily);
    assert_eq!(back.rrules()[0].interval(), Some(2));
    assert_eq!(*back.dtstart().value(), utc(2022, 1, 1, 9, 0, 0));
    assert_eq!(back.to_string(), text);
}

#[test]
fn round_trip_full_rule() {
    let text = "DTSTART;TZID=Europe/Paris:20220101T090000\nRRULE:FREQ=MONTHLY;COUNT=10;BYHOUR=9,17;BYMONTHDAY=-1,15;BYSETPOS=1;BYMONTH=1,12;BYDAY=2MO,-1FR;WKST=SU\nEXRULE:FREQ=YEARLY;UNTIL=20300101T000000\nEXDATE;TZID=Europe/Paris:20220105T090000,20220106T090000\nRDATE:20220107T090000Z";
    let set = RRuleSet::from_str(text).unwrap();
    assert_eq!(set.rrules().len(), 1);
    assert_eq!(set.exrules().len(), 1);
    assert_eq!(set.exdates().len(), 1);
    assert_eq!(set.rdates().len(), 1);
    assert_eq!(set.rrules()[0].by_hour(), &vec![9u8, 17]);
    assert_eq!(set.rrules()[0].by_monthday(), &vec![-1i8, 15]);
    assert_eq!(set.exdates()[0].values().len(), 2);
    assert_eq!(set.to_string(), text);
    let again = RRuleSet::from_str(&set.to_string()).unwrap();
    assert_eq!(again.to_string(), text);
}

#[test]
fn date_only_round_trip() {
    let start = DtStart::new(DateTime { year: 2022, month: 1, day: 1, time: None }, None, None)
        .unwrap();
    let set = RRuleSet::new(start);
    let text = set.to_string();
    assert_eq!(text, "DTSTART;VALUE=DATE:20220101");
    let back = RRuleSet::from_str(&text).unwrap();
    assert_eq!(back.dtstart().value().time, None);
    assert_eq!(back.dtstart().derive_value_type(), ValueType::Date);
    let declared = RRuleSet::from_str("DTSTART;VALUE=DATE:20220101").unwrap();
    assert_eq!(declared.to_string(), "DTSTART;VALUE=DATE:20220101");
}

#[test]
fn start_needs_zone_unless_utc() {
    assert!(DtStart::new(floating(2022, 1, 1, 9, 0, 0), None, None).is_err());
    assert!(DtStart::new(utc(2022, 1, 1, 9, 0, 0), None, None).is_ok());
    assert!(DtStart::new(floating(2022, 1, 1, 9, 0, 0), Some("America/New_York".to_string()), None).is_ok());
    assert!(RRuleSet::from_str("DTSTART:20220101T090000").is_err());
}

#[test]
fn start_rejects_unknown_zone() {
    assert!(DtStart::new(floating(2022, 1, 1, 9, 0, 0), Some("Mars/Olympus".to_string()), None).is_err());
    assert!(RRuleSet::from_str("DTSTART;TZID=Nowhere/Place:20220101T090000").is_err());
}

#[test]
fn start_rejects_mismatched_value_type() {
    assert!(DtStart::new(utc(2022, 1, 1, 9, 0, 0), None, Some(ValueType::Date)).is_err());
    assert!(DtStart::new(utc(2022, 1, 1, 9, 0, 0), None, Some(ValueType::DateTime)).is_ok());
}

#[test]
fn date_start_rejects_date_time_exclusions() {
    let start = DtStart::new(DateTime { year: 2022, month: 1, day: 1, time: None }, None, None)
        .unwrap();
    let list = DateList::new(vec![utc(2022, 1, 5, 10, 0, 0)], None, None).unwrap();
    assert!(RRuleSet::new(start).set_exdates(vec![list]).is_err());
    assert!(RRuleSet::from_str("DTSTART:20220101\nEXDATE:20220105T100000Z").is_err());
    assert!(RRuleSet::from_str("DTSTART:20220101\nEXDATE:20220105").is_ok());
}

#[test]
fn until_must_match_start() {
    assert!(RRuleSet::from_str("DTSTART:20220101\nRRULE:FREQ=DAILY;UNTIL=20220105T100000Z").is_err());
    assert!(RRuleSet::from_str("DTSTART:20220101\nRRULE:FREQ=DAILY;UNTIL=20220105").is_ok());
}

#[test]
fn date_list_values_share_a_type() {
    assert!(DateList::new(
        vec![utc(2022, 1, 5, 10, 0, 0), DateTime { year: 2022, month: 1, day: 6, time: None }],
        None,
        None
    )
    .is_err());
    assert!(DateList::new(vec![utc(2022, 1, 5, 10, 0, 0)], None, Some(ValueType::Date)).is_err());
    let l = DateList::new(vec![], None, None).unwrap();
    assert_eq!(l.derive_value_type(), None);
}

#[test]
fn two_starts_are_refused() {
    let text = "DTSTART:20220101T090000Z\nDTSTART:20220102T090000Z\nRRULE:FREQ=DAILY";
    assert!(RRuleSet::from_str(text).is_err());
}

#[test]
fn missing_start_is_refused() {
    assert!(RRuleSet::from_str("RRULE:FREQ=DAILY").is_err());
}

#[test]
fn unknown_properties_are_skipped() {
    let text = "DTSTART:20220101T090000Z\nRRULE:FREQ=DAILY\nX-UNKNOWN;FOO=1:whatever";
    let set = RRuleSet::from_str(text).unwrap();
    let out = set.to_string();
    assert_eq!(out, "DTSTART:20220101T090000Z\nRRULE:FREQ=DAILY");
    assert!(!out.contains("X-UNKNOWN"));
}

#[test]
fn serialization_is_repeatable() {
    let set = RRuleSet::from_str("DTSTART:20220101T090000Z\nRRULE:FREQ=WEEKLY;BYDAY=MO,WE\nEXDATE:20220103T090000Z")
        .unwrap();
    assert_eq!(set.to_string(), set.to_string());
}

#[test]
fn blank_lines_and_spaces_are_ignored() {
    let set = RRuleSet::from_str("\n  DTSTART:20220101T090000Z  \n\n rrule:freq=daily \n").unwrap();
    assert_eq!(set.to_string(), "DTSTART:20220101T090000Z\nRRULE:FREQ=DAILY");
}

#[test]
fn rrule_from_str_with_and_without_prefix() {
    let a = RRule::from_str("FREQ=WEEKLY;INTERVAL=3;BYDAY=TU").unwrap();
    assert_eq!(*a.frequency(), Frequency::Weekly);
    assert_eq!(a.interval(), Some(3));
    let b = RRule::from_str("rrule:FREQ=WEEKLY;INTERVAL=3;BYDAY=TU").unwrap();
    assert_eq!(b.to_string(), a.to_string());
    assert_eq!(a.to_string(), "RRULE:FREQ=WEEKLY;INTERVAL=3;BYDAY=TU");
    assert!(RRule::from_str("INTERVAL=3").is_err());
    assert!(RRule::from_str("FREQ=DAILY;INTERVAL=70000").is_err());
    assert!(RRule::from_str("FREQ=DAILY;BYHOUR=300").is_err());
}

#[test]
fn rrule_setters_and_getters() {
    let r = RRule::new(Frequency::Hourly)
        .set_count(Some(5))
        .set_by_minute(vec![0, 30])
        .set_weekstart(Some(rrule_text::weekday::Weekday::Sunday));
    assert_eq!(r.count(), Some(5));
    assert_eq!(r.by_minute(), &vec![0u8, 30]);
    assert_eq!(r.to_string(), "RRULE:FREQ=HOURLY;COUNT=5;BYMINUTE=0,30;WKST=SU");
}

#[test]
fn property_tokenizer_splits_parts() {
    let p = Property::from_string("dtstart;tzid=Europe/Paris:20220101T090000").unwrap();
    assert_eq!(p.name(), "DTSTART");
    assert_eq!(p.parameters().get("TZID"), Some("Europe/Paris".to_string()));
    match p.value() {
        Value::Single(v) => assert_eq!(v, "20220101T090000"),
        Value::Parameters(_) => panic!("expected a single value"),
    }
    assert_eq!(p.to_string(), "DTSTART;TZID=Europe/Paris:20220101T090000");
}

#[test]
fn property_tokenizer_errors() {
    assert!(matches!(Property::from_string("DTSTART"), Err(Error::InvalidProperty(_))));
    assert!(matches!(Property::from_string("A:B:C"), Err(Error::InvalidProperty(_))));
    assert!(matches!(Property::from_string("RRULE:FREQ=A=B"), Err(Error::InvalidParameter(_))));
    assert!(matches!(Property::from_string("RRULE:FREQ=DAILY;X"), Err(Error::InvalidParameters(_))));
    assert!(matches!(Property::from_string("RRULE:X;FREQ=DAILY"), Err(Error::InvalidParameters(_))));
    assert!(matches!(Property::from_string("DTSTART;FOO:20220101"), Err(Error::InvalidParameters(_))));
}

#[test]
fn property_error_messages() {
    let e = Property::from_string("DTSTART").err().unwrap();
    assert_eq!(e.to_string(), "Invalid property: DTSTART");
}

#[test]
fn properties_keep_order() {
    let ps = Properties::from_str("A:1\n\nB;K=v:2\nC:X=y").unwrap();
    assert_eq!(ps.len(), 3);
    assert_eq!(ps.to_string(), "A:1\nB;K=v:2\nC:X=y");
    assert!(Properties::from_str("A:1\nbroken").is_err());
}

#[test]
fn parameters_upper_case_keys_and_keep_places() {
    let mut p = Parameters::new();
    p.insert("freq".to_string(), "DAILY".to_string());
    p.insert("Count".to_string(), "3".to_string());
    p.insert("FREQ".to_string(), "WEEKLY".to_string());
    assert_eq!(p.len(), 2);
    assert_eq!(p.get("freq"), Some("WEEKLY".to_string()));
    assert_eq!(p.entry(0), ("FREQ".to_string(), "WEEKLY".to_string()));
    assert_eq!(p.entry(1), ("COUNT".to_string(), "3".to_string()));
    assert_eq!(p.get("until"), None);
    assert!(!p.is_empty());
}

#[test]
fn appending_components_checks_value_types() {
    let start = DtStart::new(utc(2022, 1, 1, 9, 0, 0), None, None).unwrap();
    let set = RRuleSet::new(start)
        .add_rrule(RRule::new(Frequency::Daily).set_until(Some(utc(2022, 2, 1, 0, 0, 0))))
        .unwrap();
    let set = set
        .add_exdate(DateList::new(vec![utc(2022, 1, 3, 9, 0, 0)], None, None).unwrap())
        .unwrap();
    assert_eq!(
        set.to_string(),
        "DTSTART:20220101T090000Z\nRRULE:FREQ=DAILY;UNTIL=20220201T000000Z\nEXDATE:20220103T090000Z"
    );
    let day = DateList::new(vec![DateTime { year: 2022, month: 1, day: 4, time: None }], None, None)
        .unwrap();
    assert!(set.add_rdate(day).is_err());
    let bad_rule = RRule::new(Frequency::Daily)
        .set_until(Some(DateTime { year: 2022, month: 2, day: 1, time: None }));
    let start = DtStart::new(utc(2022, 1, 1, 9, 0, 0), None, None).unwrap();
    assert!(RRuleSet::new(start).add_exrule(bad_rule).is_err());
}

#[test]
fn zone_check_result_decides() {
    let name = Some("Somewhere/Else".to_string());
    assert!(DtStart::with_zone_check(floating(2022, 1, 1, 9, 0, 0), name.clone(), None, false).is_err());
    let d = DtStart::with_zone_check(floating(2022, 1, 1, 9, 0, 0), name.clone(), None, true).unwrap();
    assert_eq!(d.tzid(), &name);
    assert!(DateList::with_zone_check(vec![floating(2022, 1, 2, 9, 0, 0)], name.clone(), None, false).is_err());
    assert!(DateList::with_zone_check(vec![floating(2022, 1, 2, 9, 0, 0)], name, None, true).is_ok());
}

#[test]
fn error_messages_name_the_text() {
    assert_eq!(Error::InvalidParameter("A=B=C".to_string()).to_string(), "Invalid parameter: A=B=C");
    assert_eq!(Error::InvalidParameters("X".to_string()).to_string(), "Invalid parameters: X");
}

#[test]
fn utc_zone_is_not_written() {
    let start = DtStart::new(utc(2022, 1, 1, 9, 0, 0), Some("UTC".to_string()), None).unwrap();
    assert_eq!(RRuleSet::new(start).to_string(), "DTSTART:20220101T090000Z");
    let declared = DtStart::new(utc(2022, 1, 1, 9, 0, 0), None, Some(ValueType::DateTime)).unwrap();
    assert_eq!(RRuleSet::new(declared).to_string(), "DTSTART:20220101T090000Z");
}

#[test]
fn rule_set_structural_messages() {
    assert_eq!(RRuleSet::from_str("RRULE:FREQ=DAILY").err().unwrap(), "DTSTART is required");
    assert!(RRuleSet::from_str("").is_err());
    assert_eq!(
        RRuleSet::from_str("DTSTART:20220101T090000Z\nDTSTART:20220102T090000Z").err().unwrap(),
        "Only one DTSTART is allowed"
    );
}

#[test]
fn rule_messages_name_the_field() {
    assert_eq!(RRule::from_str("INTERVAL=2").err().unwrap(), "FREQ is required");
    assert_eq!(RRule::from_str("FREQ=DAILY;COUNT=x").err().unwrap(), "Invalid COUNT value: x");
    assert_eq!(RRule::from_str("FREQ=SOMETIMES").err().unwrap(), "Invalid frequency: SOMETIMES");
    assert_eq!(RRule::from_str("FREQ=DAILY;BYDAY=XX").err().unwrap(), "Invalid BYDAY value: XX");
    assert_eq!(RRule::from_str("FREQ=DAILY;UNTIL=2022").err().unwrap(), "Invalid datetime string: 2022");
}

#[test]
fn exclusion_patterns_keep_their_name() {
    let text = "DTSTART:20220101T090000Z\nEXRULE:FREQ=WEEKLY";
    let set = RRuleSet::from_str(text).unwrap();
    assert_eq!(set.exrules().len(), 1);
    assert_eq!(set.rrules().len(), 0);
    assert_eq!(set.to_string(), text);
}

#[test]
fn adding_a_text_to_a_rule_set() {
    let start = DtStart::new(utc(2022, 1, 1, 9, 0, 0), None, None).unwrap();
    let set = RRuleSet::new(start)
        .set_from_string("RRULE:FREQ=DAILY\nEXDATE:20220103T090000Z")
        .ok()
        .unwrap();
    assert_eq!(set.to_string(), "DTSTART:20220101T090000Z\nRRULE:FREQ=DAILY\nEXDATE:20220103T090000Z");
    let set = set.set_from_string("DTSTART:20220105T090000Z\nRRULE:FREQ=WEEKLY").ok().unwrap();
    assert_eq!(
        set.to_string(),
        "DTSTART:20220105T090000Z\nRRULE:FREQ=DAILY\nRRULE:FREQ=WEEKLY\nEXDATE:20220103T090000Z"
    );
    let before = set.to_string();
    let (message, kept) = set.set_from_string("DTSTART:20220110").err().unwrap();
    assert_eq!(message, "EXDATE value type does not match DTSTART value type");
    assert_eq!(kept.to_string(), before);
    let (message, kept) = kept
        .set_from_string("DTSTART:20220101T090000Z\nDTSTART:20220102T090000Z")
        .err()
        .unwrap();
    assert_eq!(message, "Only one DTSTART is allowed");
    assert_eq!(kept.to_string(), before);
}

#[test]
fn errors_name_the_property_and_the_text() {
    assert_eq!(
        RRuleSet::from_str("DTSTART:2022AB01").err().unwrap(),
        "DTSTART: Invalid month: AB"
    );
    assert_eq!(
        RRuleSet::from_str("DTSTART:20220101T090000Z\nRRULE:FREQ=DAILY;COUNT=x").err().unwrap(),
        "RRULE: Invalid COUNT value: x"
    );
    assert_eq!(
        RRuleSet::from_str("DTSTART:20220101T090000Z\nEXDATE:20220105T1000").err().unwrap(),
        "EXDATE: Invalid datetime string: 20220105T1000"
    );
    assert_eq!(
        RRuleSet::from_str("DTSTART;TZID=Nowhere/Place:20220101T090000").err().unwrap(),
        "DTSTART: Invalid timezone: Nowhere/Place"
    );
    assert_eq!(RRuleSet::from_str("DTSTART:20220101\nNOCOLON").err().unwrap(), "Invalid property: NOCOLON");
}

#[test]
fn tokenizer_errors_carry_the_raw_text() {
    assert_eq!(Property::from_string("A:B:C").err().unwrap(), Error::InvalidProperty("A:B:C".to_string()));
    assert_eq!(
        Property::from_string("RRULE:FREQ=A=B").err().unwrap(),
        Error::InvalidParameter("FREQ=A=B".to_string())
    );
    assert_eq!(
        Property::from_string("RRULE:FREQ=DAILY; X ").err().unwrap(),
        Error::InvalidParameters("X".to_string())
    );
    assert_eq!(
        Properties::from_str("A:1\n  broken  ").err().unwrap(),
        Error::InvalidProperty("broken".to_string())
    );
}

#[test]
fn keywords_follow_unicode_upper_casing() {
    assert_eq!(RRule::from_str("freq=\u{17f}econdly").unwrap().frequency(), &Frequency::Secondly);
}
