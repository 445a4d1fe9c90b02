//! The start anchor of a rule set (`DTSTART`).
use vstd::prelude::*;
use crate::datetime::DateTime;
use crate::keys::{key_tzid, key_value};
use crate::parameters::{Parameters, Entries, lookup};
use crate::property::{Property, Value, Parsed};
use crate::properties::LineModel;
use crate::text::{string_of, chars_of, upper, is_ascii_text};
use crate::timezone::{is_zone_name, is_known_zone};
use crate::value_type::ValueType;

verus! {

pub open spec fn opt_view(o: Option<String>) -> Option<Seq<char>> {
    match o {
        Some(s) => Some(s@),
        None => None,
    }
}

/// A start anchor's value, zone name and declared value type.
pub type StartModel = (DateTime, Option<Seq<char>>, Option<ValueType>);

/// A time of day that is not UTC needs a zone; a declared value type must be
/// the value's own. The zone, where given, is taken as known when `zone_known`.
pub open spec fn start_rules(
    value: DateTime,
    tzid: Option<Seq<char>>,
    value_type: Option<ValueType>,
    zone_known: bool,
) -> bool {
    &&& (tzid is Some ==> zone_known)
    &&& (value.time is Some && !value.time->0.utc() ==> tzid is Some)
    &&& (value_type is Some ==> value_type->0 == value.value_type())
}

/// The rules of a start anchor, with the zone checked against the database.
pub open spec fn valid_start(m: StartModel) -> bool {
    start_rules(m.0, m.1, m.2, m.1 is Some ==> is_zone_name(m.1->0))
}

/// The declared value type read from a property's `VALUE` parameter; `None`
/// inside means the parameter is absent, an outer `None` that it is unreadable.
pub open spec fn declared_type(e: Entries) -> Option<Option<ValueType>> {
    match lookup(e, key_value()) {
        None => Some(None),
        Some(t) => match ValueType::from_code(t) {
            Some(vt) => Some(Some(vt)),
            None => None,
        },
    }
}

/// The message for a start anchor that breaks its rules: an unknown zone,
/// then a time of day that is not UTC without a zone, then a declared value
/// type that is not the value's.
pub open spec fn start_rules_error(
    value: DateTime,
    tzid: Option<Seq<char>>,
    value_type: Option<ValueType>,
    zone_known: bool,
) -> Seq<char> {
    if tzid is Some && !zone_known {
        "Invalid timezone: "@ + tzid->0
    } else if value.time is Some && !value.time->0.utc() && tzid is None {
        "TZID is required for non-UTC DTSTART"@
    } else {
        "DTSTART value and value type do not match"@
    }
}

/// The message for an unreadable `VALUE` parameter.
pub open spec fn declared_type_error(e: Entries) -> Seq<char> {
    "Invalid value: "@ + lookup(e, key_value())->0
}

/// The message for a `DTSTART` property that describes no valid anchor:
/// the first part that fails, with its raw text.
pub open spec fn start_error(m: LineModel) -> Seq<char> {
    match m.2 {
        Parsed::Pairs(_) => "Invalid DTSTART value"@,
        Parsed::Bare(t) => match DateTime::from_text(t) {
            None => DateTime::text_error(t),
            Some(d) => match declared_type(m.1) {
                None => declared_type_error(m.1),
                Some(vt) => {
                    let tz = lookup(m.1, key_tzid());
                    start_rules_error(d, tz, vt, tz is Some ==> is_zone_name(tz->0))
                },
            },
        },
    }
}

/// The start anchor that a `DTSTART` property describes, if it is a valid one.
pub open spec fn start_of(m: LineModel) -> Option<StartModel> {
    match m.2 {
        Parsed::Pairs(_) => None,
        Parsed::Bare(t) => match DateTime::from_text(t) {
            None => None,
            Some(d) => match declared_type(m.1) {
                None => None,
                Some(vt) => {
                    let s = (d, lookup(m.1, key_tzid()), vt);
                    if valid_start(s) {
                        Some(s)
                    } else {
                        None
                    }
                },
            },
        },
    }
}

/// The parameters of an anchor's or a date list's property: `TZID` where a zone
/// is given, then `VALUE` where a value type is declared.
pub open spec fn zone_and_type_entries(tzid: Option<Seq<char>>, vt: Option<ValueType>) -> Entries {
    let e1 = match tzid {
        Some(n) => seq![(key_tzid(), n)],
        None => Seq::empty(),
    };
    match vt {
        Some(x) => e1.push((key_value(), x.code())),
        None => e1,
    }
}

/// The zone name `UTC`.
pub open spec fn utc_name() -> Seq<char> {
    seq!['U', 'T', 'C']
}

/// What a `DTSTART` line states of an anchor: the zone unless it is `UTC`,
/// and the value type `DATE` for an anchor on a whole day.
pub open spec fn written_start(m: StartModel) -> StartModel {
    (
        m.0,
        if m.1 == Some(utc_name()) {
            None
        } else {
            m.1
        },
        if m.0.time is None {
            Some(ValueType::Date)
        } else {
            None
        },
    )
}

/// The `DTSTART` line of an anchor: `TZID` where a zone other than `UTC`
/// is given, `VALUE=DATE` where the anchor is a whole day, then the value.
pub open spec fn start_line(m: StartModel) -> LineModel {
    let w = written_start(m);
    (crate::keys::name_dtstart(), zone_and_type_entries(w.1, w.2), Parsed::Bare(m.0.text()))
}

#[derive(Clone)]
pub struct DtStart {
    value: DateTime,
    tzid: Option<String>,
    value_type: Option<ValueType>,
}

impl DtStart {
    pub closed spec fn model(&self) -> StartModel {
        (self.value, opt_view(self.tzid), self.value_type)
    }

    /// The start anchor obeys its rules.
    pub open spec fn wf(&self) -> bool {
        valid_start(self.model())
    }

    /// The value type of the anchor's value.
    pub open spec fn kind(&self) -> ValueType {
        self.model().0.value_type()
    }

    /// The property line of the anchor.
    pub open spec fn line(&self) -> LineModel {
        start_line(self.model())
    }

    pub fn value(&self) -> (r: &DateTime)
        ensures
            *r == self.model().0,
    {
        &self.value
    }

    pub fn tzid(&self) -> (r: &Option<String>)
        ensures
            opt_view(*r) == self.model().1,
    {
        &self.tzid
    }

    pub fn value_type(&self) -> (r: &Option<ValueType>)
        ensures
            *r == self.model().2,
    {
        &self.value_type
    }

    /// The declared value type, or else the value's own.
    pub fn derive_value_type(&self) -> (r: ValueType)
        requires
            self.wf(),
        ensures
            r == self.kind(),
    {
        match &self.value_type {
            Some(vt) => *vt,
            None => self.value.derive_value_type(),
        }
    }

    /// Builds a start anchor, with `zone_known` telling whether `tzid`, where
    /// given, names a zone of the database.
    pub fn with_zone_check(
        value: DateTime,
        tzid: Option<String>,
        value_type: Option<ValueType>,
        zone_known: bool,
    ) -> (r: Result<DtStart, String>)
        ensures
            r is Ok <==> start_rules(value, opt_view(tzid), value_type, zone_known),
            r matches Ok(d) ==> d.model() == (value, opt_view(tzid), value_type),
            r matches Err(e) ==> e@ == start_rules_error(value, opt_view(tzid), value_type, zone_known),
    {
        if tzid.is_some() && !zone_known {
            return Err(crate::text::message("Invalid timezone: ", &match &tzid {
                Some(n) => chars_of(n.as_str()),
                None => Vec::new(),
            }));
        }
        match &value.time {
            Some(t) => {
                if !t.is_utc() && tzid.is_none() {
                    return Err(string_of(&chars_of("TZID is required for non-UTC DTSTART")));
                }
            },
            None => {},
        }
        match &value_type {
            Some(vt) => {
                if *vt != value.derive_value_type() {
                    return Err(
                        string_of(&chars_of("DTSTART value and value type do not match")),
                    );
                }
            },
            None => {},
        }
        Ok(DtStart { value, tzid, value_type })
    }

    /// Builds a start anchor: a time of day that is not UTC needs a zone, a
    /// zone must be known, a declared value type must match the value.
    pub fn new(value: DateTime, tzid: Option<String>, value_type: Option<ValueType>) -> (r: Result<
        DtStart,
        String,
    >)
        ensures
            r is Ok <==> valid_start((value, opt_view(tzid), value_type)),
            r matches Ok(d) ==> d.model() == (value, opt_view(tzid), value_type) && d.wf(),
            r matches Err(e) ==> e@ == start_rules_error(
                value,
                opt_view(tzid),
                value_type,
                tzid is Some ==> is_zone_name(opt_view(tzid)->0),
            ),
    {
        let known = match &tzid {
            Some(n) => is_known_zone(n.as_str()),
            None => true,
        };
        DtStart::with_zone_check(value, tzid, value_type, known)
    }

    /// Reads the anchor from a `DTSTART` property.
    pub fn from_property(property: &Property) -> (r: Result<DtStart, String>)
        ensures
            r matches Ok(d) ==> start_of(
                (property.name_view(), property.entries(), property.value_view()),
            ) == Some(d.model()) && d.wf(),
            r is Err ==> start_of(
                (property.name_view(), property.entries(), property.value_view()),
            ) is None,
            r matches Err(e) ==> e@ == start_error(
                (property.name_view(), property.entries(), property.value_view()),
            ),
    {
        let text = match property.value() {
            Value::Single(t) => t,
            Value::Parameters(_) => {
                return Err(string_of(&chars_of("Invalid DTSTART value")));
            },
        };
        let value = match DateTime::from_str(text.as_str()) {
            Ok(d) => d,
            Err(e) => return Err(e),
        };
        let value_type = match read_value_type(property.parameters()) {
            Ok(vt) => vt,
            Err(e) => return Err(e),
        };
        let tzid = property.parameters().get_exact(&crate::keys::tzid());
        DtStart::new(value, tzid, value_type)
    }

    /// The `DTSTART` property: `TZID` where a zone other than `UTC` is given,
    /// `VALUE=DATE` where the anchor is a whole day, the value as text.
    pub fn to_property(&self) -> (r: Property)
        ensures
            (r.name_view(), r.entries(), r.value_view()) == self.line(),
    {
        let zone = match &self.tzid {
            Some(n) => if crate::text::same_chars(&chars_of(n.as_str()), &vec!['U', 'T', 'C']) {
                None
            } else {
                Some(n.clone())
            },
            None => None,
        };
        let kind = match &self.value.time {
            Some(_) => None,
            None => Some(ValueType::Date),
        };
        let parameters = zone_and_type_parameters(&zone, &kind);
        Property::new(
            string_of(&crate::keys::dtstart()),
            parameters,
            Value::Single(self.value.to_string()),
        )
    }
}

/// The value type declared by the `VALUE` parameter, if any.
pub fn read_value_type(p: &Parameters) -> (r: Result<Option<ValueType>, String>)
    ensures
        r matches Ok(vt) ==> declared_type(p.entries()) == Some(vt),
        r is Err ==> declared_type(p.entries()) is None,
        r matches Err(e) ==> e@ == declared_type_error(p.entries()),
{
    match p.get_exact(&crate::keys::value()) {
        None => Ok(None),
        Some(t) => match ValueType::from_str(t.as_str()) {
            Ok(vt) => Ok(Some(vt)),
            Err(_) => Err(crate::text::message("Invalid value: ", &chars_of(t.as_str()))),
        },
    }
}

/// `TZID` where a zone is given, then `VALUE` where a value type is declared.
pub fn zone_and_type_parameters(tzid: &Option<String>, vt: &Option<ValueType>) -> (r: Parameters)
    ensures
        r.entries() == zone_and_type_entries(opt_view(*tzid), *vt),
{
    let mut p = Parameters::new();
    proof {
        assert(upper(key_tzid()) =~= key_tzid());
        assert(is_ascii_text(key_tzid()));
        assert(upper(key_value()) =~= key_value());
        assert(is_ascii_text(key_value()));
    }
    match tzid {
        Some(n) => {
            p.insert(string_of(&crate::keys::tzid()), n.clone());
            assert(p.entries() =~= seq![(key_tzid(), n@)]);
        },
        None => {},
    }
    match vt {
        Some(x) => {
            let ghost before = p.entries();
            p.insert(string_of(&crate::keys::value()), x.to_string());
            proof {
                assert(crate::parameters::key_index(before, key_value()) == -1) by {
                    match tzid {
                        Some(n) => {
                            assert(before == seq![(key_tzid(), n@)]);
                            assert(before.drop_last() =~= Seq::<(Seq<char>, Seq<char>)>::empty());
                            assert(key_tzid()[0] != key_value()[0]);
                            assert(crate::parameters::key_index(before.drop_last(), key_value()) == -1);
                        },
                        None => {
                            assert(before =~= Seq::<(Seq<char>, Seq<char>)>::empty());
                        },
                    }
                }
            }
        },
        None => {},
    }
    p
}

} // verus!
