//! Explicit date lists: the values of `RDATE` (included) and `EXDATE` (excluded).
use vstd::prelude::*;
use crate::datetime::DateTime;
use crate::dtstart::{opt_view, declared_type, declared_type_error, zone_and_type_entries, zone_and_type_parameters, read_value_type};
use crate::keys::key_tzid;
use crate::parameters::lookup;
use crate::property::{Property, Value, Parsed};
use crate::properties::LineModel;
use crate::text::{split, join, split_chars, join_chars, chars_of, string_of};
use crate::timezone::{is_zone_name, is_known_zone};
use crate::value_type::ValueType;

verus! {

/// A list's values, zone name and declared value type.
pub type ListModel = (Seq<DateTime>, Option<Seq<char>>, Option<ValueType>);

/// The value type that every value of a list must have: the declared one, else
/// that of the first value; none for an empty list without a declaration.
pub open spec fn expected_type(values: Seq<DateTime>, value_type: Option<ValueType>) -> Option<ValueType> {
    match value_type {
        Some(vt) => Some(vt),
        None => if values.len() == 0 {
            None
        } else {
            Some(values[0].value_type())
        },
    }
}

/// All values share the expected value type; a zone, where given, is known
/// when `zone_known`.
pub open spec fn list_rules(
    values: Seq<DateTime>,
    tzid: Option<Seq<char>>,
    value_type: Option<ValueType>,
    zone_known: bool,
) -> bool {
    &&& (tzid is Some ==> zone_known)
    &&& (expected_type(values, value_type) matches Some(vt) ==> forall|i: int|
        0 <= i < values.len() ==> #[trigger] values[i].value_type() == vt)
}

pub open spec fn valid_list(m: ListModel) -> bool {
    list_rules(m.0, m.1, m.2, m.1 is Some ==> is_zone_name(m.1->0))
}

/// The values written in `parts`, one each, if all of them read.
pub open spec fn dates_of(parts: Seq<Seq<char>>) -> Option<Seq<DateTime>>
    decreases parts.len(),
{
    if parts.len() == 0 {
        Some(Seq::empty())
    } else {
        match dates_of(parts.drop_last()) {
            None => None,
            Some(ds) => match DateTime::from_text(parts.last()) {
                None => None,
                Some(d) => Some(ds.push(d)),
            },
        }
    }
}

/// The message for the first value in `parts` that does not read.
pub open spec fn dates_error(parts: Seq<Seq<char>>) -> Seq<char>
    decreases parts.len(),
{
    if parts.len() == 0 {
        Seq::empty()
    } else if dates_of(parts.drop_last()) is None {
        dates_error(parts.drop_last())
    } else {
        DateTime::text_error(parts.last())
    }
}

/// The message for a list that breaks its rules: an unknown zone, then
/// values of more than one value type.
pub open spec fn list_rules_error(tzid: Option<Seq<char>>, zone_known: bool) -> Seq<char> {
    if tzid is Some && !zone_known {
        "Invalid timezone"@
    } else {
        "All dates of a list must have the same value type"@
    }
}

/// The message for an `EXDATE` or `RDATE` property that describes no valid
/// list: the first part that fails, with its raw text.
pub open spec fn list_error(m: LineModel) -> Seq<char> {
    match m.2 {
        Parsed::Pairs(_) => "Invalid date list value"@,
        Parsed::Bare(t) => match dates_of(split(t, ',')) {
            None => dates_error(split(t, ',')),
            Some(ds) => match declared_type(m.1) {
                None => declared_type_error(m.1),
                Some(vt) => {
                    let tz = lookup(m.1, key_tzid());
                    list_rules_error(tz, tz is Some ==> is_zone_name(tz->0))
                },
            },
        },
    }
}

/// The list that an `EXDATE` or `RDATE` property describes, if it is a valid one.
pub open spec fn list_of(m: LineModel) -> Option<ListModel> {
    match m.2 {
        Parsed::Pairs(_) => None,
        Parsed::Bare(t) => match dates_of(split(t, ',')) {
            None => None,
            Some(ds) => match declared_type(m.1) {
                None => None,
                Some(vt) => {
                    let l = (ds, lookup(m.1, key_tzid()), vt);
                    if valid_list(l) {
                        Some(l)
                    } else {
                        None
                    }
                },
            },
        },
    }
}

/// The values as text, joined with `,`.
pub open spec fn dates_text(values: Seq<DateTime>) -> Seq<char> {
    join(values.map_values(|d: DateTime| d.text()), ',')
}

/// The property line of a list under the property name `name`.
pub open spec fn list_line(name: Seq<char>, l: ListModel) -> LineModel {
    (name, zone_and_type_entries(l.1, l.2), Parsed::Bare(dates_text(l.0)))
}

#[derive(Clone)]
pub struct DateList {
    values: Vec<DateTime>,
    tzid: Option<String>,
    value_type: Option<ValueType>,
}

/// A list of excluded dates.
pub type ExDate = DateList;

/// A list of included dates.
pub type RDate = DateList;

impl DateList {
    pub closed spec fn model(&self) -> ListModel {
        (self.values@, opt_view(self.tzid), self.value_type)
    }

    pub open spec fn wf(&self) -> bool {
        valid_list(self.model())
    }

    pub open spec fn kind(&self) -> Option<ValueType> {
        expected_type(self.model().0, self.model().2)
    }

    /// The property line of the list, under the property name `name`.
    pub open spec fn line(&self, name: Seq<char>) -> LineModel {
        list_line(name, self.model())
    }

    pub fn values(&self) -> (r: &Vec<DateTime>)
        ensures
            r@ == self.model().0,
    {
        &self.values
    }

    pub fn tzid(&self) -> (r: &Option<String>)
        ensures
            opt_view(*r) == self.model().1,
    {
        &self.tzid
    }

    pub fn value_type(&self) -> (r: &Option<ValueType>)
        ensures
            *r == self.model().2,
    {
        &self.value_type
    }

    /// The declared value type, else that of the first value.
    pub fn derive_value_type(&self) -> (r: Option<ValueType>)
        ensures
            r == self.kind(),
    {
        match &self.value_type {
            Some(vt) => Some(*vt),
            None => if self.values.len() == 0 {
                None
            } else {
                Some(self.values[0].derive_value_type())
            },
        }
    }

    /// Builds a list, with `zone_known` telling whether `tzid`, where given,
    /// names a zone of the database.
    pub fn with_zone_check(
        values: Vec<DateTime>,
        tzid: Option<String>,
        value_type: Option<ValueType>,
        zone_known: bool,
    ) -> (r: Result<DateList, String>)
        ensures
            r is Ok <==> list_rules(values@, opt_view(tzid), value_type, zone_known),
            r matches Ok(l) ==> l.model() == (values@, opt_view(tzid), value_type),
            r matches Err(e) ==> e@ == list_rules_error(opt_view(tzid), zone_known),
    {
        if tzid.is_some() && !zone_known {
            return Err(string_of(&chars_of("Invalid timezone")));
        }
        let expected = match &value_type {
            Some(vt) => Some(*vt),
            None => if values.len() == 0 {
                None
            } else {
                Some(values[0].derive_value_type())
            },
        };
        match expected {
            Some(vt) => {
                let mut i: usize = 0;
                while i < values.len()
                    invariant
                        i <= values@.len(),
                        expected_type(values@, value_type) == Some(vt),
                        opt_view(tzid) is Some ==> zone_known,
                        forall|k: int| 0 <= k < i ==> #[trigger] values@[k].value_type() == vt,
                    decreases values@.len() - i,
                {
                    if values[i].derive_value_type() != vt {
                        return Err(
                            string_of(
                                &chars_of("All dates of a list must have the same value type"),
                            ),
                        );
                    }
                    i = i + 1;
                }
            },
            None => {},
        }
        Ok(DateList { values, tzid, value_type })
    }

    /// Builds a list whose values all have one value type: the declared one,
    /// else that of the first value. A zone must be known.
    pub fn new(values: Vec<DateTime>, tzid: Option<String>, value_type: Option<ValueType>) -> (r:
        Result<DateList, String>)
        ensures
            r is Ok <==> valid_list((values@, opt_view(tzid), value_type)),
            r matches Ok(l) ==> l.model() == (values@, opt_view(tzid), value_type) && l.wf(),
            r matches Err(e) ==> e@ == list_rules_error(
                opt_view(tzid),
                tzid is Some ==> is_zone_name(opt_view(tzid)->0),
            ),
    {
        let known = match &tzid {
            Some(n) => is_known_zone(n.as_str()),
            None => true,
        };
        DateList::with_zone_check(values, tzid, value_type, known)
    }

    /// Reads the list from an `EXDATE` or `RDATE` property.
    pub fn from_property(property: &Property) -> (r: Result<DateList, String>)
        ensures
            r matches Ok(l) ==> list_of(
                (property.name_view(), property.entries(), property.value_view()),
            ) == Some(l.model()) && l.wf(),
            r is Err ==> list_of(
                (property.name_view(), property.entries(), property.value_view()),
            ) is None,
            r matches Err(e) ==> e@ == list_error(
                (property.name_view(), property.entries(), property.value_view()),
            ),
    {
        let text = match property.value() {
            Value::Single(t) => t,
            Value::Parameters(_) => {
                return Err(string_of(&chars_of("Invalid date list value")));
            },
        };
        let parts = split_chars(&chars_of(text.as_str()), ',');
        let ghost views = parts@.map_values(|p: Vec<char>| p@);
        let mut values: Vec<DateTime> = Vec::new();
        let mut i: usize = 0;
        assert(views.subrange(0, 0) =~= Seq::<Seq<char>>::empty());
        while i < parts.len()
            invariant
                i <= parts@.len(),
                views == parts@.map_values(|p: Vec<char>| p@),
                views == split(text@, ','),
                property.value_view() == Parsed::Bare(text@),
                dates_of(views.subrange(0, i as int)) == Some(values@),
            decreases parts@.len() - i,
        {
            assert(views.subrange(0, i + 1).drop_last() =~= views.subrange(0, i as int));
            match DateTime::parse_chars(&parts[i]) {
                Ok(d) => values.push(d),
                Err(e) => {
                    proof {
                        lemma_dates_fail(views, i + 1);
                        lemma_dates_error(views, i + 1);
                        assert(views.subrange(0, i + 1).last() == views[i as int]);
                    }
                    return Err(e);
                },
            }
            i = i + 1;
        }
        assert(views.subrange(0, parts@.len() as int) =~= views);
        let value_type = match read_value_type(property.parameters()) {
            Ok(vt) => vt,
            Err(e) => return Err(e),
        };
        let tzid = property.parameters().get_exact(&crate::keys::tzid());
        DateList::new(values, tzid, value_type)
    }

    /// The property under the name `name`: `TZID` where a zone is given,
    /// `VALUE` where a value type is declared, the values joined with `,`.
    pub fn to_property(&self, name: &Vec<char>) -> (r: Property)
        ensures
            (r.name_view(), r.entries(), r.value_view()) == self.line(name@),
    {
        let parameters = zone_and_type_parameters(&self.tzid, &self.value_type);
        let mut parts: Vec<Vec<char>> = Vec::new();
        let mut i: usize = 0;
        let ghost texts = self.values@.map_values(|d: DateTime| d.text());
        while i < self.values.len()
            invariant
                i <= self.values@.len(),
                texts == self.values@.map_values(|d: DateTime| d.text()),
                parts@.len() == i,
                forall|j: int| 0 <= j < i ==> #[trigger] parts@[j]@ == texts[j],
            decreases self.values@.len() - i,
        {
            parts.push(self.values[i].text_chars());
            i = i + 1;
        }
        assert(parts@.map_values(|t: Vec<char>| t@) =~= texts);
        let text = join_chars(&parts, ',');
        Property::new(string_of(name), parameters, Value::Single(string_of(&text)))
    }
}

/// The first value that does not read is the same in a prefix and in the whole.
proof fn lemma_dates_error(s: Seq<Seq<char>>, j: int)
    requires
        0 <= j <= s.len(),
        dates_of(s.subrange(0, j)) is None,
    ensures
        dates_error(s) == dates_error(s.subrange(0, j)),
    decreases s.len() - j,
{
    if j < s.len() {
        assert(s.drop_last().subrange(0, j) =~= s.subrange(0, j));
        lemma_dates_error(s.drop_last(), j);
        lemma_dates_fail(s.drop_last(), j);
    } else {
        assert(s.subrange(0, j) =~= s);
    }
}

/// A value that does not read in a prefix makes the whole list unreadable.
proof fn lemma_dates_fail(s: Seq<Seq<char>>, j: int)
    requires
        0 <= j <= s.len(),
        dates_of(s.subrange(0, j)) is None,
    ensures
        dates_of(s) is None,
    decreases s.len() - j,
{
    if j < s.len() {
        assert(s.drop_last().subrange(0, j) =~= s.subrange(0, j));
        lemma_dates_fail(s.drop_last(), j);
    } else {
        assert(s.subrange(0, j) =~= s);
    }
}

} // verus!
