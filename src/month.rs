//! Months of the year and their numbers.
use vstd::prelude::*;
use crate::text::{same_chars, chars_of, string_of};

verus! {
#[derive(PartialEq, Eq, Structural, Clone, Copy, Debug)]
pub enum Month {
    January,
    February,
    March,
    April,
    May,
    June,
    July,
    August,
    September,
    October,
    November,
    December,
}

impl Month {
    /// The number of the month, without padding.
    pub open spec fn code(self) -> Seq<char> {
        match self {
            Month::January => seq!['1'],
            Month::February => seq!['2'],
            Month::March => seq!['3'],
            Month::April => seq!['4'],
            Month::May => seq!['5'],
            Month::June => seq!['6'],
            Month::July => seq!['7'],
            Month::August => seq!['8'],
            Month::September => seq!['9'],
            Month::October => seq!['1', '0'],
            Month::November => seq!['1', '1'],
            Month::December => seq!['1', '2'],
        }
    }

    /// The month whose number is written `s`, without padding.
    pub open spec fn from_code(s: Seq<char>) -> Option<Month> {
        let u = s;
        if u == Month::January.code() {
            Some(Month::January)
        } else         if u == Month::February.code() {
            Some(Month::February)
        } else         if u == Month::March.code() {
            Some(Month::March)
        } else         if u == Month::April.code() {
            Some(Month::April)
        } else         if u == Month::May.code() {
            Some(Month::May)
        } else         if u == Month::June.code() {
            Some(Month::June)
        } else         if u == Month::July.code() {
            Some(Month::July)
        } else         if u == Month::August.code() {
            Some(Month::August)
        } else         if u == Month::September.code() {
            Some(Month::September)
        } else         if u == Month::October.code() {
            Some(Month::October)
        } else         if u == Month::November.code() {
            Some(Month::November)
        } else         if u == Month::December.code() {
            Some(Month::December)
        } else {
            None
        }
    }

    pub fn code_chars(&self) -> (r: Vec<char>)
        ensures
            r@ == self.code(),
    {
        match self {
            Month::January => vec!['1'],
            Month::February => vec!['2'],
            Month::March => vec!['3'],
            Month::April => vec!['4'],
            Month::May => vec!['5'],
            Month::June => vec!['6'],
            Month::July => vec!['7'],
            Month::August => vec!['8'],
            Month::September => vec!['9'],
            Month::October => vec!['1', '0'],
            Month::November => vec!['1', '1'],
            Month::December => vec!['1', '2'],
        }
    }

    pub fn parse_chars(s: &Vec<char>) -> (r: Option<Month>)
        ensures
            r == Month::from_code(s@),
    {
        let u = s.clone();
        if same_chars(&u, &Month::January.code_chars()) {
            Some(Month::January)
        } else         if same_chars(&u, &Month::February.code_chars()) {
            Some(Month::February)
        } else         if same_chars(&u, &Month::March.code_chars()) {
            Some(Month::March)
        } else         if same_chars(&u, &Month::April.code_chars()) {
            Some(Month::April)
        } else         if same_chars(&u, &Month::May.code_chars()) {
            Some(Month::May)
        } else         if same_chars(&u, &Month::June.code_chars()) {
            Some(Month::June)
        } else         if same_chars(&u, &Month::July.code_chars()) {
            Some(Month::July)
        } else         if same_chars(&u, &Month::August.code_chars()) {
            Some(Month::August)
        } else         if same_chars(&u, &Month::September.code_chars()) {
            Some(Month::September)
        } else         if same_chars(&u, &Month::October.code_chars()) {
            Some(Month::October)
        } else         if same_chars(&u, &Month::November.code_chars()) {
            Some(Month::November)
        } else         if same_chars(&u, &Month::December.code_chars()) {
            Some(Month::December)
        } else {
            None
        }
    }

    /// The month whose number is written `s`, without padding.
    pub fn from_str(s: &str) -> (r: Result<Month, String>)
        ensures
            r matches Ok(v) ==> Month::from_code(s@) == Some(v),
            r is Err <==> Month::from_code(s@) is None,
            r matches Err(e) ==> e@ == "Invalid month number: "@ + s@,
    {
        let cs = chars_of(s);
        match Month::parse_chars(&cs) {
            Some(v) => Ok(v),
            None => Err(crate::text::message("Invalid month number: ", &cs)),
        }
    }

    /// The number of the month, without padding.
    pub fn to_string(&self) -> (r: String)
        ensures
            r@ == self.code(),
    {
        string_of(&self.code_chars())
    }
}

/// Every value reads back from its code.
pub proof fn lemma_month_code(v: Month)
    ensures
        Month::from_code(v.code()) == Some(v),
{
    assert(Month::January.code()[0] == '1');
    assert(Month::February.code()[0] == '2');
    assert(Month::March.code()[0] == '3');
    assert(Month::April.code()[0] == '4');
    assert(Month::May.code()[0] == '5');
    assert(Month::June.code()[0] == '6');
    assert(Month::July.code()[0] == '7');
    assert(Month::August.code()[0] == '8');
    assert(Month::September.code()[0] == '9');
    assert(Month::October.code()[0] == '1');
    assert(Month::November.code()[0] == '1');
    assert(Month::December.code()[0] == '1');
    assert(Month::October.code()[1] == '0');
    assert(Month::November.code()[1] == '1');
    assert(Month::December.code()[1] == '2');
    assert(v.code()[0] == v.code()[0]);
    if v.code().len() == 2 {
        assert(v.code()[1] == v.code()[1]);
    }
}

} // verus!
