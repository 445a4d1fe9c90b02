//! Whether a value is a whole day or a time of day.
use vstd::prelude::*;
use crate::text::{upper, upper_text, is_ascii_text, upper_chars, same_chars, chars_of, string_of};

verus! {
#[derive(PartialEq, Eq, Structural, Clone, Copy, Debug)]
pub enum ValueType {
    Date,
    DateTime,
}

impl ValueType {
    /// The marker of the value type.
    pub open spec fn code(self) -> Seq<char> {
        match self {
            ValueType::Date => seq!['D', 'A', 'T', 'E'],
            ValueType::DateTime => seq!['D', 'A', 'T', 'E', '-', 'T', 'I', 'M', 'E'],
        }
    }

    /// The value type whose marker is `s`, read without regard to case.
    pub open spec fn from_code(s: Seq<char>) -> Option<ValueType> {
        let u = upper_text(s);
        if u == ValueType::Date.code() {
            Some(ValueType::Date)
        } else         if u == ValueType::DateTime.code() {
            Some(ValueType::DateTime)
        } else {
            None
        }
    }

    pub fn code_chars(&self) -> (r: Vec<char>)
        ensures
            r@ == self.code(),
    {
        match self {
            ValueType::Date => vec!['D', 'A', 'T', 'E'],
            ValueType::DateTime => vec!['D', 'A', 'T', 'E', '-', 'T', 'I', 'M', 'E'],
        }
    }

    pub fn parse_chars(s: &Vec<char>) -> (r: Option<ValueType>)
        ensures
            r == ValueType::from_code(s@),
    {
        let u = upper_chars(s);
        if same_chars(&u, &ValueType::Date.code_chars()) {
            Some(ValueType::Date)
        } else         if same_chars(&u, &ValueType::DateTime.code_chars()) {
            Some(ValueType::DateTime)
        } else {
            None
        }
    }

    /// The value type whose marker is `s`, read without regard to case.
    pub fn from_str(s: &str) -> (r: Result<ValueType, String>)
        ensures
            r matches Ok(v) ==> ValueType::from_code(s@) == Some(v),
            r is Err <==> ValueType::from_code(s@) is None,
            r matches Err(e) ==> e@ == "Invalid value type: "@ + s@,
    {
        let cs = chars_of(s);
        match ValueType::parse_chars(&cs) {
            Some(v) => Ok(v),
            None => Err(crate::text::message("Invalid value type: ", &cs)),
        }
    }

    /// The marker of the value type.
    pub fn to_string(&self) -> (r: String)
        ensures
            r@ == self.code(),
    {
        string_of(&self.code_chars())
    }
}

/// Every value reads back from its code.
pub proof fn lemma_value_type_code(v: ValueType)
    ensures
        ValueType::from_code(v.code()) == Some(v),
{
    assert(upper(v.code()) =~= v.code());
    assert(is_ascii_text(v.code()));
}

} // verus!
