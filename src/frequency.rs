//! Recurrence frequencies and their keywords.
use vstd::prelude::*;
use crate::text::{upper, upper_text, is_ascii_text, upper_chars, same_chars, chars_of, string_of};

verus! {
#[derive(PartialEq, Eq, Structural, Clone, Copy, Debug)]
pub enum Frequency {
    Yearly,
    Monthly,
    Weekly,
    Daily,
    Hourly,
    Minutely,
    Secondly,
}

impl Frequency {
    /// The keyword of the frequency.
    pub open spec fn code(self) -> Seq<char> {
        match self {
            Frequency::Yearly => seq!['Y', 'E', 'A', 'R', 'L', 'Y'],
            Frequency::Monthly => seq!['M', 'O', 'N', 'T', 'H', 'L', 'Y'],
            Frequency::Weekly => seq!['W', 'E', 'E', 'K', 'L', 'Y'],
            Frequency::Daily => seq!['D', 'A', 'I', 'L', 'Y'],
            Frequency::Hourly => seq!['H', 'O', 'U', 'R', 'L', 'Y'],
            Frequency::Minutely => seq!['M', 'I', 'N', 'U', 'T', 'E', 'L', 'Y'],
            Frequency::Secondly => seq!['S', 'E', 'C', 'O', 'N', 'D', 'L', 'Y'],
        }
    }

    /// The frequency whose keyword is `s`, read without regard to case.
    pub open spec fn from_code(s: Seq<char>) -> Option<Frequency> {
        let u = upper_text(s);
        if u == Frequency::Yearly.code() {
            Some(Frequency::Yearly)
        } else         if u == Frequency::Monthly.code() {
            Some(Frequency::Monthly)
        } else         if u == Frequency::Weekly.code() {
            Some(Frequency::Weekly)
        } else         if u == Frequency::Daily.code() {
            Some(Frequency::Daily)
        } else         if u == Frequency::Hourly.code() {
            Some(Frequency::Hourly)
        } else         if u == Frequency::Minutely.code() {
            Some(Frequency::Minutely)
        } else         if u == Frequency::Secondly.code() {
            Some(Frequency::Secondly)
        } else {
            None
        }
    }

    pub fn code_chars(&self) -> (r: Vec<char>)
        ensures
            r@ == self.code(),
    {
        match self {
            Frequency::Yearly => vec!['Y', 'E', 'A', 'R', 'L', 'Y'],
            Frequency::Monthly => vec!['M', 'O', 'N', 'T', 'H', 'L', 'Y'],
            Frequency::Weekly => vec!['W', 'E', 'E', 'K', 'L', 'Y'],
            Frequency::Daily => vec!['D', 'A', 'I', 'L', 'Y'],
            Frequency::Hourly => vec!['H', 'O', 'U', 'R', 'L', 'Y'],
            Frequency::Minutely => vec!['M', 'I', 'N', 'U', 'T', 'E', 'L', 'Y'],
            Frequency::Secondly => vec!['S', 'E', 'C', 'O', 'N', 'D', 'L', 'Y'],
        }
    }

    pub fn parse_chars(s: &Vec<char>) -> (r: Option<Frequency>)
        ensures
            r == Frequency::from_code(s@),
    {
        let u = upper_chars(s);
        if same_chars(&u, &Frequency::Yearly.code_chars()) {
            Some(Frequency::Yearly)
        } else         if same_chars(&u, &Frequency::Monthly.code_chars()) {
            Some(Frequency::Monthly)
        } else         if same_chars(&u, &Frequency::Weekly.code_chars()) {
            Some(Frequency::Weekly)
        } else         if same_chars(&u, &Frequency::Daily.code_chars()) {
            Some(Frequency::Daily)
        } else         if same_chars(&u, &Frequency::Hourly.code_chars()) {
            Some(Frequency::Hourly)
        } else         if same_chars(&u, &Frequency::Minutely.code_chars()) {
            Some(Frequency::Minutely)
        } else         if same_chars(&u, &Frequency::Secondly.code_chars()) {
            Some(Frequency::Secondly)
        } else {
            None
        }
    }

    /// The frequency whose keyword is `s`, read without regard to case.
    pub fn from_str(s: &str) -> (r: Result<Frequency, String>)
        ensures
            r matches Ok(v) ==> Frequency::from_code(s@) == Some(v),
            r is Err <==> Frequency::from_code(s@) is None,
            r matches Err(e) ==> e@ == "Invalid frequency: "@ + s@,
    {
        let cs = chars_of(s);
        match Frequency::parse_chars(&cs) {
            Some(v) => Ok(v),
            None => Err(crate::text::message("Invalid frequency: ", &cs)),
        }
    }

    /// The keyword of the frequency.
    pub fn to_string(&self) -> (r: String)
        ensures
            r@ == self.code(),
    {
        string_of(&self.code_chars())
    }
}

/// Every value reads back from its code.
pub proof fn lemma_frequency_code(v: Frequency)
    ensures
        Frequency::from_code(v.code()) == Some(v),
{
    assert(upper(v.code()) =~= v.code());
    assert(is_ascii_text(v.code()));
}

} // verus!
