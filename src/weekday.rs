//! Days of the week and their two-letter codes.
use vstd::prelude::*;
use crate::text::{upper, upper_text, is_ascii_text, upper_chars, same_chars, chars_of, string_of};

verus! {

#[derive(PartialEq, Eq, Structural, Clone, Copy, Debug)]
pub enum Weekday {
    Monday,
    Tuesday,
    Wednesday,
    Thursday,
    Friday,
    Saturday,
    Sunday,
}

impl Weekday {
    /// The two-letter code of the day.
    pub open spec fn code(self) -> Seq<char> {
        match self {
            Weekday::Monday => seq!['M', 'O'],
            Weekday::Tuesday => seq!['T', 'U'],
            Weekday::Wednesday => seq!['W', 'E'],
            Weekday::Thursday => seq!['T', 'H'],
            Weekday::Friday => seq!['F', 'R'],
            Weekday::Saturday => seq!['S', 'A'],
            Weekday::Sunday => seq!['S', 'U'],
        }
    }

    /// The day whose code is `s`, read without regard to case.
    pub open spec fn from_code(s: Seq<char>) -> Option<Weekday> {
        let u = upper_text(s);
        if u == Weekday::Monday.code() {
            Some(Weekday::Monday)
        } else if u == Weekday::Tuesday.code() {
            Some(Weekday::Tuesday)
        } else if u == Weekday::Wednesday.code() {
            Some(Weekday::Wednesday)
        } else if u == Weekday::Thursday.code() {
            Some(Weekday::Thursday)
        } else if u == Weekday::Friday.code() {
            Some(Weekday::Friday)
        } else if u == Weekday::Saturday.code() {
            Some(Weekday::Saturday)
        } else if u == Weekday::Sunday.code() {
            Some(Weekday::Sunday)
        } else {
            None
        }
    }

    pub fn code_chars(&self) -> (r: Vec<char>)
        ensures
            r@ == self.code(),
    {
        match self {
            Weekday::Monday => vec!['M', 'O'],
            Weekday::Tuesday => vec!['T', 'U'],
            Weekday::Wednesday => vec!['W', 'E'],
            Weekday::Thursday => vec!['T', 'H'],
            Weekday::Friday => vec!['F', 'R'],
            Weekday::Saturday => vec!['S', 'A'],
            Weekday::Sunday => vec!['S', 'U'],
        }
    }

    pub fn parse_chars(s: &Vec<char>) -> (r: Option<Weekday>)
        ensures
            r == Weekday::from_code(s@),
    {
        let u = upper_chars(s);
        if same_chars(&u, &Weekday::Monday.code_chars()) {
            Some(Weekday::Monday)
        } else if same_chars(&u, &Weekday::Tuesday.code_chars()) {
            Some(Weekday::Tuesday)
        } else if same_chars(&u, &Weekday::Wednesday.code_chars()) {
            Some(Weekday::Wednesday)
        } else if same_chars(&u, &Weekday::Thursday.code_chars()) {
            Some(Weekday::Thursday)
        } else if same_chars(&u, &Weekday::Friday.code_chars()) {
            Some(Weekday::Friday)
        } else if same_chars(&u, &Weekday::Saturday.code_chars()) {
            Some(Weekday::Saturday)
        } else if same_chars(&u, &Weekday::Sunday.code_chars()) {
            Some(Weekday::Sunday)
        } else {
            None
        }
    }

    /// Reads a two-letter day code, in any case.
    pub fn from_str(s: &str) -> (r: Result<Weekday, String>)
        ensures
            r matches Ok(d) ==> Weekday::from_code(s@) == Some(d),
            r is Err <==> Weekday::from_code(s@) is None,
            r matches Err(e) ==> e@ == "Invalid weekday: "@ + s@,
    {
        let cs = chars_of(s);
        match Weekday::parse_chars(&cs) {
            Some(d) => Ok(d),
            None => Err(crate::text::message("Invalid weekday: ", &cs)),
        }
    }

    /// The two-letter code of the day.
    pub fn to_string(&self) -> (r: String)
        ensures
            r@ == self.code(),
    {
        string_of(&self.code_chars())
    }
}

/// Every day reads back from its code.
pub proof fn lemma_weekday_code(d: Weekday)
    ensures
        Weekday::from_code(d.code()) == Some(d),
{
    assert(upper(d.code()) =~= d.code());
    assert(is_ascii_text(d.code()));
}

} // verus!
