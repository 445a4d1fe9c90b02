//! A weekday with an optional ordinal, as in `2MO` or `-1FR`.
use vstd::prelude::*;
use crate::number::{int_text, int_value, is_digit, parse_int, format_int, lemma_int_text_value, lemma_int_text_chars};
use crate::text::{chars_of, string_of, slice, append_chars, upper, is_ascii_text};
use crate::weekday::Weekday;

verus! {

#[derive(PartialEq, Eq, Structural, Clone, Copy, Debug)]
pub struct NWeekday {
    pub n: Option<i16>,
    pub weekday: Weekday,
}

/// The last two characters of `s`, or all of it when it is shorter.
pub open spec fn last_two(s: Seq<char>) -> Seq<char> {
    if s.len() >= 2 {
        s.subrange(s.len() - 2, s.len() as int)
    } else {
        s
    }
}

/// Length of the leading run of digits and `-` signs.
pub open spec fn number_run(s: Seq<char>) -> nat
    decreases s.len(),
{
    if s.len() > 0 && (is_digit(s[0]) || s[0] == '-') {
        1 + number_run(s.drop_first())
    } else {
        0
    }
}

impl NWeekday {
    /// The code: the ordinal, where there is one, then the day's two letters.
    pub open spec fn code(self) -> Seq<char> {
        match self.n {
            Some(k) => int_text(k as int) + self.weekday.code(),
            None => self.weekday.code(),
        }
    }

    /// What `s` decodes to: the day from its last two characters and, where `s`
    /// is longer than two, the ordinal from its leading run of digits and `-`.
    pub open spec fn from_code(s: Seq<char>) -> Option<NWeekday> {
        match Weekday::from_code(last_two(s)) {
            None => None,
            Some(d) => if s.len() > 2 {
                match int_value(s.subrange(0, number_run(s) as int), -32768, 32767) {
                    Some(k) => Some(NWeekday { n: Some(k as i16), weekday: d }),
                    None => None,
                }
            } else {
                Some(NWeekday { n: None, weekday: d })
            },
        }
    }

    pub fn code_chars(&self) -> (r: Vec<char>)
        ensures
            r@ == self.code(),
    {
        match self.n {
            Some(k) => {
                let mut r = format_int(k as i64);
                append_chars(&mut r, &self.weekday.code_chars());
                r
            },
            None => self.weekday.code_chars(),
        }
    }

    pub fn parse_chars(s: &Vec<char>) -> (r: Result<NWeekday, String>)
        ensures
            r matches Ok(v) ==> NWeekday::from_code(s@) == Some(v),
            r is Err <==> NWeekday::from_code(s@) is None,
    {
        let weekday = match extract_weekday(s) {
            Ok(d) => d,
            Err(e) => return Err(e),
        };
        let n = if s.len() > 2 {
            match extract_number(s) {
                Ok(k) => Some(k),
                Err(e) => return Err(e),
            }
        } else {
            None
        };
        Ok(NWeekday { n, weekday })
    }

    /// Decodes a token such as `2MO`, `-1FR` or `SU`.
    pub fn from_str(s: &str) -> (r: Result<NWeekday, String>)
        ensures
            r matches Ok(v) ==> NWeekday::from_code(s@) == Some(v),
            r is Err <==> NWeekday::from_code(s@) is None,
    {
        let cs = chars_of(s);
        NWeekday::parse_chars(&cs)
    }

    /// Encodes the ordinal, where there is one, followed by the day's code.
    pub fn to_string(&self) -> (r: String)
        ensures
            r@ == self.code(),
    {
        string_of(&self.code_chars())
    }
}

/// The day named by the last two characters of `s`.
pub fn extract_weekday(s: &Vec<char>) -> (r: Result<Weekday, String>)
    ensures
        r matches Ok(d) ==> Weekday::from_code(last_two(s@)) == Some(d),
        r is Err <==> Weekday::from_code(last_two(s@)) is None,
{
    let n = s.len();
    let tail = if n >= 2 {
        slice(s, n - 2, n)
    } else {
        s.clone()
    };
    match Weekday::parse_chars(&tail) {
        Some(d) => Ok(d),
        None => Err(crate::text::message("Invalid weekday: ", &tail)),
    }
}

/// The ordinal spelled by the leading run of digits and `-` signs of `s`.
pub fn extract_number(s: &Vec<char>) -> (r: Result<i16, String>)
    ensures
        r matches Ok(k) ==> int_value(s@.subrange(0, number_run(s@) as int), -32768, 32767) == Some(
            k as int,
        ),
        r is Err <==> int_value(s@.subrange(0, number_run(s@) as int), -32768, 32767) is None,
{
    let mut i: usize = 0;
    assert(s@.subrange(0, s@.len() as int) =~= s@);
    while i < s.len() && (('0' <= s[i] && s[i] <= '9') || s[i] == '-')
        invariant
            i <= s@.len(),
            number_run(s@) == i + number_run(s@.subrange(i as int, s@.len() as int)),
        decreases s@.len() - i,
    {
        assert(s@.subrange(i as int, s@.len() as int).drop_first() =~= s@.subrange(
            i + 1,
            s@.len() as int,
        ));
        i = i + 1;
    }
    assert(number_run(s@.subrange(i as int, s@.len() as int)) == 0);
    let run = slice(s, 0, i);
    match parse_int(&run, -32768, 32767) {
        Some(k) => Ok(k as i16),
        None => Err(crate::text::message("Invalid number: ", &run)),
    }
}

proof fn lemma_number_run(t: Seq<char>, w: Seq<char>)
    requires
        forall|i: int| 0 <= i < t.len() ==> is_digit(#[trigger] t[i]) || t[i] == '-',
        w.len() > 0,
        !is_digit(w[0]) && w[0] != '-',
    ensures
        number_run(t + w) == t.len(),
    decreases t.len(),
{
    if t.len() > 0 {
        assert((t + w).drop_first() =~= t.drop_first() + w);
        lemma_number_run(t.drop_first(), w);
    } else {
        assert(t + w =~= w);
    }
}

/// Decoding the code of an ordinal weekday gives it back.
pub proof fn lemma_n_weekday_code(v: NWeekday)
    ensures
        NWeekday::from_code(v.code()) == Some(v),
{
    let c = v.weekday.code();
    assert(upper(c) =~= c);
    assert(is_ascii_text(c));
    match v.n {
        Some(k) => {
            let t = int_text(k as int);
            lemma_int_text_chars(k as int);
            lemma_int_text_value(k as int, -32768, 32767);
            lemma_number_run(t, c);
            assert(last_two(t + c) =~= c);
            assert((t + c).subrange(0, t.len() as int) =~= t);
        },
        None => {
            assert(last_two(c) =~= c);
        },
    }
}

} // verus!
