//! Points in time as written in recurrence text: `YYYYMMDD` for a whole day,
//! `YYYYMMDDTHHMMSS` for a time of day, with a trailing `Z` for UTC.
use vstd::prelude::*;
use crate::number::{int_value, nat_text, digits_value, all_digits, format_nat, parse_int, lemma_nat_text};
use crate::text::{chars_of, string_of, slice, append_chars};
use crate::value_type::ValueType;

verus! {

/// A time of day; `offset` is the distance from UTC in seconds, where known.
#[derive(PartialEq, Eq, Structural, Clone, Copy, Debug)]
pub struct Time {
    pub hour: u32,
    pub minute: u32,
    pub second: u32,
    pub offset: Option<i32>,
}

impl Time {
    pub fn hour(&self) -> (r: u32)
        ensures
            r == self.hour,
    {
        self.hour
    }

    pub fn minute(&self) -> (r: u32)
        ensures
            r == self.minute,
    {
        self.minute
    }

    pub fn second(&self) -> (r: u32)
        ensures
            r == self.second,
    {
        self.second
    }

    pub fn offset(&self) -> (r: Option<i32>)
        ensures
            r == self.offset,
    {
        self.offset
    }

    /// A time is UTC when its offset is known to be zero.
    pub open spec fn utc(self) -> bool {
        self.offset == Some(0i32)
    }

    pub fn is_utc(&self) -> (r: bool)
        ensures
            r == self.utc(),
    {
        match self.offset {
            Some(k) => k == 0,
            None => false,
        }
    }
}

/// A day, with a time of day where `time` is present.
#[derive(PartialEq, Eq, Structural, Clone, Copy, Debug)]
pub struct DateTime {
    pub year: u32,
    pub month: u32,
    pub day: u32,
    pub time: Option<Time>,
}

/// `w` zeros.
pub open spec fn zeros(w: nat) -> Seq<char> {
    Seq::new(w, |i: int| '0')
}

/// The decimal text of `n`, padded with zeros in front to at least `w` characters.
pub open spec fn padded(n: nat, w: nat) -> Seq<char> {
    if nat_text(n).len() < w {
        zeros((w - nat_text(n).len()) as nat) + nat_text(n)
    } else {
        nat_text(n)
    }
}

/// The unsigned number spelled by `s[a..b]`, as a `u32` is read.
pub open spec fn field(s: Seq<char>, a: int, b: int) -> Option<int> {
    int_value(s.subrange(a, b), 0, 0xffff_ffff)
}

impl DateTime {
    pub open spec fn value_type(self) -> ValueType {
        match self.time {
            Some(_) => ValueType::DateTime,
            None => ValueType::Date,
        }
    }

    /// The fields fit the widths of the text form, and a time's offset is
    /// either unknown or zero (the text has no room for another offset).
    pub open spec fn writable(self) -> bool {
        &&& self.year <= 9999
        &&& self.month <= 99
        &&& self.day <= 99
        &&& match self.time {
            Some(t) => t.hour <= 99 && t.minute <= 99 && t.second <= 99 && (t.offset is None
                || t.offset == Some(0i32)),
            None => true,
        }
    }

    /// The text form: zero-padded fields, `T` before the time, `Z` after a UTC time.
    pub open spec fn text(self) -> Seq<char> {
        let date = padded(self.year as nat, 4) + padded(self.month as nat, 2) + padded(
            self.day as nat,
            2,
        );
        match self.time {
            None => date,
            Some(t) => date + seq!['T'] + padded(t.hour as nat, 2) + padded(t.minute as nat, 2)
                + padded(t.second as nat, 2) + if t.utc() {
                seq!['Z']
            } else {
                Seq::<char>::empty()
            },
        }
    }

    /// The text has one of the shapes `YYYYMMDD`, `YYYYMMDDTHHMMSS` or
    /// `YYYYMMDDTHHMMSSZ` (the `T` and `Z` in either case of `Z`).
    pub open spec fn well_shaped(s: Seq<char>) -> bool {
        &&& (s.len() == 8 || s.len() == 15 || s.len() == 16)
        &&& (s.len() > 8 ==> s[8] == 'T')
        &&& (s.len() == 16 ==> (s[15] == 'Z' || s[15] == 'z'))
    }

    /// The message for a text that does not decode: it names the first part
    /// that could not be read and the raw text of that part.
    pub open spec fn text_error(s: Seq<char>) -> Seq<char> {
        if !DateTime::well_shaped(s) {
            "Invalid datetime string: "@ + s
        } else if field(s, 0, 4) is None {
            "Invalid year: "@ + s.subrange(0, 4)
        } else if field(s, 4, 6) is None {
            "Invalid month: "@ + s.subrange(4, 6)
        } else if field(s, 6, 8) is None {
            "Invalid day: "@ + s.subrange(6, 8)
        } else if field(s, 9, 11) is None {
            "Invalid hour: "@ + s.subrange(9, 11)
        } else if field(s, 11, 13) is None {
            "Invalid minute: "@ + s.subrange(11, 13)
        } else {
            "Invalid second: "@ + s.subrange(13, 15)
        }
    }

    /// What the text `s` decodes to: 8 characters for a day; 15 for a time
    /// of day, with `T` before the time; 16 for a UTC time, ending in `Z` or `z`.
    pub open spec fn from_text(s: Seq<char>) -> Option<DateTime> {
        if !DateTime::well_shaped(s) {
            None
        } else if field(s, 0, 4) is None || field(s, 4, 6) is None || field(s, 6, 8) is None {
            None
        } else if s.len() == 8 {
            Some(
                DateTime {
                    year: field(s, 0, 4)->0 as u32,
                    month: field(s, 4, 6)->0 as u32,
                    day: field(s, 6, 8)->0 as u32,
                    time: None,
                },
            )
        } else if field(s, 9, 11) is None || field(s, 11, 13) is None || field(s, 13, 15) is None {
            None
        } else {
            Some(
                DateTime {
                    year: field(s, 0, 4)->0 as u32,
                    month: field(s, 4, 6)->0 as u32,
                    day: field(s, 6, 8)->0 as u32,
                    time: Some(
                        Time {
                            hour: field(s, 9, 11)->0 as u32,
                            minute: field(s, 11, 13)->0 as u32,
                            second: field(s, 13, 15)->0 as u32,
                            offset: if s.len() == 16 {
                                Some(0i32)
                            } else {
                                None
                            },
                        },
                    ),
                },
            )
        }
    }

    pub fn day(&self) -> (r: u32)
        ensures
            r == self.day,
    {
        self.day
    }

    pub fn month(&self) -> (r: u32)
        ensures
            r == self.month,
    {
        self.month
    }

    pub fn year(&self) -> (r: u32)
        ensures
            r == self.year,
    {
        self.year
    }

    pub fn time(&self) -> (r: &Option<Time>)
        ensures
            *r == self.time,
    {
        &self.time
    }

    /// `Date` for a whole day, `DateTime` for a time of day.
    pub fn derive_value_type(&self) -> (r: ValueType)
        ensures
            r == self.value_type(),
    {
        match &self.time {
            Some(_) => ValueType::DateTime,
            None => ValueType::Date,
        }
    }

    pub fn text_chars(&self) -> (r: Vec<char>)
        ensures
            r@ == self.text(),
    {
        let mut r = format_padded(self.year, 4);
        append_chars(&mut r, &format_padded(self.month, 2));
        append_chars(&mut r, &format_padded(self.day, 2));
        match &self.time {
            None => {},
            Some(t) => {
                r.push('T');
                append_chars(&mut r, &format_padded(t.hour, 2));
                append_chars(&mut r, &format_padded(t.minute, 2));
                append_chars(&mut r, &format_padded(t.second, 2));
                if t.is_utc() {
                    r.push('Z');
                }
            },
        }
        r
    }

    pub fn parse_chars(s: &Vec<char>) -> (r: Result<DateTime, String>)
        ensures
            r matches Ok(d) ==> DateTime::from_text(s@) == Some(d),
            r is Err <==> DateTime::from_text(s@) is None,
            r matches Err(e) ==> e@ == DateTime::text_error(s@),
    {
        let n = s.len();
        if !(n == 8 || n == 15 || n == 16) || (n > 8 && s[8] != 'T') || (n == 16 && !(s[15] == 'Z'
            || s[15] == 'z')) {
            return Err(crate::text::message("Invalid datetime string: ", s));
        }
        let year = match read_field(s, 0, 4) {
            Some(v) => v,
            None => return Err(crate::text::message("Invalid year: ", &slice(s, 0, 4))),
        };
        let month = match read_field(s, 4, 6) {
            Some(v) => v,
            None => return Err(crate::text::message("Invalid month: ", &slice(s, 4, 6))),
        };
        let day = match read_field(s, 6, 8) {
            Some(v) => v,
            None => return Err(crate::text::message("Invalid day: ", &slice(s, 6, 8))),
        };
        if n == 8 {
            return Ok(DateTime { year, month, day, time: None });
        }
        let hour = match read_field(s, 9, 11) {
            Some(v) => v,
            None => return Err(crate::text::message("Invalid hour: ", &slice(s, 9, 11))),
        };
        let minute = match read_field(s, 11, 13) {
            Some(v) => v,
            None => return Err(crate::text::message("Invalid minute: ", &slice(s, 11, 13))),
        };
        let second = match read_field(s, 13, 15) {
            Some(v) => v,
            None => return Err(crate::text::message("Invalid second: ", &slice(s, 13, 15))),
        };
        let offset = if n == 16 {
            Some(0i32)
        } else {
            None
        };
        Ok(DateTime { year, month, day, time: Some(Time { hour, minute, second, offset }) })
    }

    /// Decodes `YYYYMMDD` or `YYYYMMDDTHHMMSS[Z]`.
    pub fn from_str(s: &str) -> (r: Result<DateTime, String>)
        ensures
            r matches Ok(d) ==> DateTime::from_text(s@) == Some(d),
            r is Err <==> DateTime::from_text(s@) is None,
            r matches Err(e) ==> e@ == DateTime::text_error(s@),
    {
        let cs = chars_of(s);
        DateTime::parse_chars(&cs)
    }

    /// Encodes the value with zero-padded fields.
    pub fn to_string(&self) -> (r: String)
        ensures
            r@ == self.text(),
    {
        string_of(&self.text_chars())
    }
}

/// Reads the unsigned field `s[a..b]`.
fn read_field(s: &Vec<char>, a: usize, b: usize) -> (r: Option<u32>)
    requires
        a <= b <= s@.len(),
    ensures
        r matches Some(v) ==> field(s@, a as int, b as int) == Some(v as int),
        r is None ==> field(s@, a as int, b as int) is None,
{
    match parse_int(&slice(s, a, b), 0, 0xffff_ffff) {
        Some(v) => Some(v as u32),
        None => None,
    }
}

/// The decimal text of `n`, padded with zeros in front to at least `w` characters.
pub fn format_padded(n: u32, w: usize) -> (r: Vec<char>)
    ensures
        r@ == padded(n as nat, w as nat),
{
    let t = format_nat(n as u64);
    if t.len() < w {
        let mut r: Vec<char> = Vec::new();
        let k = w - t.len();
        let mut i: usize = 0;
        while i < k
            invariant
                i <= k,
                r@ == zeros(i as nat),
            decreases k - i,
        {
            r.push('0');
            i = i + 1;
            assert(r@ =~= zeros(i as nat));
        }
        append_chars(&mut r, &t);
        r
    } else {
        t
    }
}

proof fn lemma_leading_zero(t: Seq<char>)
    ensures
        digits_value(seq!['0'] + t) == digits_value(t),
        all_digits(t) ==> all_digits(seq!['0'] + t),
    decreases t.len(),
{
    if t.len() == 0 {
        assert((seq!['0'] + t).drop_last() =~= Seq::<char>::empty());
        assert(digits_value(Seq::<char>::empty()) == 0);
    } else {
        lemma_leading_zero(t.drop_last());
        assert((seq!['0'] + t).drop_last() =~= seq!['0'] + t.drop_last());
    }
}

/// A padded number is a run of digits.
pub proof fn lemma_padded_digits(n: nat, w: nat)
    ensures
        all_digits(padded(n, w)),
        padded(n, w).len() >= 1,
{
    lemma_padded(n, w);
}

proof fn lemma_padded(n: nat, w: nat)
    ensures
        padded(n, w).len() == if nat_text(n).len() < w {
            w
        } else {
            nat_text(n).len()
        },
        all_digits(padded(n, w)),
        padded(n, w).len() >= 1,
        digits_value(padded(n, w)) == n,
    decreases w,
{
    lemma_nat_text(n);
    if nat_text(n).len() < w {
        let k = (w - nat_text(n).len()) as nat;
        if k == 1 {
            assert(zeros(1) =~= seq!['0']);
            lemma_leading_zero(nat_text(n));
        } else {
            lemma_padded(n, (w - 1) as nat);
            assert(padded(n, w) =~= seq!['0'] + padded(n, (w - 1) as nat));
            lemma_leading_zero(padded(n, (w - 1) as nat));
        }
    }
}

proof fn lemma_field_padded(pre: Seq<char>, n: nat, w: nat, post: Seq<char>)
    requires
        n <= 0xffff_ffff,
        nat_text(n).len() <= w,
    ensures
        field(pre + padded(n, w) + post, pre.len() as int, (pre.len() + w) as int) == Some(n as int),
{
    lemma_padded(n, w);
    let s = pre + padded(n, w) + post;
    assert(s.subrange(pre.len() as int, (pre.len() + w) as int) =~= padded(n, w));
}

proof fn lemma_nat_text_short(n: nat, w: nat)
    requires
        w >= 1,
        n < pow10(w),
    ensures
        nat_text(n).len() <= w,
    decreases w,
{
    if n >= 10 {
        assert(pow10(0) == 1);
        let p = pow10((w - 1) as nat);
        assert(n < 10 * p);
        assert(w > 1);
        assert(n / 10 < p) by (nonlinear_arith)
            requires
                n < 10 * p,
        ;
        lemma_nat_text_short(n / 10, (w - 1) as nat);
    }
}

pub open spec fn pow10(w: nat) -> nat
    decreases w,
{
    if w == 0 {
        1
    } else {
        10 * pow10((w - 1) as nat)
    }
}

/// Decoding the text of a writable value gives it back.
pub proof fn lemma_datetime_text(d: DateTime)
    requires
        d.writable(),
    ensures
        DateTime::from_text(d.text()) == Some(d),
{
    assert(pow10(4) == 10000) by {
        reveal_with_fuel(pow10, 5);
    }
    assert(pow10(2) == 100) by {
        reveal_with_fuel(pow10, 3);
    }
    lemma_nat_text_short(d.year as nat, 4);
    lemma_nat_text_short(d.month as nat, 2);
    lemma_nat_text_short(d.day as nat, 2);
    lemma_padded(d.year as nat, 4);
    lemma_padded(d.month as nat, 2);
    lemma_padded(d.day as nat, 2);
    let y = padded(d.year as nat, 4);
    let m = padded(d.month as nat, 2);
    let dd = padded(d.day as nat, 2);
    let date = y + m + dd;
    let s = d.text();
    match d.time {
        None => {
            lemma_field_padded(Seq::<char>::empty(), d.year as nat, 4, m + dd);
            lemma_field_padded(y, d.month as nat, 2, dd);
            lemma_field_padded(y + m, d.day as nat, 2, Seq::<char>::empty());
            assert(Seq::<char>::empty() + y + (m + dd) =~= s);
            assert(y + m + dd + Seq::<char>::empty() =~= s);
        },
        Some(t) => {
            lemma_nat_text_short(t.hour as nat, 2);
            lemma_nat_text_short(t.minute as nat, 2);
            lemma_nat_text_short(t.second as nat, 2);
            lemma_padded(t.hour as nat, 2);
            lemma_padded(t.minute as nat, 2);
            lemma_padded(t.second as nat, 2);
            let h = padded(t.hour as nat, 2);
            let mi = padded(t.minute as nat, 2);
            let se = padded(t.second as nat, 2);
            let z = if t.utc() {
                seq!['Z']
            } else {
                Seq::<char>::empty()
            };
            let rest = seq!['T'] + h + mi + se + z;
            assert(s =~= y + m + dd + rest);
            lemma_field_padded(Seq::<char>::empty(), d.year as nat, 4, m + dd + rest);
            assert(Seq::<char>::empty() + y + (m + dd + rest) =~= s);
            lemma_field_padded(y, d.month as nat, 2, dd + rest);
            assert(y + m + (dd + rest) =~= s);
            lemma_field_padded(y + m, d.day as nat, 2, rest);
            assert(y + m + dd + rest =~= s);
            let pre_h = y + m + dd + seq!['T'];
            lemma_field_padded(pre_h, t.hour as nat, 2, mi + se + z);
            assert(pre_h + h + (mi + se + z) =~= s);
            lemma_field_padded(pre_h + h, t.minute as nat, 2, se + z);
            assert(pre_h + h + mi + (se + z) =~= s);
            lemma_field_padded(pre_h + h + mi, t.second as nat, 2, z);
            assert(pre_h + h + mi + se + z =~= s);
            if t.utc() {
                assert(s[15] == 'Z');
            }
        },
    }
}

} // verus!
