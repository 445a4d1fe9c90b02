//! Recurrence patterns (`RRULE` / `EXRULE`): which occurrences a rule set
//! includes or excludes.
use vstd::prelude::*;
use crate::datetime::DateTime;
use crate::frequency::Frequency;
use crate::month::Month;
use crate::n_weekday::NWeekday;
use crate::number::{int_value, int_text, parse_int, format_int};
use crate::parameters::{Parameters, Entries, lookup, insert_entry};
use crate::property::{Property, Value, Parsed, parse_line};
use crate::properties::LineModel;
use crate::text::{split, join, upper, upper_text, is_ascii_text, split_chars, join_chars, chars_of, string_of, append_chars};
use crate::weekday::Weekday;

verus! {

pub open spec fn key_freq() -> Seq<char> {
    seq!['F', 'R', 'E', 'Q']
}

fn freq_key() -> (r: Vec<char>)
    ensures
        r@ == key_freq(),
{
    vec!['F', 'R', 'E', 'Q']
}

pub open spec fn key_interval() -> Seq<char> {
    seq!['I', 'N', 'T', 'E', 'R', 'V', 'A', 'L']
}

fn interval_key() -> (r: Vec<char>)
    ensures
        r@ == key_interval(),
{
    vec!['I', 'N', 'T', 'E', 'R', 'V', 'A', 'L']
}

pub open spec fn key_count() -> Seq<char> {
    seq!['C', 'O', 'U', 'N', 'T']
}

fn count_key() -> (r: Vec<char>)
    ensures
        r@ == key_count(),
{
    vec!['C', 'O', 'U', 'N', 'T']
}

pub open spec fn key_until() -> Seq<char> {
    seq!['U', 'N', 'T', 'I', 'L']
}

fn until_key() -> (r: Vec<char>)
    ensures
        r@ == key_until(),
{
    vec!['U', 'N', 'T', 'I', 'L']
}

pub open spec fn key_byhour() -> Seq<char> {
    seq!['B', 'Y', 'H', 'O', 'U', 'R']
}

fn byhour_key() -> (r: Vec<char>)
    ensures
        r@ == key_byhour(),
{
    vec!['B', 'Y', 'H', 'O', 'U', 'R']
}

pub open spec fn key_byminute() -> Seq<char> {
    seq!['B', 'Y', 'M', 'I', 'N', 'U', 'T', 'E']
}

fn byminute_key() -> (r: Vec<char>)
    ensures
        r@ == key_byminute(),
{
    vec!['B', 'Y', 'M', 'I', 'N', 'U', 'T', 'E']
}

pub open spec fn key_bysecond() -> Seq<char> {
    seq!['B', 'Y', 'S', 'E', 'C', 'O', 'N', 'D']
}

fn bysecond_key() -> (r: Vec<char>)
    ensures
        r@ == key_bysecond(),
{
    vec!['B', 'Y', 'S', 'E', 'C', 'O', 'N', 'D']
}

pub open spec fn key_bymonthday() -> Seq<char> {
    seq!['B', 'Y', 'M', 'O', 'N', 'T', 'H', 'D', 'A', 'Y']
}

fn bymonthday_key() -> (r: Vec<char>)
    ensures
        r@ == key_bymonthday(),
{
    vec!['B', 'Y', 'M', 'O', 'N', 'T', 'H', 'D', 'A', 'Y']
}

pub open spec fn key_byyearday() -> Seq<char> {
    seq!['B', 'Y', 'Y', 'E', 'A', 'R', 'D', 'A', 'Y']
}

fn byyearday_key() -> (r: Vec<char>)
    ensures
        r@ == key_byyearday(),
{
    vec!['B', 'Y', 'Y', 'E', 'A', 'R', 'D', 'A', 'Y']
}

pub open spec fn key_bysetpos() -> Seq<char> {
    seq!['B', 'Y', 'S', 'E', 'T', 'P', 'O', 'S']
}

fn bysetpos_key() -> (r: Vec<char>)
    ensures
        r@ == key_bysetpos(),
{
    vec!['B', 'Y', 'S', 'E', 'T', 'P', 'O', 'S']
}

pub open spec fn key_bymonth() -> Seq<char> {
    seq!['B', 'Y', 'M', 'O', 'N', 'T', 'H']
}

fn bymonth_key() -> (r: Vec<char>)
    ensures
        r@ == key_bymonth(),
{
    vec!['B', 'Y', 'M', 'O', 'N', 'T', 'H']
}

pub open spec fn key_byweekno() -> Seq<char> {
    seq!['B', 'Y', 'W', 'E', 'E', 'K', 'N', 'O']
}

fn byweekno_key() -> (r: Vec<char>)
    ensures
        r@ == key_byweekno(),
{
    vec!['B', 'Y', 'W', 'E', 'E', 'K', 'N', 'O']
}

pub open spec fn key_byday() -> Seq<char> {
    seq!['B', 'Y', 'D', 'A', 'Y']
}

fn byday_key() -> (r: Vec<char>)
    ensures
        r@ == key_byday(),
{
    vec!['B', 'Y', 'D', 'A', 'Y']
}

pub open spec fn key_wkst() -> Seq<char> {
    seq!['W', 'K', 'S', 'T']
}

fn wkst_key() -> (r: Vec<char>)
    ensures
        r@ == key_wkst(),
{
    vec!['W', 'K', 'S', 'T']
}

/// The upper-cased keys stay as they are.
proof fn lemma_keys_upper()
    ensures
        upper_text(key_freq()) == key_freq(),
        upper_text(key_interval()) == key_interval(),
        upper_text(key_count()) == key_count(),
        upper_text(key_until()) == key_until(),
        upper_text(key_byhour()) == key_byhour(),
        upper_text(key_byminute()) == key_byminute(),
        upper_text(key_bysecond()) == key_bysecond(),
        upper_text(key_bymonthday()) == key_bymonthday(),
        upper_text(key_byyearday()) == key_byyearday(),
        upper_text(key_bysetpos()) == key_bysetpos(),
        upper_text(key_bymonth()) == key_bymonth(),
        upper_text(key_byweekno()) == key_byweekno(),
        upper_text(key_byday()) == key_byday(),
        upper_text(key_wkst()) == key_wkst(),
{
    assert(upper(key_freq()) =~= key_freq());
    assert(is_ascii_text(key_freq()));
    assert(upper(key_interval()) =~= key_interval());
    assert(is_ascii_text(key_interval()));
    assert(upper(key_count()) =~= key_count());
    assert(is_ascii_text(key_count()));
    assert(upper(key_until()) =~= key_until());
    assert(is_ascii_text(key_until()));
    assert(upper(key_byhour()) =~= key_byhour());
    assert(is_ascii_text(key_byhour()));
    assert(upper(key_byminute()) =~= key_byminute());
    assert(is_ascii_text(key_byminute()));
    assert(upper(key_bysecond()) =~= key_bysecond());
    assert(is_ascii_text(key_bysecond()));
    assert(upper(key_bymonthday()) =~= key_bymonthday());
    assert(is_ascii_text(key_bymonthday()));
    assert(upper(key_byyearday()) =~= key_byyearday());
    assert(is_ascii_text(key_byyearday()));
    assert(upper(key_bysetpos()) =~= key_bysetpos());
    assert(is_ascii_text(key_bysetpos()));
    assert(upper(key_bymonth()) =~= key_bymonth());
    assert(is_ascii_text(key_bymonth()));
    assert(upper(key_byweekno()) =~= key_byweekno());
    assert(is_ascii_text(key_byweekno()));
    assert(upper(key_byday()) =~= key_byday());
    assert(is_ascii_text(key_byday()));
    assert(upper(key_wkst()) =~= key_wkst());
    assert(is_ascii_text(key_wkst()));
}

/// A `u8` written in decimal.
pub open spec fn u8_of(s: Seq<char>) -> Option<u8> {
    match int_value(s, 0, 255) {
        Some(k) => Some(k as u8),
        None => None,
    }
}

fn parse_u8(s: &Vec<char>) -> (r: Option<u8>)
    ensures
        r == u8_of(s@),
{
    match parse_int(s, 0, 255) {
        Some(k) => Some(k as u8),
        None => None,
    }
}

/// A `i8` written in decimal.
pub open spec fn i8_of(s: Seq<char>) -> Option<i8> {
    match int_value(s, -128, 127) {
        Some(k) => Some(k as i8),
        None => None,
    }
}

fn parse_i8(s: &Vec<char>) -> (r: Option<i8>)
    ensures
        r == i8_of(s@),
{
    match parse_int(s, -128, 127) {
        Some(k) => Some(k as i8),
        None => None,
    }
}

/// A `i16` written in decimal.
pub open spec fn i16_of(s: Seq<char>) -> Option<i16> {
    match int_value(s, -32768, 32767) {
        Some(k) => Some(k as i16),
        None => None,
    }
}

fn parse_i16(s: &Vec<char>) -> (r: Option<i16>)
    ensures
        r == i16_of(s@),
{
    match parse_int(s, -32768, 32767) {
        Some(k) => Some(k as i16),
        None => None,
    }
}

/// A `i32` written in decimal.
pub open spec fn i32_of(s: Seq<char>) -> Option<i32> {
    match int_value(s, -2147483648, 2147483647) {
        Some(k) => Some(k as i32),
        None => None,
    }
}

fn parse_i32(s: &Vec<char>) -> (r: Option<i32>)
    ensures
        r == i32_of(s@),
{
    match parse_int(s, -2147483648, 2147483647) {
        Some(k) => Some(k as i32),
        None => None,
    }
}

/// A `u16` written in decimal.
pub open spec fn u16_of(s: Seq<char>) -> Option<u16> {
    match int_value(s, 0, 65535) {
        Some(k) => Some(k as u16),
        None => None,
    }
}

fn parse_u16(s: &Vec<char>) -> (r: Option<u16>)
    ensures
        r == u16_of(s@),
{
    match parse_int(s, 0, 65535) {
        Some(k) => Some(k as u16),
        None => None,
    }
}

/// A `u32` written in decimal.
pub open spec fn u32_of(s: Seq<char>) -> Option<u32> {
    match int_value(s, 0, 4294967295) {
        Some(k) => Some(k as u32),
        None => None,
    }
}

fn parse_u32(s: &Vec<char>) -> (r: Option<u32>)
    ensures
        r == u32_of(s@),
{
    match parse_int(s, 0, 4294967295) {
        Some(k) => Some(k as u32),
        None => None,
    }
}

/// Reads a `,`-separated list of `u8` values.
fn parse_u8_list(t: &String) -> (r: Option<Vec<u8>>)
    ensures
        r matches Some(v) ==> items_of(split(t@, ','), |s: Seq<char>| u8_of(s)) == Some(v@),
        r is None ==> items_of(split(t@, ','), |s: Seq<char>| u8_of(s)) is None,
{
    let parts = split_chars(&chars_of(t.as_str()), ',');
    let ghost views = parts@.map_values(|p: Vec<char>| p@);
    let mut v: Vec<u8> = Vec::new();
    let mut i: usize = 0;
    assert(views.subrange(0, 0) =~= Seq::<Seq<char>>::empty());
    while i < parts.len()
        invariant
            i <= parts@.len(),
            views == parts@.map_values(|p: Vec<char>| p@),
            views == split(t@, ','),
            items_of(views.subrange(0, i as int), |s: Seq<char>| u8_of(s)) == Some(v@),
        decreases parts@.len() - i,
    {
        assert(views.subrange(0, i + 1).drop_last() =~= views.subrange(0, i as int));
        match parse_u8(&parts[i]) {
            Some(x) => v.push(x),
            None => {
                proof {
                    lemma_items_fail(views, i + 1, |s: Seq<char>| u8_of(s));
                }
                return None;
            },
        }
        i = i + 1;
    }
    assert(views.subrange(0, parts@.len() as int) =~= views);
    Some(v)
}

/// The `u8` values as text, joined with `,`.
fn u8_list_chars(v: &Vec<u8>) -> (r: Vec<char>)
    ensures
        r@ == join(v@.map_values(|x: u8| int_text(x as int)), ','),
{
    let mut parts: Vec<Vec<char>> = Vec::new();
    let mut i: usize = 0;
    let ghost texts = v@.map_values(|x: u8| int_text(x as int));
    while i < v.len()
        invariant
            i <= v@.len(),
            texts == v@.map_values(|x: u8| int_text(x as int)),
            parts@.len() == i,
            forall|j: int| 0 <= j < i ==> #[trigger] parts@[j]@ == texts[j],
        decreases v@.len() - i,
    {
        parts.push(format_int(v[i] as i64));
        i = i + 1;
    }
    assert(parts@.map_values(|t: Vec<char>| t@) =~= texts);
    join_chars(&parts, ',')
}

/// Reads a `,`-separated list of `i8` values.
fn parse_i8_list(t: &String) -> (r: Option<Vec<i8>>)
    ensures
        r matches Some(v) ==> items_of(split(t@, ','), |s: Seq<char>| i8_of(s)) == Some(v@),
        r is None ==> items_of(split(t@, ','), |s: Seq<char>| i8_of(s)) is None,
{
    let parts = split_chars(&chars_of(t.as_str()), ',');
    let ghost views = parts@.map_values(|p: Vec<char>| p@);
    let mut v: Vec<i8> = Vec::new();
    let mut i: usize = 0;
    assert(views.subrange(0, 0) =~= Seq::<Seq<char>>::empty());
    while i < parts.len()
        invariant
            i <= parts@.len(),
            views == parts@.map_values(|p: Vec<char>| p@),
            views == split(t@, ','),
            items_of(views.subrange(0, i as int), |s: Seq<char>| i8_of(s)) == Some(v@),
        decreases parts@.len() - i,
    {
        assert(views.subrange(0, i + 1).drop_last() =~= views.subrange(0, i as int));
        match parse_i8(&parts[i]) {
            Some(x) => v.push(x),
            None => {
                proof {
                    lemma_items_fail(views, i + 1, |s: Seq<char>| i8_of(s));
                }
                return None;
            },
        }
        i = i + 1;
    }
    assert(views.subrange(0, parts@.len() as int) =~= views);
    Some(v)
}

/// The `i8` values as text, joined with `,`.
fn i8_list_chars(v: &Vec<i8>) -> (r: Vec<char>)
    ensures
        r@ == join(v@.map_values(|x: i8| int_text(x as int)), ','),
{
    let mut parts: Vec<Vec<char>> = Vec::new();
    let mut i: usize = 0;
    let ghost texts = v@.map_values(|x: i8| int_text(x as int));
    while i < v.len()
        invariant
            i <= v@.len(),
            texts == v@.map_values(|x: i8| int_text(x as int)),
            parts@.len() == i,
            forall|j: int| 0 <= j < i ==> #[trigger] parts@[j]@ == texts[j],
        decreases v@.len() - i,
    {
        parts.push(format_int(v[i] as i64));
        i = i + 1;
    }
    assert(parts@.map_values(|t: Vec<char>| t@) =~= texts);
    join_chars(&parts, ',')
}

/// Reads a `,`-separated list of `i16` values.
fn parse_i16_list(t: &String) -> (r: Option<Vec<i16>>)
    ensures
        r matches Some(v) ==> items_of(split(t@, ','), |s: Seq<char>| i16_of(s)) == Some(v@),
        r is None ==> items_of(split(t@, ','), |s: Seq<char>| i16_of(s)) is None,
{
    let parts = split_chars(&chars_of(t.as_str()), ',');
    let ghost views = parts@.map_values(|p: Vec<char>| p@);
    let mut v: Vec<i16> = Vec::new();
    let mut i: usize = 0;
    assert(views.subrange(0, 0) =~= Seq::<Seq<char>>::empty());
    while i < parts.len()
        invariant
            i <= parts@.len(),
            views == parts@.map_values(|p: Vec<char>| p@),
            views == split(t@, ','),
            items_of(views.subrange(0, i as int), |s: Seq<char>| i16_of(s)) == Some(v@),
        decreases parts@.len() - i,
    {
        assert(views.subrange(0, i + 1).drop_last() =~= views.subrange(0, i as int));
        match parse_i16(&parts[i]) {
            Some(x) => v.push(x),
            None => {
                proof {
                    lemma_items_fail(views, i + 1, |s: Seq<char>| i16_of(s));
                }
                return None;
            },
        }
        i = i + 1;
    }
    assert(views.subrange(0, parts@.len() as int) =~= views);
    Some(v)
}

/// The `i16` values as text, joined with `,`.
fn i16_list_chars(v: &Vec<i16>) -> (r: Vec<char>)
    ensures
        r@ == join(v@.map_values(|x: i16| int_text(x as int)), ','),
{
    let mut parts: Vec<Vec<char>> = Vec::new();
    let mut i: usize = 0;
    let ghost texts = v@.map_values(|x: i16| int_text(x as int));
    while i < v.len()
        invariant
            i <= v@.len(),
            texts == v@.map_values(|x: i16| int_text(x as int)),
            parts@.len() == i,
            forall|j: int| 0 <= j < i ==> #[trigger] parts@[j]@ == texts[j],
        decreases v@.len() - i,
    {
        parts.push(format_int(v[i] as i64));
        i = i + 1;
    }
    assert(parts@.map_values(|t: Vec<char>| t@) =~= texts);
    join_chars(&parts, ',')
}

/// Reads a `,`-separated list of `i32` values.
fn parse_i32_list(t: &String) -> (r: Option<Vec<i32>>)
    ensures
        r matches Some(v) ==> items_of(split(t@, ','), |s: Seq<char>| i32_of(s)) == Some(v@),
        r is None ==> items_of(split(t@, ','), |s: Seq<char>| i32_of(s)) is None,
{
    let parts = split_chars(&chars_of(t.as_str()), ',');
    let ghost views = parts@.map_values(|p: Vec<char>| p@);
    let mut v: Vec<i32> = Vec::new();
    let mut i: usize = 0;
    assert(views.subrange(0, 0) =~= Seq::<Seq<char>>::empty());
    while i < parts.len()
        invariant
            i <= parts@.len(),
            views == parts@.map_values(|p: Vec<char>| p@),
            views == split(t@, ','),
            items_of(views.subrange(0, i as int), |s: Seq<char>| i32_of(s)) == Some(v@),
        decreases parts@.len() - i,
    {
        assert(views.subrange(0, i + 1).drop_last() =~= views.subrange(0, i as int));
        match parse_i32(&parts[i]) {
            Some(x) => v.push(x),
            None => {
                proof {
                    lemma_items_fail(views, i + 1, |s: Seq<char>| i32_of(s));
                }
                return None;
            },
        }
        i = i + 1;
    }
    assert(views.subrange(0, parts@.len() as int) =~= views);
    Some(v)
}

/// The `i32` values as text, joined with `,`.
fn i32_list_chars(v: &Vec<i32>) -> (r: Vec<char>)
    ensures
        r@ == join(v@.map_values(|x: i32| int_text(x as int)), ','),
{
    let mut parts: Vec<Vec<char>> = Vec::new();
    let mut i: usize = 0;
    let ghost texts = v@.map_values(|x: i32| int_text(x as int));
    while i < v.len()
        invariant
            i <= v@.len(),
            texts == v@.map_values(|x: i32| int_text(x as int)),
            parts@.len() == i,
            forall|j: int| 0 <= j < i ==> #[trigger] parts@[j]@ == texts[j],
        decreases v@.len() - i,
    {
        parts.push(format_int(v[i] as i64));
        i = i + 1;
    }
    assert(parts@.map_values(|t: Vec<char>| t@) =~= texts);
    join_chars(&parts, ',')
}

/// Reads a `,`-separated list of `Month` values.
fn parse_month_list(t: &String) -> (r: Option<Vec<Month>>)
    ensures
        r matches Some(v) ==> items_of(split(t@, ','), |s: Seq<char>| Month::from_code(s)) == Some(v@),
        r is None ==> items_of(split(t@, ','), |s: Seq<char>| Month::from_code(s)) is None,
{
    let parts = split_chars(&chars_of(t.as_str()), ',');
    let ghost views = parts@.map_values(|p: Vec<char>| p@);
    let mut v: Vec<Month> = Vec::new();
    let mut i: usize = 0;
    assert(views.subrange(0, 0) =~= Seq::<Seq<char>>::empty());
    while i < parts.len()
        invariant
            i <= parts@.len(),
            views == parts@.map_values(|p: Vec<char>| p@),
            views == split(t@, ','),
            items_of(views.subrange(0, i as int), |s: Seq<char>| Month::from_code(s)) == Some(v@),
        decreases parts@.len() - i,
    {
        assert(views.subrange(0, i + 1).drop_last() =~= views.subrange(0, i as int));
        match Month::parse_chars(&parts[i]) {
            Some(x) => v.push(x),
            None => {
                proof {
                    lemma_items_fail(views, i + 1, |s: Seq<char>| Month::from_code(s));
                }
                return None;
            },
        }
        i = i + 1;
    }
    assert(views.subrange(0, parts@.len() as int) =~= views);
    Some(v)
}

/// The `Month` values as text, joined with `,`.
fn month_list_chars(v: &Vec<Month>) -> (r: Vec<char>)
    ensures
        r@ == join(v@.map_values(|x: Month| x.code()), ','),
{
    let mut parts: Vec<Vec<char>> = Vec::new();
    let mut i: usize = 0;
    let ghost texts = v@.map_values(|x: Month| x.code());
    while i < v.len()
        invariant
            i <= v@.len(),
            texts == v@.map_values(|x: Month| x.code()),
            parts@.len() == i,
            forall|j: int| 0 <= j < i ==> #[trigger] parts@[j]@ == texts[j],
        decreases v@.len() - i,
    {
        parts.push(v[i].code_chars());
        i = i + 1;
    }
    assert(parts@.map_values(|t: Vec<char>| t@) =~= texts);
    join_chars(&parts, ',')
}

/// Reads a `,`-separated list of `NWeekday` values.
fn parse_nweekday_list(t: &String) -> (r: Option<Vec<NWeekday>>)
    ensures
        r matches Some(v) ==> items_of(split(t@, ','), |s: Seq<char>| NWeekday::from_code(s)) == Some(v@),
        r is None ==> items_of(split(t@, ','), |s: Seq<char>| NWeekday::from_code(s)) is None,
{
    let parts = split_chars(&chars_of(t.as_str()), ',');
    let ghost views = parts@.map_values(|p: Vec<char>| p@);
    let mut v: Vec<NWeekday> = Vec::new();
    let mut i: usize = 0;
    assert(views.subrange(0, 0) =~= Seq::<Seq<char>>::empty());
    while i < parts.len()
        invariant
            i <= parts@.len(),
            views == parts@.map_values(|p: Vec<char>| p@),
            views == split(t@, ','),
            items_of(views.subrange(0, i as int), |s: Seq<char>| NWeekday::from_code(s)) == Some(v@),
        decreases parts@.len() - i,
    {
        assert(views.subrange(0, i + 1).drop_last() =~= views.subrange(0, i as int));
        match match NWeekday::parse_chars(&parts[i]) { Ok(d) => Some(d), Err(_) => None } {
            Some(x) => v.push(x),
            None => {
                proof {
                    lemma_items_fail(views, i + 1, |s: Seq<char>| NWeekday::from_code(s));
                }
                return None;
            },
        }
        i = i + 1;
    }
    assert(views.subrange(0, parts@.len() as int) =~= views);
    Some(v)
}

/// The `NWeekday` values as text, joined with `,`.
fn nweekday_list_chars(v: &Vec<NWeekday>) -> (r: Vec<char>)
    ensures
        r@ == join(v@.map_values(|x: NWeekday| x.code()), ','),
{
    let mut parts: Vec<Vec<char>> = Vec::new();
    let mut i: usize = 0;
    let ghost texts = v@.map_values(|x: NWeekday| x.code());
    while i < v.len()
        invariant
            i <= v@.len(),
            texts == v@.map_values(|x: NWeekday| x.code()),
            parts@.len() == i,
            forall|j: int| 0 <= j < i ==> #[trigger] parts@[j]@ == texts[j],
        decreases v@.len() - i,
    {
        parts.push(v[i].code_chars());
        i = i + 1;
    }
    assert(parts@.map_values(|t: Vec<char>| t@) =~= texts);
    join_chars(&parts, ',')
}

/// The elements written in `parts`, one each, if all of them read.
pub open spec fn items_of<X>(parts: Seq<Seq<char>>, f: spec_fn(Seq<char>) -> Option<X>) -> Option<Seq<X>>
    decreases parts.len(),
{
    if parts.len() == 0 {
        Some(Seq::empty())
    } else {
        match items_of(parts.drop_last(), f) {
            None => None,
            Some(xs) => match f(parts.last()) {
                None => None,
                Some(x) => Some(xs.push(x)),
            },
        }
    }
}

/// An element that does not read in a prefix makes the whole list unreadable.
proof fn lemma_items_fail<X>(s: Seq<Seq<char>>, j: int, f: spec_fn(Seq<char>) -> Option<X>)
    requires
        0 <= j <= s.len(),
        items_of(s.subrange(0, j), f) is None,
    ensures
        items_of(s, f) is None,
    decreases s.len() - j,
{
    if j < s.len() {
        assert(s.drop_last().subrange(0, j) =~= s.subrange(0, j));
        lemma_items_fail(s.drop_last(), j, f);
    } else {
        assert(s.subrange(0, j) =~= s);
    }
}

/// An optional field: absent reads as `None`, present must read.
pub open spec fn opt_field<X>(o: Option<Seq<char>>, f: spec_fn(Seq<char>) -> Option<X>) -> Option<Option<X>> {
    match o {
        None => Some(None),
        Some(t) => match f(t) {
            Some(x) => Some(Some(x)),
            None => None,
        },
    }
}

/// A list field: absent reads as empty, present must read element by element.
pub open spec fn list_field<X>(o: Option<Seq<char>>, f: spec_fn(Seq<char>) -> Option<X>) -> Option<Seq<X>> {
    match o {
        None => Some(Seq::empty()),
        Some(t) => items_of(split(t, ','), f),
    }
}

/// The contents of a recurrence pattern.
pub struct RecurModel {
    pub frequency: Frequency,
    pub interval: Option<u16>,
    pub count: Option<u32>,
    pub until: Option<DateTime>,
    pub weekstart: Option<Weekday>,
    pub by_day: Seq<NWeekday>,
    pub by_hour: Seq<u8>,
    pub by_minute: Seq<u8>,
    pub by_second: Seq<u8>,
    pub by_monthday: Seq<i8>,
    pub by_yearday: Seq<i16>,
    pub by_setpos: Seq<i32>,
    pub by_month: Seq<Month>,
    pub by_weekno: Seq<i8>,
}

/// The pattern that the pairs `e` describe, if every field reads: `FREQ` is
/// required, the others are optional.
#[verifier::opaque]
pub open spec fn rule_of_entries(e: Entries) -> Option<RecurModel> {
    let frequency = match lookup(e, key_freq()) {
        None => None,
        Some(t) => Frequency::from_code(t),
    };
    let interval = opt_field(lookup(e, key_interval()), |s: Seq<char>| u16_of(s));
    let until = opt_field(lookup(e, key_until()), |s: Seq<char>| DateTime::from_text(s));
    let count = opt_field(lookup(e, key_count()), |s: Seq<char>| u32_of(s));
    let by_hour = list_field(lookup(e, key_byhour()), |s: Seq<char>| u8_of(s));
    let by_minute = list_field(lookup(e, key_byminute()), |s: Seq<char>| u8_of(s));
    let by_second = list_field(lookup(e, key_bysecond()), |s: Seq<char>| u8_of(s));
    let by_month = list_field(lookup(e, key_bymonth()), |s: Seq<char>| Month::from_code(s));
    let weekstart = opt_field(lookup(e, key_wkst()), |s: Seq<char>| Weekday::from_code(s));
    let by_day = list_field(lookup(e, key_byday()), |s: Seq<char>| NWeekday::from_code(s));
    let by_setpos = list_field(lookup(e, key_bysetpos()), |s: Seq<char>| i32_of(s));
    let by_monthday = list_field(lookup(e, key_bymonthday()), |s: Seq<char>| i8_of(s));
    let by_yearday = list_field(lookup(e, key_byyearday()), |s: Seq<char>| i16_of(s));
    let by_weekno = list_field(lookup(e, key_byweekno()), |s: Seq<char>| i8_of(s));
    if frequency is None || interval is None || until is None || count is None || by_hour is None
        || by_minute is None || by_second is None || by_month is None || weekstart is None
        || by_day is None || by_setpos is None || by_monthday is None || by_yearday is None
        || by_weekno is None {
        None
    } else {
        Some(
            RecurModel {
                frequency: frequency->0,
                interval: interval->0,
                count: count->0,
                until: until->0,
                weekstart: weekstart->0,
                by_day: by_day->0,
                by_hour: by_hour->0,
                by_minute: by_minute->0,
                by_second: by_second->0,
                by_monthday: by_monthday->0,
                by_yearday: by_yearday->0,
                by_setpos: by_setpos->0,
                by_month: by_month->0,
                by_weekno: by_weekno->0,
            },
        )
    }
}

/// A field that is present and does not read.
pub open spec fn bad_field<X>(o: Option<Seq<char>>, f: spec_fn(Seq<char>) -> Option<X>) -> bool {
    o is Some && f(o->0) is None
}

/// A list field that is present and does not read.
pub open spec fn bad_list<X>(o: Option<Seq<char>>, f: spec_fn(Seq<char>) -> Option<X>) -> bool {
    o is Some && items_of(split(o->0, ','), f) is None
}

/// The message for pairs that do not describe a pattern: it names the first
/// field, in the order `FREQ`, `INTERVAL`, `UNTIL`, `COUNT`, `BYHOUR`,
/// `BYMINUTE`, `BYSECOND`, `BYMONTH`, `WKST`, `BYDAY`, `BYSETPOS`,
/// `BYMONTHDAY`, `BYYEARDAY`, `BYWEEKNO`, that is missing or does not read,
/// and its raw text.
pub open spec fn rule_error(e: Entries) -> Seq<char> {
    let freq = lookup(e, key_freq());
    if freq is None {
        "FREQ is required"@
    } else if Frequency::from_code(freq->0) is None {
        "Invalid frequency: "@ + freq->0
    } else if bad_field(lookup(e, key_interval()), |s: Seq<char>| u16_of(s)) {
        "Invalid INTERVAL value: "@ + lookup(e, key_interval())->0
    } else if bad_field(lookup(e, key_until()), |s: Seq<char>| DateTime::from_text(s)) {
        DateTime::text_error(lookup(e, key_until())->0)
    } else if bad_field(lookup(e, key_count()), |s: Seq<char>| u32_of(s)) {
        "Invalid COUNT value: "@ + lookup(e, key_count())->0
    } else if bad_list(lookup(e, key_byhour()), |s: Seq<char>| u8_of(s)) {
        "Invalid BYHOUR value: "@ + lookup(e, key_byhour())->0
    } else if bad_list(lookup(e, key_byminute()), |s: Seq<char>| u8_of(s)) {
        "Invalid BYMINUTE value: "@ + lookup(e, key_byminute())->0
    } else if bad_list(lookup(e, key_bysecond()), |s: Seq<char>| u8_of(s)) {
        "Invalid BYSECOND value: "@ + lookup(e, key_bysecond())->0
    } else if bad_list(lookup(e, key_bymonth()), |s: Seq<char>| Month::from_code(s)) {
        "Invalid BYMONTH value: "@ + lookup(e, key_bymonth())->0
    } else if bad_field(lookup(e, key_wkst()), |s: Seq<char>| Weekday::from_code(s)) {
        "Invalid weekday: "@ + lookup(e, key_wkst())->0
    } else if bad_list(lookup(e, key_byday()), |s: Seq<char>| NWeekday::from_code(s)) {
        "Invalid BYDAY value: "@ + lookup(e, key_byday())->0
    } else if bad_list(lookup(e, key_bysetpos()), |s: Seq<char>| i32_of(s)) {
        "Invalid BYSETPOS value: "@ + lookup(e, key_bysetpos())->0
    } else if bad_list(lookup(e, key_bymonthday()), |s: Seq<char>| i8_of(s)) {
        "Invalid BYMONTHDAY value: "@ + lookup(e, key_bymonthday())->0
    } else if bad_list(lookup(e, key_byyearday()), |s: Seq<char>| i16_of(s)) {
        "Invalid BYYEARDAY value: "@ + lookup(e, key_byyearday())->0
    } else {
        "Invalid BYWEEKNO value: "@ + lookup(e, key_byweekno())->0
    }
}

/// The pattern that an `RRULE` or `EXRULE` property describes, if it is one.
pub open spec fn rule_of(m: LineModel) -> Option<RecurModel> {
    if m.0 != crate::keys::name_rrule() && m.0 != crate::keys::name_exrule() {
        None
    } else {
        match m.2 {
            Parsed::Bare(_) => None,
            Parsed::Pairs(e) => rule_of_entries(e),
        }
    }
}

/// `e` with `v` under `k` where there is a `v`.
pub open spec fn opt_insert(e: Entries, k: Seq<char>, v: Option<Seq<char>>) -> Entries {
    match v {
        Some(t) => insert_entry(e, k, t),
        None => e,
    }
}

/// `e` with the texts, joined with `,`, under `k` where there are any.
pub open spec fn list_insert(e: Entries, k: Seq<char>, texts: Seq<Seq<char>>) -> Entries {
    if texts.len() == 0 {
        e
    } else {
        insert_entry(e, k, join(texts, ','))
    }
}

/// The pairs that a pattern is written with, in this order: `FREQ`,
/// `INTERVAL`, `COUNT`, `UNTIL`, `BYHOUR`, `BYMINUTE`, `BYSECOND`,
/// `BYMONTHDAY`, `BYYEARDAY`, `BYSETPOS`, `BYMONTH`, `BYWEEKNO`, `BYDAY`,
/// `WKST`; absent and empty fields are left out.
pub open spec fn rule_entries(m: RecurModel) -> Entries {
    let e = insert_entry(Seq::empty(), key_freq(), m.frequency.code());
    let e = opt_insert(e, key_interval(), match m.interval {
        Some(k) => Some(int_text(k as int)),
        None => None,
    });
    let e = opt_insert(e, key_count(), match m.count {
        Some(k) => Some(int_text(k as int)),
        None => None,
    });
    let e = opt_insert(e, key_until(), match m.until {
        Some(d) => Some(d.text()),
        None => None,
    });
    let e = list_insert(e, key_byhour(), m.by_hour.map_values(|x: u8| int_text(x as int)));
    let e = list_insert(e, key_byminute(), m.by_minute.map_values(|x: u8| int_text(x as int)));
    let e = list_insert(e, key_bysecond(), m.by_second.map_values(|x: u8| int_text(x as int)));
    let e = list_insert(e, key_bymonthday(), m.by_monthday.map_values(|x: i8| int_text(x as int)));
    let e = list_insert(e, key_byyearday(), m.by_yearday.map_values(|x: i16| int_text(x as int)));
    let e = list_insert(e, key_bysetpos(), m.by_setpos.map_values(|x: i32| int_text(x as int)));
    let e = list_insert(e, key_bymonth(), m.by_month.map_values(|x: Month| x.code()));
    let e = list_insert(e, key_byweekno(), m.by_weekno.map_values(|x: i8| int_text(x as int)));
    let e = list_insert(e, key_byday(), m.by_day.map_values(|x: NWeekday| x.code()));
    opt_insert(e, key_wkst(), match m.weekstart {
        Some(d) => Some(d.code()),
        None => None,
    })
}

/// `RRULE` or `EXRULE`.
pub open spec fn rule_line_name(n: Seq<char>) -> bool {
    n == crate::keys::name_rrule() || n == crate::keys::name_exrule()
}

/// The message for a property that is no pattern: a name other than
/// `RRULE` or `EXRULE`, a bare value, or the first field that fails.
pub open spec fn rule_line_error(m: LineModel) -> Seq<char> {
    if !rule_line_name(m.0) {
        "Invalid property name: "@ + m.0
    } else {
        match m.2 {
            Parsed::Bare(t) => "Invalid RRULE value: "@ + t,
            Parsed::Pairs(e) => rule_error(e),
        }
    }
}

/// `s` with `RRULE:` in front, unless it already starts so (in any case).
pub open spec fn with_rule_prefix(s: Seq<char>) -> Seq<char> {
    let p = crate::keys::name_rrule().push(':');
    if s.len() >= 6 && upper_text(s.subrange(0, 6)) == p {
        s
    } else {
        p + s
    }
}

/// The pattern that `s` spells, with or without the `RRULE:` in front.
pub open spec fn rule_text_of(s: Seq<char>) -> Option<RecurModel> {
    match parse_line(with_rule_prefix(s)) {
        Ok(m) => rule_of(m),
        Err(_) => None,
    }
}

/// The line of a pattern under the property name `name`.
pub open spec fn rule_line(name: Seq<char>, m: RecurModel) -> LineModel {
    (name, Seq::empty(), Parsed::Pairs(rule_entries(m)))
}

#[derive(Clone)]
pub struct RRule {
    until: Option<DateTime>,
    frequency: Frequency,
    interval: Option<u16>,
    count: Option<u32>,
    weekstart: Option<Weekday>,
    by_day: Vec<NWeekday>,
    by_hour: Vec<u8>,
    by_minute: Vec<u8>,
    by_second: Vec<u8>,
    by_monthday: Vec<i8>,
    by_yearday: Vec<i16>,
    by_setpos: Vec<i32>,
    by_month: Vec<Month>,
    by_weekno: Vec<i8>,
}

impl RRule {
    pub closed spec fn model(&self) -> RecurModel {
        RecurModel {
            frequency: self.frequency,
            interval: self.interval,
            count: self.count,
            until: self.until,
            weekstart: self.weekstart,
            by_day: self.by_day@,
            by_hour: self.by_hour@,
            by_minute: self.by_minute@,
            by_second: self.by_second@,
            by_monthday: self.by_monthday@,
            by_yearday: self.by_yearday@,
            by_setpos: self.by_setpos@,
            by_month: self.by_month@,
            by_weekno: self.by_weekno@,
        }
    }

    /// The property line of the pattern under the name `name`.
    pub open spec fn line(&self, name: Seq<char>) -> LineModel {
        rule_line(name, self.model())
    }

    /// A pattern of the given frequency with every other field absent or empty.
    pub fn new(frequency: Frequency) -> (r: RRule)
        ensures
            r.model() == (RecurModel {
                frequency,
                interval: None,
                count: None,
                until: None,
                weekstart: None,
                by_day: Seq::empty(),
                by_hour: Seq::empty(),
                by_minute: Seq::empty(),
                by_second: Seq::empty(),
                by_monthday: Seq::empty(),
                by_yearday: Seq::empty(),
                by_setpos: Seq::empty(),
                by_month: Seq::empty(),
                by_weekno: Seq::empty(),
            }),
    {
        RRule {
            frequency,
            interval: None,
            count: None,
            until: None,
            weekstart: None,
            by_day: Vec::new(),
            by_hour: Vec::new(),
            by_minute: Vec::new(),
            by_second: Vec::new(),
            by_monthday: Vec::new(),
            by_yearday: Vec::new(),
            by_setpos: Vec::new(),
            by_month: Vec::new(),
            by_weekno: Vec::new(),
        }
    }

    pub fn set_interval(self, interval: Option<u16>) -> (r: RRule)
        ensures
            r.model() == (RecurModel { interval: interval, ..self.model() }),
    {
        RRule { interval, ..self }
    }

    pub fn set_count(self, count: Option<u32>) -> (r: RRule)
        ensures
            r.model() == (RecurModel { count: count, ..self.model() }),
    {
        RRule { count, ..self }
    }

    pub fn set_until(self, until: Option<DateTime>) -> (r: RRule)
        ensures
            r.model() == (RecurModel { until: until, ..self.model() }),
    {
        RRule { until, ..self }
    }

    pub fn set_by_hour(self, by_hour: Vec<u8>) -> (r: RRule)
        ensures
            r.model() == (RecurModel { by_hour: by_hour@, ..self.model() }),
    {
        RRule { by_hour, ..self }
    }

    pub fn set_by_minute(self, by_minute: Vec<u8>) -> (r: RRule)
        ensures
            r.model() == (RecurModel { by_minute: by_minute@, ..self.model() }),
    {
        RRule { by_minute, ..self }
    }

    pub fn set_by_second(self, by_second: Vec<u8>) -> (r: RRule)
        ensures
            r.model() == (RecurModel { by_second: by_second@, ..self.model() }),
    {
        RRule { by_second, ..self }
    }

    pub fn set_by_monthday(self, by_monthday: Vec<i8>) -> (r: RRule)
        ensures
            r.model() == (RecurModel { by_monthday: by_monthday@, ..self.model() }),
    {
        RRule { by_monthday, ..self }
    }

    pub fn set_by_yearday(self, by_yearday: Vec<i16>) -> (r: RRule)
        ensures
            r.model() == (RecurModel { by_yearday: by_yearday@, ..self.model() }),
    {
        RRule { by_yearday, ..self }
    }

    pub fn set_by_setpos(self, by_setpos: Vec<i32>) -> (r: RRule)
        ensures
            r.model() == (RecurModel { by_setpos: by_setpos@, ..self.model() }),
    {
        RRule { by_setpos, ..self }
    }

    pub fn set_by_month(self, by_month: Vec<Month>) -> (r: RRule)
        ensures
            r.model() == (RecurModel { by_month: by_month@, ..self.model() }),
    {
        RRule { by_month, ..self }
    }

    pub fn set_by_weekno(self, by_weekno: Vec<i8>) -> (r: RRule)
        ensures
            r.model() == (RecurModel { by_weekno: by_weekno@, ..self.model() }),
    {
        RRule { by_weekno, ..self }
    }

    pub fn set_by_day(self, by_day: Vec<NWeekday>) -> (r: RRule)
        ensures
            r.model() == (RecurModel { by_day: by_day@, ..self.model() }),
    {
        RRule { by_day, ..self }
    }

    pub fn set_weekstart(self, weekstart: Option<Weekday>) -> (r: RRule)
        ensures
            r.model() == (RecurModel { weekstart: weekstart, ..self.model() }),
    {
        RRule { weekstart, ..self }
    }

    pub fn frequency(&self) -> (r: &Frequency)
        ensures
            *r == self.model().frequency,
    {
        &self.frequency
    }

    pub fn interval(&self) -> (r: Option<u16>)
        ensures
            r == self.model().interval,
    {
        self.interval
    }

    pub fn count(&self) -> (r: Option<u32>)
        ensures
            r == self.model().count,
    {
        self.count
    }

    pub fn by_hour(&self) -> (r: &Vec<u8>)
        ensures
            r@ == self.model().by_hour,
    {
        &self.by_hour
    }

    pub fn by_minute(&self) -> (r: &Vec<u8>)
        ensures
            r@ == self.model().by_minute,
    {
        &self.by_minute
    }

    pub fn by_second(&self) -> (r: &Vec<u8>)
        ensures
            r@ == self.model().by_second,
    {
        &self.by_second
    }

    pub fn by_monthday(&self) -> (r: &Vec<i8>)
        ensures
            r@ == self.model().by_monthday,
    {
        &self.by_monthday
    }

    pub fn by_yearday(&self) -> (r: &Vec<i16>)
        ensures
            r@ == self.model().by_yearday,
    {
        &self.by_yearday
    }

    pub fn by_setpos(&self) -> (r: &Vec<i32>)
        ensures
            r@ == self.model().by_setpos,
    {
        &self.by_setpos
    }

    pub fn by_month(&self) -> (r: &Vec<Month>)
        ensures
            r@ == self.model().by_month,
    {
        &self.by_month
    }

    pub fn by_weekno(&self) -> (r: &Vec<i8>)
        ensures
            r@ == self.model().by_weekno,
    {
        &self.by_weekno
    }

    pub fn by_day(&self) -> (r: &Vec<NWeekday>)
        ensures
            r@ == self.model().by_day,
    {
        &self.by_day
    }

    pub fn weekstart(&self) -> (r: Option<Weekday>)
        ensures
            r == self.model().weekstart,
    {
        self.weekstart
    }

    pub fn until(&self) -> (r: Option<DateTime>)
        ensures
            r == self.model().until,
    {
        self.until
    }

    /// The pattern's pairs; see `rule_entries` for their order.
    pub fn to_parameters(&self) -> (r: Parameters)
        ensures
            r.entries() == rule_entries(self.model()),
    {
        proof {
            lemma_keys_upper();
        }
        let mut p = Parameters::new();
        p.insert(string_of(&freq_key()), self.frequency.to_string());
        match self.interval {
            Some(k) => p.insert(string_of(&interval_key()), string_of(&format_int(k as i64))),
            None => {},
        }
        match self.count {
            Some(k) => p.insert(string_of(&count_key()), string_of(&format_int(k as i64))),
            None => {},
        }
        match &self.until {
            Some(d) => p.insert(string_of(&until_key()), d.to_string()),
            None => {},
        }
        if self.by_hour.len() > 0 {
            p.insert(string_of(&byhour_key()), string_of(&u8_list_chars(&self.by_hour)));
        }
        if self.by_minute.len() > 0 {
            p.insert(string_of(&byminute_key()), string_of(&u8_list_chars(&self.by_minute)));
        }
        if self.by_second.len() > 0 {
            p.insert(string_of(&bysecond_key()), string_of(&u8_list_chars(&self.by_second)));
        }
        if self.by_monthday.len() > 0 {
            p.insert(string_of(&bymonthday_key()), string_of(&i8_list_chars(&self.by_monthday)));
        }
        if self.by_yearday.len() > 0 {
            p.insert(string_of(&byyearday_key()), string_of(&i16_list_chars(&self.by_yearday)));
        }
        if self.by_setpos.len() > 0 {
            p.insert(string_of(&bysetpos_key()), string_of(&i32_list_chars(&self.by_setpos)));
        }
        if self.by_month.len() > 0 {
            p.insert(string_of(&bymonth_key()), string_of(&month_list_chars(&self.by_month)));
        }
        if self.by_weekno.len() > 0 {
            p.insert(string_of(&byweekno_key()), string_of(&i8_list_chars(&self.by_weekno)));
        }
        if self.by_day.len() > 0 {
            p.insert(string_of(&byday_key()), string_of(&nweekday_list_chars(&self.by_day)));
        }
        match &self.weekstart {
            Some(d) => p.insert(string_of(&wkst_key()), d.to_string()),
            None => {},
        }
        p
    }

    /// The pattern as a property named `name` (`RRULE` or `EXRULE`).
    pub fn to_property_named(&self, name: &Vec<char>) -> (r: Property)
        ensures
            (r.name_view(), r.entries(), r.value_view()) == self.line(name@),
    {
        Property::new(string_of(name), Parameters::new(), Value::Parameters(self.to_parameters()))
    }

    /// The pattern as an `RRULE` property.
    pub fn to_property(&self) -> (r: Property)
        ensures
            (r.name_view(), r.entries(), r.value_view()) == self.line(crate::keys::name_rrule()),
    {
        self.to_property_named(&crate::keys::rrule())
    }

    /// The pattern as an `RRULE:` line.
    pub fn to_string(&self) -> (r: String)
        ensures
            r@ == crate::property::line_text(
                crate::keys::name_rrule(),
                Seq::empty(),
                Parsed::Pairs(rule_entries(self.model())),
            ),
    {
        self.to_property().to_string()
    }

    /// Reads a pattern from pairs.
    #[verifier::rlimit(100)]
    pub fn from_parameters(value: &Parameters) -> (r: Result<RRule, String>)
        ensures
            r matches Ok(x) ==> rule_of_entries(value.entries()) == Some(x.model()),
            r is Err ==> rule_of_entries(value.entries()) is None,
            r matches Err(m) ==> m@ == rule_error(value.entries()),
    {
        reveal(rule_of_entries);
        let frequency = match value.get_exact(&freq_key()) {
            Some(t) => match Frequency::from_str(t.as_str()) {
                Ok(f) => f,
                Err(e) => return Err(e),
            },
            None => return Err(string_of(&chars_of("FREQ is required"))),
        };
        let interval = match value.get_exact(&interval_key()) {
            Some(t) => match parse_u16(&chars_of(t.as_str())) {
                Some(k) => Some(k),
                None => return Err(crate::text::message("Invalid INTERVAL value: ", &chars_of(t.as_str()))),
            },
            None => None,
        };
        let until = match value.get_exact(&until_key()) {
            Some(t) => match DateTime::from_str(t.as_str()) {
                Ok(d) => Some(d),
                Err(e) => return Err(e),
            },
            None => None,
        };
        let count = match value.get_exact(&count_key()) {
            Some(t) => match parse_u32(&chars_of(t.as_str())) {
                Some(k) => Some(k),
                None => return Err(crate::text::message("Invalid COUNT value: ", &chars_of(t.as_str()))),
            },
            None => None,
        };
        let by_hour = match value.get_exact(&byhour_key()) {
            Some(t) => match parse_u8_list(&t) {
                Some(v) => v,
                None => return Err(crate::text::message("Invalid BYHOUR value: ", &chars_of(t.as_str()))),
            },
            None => Vec::new(),
        };
        let by_minute = match value.get_exact(&byminute_key()) {
            Some(t) => match parse_u8_list(&t) {
                Some(v) => v,
                None => return Err(crate::text::message("Invalid BYMINUTE value: ", &chars_of(t.as_str()))),
            },
            None => Vec::new(),
        };
        let by_second = match value.get_exact(&bysecond_key()) {
            Some(t) => match parse_u8_list(&t) {
                Some(v) => v,
                None => return Err(crate::text::message("Invalid BYSECOND value: ", &chars_of(t.as_str()))),
            },
            None => Vec::new(),
        };
        let by_month = match value.get_exact(&bymonth_key()) {
            Some(t) => match parse_month_list(&t) {
                Some(v) => v,
                None => return Err(crate::text::message("Invalid BYMONTH value: ", &chars_of(t.as_str()))),
            },
            None => Vec::new(),
        };
        let weekstart = match value.get_exact(&wkst_key()) {
            Some(t) => match Weekday::from_str(t.as_str()) {
                Ok(d) => Some(d),
                Err(e) => return Err(e),
            },
            None => None,
        };
        let by_day = match value.get_exact(&byday_key()) {
            Some(t) => match parse_nweekday_list(&t) {
                Some(v) => v,
                None => return Err(crate::text::message("Invalid BYDAY value: ", &chars_of(t.as_str()))),
            },
            None => Vec::new(),
        };
        let by_setpos = match value.get_exact(&bysetpos_key()) {
            Some(t) => match parse_i32_list(&t) {
                Some(v) => v,
                None => return Err(crate::text::message("Invalid BYSETPOS value: ", &chars_of(t.as_str()))),
            },
            None => Vec::new(),
        };
        let by_monthday = match value.get_exact(&bymonthday_key()) {
            Some(t) => match parse_i8_list(&t) {
                Some(v) => v,
                None => return Err(crate::text::message("Invalid BYMONTHDAY value: ", &chars_of(t.as_str()))),
            },
            None => Vec::new(),
        };
        let by_yearday = match value.get_exact(&byyearday_key()) {
            Some(t) => match parse_i16_list(&t) {
                Some(v) => v,
                None => return Err(crate::text::message("Invalid BYYEARDAY value: ", &chars_of(t.as_str()))),
            },
            None => Vec::new(),
        };
        let by_weekno = match value.get_exact(&byweekno_key()) {
            Some(t) => match parse_i8_list(&t) {
                Some(v) => v,
                None => return Err(crate::text::message("Invalid BYWEEKNO value: ", &chars_of(t.as_str()))),
            },
            None => Vec::new(),
        };
        Ok(RRule {
            until,
            frequency,
            interval,
            count,
            weekstart,
            by_day,
            by_hour,
            by_minute,
            by_second,
            by_monthday,
            by_yearday,
            by_setpos,
            by_month,
            by_weekno,
        })
    }

    /// Reads a pattern from an `RRULE` or `EXRULE` property.
    pub fn from_property(property: &Property) -> (r: Result<RRule, String>)
        ensures
            r matches Ok(x) ==> rule_of(
                (property.name_view(), property.entries(), property.value_view()),
            ) == Some(x.model()),
            r is Err ==> rule_of(
                (property.name_view(), property.entries(), property.value_view()),
            ) is None,
            r matches Err(e) ==> e@ == rule_line_error(
                (property.name_view(), property.entries(), property.value_view()),
            ),
    {
        let name = chars_of(property.name().as_str());
        if !crate::text::same_chars(&name, &crate::keys::rrule()) && !crate::text::same_chars(
            &name,
            &crate::keys::exrule(),
        ) {
            return Err(crate::text::message("Invalid property name: ", &name));
        }
        match property.value() {
            Value::Parameters(value) => RRule::from_parameters(value),
            Value::Single(t) => Err(crate::text::message("Invalid RRULE value: ", &chars_of(t.as_str()))),
        }
    }

    /// Reads a pattern from `FREQ=...;...`, with or without `RRULE:` in front.
    pub fn from_str(s: &str) -> (r: Result<RRule, String>)
        ensures
            r matches Ok(x) ==> rule_text_of(s@) == Some(x.model()),
            r is Err ==> rule_text_of(s@) is None,
            r is Err && parse_line(with_rule_prefix(s@)) is Ok && rule_line_name(
                parse_line(with_rule_prefix(s@))->Ok_0.0,
            ) && parse_line(with_rule_prefix(s@))->Ok_0.2 is Pairs ==> r->Err_0@ == rule_error(
                parse_line(with_rule_prefix(s@))->Ok_0.2->Pairs_0,
            ),
    {
        let cs = chars_of(s);
        let mut p = crate::keys::rrule();
        p.push(':');
        let has_prefix = cs.len() >= 6 && crate::text::same_chars(
            &crate::text::upper_chars(&crate::text::slice(&cs, 0, 6)),
            &p,
        );
        let line = if has_prefix {
            cs
        } else {
            let mut l = p;
            append_chars(&mut l, &cs);
            l
        };
        match Property::parse_chars(&line) {
            Ok(property) => RRule::from_property(&property),
            Err(e) => Err(e.to_string()),
        }
    }
}

} // verus!
