//! The property names and parameter keys of the grammar.
use vstd::prelude::*;

verus! {

pub open spec fn key_tzid() -> Seq<char> {
    seq!['T', 'Z', 'I', 'D']
}

pub open spec fn key_value() -> Seq<char> {
    seq!['V', 'A', 'L', 'U', 'E']
}

pub open spec fn name_dtstart() -> Seq<char> {
    seq!['D', 'T', 'S', 'T', 'A', 'R', 'T']
}

pub open spec fn name_rrule() -> Seq<char> {
    seq!['R', 'R', 'U', 'L', 'E']
}

pub open spec fn name_exrule() -> Seq<char> {
    seq!['E', 'X', 'R', 'U', 'L', 'E']
}

pub open spec fn name_exdate() -> Seq<char> {
    seq!['E', 'X', 'D', 'A', 'T', 'E']
}

pub open spec fn name_rdate() -> Seq<char> {
    seq!['R', 'D', 'A', 'T', 'E']
}

pub fn tzid() -> (r: Vec<char>)
    ensures
        r@ == key_tzid(),
{
    vec!['T', 'Z', 'I', 'D']
}

pub fn value() -> (r: Vec<char>)
    ensures
        r@ == key_value(),
{
    vec!['V', 'A', 'L', 'U', 'E']
}

pub fn dtstart() -> (r: Vec<char>)
    ensures
        r@ == name_dtstart(),
{
    vec!['D', 'T', 'S', 'T', 'A', 'R', 'T']
}

pub fn rrule() -> (r: Vec<char>)
    ensures
        r@ == name_rrule(),
{
    vec!['R', 'R', 'U', 'L', 'E']
}

pub fn exrule() -> (r: Vec<char>)
    ensures
        r@ == name_exrule(),
{
    vec!['E', 'X', 'R', 'U', 'L', 'E']
}

pub fn exdate() -> (r: Vec<char>)
    ensures
        r@ == name_exdate(),
{
    vec!['E', 'X', 'D', 'A', 'T', 'E']
}

pub fn rdate() -> (r: Vec<char>)
    ensures
        r@ == name_rdate(),
{
    vec!['R', 'D', 'A', 'T', 'E']
}

} // verus!
