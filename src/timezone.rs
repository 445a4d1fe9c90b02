//! Time zone identifiers, checked against the time zone database.
use vstd::prelude::*;

verus! {

/// Whether `name` is a zone name of the time zone database.
pub uninterp spec fn is_zone_name(name: Seq<char>) -> bool;

/// Relies on `chrono_tz::Tz`'s `FromStr`: it accepts exactly the database's zone names.
#[verifier::external_body]
pub fn is_known_zone(name: &str) -> (r: bool)
    ensures
        r == is_zone_name(name@),
{
    name.parse::<chrono_tz::Tz>().is_ok()
}

} // verus!
