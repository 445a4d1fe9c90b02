//! Text model for calendar recurrence definitions: a property-line grammar,
//! value codecs, the start / pattern / date-list components and the rule set
//! that binds them together.
pub mod number;
pub mod text;
pub mod weekday;
pub mod frequency;
pub mod value_type;
pub mod month;
pub mod n_weekday;
pub mod datetime;
pub mod parameters;
pub mod property;
pub mod properties;
pub mod keys;
pub mod timezone;
pub mod dtstart;
pub mod date_list;
pub mod rrule;
pub mod rule_set;
pub mod laws;
pub mod window;
