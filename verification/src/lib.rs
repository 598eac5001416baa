//! A UTC calendar date-time library.
//!
//! A [`UtcDatetime`] is a validated civil date-time (year at least 1970,
//! month, day, hour, minute, second). The library validates the six fields,
//! converts a date-time to a Unix-epoch second count, derives the day of the
//! week, parses loosely formatted date-time strings, and renders the
//! `YYYY-MM-DD HH:MM:SS` display form. Every operation carries a contract
//! stated over the mathematical model [`DateTimeView`].

mod calendar;
mod datetime;
mod display;
mod laws;
mod parse;

pub use calendar::days_of_the_month;
pub use calendar::days_of_the_year;
pub use calendar::leap_year;
pub use calendar::spec_days_before_month;
pub use calendar::spec_days_before_year;
pub use calendar::spec_days_in_month;
pub use calendar::spec_days_in_year;
pub use calendar::spec_leap_year;
pub use datetime::DateTimeView;
pub use datetime::IllegalTimeError;
pub use datetime::UtcDatetime;
pub use datetime::ord_of;
pub use datetime::spec_cmp;
pub use datetime::spec_create;
pub use datetime::spec_timestamp;
pub use datetime::spec_total_seconds;
pub use datetime::spec_weekday;
pub use datetime::view_result;
pub use datetime::wf_view;
pub use display::spec_display;
pub use laws::lemma_display_round_trip;
pub use laws::lemma_ordering_is_chronological;
pub use parse::spec_from_string;
pub use parse::spec_tokens;
pub use parse::token_value;
