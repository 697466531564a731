//! Broadcast times, read with `chrono`.

use vstd::prelude::*;
use chrono::Datelike;
use chrono::Timelike;

verus! {

/// A calendar date and a time of day, as `chrono::NaiveDateTime` holds them.
#[derive(PartialEq, Eq, Structural, Clone, Copy, Debug)]
pub struct DateTime {
    pub year: i32,
    pub month: u32,
    pub day: u32,
    pub hour: u32,
    pub minute: u32,
    pub second: u32,
}

/// What `chrono::NaiveDateTime::parse_from_str` reads from `text` with the
/// `strftime`-style `format`; `None` where it reports an error.
pub uninterp spec fn chrono_parse(text: Seq<char>, format: Seq<char>) -> Option<DateTime>;

/// Reads a date and time from `text` in `format`
/// (`chrono::NaiveDateTime::parse_from_str`).
#[verifier::external_body]
pub fn parse_date_time(text: &str, format: &str) -> (res: Option<DateTime>)
    ensures
        res == chrono_parse(text@, format@),
{
    let t = chrono::NaiveDateTime::parse_from_str(text, format).ok()?;
    Some(DateTime {
        year: t.year(),
        month: t.month(),
        day: t.day(),
        hour: t.hour(),
        minute: t.minute(),
        second: t.second(),
    })
}

} // verus!
