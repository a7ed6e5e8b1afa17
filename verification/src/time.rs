//! The clock: the day of today, as the headers of the document write it, and
//! the time in nanoseconds.

use crate::error::{Errx, Kndx, Resultx};
use vstd::prelude::*;

verus! {

/// Whether `c` is a decimal digit.
pub open spec fn is_digit(c: char) -> bool {
    0x30 <= c as u32 <= 0x39
}

/// Whether `s` has the shape of a day as `year_month_day` writes it: the year, a
/// hyphen, two digits for the month, a hyphen, two digits for the day. The year
/// has four digits, or where it lies before the year 0 a hyphen and three or
/// four digits.
pub open spec fn is_day_text(s: Seq<char>) -> bool {
    let n = s.len() as int;
    &&& 10 <= n <= 11
    &&& is_digit(s[0]) || s[0] == '-'
    &&& n == 11 ==> s[0] == '-'
    &&& forall|i: int| 1 <= i < n - 6 ==> is_digit(#[trigger] s[i])
    &&& s[n - 6] == '-'
    &&& is_digit(s[n - 5])
    &&& is_digit(s[n - 4])
    &&& s[n - 3] == '-'
    &&& is_digit(s[n - 2])
    &&& is_digit(s[n - 1])
}

/// Today's date in the time zone of the machine, as year, month and day with
/// hyphens between them, or nothing where the clock is set to a time that has
/// no date.
///
/// This is `jiff::Zoned::try_from` of `std::time::SystemTime::now`, formatted by
/// `jiff::Zoned::strftime` with `%Y-%m-%d`. jiff refuses a time outside the
/// years -9999 to 9999, and that is where nothing comes back. Which day comes
/// out depends on the clock, so the contract claims only the shape. jiff pads
/// the year with zeros to four characters, of which a hyphen before a negative
/// year is one, and writes month and day with two digits each.
#[verifier::external_body]
pub fn year_month_day() -> (day: Option<String>)
    ensures
        day matches Some(text) ==> is_day_text(text@),
{
    match jiff::Zoned::try_from(std::time::SystemTime::now()) {
        Ok(now) => Some(now.strftime("%Y-%m-%d").to_string()),
        Err(_) => None,
    }
}

/// The message of the error for a clock that gives no date.
pub open spec fn no_date_text() -> Seq<char> {
    "the clock is set to a time that has no date"@
}

/// The day that the clock gave, or a general error where it gave none.
pub fn known_day(day: Option<String>) -> (r: Resultx<String>)
    ensures
        match day {
            Some(text) => r matches Ok(known) && known@ == text@,
            None => r matches Err(e) && e.src is None && (e.knd matches Kndx::G(text) && text@
                == no_date_text()),
        },
{
    match day {
        Some(text) => Ok(text),
        None => Err(Errx::g("the clock is set to a time that has no date")),
    }
}

/// `std::time::SystemTime::elapsed` of `std::time::UNIX_EPOCH`: the time that
/// has passed since the Unix epoch, or nothing where the clock stands before
/// the epoch. It depends on the clock, so nothing is claimed of it.
#[verifier::external_body]
fn since_epoch() -> Option<std::time::Duration> {
    match std::time::UNIX_EPOCH.elapsed() {
        Ok(since) => Some(since),
        Err(_) => None,
    }
}

/// `std::time::Duration::as_nanos` gives a duration in nanoseconds. Nothing is
/// claimed of the number.
pub assume_specification[ std::time::Duration::as_nanos ](
    duration: &std::time::Duration,
) -> (nanos: u128)
;

/// The nanoseconds since the Unix epoch as the clock of the machine gives them,
/// or nothing where the clock stands before the epoch. Any number may come out,
/// so nothing is claimed of it.
pub fn now_timestamp_nanos() -> Option<u128> {
    match since_epoch() {
        Some(since) => Some(since.as_nanos()),
        None => None,
    }
}

} // verus!
