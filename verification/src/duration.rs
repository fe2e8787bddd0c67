//! A plain seconds-resolution duration and its command-line parser.

use vstd::prelude::*;
use crate::text::{all_digits, dec_val, parse_u64, unsigned_part, ParseNumError};

verus! {

/// A duration with whole-second resolution, as given on the command line.
#[derive(Copy, Clone, Debug, PartialEq, Eq, Structural)]
pub struct Duration {
    pub secs: u64,
}

impl Duration {
    /// The duration of `secs` whole seconds.
    pub fn from_secs(secs: u64) -> (r: Duration)
        ensures
            r.secs == secs,
    {
        Duration { secs }
    }

    /// The whole seconds.
    pub fn as_secs(&self) -> (r: u64)
        ensures
            r == self.secs,
    {
        self.secs
    }
}

/// Parses a whole number of seconds.
///
/// Accepts exactly the unsigned decimals (an optional leading plus sign
/// included) whose value fits in 64 bits, and returns exactly that many
/// seconds; reports empty input, a stray character and overflow apart.
pub fn parse_duration(arg: &str) -> (r: Result<Duration, ParseNumError>)
    ensures
        ({
            let t = unsigned_part(arg@);
            match r {
                Ok(d) => t.len() > 0 && all_digits(t) && d.secs == dec_val(t),
                Err(ParseNumError::Empty) => arg@.len() == 0,
                Err(ParseNumError::InvalidDigit) => arg@.len() > 0 && (t.len() == 0
                    || !all_digits(t)),
                Err(ParseNumError::Overflow) => t.len() > 0 && all_digits(t) && dec_val(t)
                    > u64::MAX,
            }
        }),
{
    match parse_u64(arg) {
        Ok(secs) => Ok(Duration::from_secs(secs)),
        Err(e) => Err(e),
    }
}

} // verus!
