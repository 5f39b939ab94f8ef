//! Reading the wall clock and rendering its clock-face text.

use vstd::prelude::*;
use vstd::string::StringExecFns;
use crate::text::{dec_str, u64_to_dec};

verus! {

/// A number below one hundred, always as two digits.
pub open spec fn spec_two_digits(n: nat) -> Seq<char>
    recommends
        n < 100,
{
    if n < 10 {
        seq!['0'] + dec_str(n)
    } else {
        dec_str(n)
    }
}

/// The clock-face text of a moment: hours, minutes and seconds on a
/// twenty-four-hour clock, two digits each, separated by colons.
pub open spec fn spec_clock_text(secs: nat) -> Seq<char> {
    spec_two_digits((secs / 3600) % 24) + ":"@ + spec_two_digits((secs / 60) % 60)
        + ":"@ + spec_two_digits(secs % 60)
}

/// A number below one hundred as exactly two digits.
pub fn two_digits(n: u64) -> (r: String)
    requires
        n < 100,
    ensures
        r@ == spec_two_digits(n as nat),
{
    if n < 10 {
        let mut out = "0".to_owned();
        let d = u64_to_dec(n);
        out.append(d.as_str());
        proof {
            reveal_strlit("0");
            assert("0"@ =~= seq!['0']);
            assert(out@ =~= spec_two_digits(n as nat));
        }
        out
    } else {
        u64_to_dec(n)
    }
}

/// The system's local clock.
pub struct Local;

/// A moment, held as whole seconds since the Unix epoch.
pub struct DateTime {
    pub secs: u64,
}

impl Local {
    /// Relies on `std::time::SystemTime::now` and `duration_since` with the
    /// Unix epoch: the seconds elapsed since it; a clock that reads before
    /// the epoch counts as the epoch itself. No two reads are promised to
    /// agree.
    #[verifier::external_body]
    pub fn now() -> DateTime {
        let secs = std::time::SystemTime::now().duration_since(std::time::UNIX_EPOCH).map(
            |d| d.as_secs(),
        ).unwrap_or(0);
        DateTime { secs }
    }
}

impl DateTime {
    /// The moment's clock-face text `HH:MM:SS`. The format argument is
    /// accepted for signature compatibility and ignored, as it always was.
    pub fn format(&self, fmt: &str) -> (r: String)
        ensures
            r@ == spec_clock_text(self.secs as nat),
    {
        let _ = fmt;
        let hours = (self.secs / 3600) % 24;
        let minutes = (self.secs / 60) % 60;
        let seconds = self.secs % 60;
        let mut out = two_digits(hours);
        out.append(":");
        let m = two_digits(minutes);
        out.append(m.as_str());
        out.append(":");
        let s = two_digits(seconds);
        out.append(s.as_str());
        out
    }
}

} // verus!
