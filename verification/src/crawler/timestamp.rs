use vstd::prelude::*;

verus! {

/// What chrono prints, with the given pattern, for the UTC date and time
/// that lies `secs` whole seconds after the Unix epoch; `None` where chrono
/// has no date for that many seconds.
pub uninterp spec fn utc_text(secs: int, pattern: Seq<char>) -> Option<Seq<char>>;

/// The pattern that moments are written with. In chrono's words `%F` is
/// year, month and day as `%Y-%m-%d`, and `%T` is hour, minute and second
/// as `%H:%M:%S`.
pub open spec fn time_pattern() -> Seq<char> {
    "%F %T"@
}

/// A moment as text: `YYYY-MM-DD HH:MM:SS`, in UTC.
pub open spec fn moment_text(secs: int) -> Option<Seq<char>> {
    utc_text(secs, time_pattern())
}

/// Calls `chrono::DateTime::from_timestamp` with no nanoseconds and, where
/// that gives a date, `DateTime::format` with the pattern. The contract
/// only names the outcome: the same seconds and pattern always give the
/// same text, and nothing is claimed about which seconds chrono accepts.
/// Only the one pattern is admitted, which chrono knows; it refuses to
/// print with a pattern that it does not know.
#[verifier::external_body]
fn format_utc(secs: i64, pattern: &str) -> (text: Option<String>)
    requires
        pattern@ == time_pattern(),
    ensures
        match text {
            Some(t) => utc_text(secs as int, pattern@) == Some(t@),
            None => utc_text(secs as int, pattern@) is None,
        },
{
    match chrono::DateTime::from_timestamp(secs, 0) {
        Some(moment) => Some(moment.format(pattern).to_string()),
        None => None,
    }
}

/// A moment in UTC at second precision that has a calendar date.
#[derive(Debug, Clone, Copy)]
pub struct Timestamp {
    secs: i64,
}

impl View for Timestamp {
    type V = int;

    /// Whole seconds since the Unix epoch.
    closed spec fn view(&self) -> int {
        self.secs as int
    }
}

/// The seconds of a moment fit an `i64`.
pub proof fn lemma_secs_in_range(moment: Timestamp)
    ensures
        i64::MIN <= moment@ <= i64::MAX,
{
}

impl Timestamp {
    #[verifier::type_invariant]
    spec fn has_date(self) -> bool {
        moment_text(self.secs as int) is Some
    }

    /// The moment `secs` seconds after the Unix epoch, where it has a date.
    pub fn from_secs(secs: i64) -> (moment: Option<Timestamp>)
        ensures
            match moment {
                Some(t) => t@ == secs && moment_text(secs as int) is Some,
                None => moment_text(secs as int) is None,
            },
    {
        match format_utc(secs, "%F %T") {
            Some(_) => Some(Timestamp { secs }),
            None => None,
        }
    }

    pub fn secs(&self) -> (secs: i64)
        ensures
            secs == self@,
    {
        self.secs
    }

    /// The moment as `YYYY-MM-DD HH:MM:SS`.
    pub fn to_text(&self) -> (text: String)
        ensures
            moment_text(self@) == Some(text@),
    {
        proof {
            use_type_invariant(self);
        }
        format_utc(self.secs, "%F %T").unwrap()
    }
}

} // verus!
