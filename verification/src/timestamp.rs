//! Points in time as HTTP headers carry them: whole seconds since the Unix
//! epoch, no later than the last second of the year 9999.
use vstd::prelude::*;

verus! {

/// The last instant an HTTP date can name: 9999-12-31 23:59:59 UTC.
pub const MAX_HTTP_SECS: u64 = 253_402_300_799;

/// The header text of the instant `secs` seconds after the Unix epoch, as
/// `tower_web`'s `HttpDateTime` converts to an `http::header::HeaderValue`;
/// `None` where that conversion reports an error.
pub uninterp spec fn http_date_text(secs: int) -> Option<Seq<char>>;

/// The instant, in seconds relative to the Unix epoch, that
/// `chrono::DateTime::parse_from_rfc2822` reads out of `text`; `None` where it
/// reports an error.
pub uninterp spec fn rfc2822_instant(text: Seq<char>) -> Option<int>;

/// Calls the conversion of `tower_web::extract::http_date_time::HttpDateTime`
/// into `http::header::HeaderValue` on the instant `secs` seconds after the
/// epoch and hands back the header's text. Trusted: the text is a function of
/// `secs` alone (the conversion formats a UTC date and reads no clock, locale
/// or time zone), and within the bound of `requires` neither the date
/// arithmetic nor the formatting panics.
#[verifier::external_body]
fn format_http_date(secs: u64) -> (text: Option<String>)
    requires
        secs <= MAX_HTTP_SECS,
    ensures
        match text {
            Some(t) => http_date_text(secs as int) == Some(t@),
            None => http_date_text(secs as int) is None,
        },
{
    let at = std::time::UNIX_EPOCH + std::time::Duration::from_secs(secs);
    let stamp = tower_web::extract::http_date_time::HttpDateTime::from(at);
    let value: Result<http::header::HeaderValue, _> = http::HttpTryFrom::try_from(stamp);
    value.ok().and_then(|v| v.to_str().ok().map(|t| t.to_string()))
}

/// Calls `chrono::DateTime::parse_from_rfc2822` on `text` and hands back the
/// Unix timestamp of what it read. Trusted: the result is a function of the
/// text alone, and the call returns an error rather than panicking on text it
/// cannot read.
#[verifier::external_body]
fn parse_rfc2822(text: &str) -> (instant: Option<i64>)
    ensures
        match instant {
            Some(i) => rfc2822_instant(text@) == Some(i as int),
            None => rfc2822_instant(text@) is None,
        },
{
    chrono::DateTime::parse_from_rfc2822(text).ok().map(|at| at.timestamp())
}

/// A modification time or a client's cached time, to the second.
#[derive(Clone, Copy, Debug, PartialEq, Eq, Structural)]
pub struct HttpTimestamp {
    secs: u64,
}

/// The timestamp that stands for a parsed instant: the instant itself where
/// it lies in the range of `HttpTimestamp`, and none otherwise.
pub open spec fn timestamp_at(instant: Option<int>) -> Option<int> {
    match instant {
        Some(i) => if 0 <= i <= MAX_HTTP_SECS {
            Some(i)
        } else {
            None
        },
        None => None,
    }
}

impl HttpTimestamp {
    #[verifier::type_invariant]
    spec fn in_range(self) -> bool {
        self.secs <= MAX_HTTP_SECS
    }

    /// Seconds since the Unix epoch.
    pub closed spec fn instant(self) -> int {
        self.secs as int
    }

    /// The timestamp `secs` seconds after the epoch, if an HTTP date can name
    /// it.
    pub fn from_unix_secs(secs: u64) -> (r: Option<HttpTimestamp>)
        ensures
            r is Some <==> secs <= MAX_HTTP_SECS,
            r matches Some(t) ==> t.instant() == secs,
    {
        if secs <= MAX_HTTP_SECS {
            Some(HttpTimestamp { secs })
        } else {
            None
        }
    }

    /// Seconds since the Unix epoch.
    pub fn unix_secs(&self) -> (secs: u64)
        ensures
            secs == self.instant(),
            secs <= MAX_HTTP_SECS,
    {
        proof {
            use_type_invariant(self);
        }
        self.secs
    }

    /// Whether this timestamp is at least as late as `other`.
    pub fn at_least(&self, other: &HttpTimestamp) -> (r: bool)
        ensures
            r == (self.instant() >= other.instant()),
    {
        self.secs >= other.secs
    }

    /// The timestamp for an instant that a date parser returned: negative
    /// instants and instants after the year 9999 have none.
    pub fn from_parsed(instant: Option<i64>) -> (r: Option<HttpTimestamp>)
        ensures
            match r {
                Some(t) => instant matches Some(i) && 0 <= i <= MAX_HTTP_SECS && t.instant() == i,
                None => instant matches Some(i) ==> i < 0 || i > MAX_HTTP_SECS,
            },
    {
        match instant {
            Some(i) => {
                if 0 <= i && i <= 253_402_300_799i64 {
                    Some(HttpTimestamp { secs: i as u64 })
                } else {
                    None
                }
            },
            None => None,
        }
    }

    /// Reads the value of a date header such as `If-Modified-Since`. Text
    /// that is no date, and a date outside the range of `HttpTimestamp`, give
    /// `None`: such a header is ignored.
    pub fn parse(text: &str) -> (r: Option<HttpTimestamp>)
        ensures
            match r {
                Some(t) => timestamp_at(rfc2822_instant(text@)) == Some(t.instant()),
                None => timestamp_at(rfc2822_instant(text@)) is None,
            },
    {
        HttpTimestamp::from_parsed(parse_rfc2822(text))
    }

    /// The text of this timestamp as a date header's value.
    pub fn header_text(&self) -> (text: Option<String>)
        ensures
            match text {
                Some(t) => http_date_text(self.instant()) == Some(t@),
                None => http_date_text(self.instant()) is None,
            },
    {
        proof {
            use_type_invariant(self);
        }
        format_http_date(self.secs)
    }
}

} // verus!
