//! The four custom request headers and their typed forms.
//!
//! Upload requests carry `aqa-download-count` (required), `aqa-visibility`,
//! `aqa-password` and `aqa-lifetime` (optional, with defaults).  Each header
//! value is parsed here from its string form into a strong type.
use vstd::prelude::*;

use crate::strutil::str_eq;

verus! {

#[derive(Debug, Clone, Copy, PartialEq, Eq, Structural)]
pub enum HeaderError {
    DownloadCountHeaderMissing,
    LifetimeHeaderMissing,
    LifetimeValue,
    DownloadCountParse,
    DownloadCountInvalidCount,
    PasswordParse,
    VisibilityParse,
    LifetimeParse,
}

impl HeaderError {
    /// HTTP status for a header error: always a bad request.
    pub fn code(&self) -> (c: u16)
        ensures
            c == 400,
    {
        400
    }

    /// Header errors are always safe to show to the client.
    pub fn user_presentable(&self) -> (b: bool)
        ensures
            b,
    {
        true
    }
}

#[derive(Debug, Clone, Copy, PartialEq, Eq, Structural)]
pub enum Visibility {
    Public,
    Private,
}

impl Default for Visibility {
    /// Uploads are public unless the header says otherwise.
    fn default() -> (v: Visibility)
        ensures
            v == Visibility::Public,
    {
        Visibility::Public
    }
}

#[derive(Debug, Clone, Copy, PartialEq, Eq, Structural)]
pub enum DownloadCount {
    Infinite,
    Count(u64),
}

impl Default for DownloadCount {
    fn default() -> (v: DownloadCount)
        ensures
            v == DownloadCount::Count(1),
    {
        DownloadCount::Count(1)
    }
}

/// The on-disk bucket name derived from the download-count policy.
pub open spec fn bucket_chars(d: DownloadCount) -> Seq<char> {
    match d {
        DownloadCount::Infinite => "infinite"@,
        DownloadCount::Count(n) => crate::digits::dec_chars(n as nat),
    }
}

impl DownloadCount {
    /// The directory name this policy's blobs live under.
    pub fn bucket(&self) -> (s: String)
        ensures
            s@ == bucket_chars(*self),
    {
        match self {
            DownloadCount::Infinite => {
                let s = "infinite";
                s.to_owned()
            },
            DownloadCount::Count(n) => crate::digits::fmt_u64(*n),
        }
    }
}

/// A per-entry download password, stored as received (already URL-decoded).
#[derive(Debug)]
pub struct Password(pub String);

impl Clone for Password {
    fn clone(&self) -> (r: Self)
        ensures
            r == *self,
    {
        Password(self.0.clone())
    }
}

/// An entry's maximum lifetime; durations are in milliseconds.
#[derive(Debug, Clone, Copy, PartialEq, Eq, Structural)]
pub enum Lifetime {
    Infinite,
    Duration(u64),
}

pub const MILLIS_PER_MINUTE: u64 = 60000;
pub const MILLIS_PER_HOUR: u64 = 3600000;
pub const MILLIS_PER_DAY: u64 = 86400000;

impl Default for Lifetime {
    /// The default lifetime when the header is present but unset: one hour.
    fn default() -> (v: Lifetime)
        ensures
            v == Lifetime::Duration(MILLIS_PER_HOUR),
    {
        Lifetime::Duration(MILLIS_PER_HOUR)
    }
}

/// What `aqa-lifetime` must parse to, for each value the service accepts.
pub open spec fn spec_parse_lifetime(v: Option<Seq<char>>) -> Result<Lifetime, HeaderError> {
    match v {
        Option::None => Result::Ok(Lifetime::Infinite),
        Option::Some(s) => if s == "infinite"@ {
            Result::Ok(Lifetime::Infinite)
        } else if s == "1 min"@ {
            Result::Ok(Lifetime::Duration(MILLIS_PER_MINUTE))
        } else if s == "5 mins"@ {
            Result::Ok(Lifetime::Duration((5 * MILLIS_PER_MINUTE) as u64))
        } else if s == "1 hour"@ {
            Result::Ok(Lifetime::Duration(MILLIS_PER_HOUR))
        } else if s == "1 day"@ {
            Result::Ok(Lifetime::Duration(MILLIS_PER_DAY))
        } else if s == "7 days"@ {
            Result::Ok(Lifetime::Duration((7 * MILLIS_PER_DAY) as u64))
        } else if s == "30 days"@ {
            Result::Ok(Lifetime::Duration((30 * MILLIS_PER_DAY) as u64))
        } else {
            Result::Err(HeaderError::LifetimeValue)
        },
    }
}

/// Parses the `aqa-lifetime` header; a missing header means an infinite
/// lifetime.
pub fn parse_lifetime(v: Option<&str>) -> (r: Result<Lifetime, HeaderError>)
    ensures
        r == spec_parse_lifetime(match v {
            Option::None => Option::<Seq<char>>::None,
            Option::Some(s) => Option::Some(s@),
        }),
{
    match v {
        None => Ok(Lifetime::Infinite),
        Some(s) => {
            if str_eq(s, "infinite") {
                Ok(Lifetime::Infinite)
            } else if str_eq(s, "1 min") {
                Ok(Lifetime::Duration(MILLIS_PER_MINUTE))
            } else if str_eq(s, "5 mins") {
                Ok(Lifetime::Duration(5 * MILLIS_PER_MINUTE))
            } else if str_eq(s, "1 hour") {
                Ok(Lifetime::Duration(MILLIS_PER_HOUR))
            } else if str_eq(s, "1 day") {
                Ok(Lifetime::Duration(MILLIS_PER_DAY))
            } else if str_eq(s, "7 days") {
                Ok(Lifetime::Duration(7 * MILLIS_PER_DAY))
            } else if str_eq(s, "30 days") {
                Ok(Lifetime::Duration(30 * MILLIS_PER_DAY))
            } else {
                Err(HeaderError::LifetimeValue)
            }
        },
    }
}

/// What `aqa-download-count` must parse to: one of the five bucket names.
pub open spec fn spec_parse_download_count(v: Option<Seq<char>>) -> Result<
    DownloadCount,
    HeaderError,
> {
    match v {
        Option::None => Result::Err(HeaderError::DownloadCountHeaderMissing),
        Option::Some(s) => if s == "infinite"@ {
            Result::Ok(DownloadCount::Infinite)
        } else if s == "1"@ {
            Result::Ok(DownloadCount::Count(1))
        } else if s == "5"@ {
            Result::Ok(DownloadCount::Count(5))
        } else if s == "10"@ {
            Result::Ok(DownloadCount::Count(10))
        } else if s == "100"@ {
            Result::Ok(DownloadCount::Count(100))
        } else {
            Result::Err(HeaderError::DownloadCountInvalidCount)
        },
    }
}

/// Parses the `aqa-download-count` header, which is required on upload and
/// restricted to the five supported bucket values.
pub fn parse_download_count(v: Option<&str>) -> (r: Result<DownloadCount, HeaderError>)
    ensures
        r == spec_parse_download_count(match v {
            Option::None => Option::<Seq<char>>::None,
            Option::Some(s) => Option::Some(s@),
        }),
{
    match v {
        None => Err(HeaderError::DownloadCountHeaderMissing),
        Some(s) => {
            if str_eq(s, "infinite") {
                Ok(DownloadCount::Infinite)
            } else if str_eq(s, "1") {
                Ok(DownloadCount::Count(1))
            } else if str_eq(s, "5") {
                Ok(DownloadCount::Count(5))
            } else if str_eq(s, "10") {
                Ok(DownloadCount::Count(10))
            } else if str_eq(s, "100") {
                Ok(DownloadCount::Count(100))
            } else {
                Err(HeaderError::DownloadCountInvalidCount)
            }
        },
    }
}

/// What `aqa-visibility` must parse to; a missing header means public.
pub open spec fn spec_parse_visibility(v: Option<Seq<char>>) -> Result<Visibility, HeaderError> {
    match v {
        Option::None => Result::Ok(Visibility::Public),
        Option::Some(s) => if s == "public"@ {
            Result::Ok(Visibility::Public)
        } else if s == "private"@ {
            Result::Ok(Visibility::Private)
        } else {
            Result::Err(HeaderError::VisibilityParse)
        },
    }
}

/// Parses the `aqa-visibility` header.
pub fn parse_visibility(v: Option<&str>) -> (r: Result<Visibility, HeaderError>)
    ensures
        r == spec_parse_visibility(match v {
            Option::None => Option::<Seq<char>>::None,
            Option::Some(s) => Option::Some(s@),
        }),
{
    match v {
        None => Ok(Visibility::Public),
        Some(s) => {
            if str_eq(s, "public") {
                Ok(Visibility::Public)
            } else if str_eq(s, "private") {
                Ok(Visibility::Private)
            } else {
                Err(HeaderError::VisibilityParse)
            }
        },
    }
}

} // verus!
// The user-facing texts of the header errors.
verus! {

pub open spec fn spec_header_error_message(e: HeaderError) -> Seq<char> {
    match e {
        HeaderError::DownloadCountHeaderMissing => "aqa-download-count header missing"@,
        HeaderError::LifetimeHeaderMissing => "aqa-lifetime header missing"@,
        HeaderError::LifetimeValue => "Invalid aqa-lifetime header value. Possible values: [infinite|1 min|5 mins|1 hour|1 day|7 days|30 days]"@,
        HeaderError::DownloadCountParse => "Invalid aqa-download-count header value"@,
        HeaderError::DownloadCountInvalidCount => "Unsupported download count"@,
        HeaderError::PasswordParse => "Invalid aqa-password header value"@,
        HeaderError::VisibilityParse => "Invalid aqa-visibility header value"@,
        HeaderError::LifetimeParse => "Invalid aqa-lifetime header value"@,
    }
}

impl HeaderError {
    /// The user-facing message for this error.
    pub fn message(&self) -> (s: String)
        ensures
            s@ == spec_header_error_message(*self),
    {
        match self {
            HeaderError::DownloadCountHeaderMissing => {
                let t = "aqa-download-count header missing";
                t.to_owned()
            },
            HeaderError::LifetimeHeaderMissing => {
                let t = "aqa-lifetime header missing";
                t.to_owned()
            },
            HeaderError::LifetimeValue => {
                let t =
                    "Invalid aqa-lifetime header value. Possible values: [infinite|1 min|5 mins|1 hour|1 day|7 days|30 days]";
                t.to_owned()
            },
            HeaderError::DownloadCountParse => {
                let t = "Invalid aqa-download-count header value";
                t.to_owned()
            },
            HeaderError::DownloadCountInvalidCount => {
                let t = "Unsupported download count";
                t.to_owned()
            },
            HeaderError::PasswordParse => {
                let t = "Invalid aqa-password header value";
                t.to_owned()
            },
            HeaderError::VisibilityParse => {
                let t = "Invalid aqa-visibility header value";
                t.to_owned()
            },
            HeaderError::LifetimeParse => {
                let t = "Invalid aqa-lifetime header value";
                t.to_owned()
            },
        }
    }
}

} // verus!
