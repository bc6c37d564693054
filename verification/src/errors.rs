use vstd::prelude::*;

verus! {

/// Everything that can go wrong in one fetch/format/persist cycle.
///
/// The codec reports `MissingMarker` and `MissingDelimiter`; the formatter
/// reports `MalformedContent`; the I/O layer around the library constructs
/// `NoCookieHeader`, `FetchError` and `WriteError` (the payload carries the
/// transport or filesystem detail).
#[derive(Debug, PartialEq, Eq)]
pub enum MfError {
    MissingMarker,
    MissingDelimiter,
    NoCookieHeader,
    FetchError(String),
    MalformedContent,
    WriteError(String),
}

/// What [`MfError::message`] returns for each variant.
pub open spec fn spec_message(e: MfError) -> Seq<char> {
    match e {
        MfError::MissingMarker => "session cookie lacks the mfsession= marker"@,
        MfError::MissingDelimiter => "no delimiter after the session token"@,
        MfError::NoCookieHeader => "the landing page set no cookie header"@,
        MfError::FetchError(d) => "fetch failed: "@ + d@,
        MfError::MalformedContent => "report content does not have the expected shape"@,
        MfError::WriteError(d) => "write failed: "@ + d@,
    }
}

impl MfError {
    /// A human-readable description, for the caller's log.
    pub fn message(&self) -> (r: String)
        ensures
            r@ == spec_message(*self),
    {
        match self {
            MfError::MissingMarker => {
                String::from_str("session cookie lacks the mfsession= marker")
            },
            MfError::MissingDelimiter => String::from_str("no delimiter after the session token"),
            MfError::NoCookieHeader => String::from_str("the landing page set no cookie header"),
            MfError::FetchError(d) => String::from_str("fetch failed: ").concat(d.as_str()),
            MfError::MalformedContent => {
                String::from_str("report content does not have the expected shape")
            },
            MfError::WriteError(d) => String::from_str("write failed: ").concat(d.as_str()),
        }
    }
}

} // verus!
