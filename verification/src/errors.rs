use vstd::prelude::*;

verus! {

/// A fatal error of the reporting pipeline. Every error aborts the whole run;
/// there is no per-repository or per-branch recovery.
#[derive(Debug)]
pub enum ReportError {
    /// A date string matched neither the RFC 3339 format nor `YYYY-MM-DD`.
    /// Carries the offending string.
    InvalidDateFormat(String),
    /// The requested render mode is neither `flat` nor `daily`.
    /// Carries the invalid mode string.
    UnknownFormat(String),
}

impl ReportError {
    /// A human-readable description of the error, for the caller to print.
    pub fn message(&self) -> (r: String)
        ensures
            match self {
                ReportError::InvalidDateFormat(s) => r@ == "invalid date format: "@ + s@,
                ReportError::UnknownFormat(s) => r@ == "unknown format: "@ + s@,
            },
    {
        match self {
            ReportError::InvalidDateFormat(s) => {
                let mut out: String = "invalid date format: ".to_owned();
                out.append(s.as_str());
                out
            },
            ReportError::UnknownFormat(s) => {
                let mut out: String = "unknown format: ".to_owned();
                out.append(s.as_str());
                out
            },
        }
    }
}

} // verus!
