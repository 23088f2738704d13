//! Errors of the detectors' system queries.

use vstd::prelude::*;
use crate::text::{concat, decimal_string, dec_digits};

verus! {

#[derive(Debug, Clone)]
pub enum DetectionError {
    /// A Windows API call failed with this error code.
    WindowsError(u32),
    DirectSyscalls(String),
    Other(String),
}

/// The text that describes an error.
pub open spec fn detection_error_text(e: DetectionError) -> Seq<char> {
    match e {
        DetectionError::WindowsError(code) => "Windows API Error Code: "@ + dec_digits(code as nat),
        DetectionError::DirectSyscalls(s) => "Unable to perform Direct Syscalls detection: "@ + s@,
        DetectionError::Other(s) => s@,
    }
}

impl DetectionError {
    /// The text that describes this error, e.g. `Windows API Error Code: 5`.
    pub fn message(&self) -> (s: String)
        ensures
            s@ == detection_error_text(*self),
    {
        match self {
            DetectionError::WindowsError(code) => concat(
                "Windows API Error Code: ",
                decimal_string(*code as u64).as_str(),
            ),
            DetectionError::DirectSyscalls(s) => concat(
                "Unable to perform Direct Syscalls detection: ",
                s.as_str(),
            ),
            DetectionError::Other(s) => s.clone(),
        }
    }
}

} // verus!
