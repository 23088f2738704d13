//! Errors of trace sessions and event parsing.

use vstd::prelude::*;
use crate::text::{concat, decimal_string, dec_digits};

verus! {

#[derive(Debug, Clone)]
pub enum EtwError {
    /// A Windows API call failed with this error code.
    WindowsError(u32),
    TdhParseError,
    SessionAlreadyExists,
    /// No property of this name is defined for the event.
    PropertyNotFound(String),
    Unknown,
}

/// The text that describes an error.
pub open spec fn etw_error_text(e: EtwError) -> Seq<char> {
    match e {
        EtwError::WindowsError(code) => "Windows API Error Code: "@ + dec_digits(code as nat),
        EtwError::TdhParseError => "Failed to parse TDH property"@,
        EtwError::SessionAlreadyExists => "Session already exists"@,
        EtwError::PropertyNotFound(name) => name@ + " property not found"@,
        EtwError::Unknown => "Unknown error occurred"@,
    }
}

impl EtwError {
    /// The text that describes this error, e.g. `Session already exists`.
    pub fn message(&self) -> (s: String)
        ensures
            s@ == etw_error_text(*self),
    {
        match self {
            EtwError::WindowsError(code) => concat(
                "Windows API Error Code: ",
                decimal_string(*code as u64).as_str(),
            ),
            EtwError::TdhParseError => "Failed to parse TDH property".to_owned(),
            EtwError::SessionAlreadyExists => "Session already exists".to_owned(),
            EtwError::PropertyNotFound(name) => concat(name.as_str(), " property not found"),
            EtwError::Unknown => "Unknown error occurred".to_owned(),
        }
    }
}

/// `ERROR_INSUFFICIENT_BUFFER`: the status of a call that was asked how much
/// room its answer needs.
pub const ERROR_INSUFFICIENT_BUFFER: u32 = 122;

/// The outcome of a Windows call by its status: success for zero, the
/// status as a Windows error otherwise.
pub fn check_status(status: u32) -> (r: Result<(), EtwError>)
    ensures
        status == 0 ==> r is Ok,
        status != 0 ==> r == Err::<(), EtwError>(EtwError::WindowsError(status)),
{
    if status == 0 {
        Ok(())
    } else {
        Err(EtwError::WindowsError(status))
    }
}

/// The outcome of a call that only asks for the size of its answer: it
/// must report `ERROR_INSUFFICIENT_BUFFER`; any other status, success
/// included, is a Windows error.
pub fn check_size_query(status: u32) -> (r: Result<(), EtwError>)
    ensures
        status == ERROR_INSUFFICIENT_BUFFER ==> r is Ok,
        status != ERROR_INSUFFICIENT_BUFFER ==> r == Err::<(), EtwError>(EtwError::WindowsError(status)),
{
    if status == ERROR_INSUFFICIENT_BUFFER {
        Ok(())
    } else {
        Err(EtwError::WindowsError(status))
    }
}

/// The outcome of asking for the size of a provider's manifest events:
/// `Ok(true)` when a buffer must be allocated and the events read,
/// `Ok(false)` when the call succeeded without one (the provider has no
/// manifest events), and a Windows error for any other status.
pub fn manifest_size_query(status: u32) -> (r: Result<bool, EtwError>)
    ensures
        status == ERROR_INSUFFICIENT_BUFFER ==> r == Ok::<bool, EtwError>(true),
        status == 0 ==> r == Ok::<bool, EtwError>(false),
        status != ERROR_INSUFFICIENT_BUFFER && status != 0 ==> r == Err::<bool, EtwError>(
            EtwError::WindowsError(status),
        ),
{
    if status == ERROR_INSUFFICIENT_BUFFER {
        Ok(true)
    } else if status == 0 {
        Ok(false)
    } else {
        Err(EtwError::WindowsError(status))
    }
}

/// The outcome of asking how much room a formatted value needs: a status
/// other than success and `ERROR_INSUFFICIENT_BUFFER` is a Windows error;
/// otherwise `Ok(false)` when the formatted value is empty (no room is
/// needed) and `Ok(true)` when a buffer of `size` bytes must be filled.
pub fn format_size_query(status: u32, size: u32) -> (r: Result<bool, EtwError>)
    ensures
        status != 0 && status != ERROR_INSUFFICIENT_BUFFER ==> r == Err::<bool, EtwError>(
            EtwError::WindowsError(status),
        ),
        (status == 0 || status == ERROR_INSUFFICIENT_BUFFER) ==> r == Ok::<bool, EtwError>(size != 0),
{
    if status != 0 && status != ERROR_INSUFFICIENT_BUFFER {
        Err(EtwError::WindowsError(status))
    } else {
        Ok(size != 0)
    }
}

} // verus!
