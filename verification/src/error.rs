//! The errors that the library hands to its callers.

use vstd::prelude::*;

verus! {

/// The code with which a call into the platform failed: a `CGError` on
/// macOS, an `HRESULT` on Windows.
#[derive(Debug, Clone, Copy, PartialEq, Eq, Hash, Structural)]
pub struct PlatformError {
    pub code: i32,
}

/// The code with which Core Graphics reports success.
pub const CG_SUCCESS: i32 = 0;

impl PlatformError {
    pub fn new(code: i32) -> (r: Self)
        ensures
            r.code == code,
    {
        PlatformError { code }
    }

    /// Turns the status of a Core Graphics call into a result: `value` where
    /// the status is success, the status as an error otherwise.
    pub fn into_result<T>(status: i32, value: T) -> (r: Result<T, PlatformError>)
        ensures
            status == CG_SUCCESS ==> r == Ok::<T, PlatformError>(value),
            status != CG_SUCCESS ==> r == Err::<T, PlatformError>(PlatformError { code: status }),
    {
        if status == CG_SUCCESS {
            Ok(value)
        } else {
            Err(PlatformError { code: status })
        }
    }
}

/// The error type for this crate.
#[derive(Debug, Clone, Copy, PartialEq, Eq, Structural)]
pub enum Error {
    /// An error occurred during initialization: the first capture of the
    /// displays failed, or the notification hook could not be installed.
    InitializationError(PlatformError),
    /// An error occurred in the platform-specific implementation.
    PlatformError(PlatformError),
}

impl Error {
    /// The platform's code behind the error.
    pub fn platform_error(&self) -> (r: PlatformError)
        ensures
            r == match *self {
                Error::InitializationError(e) => e,
                Error::PlatformError(e) => e,
            },
    {
        match self {
            Error::InitializationError(e) => *e,
            Error::PlatformError(e) => *e,
        }
    }

    /// Turns the outcome of a step of the initialization, such as the first
    /// capture of the displays or the installation of the notification hook,
    /// into a result of the library: a failure there is an initialization
    /// error.
    pub fn during_initialization<T>(outcome: Result<T, PlatformError>) -> (r: Result<T, Error>)
        ensures
            match outcome {
                Ok(value) => r == Ok::<T, Error>(value),
                Err(e) => r == Err::<T, Error>(Error::InitializationError(e)),
            },
    {
        match outcome {
            Ok(value) => Ok(value),
            Err(e) => Err(Error::InitializationError(e)),
        }
    }

    /// What the error says to a reader.
    pub fn message(&self) -> (r: &'static str)
        ensures
            r@ == match *self {
                Error::InitializationError(_) => "Initialization failed."@,
                Error::PlatformError(_) => "A platform-specific error has occurred."@,
            },
    {
        match self {
            Error::InitializationError(_) => "Initialization failed.",
            Error::PlatformError(_) => "A platform-specific error has occurred.",
        }
    }
}

impl From<PlatformError> for Error {
    fn from(value: PlatformError) -> (r: Self) {
        Error::PlatformError(value)
    }
}

impl vstd::std_specs::convert::FromSpecImpl<PlatformError> for Error {
    open spec fn obeys_from_spec() -> bool {
        true
    }

    open spec fn from_spec(value: PlatformError) -> Self {
        Error::PlatformError(value)
    }
}

} // verus!
