use vstd::prelude::*;

verus! {

/// The status code that means success.
pub const EOK: i32 = 0;

/// Failure kinds reported by the engine, mirroring its POSIX-style status codes.
#[derive(Clone, Copy, Debug, PartialEq, Eq, Structural)]
pub enum Error {
    OperationNotPermitted,
    NoEntry,
    Io,
    NoDeviceOrAddress,
    TooBig,
    OutOfMemory,
    PermissionDenied,
    BadAddress,
    FileExists,
    NoDevice,
    NotDirectory,
    IsDirectory,
    InvalidArgument,
    FileTooBig,
    NoSpace,
    ReadOnly,
    TooManyLinks,
    Range,
    DirNotEmpty,
    NoData,
    NotSupported,
    InvalidError,
}

/// The status code of each failure kind.
pub open spec fn spec_code(e: Error) -> i32 {
    match e {
        Error::OperationNotPermitted => 1,
        Error::NoEntry => 2,
        Error::Io => 5,
        Error::NoDeviceOrAddress => 6,
        Error::TooBig => 7,
        Error::OutOfMemory => 12,
        Error::PermissionDenied => 13,
        Error::BadAddress => 14,
        Error::FileExists => 17,
        Error::NoDevice => 19,
        Error::NotDirectory => 20,
        Error::IsDirectory => 21,
        Error::InvalidArgument => 22,
        Error::FileTooBig => 27,
        Error::NoSpace => 28,
        Error::ReadOnly => 30,
        Error::TooManyLinks => 31,
        Error::Range => 34,
        Error::DirNotEmpty => 39,
        Error::NoData => 61,
        Error::NotSupported => 95,
        Error::InvalidError => 9999,
    }
}

/// The failure kind whose status code is `c`, if there is one.
pub open spec fn spec_from_code(c: i32) -> Option<Error> {
    if c == 1 {
        Some(Error::OperationNotPermitted)
    } else if c == 2 {
        Some(Error::NoEntry)
    } else if c == 5 {
        Some(Error::Io)
    } else if c == 6 {
        Some(Error::NoDeviceOrAddress)
    } else if c == 7 {
        Some(Error::TooBig)
    } else if c == 12 {
        Some(Error::OutOfMemory)
    } else if c == 13 {
        Some(Error::PermissionDenied)
    } else if c == 14 {
        Some(Error::BadAddress)
    } else if c == 17 {
        Some(Error::FileExists)
    } else if c == 19 {
        Some(Error::NoDevice)
    } else if c == 20 {
        Some(Error::NotDirectory)
    } else if c == 21 {
        Some(Error::IsDirectory)
    } else if c == 22 {
        Some(Error::InvalidArgument)
    } else if c == 27 {
        Some(Error::FileTooBig)
    } else if c == 28 {
        Some(Error::NoSpace)
    } else if c == 30 {
        Some(Error::ReadOnly)
    } else if c == 31 {
        Some(Error::TooManyLinks)
    } else if c == 34 {
        Some(Error::Range)
    } else if c == 39 {
        Some(Error::DirNotEmpty)
    } else if c == 61 {
        Some(Error::NoData)
    } else if c == 95 {
        Some(Error::NotSupported)
    } else if c == 9999 {
        Some(Error::InvalidError)
    } else {
        None
    }
}

/// The result that a status code stands for: success for `EOK`, the
/// matching failure kind otherwise, and `InvalidError` for an unknown code.
pub open spec fn spec_errno_to_result(errno: i32) -> Result<(), Error> {
    if errno == EOK {
        Ok(())
    } else {
        match spec_from_code(errno) {
            Some(e) => Err(e),
            None => Err(Error::InvalidError),
        }
    }
}

/// The status code that a result is reported as.
pub open spec fn spec_result_to_errno(r: Result<(), Error>) -> i32 {
    match r {
        Ok(()) => EOK,
        Err(e) => spec_code(e),
    }
}

impl Error {
    /// The status code of this failure kind.
    pub fn code(&self) -> (r: i32)
        ensures
            r == spec_code(*self),
    {
        match self {
            Error::OperationNotPermitted => 1,
            Error::NoEntry => 2,
            Error::Io => 5,
            Error::NoDeviceOrAddress => 6,
            Error::TooBig => 7,
            Error::OutOfMemory => 12,
            Error::PermissionDenied => 13,
            Error::BadAddress => 14,
            Error::FileExists => 17,
            Error::NoDevice => 19,
            Error::NotDirectory => 20,
            Error::IsDirectory => 21,
            Error::InvalidArgument => 22,
            Error::FileTooBig => 27,
            Error::NoSpace => 28,
            Error::ReadOnly => 30,
            Error::TooManyLinks => 31,
            Error::Range => 34,
            Error::DirNotEmpty => 39,
            Error::NoData => 61,
            Error::NotSupported => 95,
            Error::InvalidError => 9999,
        }
    }

    /// The failure kind with status code `c`, or `None` for an unknown code.
    pub fn from_code(c: i32) -> (r: Option<Error>)
        ensures
            r == spec_from_code(c),
    {
        if c == 1 {
            Some(Error::OperationNotPermitted)
        } else if c == 2 {
            Some(Error::NoEntry)
        } else if c == 5 {
            Some(Error::Io)
        } else if c == 6 {
            Some(Error::NoDeviceOrAddress)
        } else if c == 7 {
            Some(Error::TooBig)
        } else if c == 12 {
            Some(Error::OutOfMemory)
        } else if c == 13 {
            Some(Error::PermissionDenied)
        } else if c == 14 {
            Some(Error::BadAddress)
        } else if c == 17 {
            Some(Error::FileExists)
        } else if c == 19 {
            Some(Error::NoDevice)
        } else if c == 20 {
            Some(Error::NotDirectory)
        } else if c == 21 {
            Some(Error::IsDirectory)
        } else if c == 22 {
            Some(Error::InvalidArgument)
        } else if c == 27 {
            Some(Error::FileTooBig)
        } else if c == 28 {
            Some(Error::NoSpace)
        } else if c == 30 {
            Some(Error::ReadOnly)
        } else if c == 31 {
            Some(Error::TooManyLinks)
        } else if c == 34 {
            Some(Error::Range)
        } else if c == 39 {
            Some(Error::DirNotEmpty)
        } else if c == 61 {
            Some(Error::NoData)
        } else if c == 95 {
            Some(Error::NotSupported)
        } else if c == 9999 {
            Some(Error::InvalidError)
        } else {
            None
        }
    }
}

/// Maps an engine status code to a result. Total: every code that
/// names no known failure kind becomes `InvalidError`.
pub fn errno_to_result(errno: i32) -> (r: Result<(), Error>)
    ensures
        r == spec_errno_to_result(errno),
        r is Ok <==> errno == EOK,
{
    if errno == EOK {
        Ok(())
    } else {
        match Error::from_code(errno) {
            Some(e) => Err(e),
            None => Err(Error::InvalidError),
        }
    }
}

/// Maps a result to the status code handed back across the
/// callback boundary.
pub fn result_to_errno(result: Result<(), Error>) -> (r: i32)
    ensures
        r == spec_result_to_errno(result),
        r == EOK <==> result is Ok,
{
    match result {
        Ok(()) => EOK,
        Err(e) => e.code(),
    }
}

/// Every failure kind's status code is nonzero and leads back to that kind.
pub proof fn lemma_code_round_trip(e: Error)
    ensures
        spec_code(e) != EOK,
        spec_from_code(spec_code(e)) == Some(e),
        spec_errno_to_result(spec_code(e)) == Err::<(), Error>(e),
{
}

/// A result reported as a status code and mapped back is unchanged.
pub proof fn lemma_result_round_trip(r: Result<(), Error>)
    ensures
        spec_errno_to_result(spec_result_to_errno(r)) == r,
{
    match r {
        Ok(u) => {
            assert(u == ());
        },
        Err(e) => lemma_code_round_trip(e),
    }
}

/// A recognised status code mapped to a result and reported again is
/// unchanged; so is success.
pub proof fn lemma_errno_round_trip(c: i32)
    requires
        c == EOK || spec_from_code(c) is Some,
    ensures
        spec_result_to_errno(spec_errno_to_result(c)) == c,
{
}

} // verus!
