//! The messages of the protocol: the primitive types, the requests that the
//! broker reads and the responses that it writes.
use vstd::prelude::*;

pub mod primitives;
pub mod requests;
pub mod responses;

verus! {

/// The API keys that the broker answers.
#[derive(Debug, Clone, Copy, PartialEq, Eq)]
pub enum ApiKeys {
    Fetch,
    ApiVersions,
}

impl ApiKeys {
    /// The number of the key on the wire.
    pub open spec fn spec_code(self) -> i16 {
        match self {
            ApiKeys::Fetch => 1,
            ApiKeys::ApiVersions => 18,
        }
    }

    /// The number of the key on the wire: 1 for Fetch, 18 for ApiVersions.
    pub fn code(&self) -> (r: i16)
        ensures
            r == self.spec_code(),
    {
        match self {
            ApiKeys::Fetch => 1,
            ApiKeys::ApiVersions => 18,
        }
    }
}

impl Default for ApiKeys {
    fn default() -> (r: Self)
        ensures
            r == ApiKeys::ApiVersions,
    {
        ApiKeys::ApiVersions
    }
}

/// The error codes that the broker sends.
#[derive(Debug, Clone, Copy, PartialEq, Eq)]
pub enum ErrorCode {
    NoError,
    UnsupportedVersion,
    UnknownTopic,
}

impl ErrorCode {
    /// The number of the error on the wire.
    pub open spec fn spec_code(self) -> i16 {
        match self {
            ErrorCode::NoError => 0,
            ErrorCode::UnsupportedVersion => 35,
            ErrorCode::UnknownTopic => 100,
        }
    }

    /// The number of the error on the wire: 0, 35 or 100.
    pub fn code(&self) -> (r: i16)
        ensures
            r == self.spec_code(),
    {
        match self {
            ErrorCode::NoError => 0,
            ErrorCode::UnsupportedVersion => 35,
            ErrorCode::UnknownTopic => 100,
        }
    }
}

impl Default for ErrorCode {
    fn default() -> (r: Self)
        ensures
            r == ErrorCode::NoError,
    {
        ErrorCode::NoError
    }
}

} // verus!
