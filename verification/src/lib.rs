//! Reading and writing the binary layout of RSVP files: the fixed-size
//! file header, the chunk log entries that index a chunked token blob,
//! the metadata block that follows the header, and the token vocabulary.
#![allow(unused_imports)]

use vstd::prelude::*;

pub mod chunk;
pub mod header;
pub mod le;
pub mod token;

verus! {

/// The decoding error of the `bincode_next` crate, carried as it is.
#[verifier::external_type_specification]
#[verifier::external_body]
pub struct ExDecodeError(bincode_next::error::DecodeError);

/// The error of a failed slice-to-array conversion, carried as it is.
#[verifier::external_type_specification]
#[verifier::external_body]
pub struct ExTryFromSliceError(core::array::TryFromSliceError);

/// Errors that can occur when reading or writing RSVP files.
#[derive(Debug)]
pub enum RsvpError {
    InvalidMagic,
    UnsupportedVersion,
    UnexpectedEof,
    InvalidUtf8,
    InvalidHeader,
    InvalidSlice(core::array::TryFromSliceError),
    DecodeError(bincode_next::error::DecodeError),
}

impl From<bincode_next::error::DecodeError> for RsvpError {
    /// Wraps a bincode decoding error.
    fn from(e: bincode_next::error::DecodeError) -> (r: RsvpError)
        ensures
            r == RsvpError::DecodeError(e),
    {
        RsvpError::DecodeError(e)
    }
}

impl vstd::std_specs::convert::FromSpecImpl<bincode_next::error::DecodeError> for RsvpError {
    open spec fn obeys_from_spec() -> bool {
        true
    }

    open spec fn from_spec(e: bincode_next::error::DecodeError) -> RsvpError {
        RsvpError::DecodeError(e)
    }
}

impl From<core::array::TryFromSliceError> for RsvpError {
    /// Wraps a failed slice-to-array conversion.
    fn from(e: core::array::TryFromSliceError) -> (r: RsvpError)
        ensures
            r == RsvpError::InvalidSlice(e),
    {
        RsvpError::InvalidSlice(e)
    }
}

impl vstd::std_specs::convert::FromSpecImpl<core::array::TryFromSliceError> for RsvpError {
    open spec fn obeys_from_spec() -> bool {
        true
    }

    open spec fn from_spec(e: core::array::TryFromSliceError) -> RsvpError {
        RsvpError::InvalidSlice(e)
    }
}

/// The result of reading or writing part of an RSVP file.
pub type RsvpResult<T> = core::result::Result<T, RsvpError>;

/// The human-readable description of each error.
pub open spec fn error_message(e: RsvpError) -> Seq<char> {
    match e {
        RsvpError::InvalidMagic => "The file does not start with the expected magic bytes."@,
        RsvpError::UnsupportedVersion => "The file has a version that is not supported by this library."@,
        RsvpError::UnexpectedEof => "The file is too short to contain a valid header."@,
        RsvpError::InvalidUtf8 => "The file contains invalid UTF-8 data."@,
        RsvpError::InvalidHeader => "The file contains an invalid header."@,
        RsvpError::InvalidSlice(_) => "Unable to convert slice to array."@,
        RsvpError::DecodeError(_) => "Bincode Deser failure"@,
    }
}

impl RsvpError {
    /// Describes the error in one sentence.
    pub fn message(&self) -> (r: &'static str)
        ensures
            r@ == error_message(*self),
    {
        match self {
            RsvpError::InvalidMagic => "The file does not start with the expected magic bytes.",
            RsvpError::UnsupportedVersion => "The file has a version that is not supported by this library.",
            RsvpError::UnexpectedEof => "The file is too short to contain a valid header.",
            RsvpError::InvalidUtf8 => "The file contains invalid UTF-8 data.",
            RsvpError::InvalidHeader => "The file contains an invalid header.",
            RsvpError::InvalidSlice(_) => "Unable to convert slice to array.",
            RsvpError::DecodeError(_) => "Bincode Deser failure",
        }
    }
}

} // verus!
