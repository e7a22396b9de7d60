use vstd::prelude::*;

verus! {

/// The failure taxonomy of the engine. Every operation reports failure
/// through one of these variants, and each variant maps to a distinct
/// user-visible code and message.
#[derive(Clone, Copy, Debug, PartialEq, Eq, Structural)]
pub enum DataError {
    /// The target record does not exist.
    DataNotFound,
    /// An initialize hit an address that already holds a record.
    AlreadyExists,
    /// The new value exceeds the profile's maximum length.
    DataTooLong,
    /// The caller is not the owner of the record.
    Unauthorized,
    /// The payload bytes are not a well-formed encoding.
    DecodeError,
}

impl DataError {
    /// The numeric code of each error.
    pub open spec fn code_spec(self) -> u32 {
        match self {
            DataError::DataNotFound => 0,
            DataError::AlreadyExists => 1,
            DataError::DataTooLong => 2,
            DataError::Unauthorized => 3,
            DataError::DecodeError => 4,
        }
    }

    /// Returns this error's user-visible code.
    pub fn code(&self) -> (c: u32)
        ensures
            c == self.code_spec(),
    {
        match self {
            DataError::DataNotFound => 0,
            DataError::AlreadyExists => 1,
            DataError::DataTooLong => 2,
            DataError::Unauthorized => 3,
            DataError::DecodeError => 4,
        }
    }

    /// The message of each error.
    pub open spec fn message_spec(self) -> Seq<char> {
        match self {
            DataError::DataNotFound => "data not found"@,
            DataError::AlreadyExists => "record already exists"@,
            DataError::DataTooLong => "data too long"@,
            DataError::Unauthorized => "caller is not the owner"@,
            DataError::DecodeError => "malformed payload"@,
        }
    }

    /// Returns this error's user-visible message.
    pub fn message(&self) -> (m: &'static str)
        ensures
            m@ == self.message_spec(),
    {
        match self {
            DataError::DataNotFound => "data not found",
            DataError::AlreadyExists => "record already exists",
            DataError::DataTooLong => "data too long",
            DataError::Unauthorized => "caller is not the owner",
            DataError::DecodeError => "malformed payload",
        }
    }
}

/// Distinct errors always carry distinct codes.
pub proof fn lemma_error_codes_distinct(a: DataError, b: DataError)
    ensures
        a != b ==> a.code_spec() != b.code_spec(),
{
}

} // verus!
