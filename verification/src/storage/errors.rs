//! What can go wrong in a storage engine.

use vstd::prelude::*;
use vstd::string::StringExecFns;

verus! {

/// `sled::Error`, kept as the source of a failure.
#[verifier::external_type_specification]
#[verifier::external_body]
pub struct ExSledError(::sled::Error);

/// `std::string::FromUtf8Error`, kept as the source of a failure.
#[verifier::external_type_specification]
#[verifier::external_body]
pub struct ExFromUtf8Error(std::string::FromUtf8Error);

/// A failure of a storage engine, with the backend's own error as its
/// source.
#[derive(Debug)]
#[allow(inconsistent_fields)]
pub enum KeyValueError {
    /// The database could not be opened or created at its path.
    OpenError { source: ::sled::Error },
    /// The backend failed while a value was looked up.
    ReadError { source: ::sled::Error },
    /// The backend failed while a value was written or flushed.
    OperationError { source: ::sled::Error },
    /// A stored value is not valid UTF-8.
    DeserialzeError { source: std::string::FromUtf8Error },
}

impl KeyValueError {
    /// The text that describes each kind of failure.
    pub open spec fn message_text(self) -> Seq<char> {
        match self {
            KeyValueError::OpenError { .. } => "Open error"@,
            KeyValueError::ReadError { .. } => "Read error"@,
            KeyValueError::OperationError { .. } => "Opeartional error"@,
            KeyValueError::DeserialzeError { .. } => "Deserialize error"@,
        }
    }

    /// A short description of the failure.
    pub fn message(&self) -> (r: String)
        ensures
            r@ == self.message_text(),
    {
        match self {
            KeyValueError::OpenError { .. } => String::from_str("Open error"),
            KeyValueError::ReadError { .. } => String::from_str("Read error"),
            KeyValueError::OperationError { .. } => String::from_str("Opeartional error"),
            KeyValueError::DeserialzeError { .. } => String::from_str("Deserialize error"),
        }
    }
}

} // verus!
