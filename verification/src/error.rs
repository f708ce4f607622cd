//! What can go wrong, and how each failure is answered.

use vstd::prelude::*;

use crate::model::QuotaDenyReason;

verus! {

/// What was wrong with an input.
#[derive(Clone, Copy, Debug, PartialEq, Eq, Structural)]
pub enum InvalidInput {
    /// A user identifier that is not a key.
    UserID,
    /// A signature of the wrong length.
    Signature,
    /// A hash of the wrong length.
    Hash,
    /// An item of more bytes than the server takes.
    ItemTooLarge,
    /// Bytes that are not a record.
    Unparseable,
    /// A record signed at a time too far from the server's.
    Timestamp,
    /// A file name with a path separator in it.
    FileName,
    /// A file size that no signed 64-bit number holds.
    FileSize,
    /// Contents of another length than was declared.
    ContentLength,
}

/// Why an operation of the server failed.
#[derive(Clone, Copy, Debug, PartialEq, Eq, Structural)]
pub enum Failure {
    /// The request was malformed.
    InvalidInput(InvalidInput),
    /// The signature does not verify.
    SignatureInvalid,
    /// The policy on who may write turned the item down.
    QuotaDenied(QuotaDenyReason),
    /// Nothing is there, or nothing that may be shown.
    NotFound,
    /// Uploaded contents do not hash to the declared hash.
    HashMismatch,
    /// The item is stored already.
    Duplicate,
    /// A row that must be unique is there already.
    Conflict,
    /// The storage failed.
    Storage,
    /// The stored data contradict themselves.
    Integrity,
}

impl Failure {
    /// The HTTP status with which the failure is answered.
    pub open spec fn spec_http_status(self) -> u16 {
        match self {
            Failure::InvalidInput(_) => 400,
            Failure::HashMismatch => 400,
            Failure::SignatureInvalid => 403,
            Failure::QuotaDenied(_) => 403,
            Failure::NotFound => 404,
            Failure::Duplicate => 202,
            Failure::Conflict => 500,
            Failure::Storage => 500,
            Failure::Integrity => 500,
        }
    }

    /// The HTTP status with which the failure is answered. A duplicate is no
    /// failure to the client: storing an item twice is accepted.
    #[verifier::when_used_as_spec(spec_http_status)]
    pub fn http_status(self) -> (status: u16)
        ensures
            status == self.spec_http_status(),
    {
        match self {
            Failure::InvalidInput(_) => 400,
            Failure::HashMismatch => 400,
            Failure::SignatureInvalid => 403,
            Failure::QuotaDenied(_) => 403,
            Failure::NotFound => 404,
            Failure::Duplicate => 202,
            Failure::Conflict => 500,
            Failure::Storage => 500,
            Failure::Integrity => 500,
        }
    }

    /// Whether the failure is the server's own, to be logged as an error.
    pub fn is_internal(self) -> (internal: bool)
        ensures
            internal == (self.spec_http_status() == 500),
    {
        match self {
            Failure::Conflict | Failure::Storage | Failure::Integrity => true,
            _ => false,
        }
    }
}

/// An error that can be handed from one thread to another: its message.
#[derive(Clone, Debug, PartialEq, Eq)]
pub struct SendError {
    message: String,
}

impl View for SendError {
    type V = Seq<char>;

    closed spec fn view(&self) -> Seq<char> {
        self.message@
    }
}

impl SendError {
    /// An error with the given message.
    pub fn new(message: String) -> (e: SendError)
        ensures
            e@ == message@,
    {
        SendError { message }
    }

    /// The message of the error.
    pub fn message(&self) -> (m: &String)
        ensures
            m@ == self@,
    {
        &self.message
    }
}

} // verus!
