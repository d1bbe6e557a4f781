//! What a fetch of the status document can give, and the errors of a tick.

use vstd::prelude::*;
use vstd::string::StringExecFns;
use crate::status_models::json::{document_of, DecodeError, DecodeErrorView};
use crate::status_models::Status;

verus! {

/// Errors that can occur when fetching cluster status
#[derive(Debug)]
pub enum FetchError {
    /// Error parsing JSON status output
    Parsing(DecodeError),
    /// Error from FoundationDB operations, with its code and message
    Fdb(i32, String),
    /// Error from FoundationDB binding operations, with its message
    FdbBinding(String),
    /// Error when the status key is not found
    StatusNotFound,
}

/// The kinds of fetch error, one for each counter.
#[derive(Clone, Copy, Debug, PartialEq, Eq, Structural)]
pub enum FetchErrorKind {
    Parsing,
    Fdb,
    FdbBinding,
    StatusNotFound,
}

impl FetchError {
    /// The kind of the error.
    pub open spec fn spec_kind(&self) -> FetchErrorKind {
        match self {
            FetchError::Parsing(_) => FetchErrorKind::Parsing,
            FetchError::Fdb(_, _) => FetchErrorKind::Fdb,
            FetchError::FdbBinding(_) => FetchErrorKind::FdbBinding,
            FetchError::StatusNotFound => FetchErrorKind::StatusNotFound,
        }
    }

    /// The kind of the error.
    #[verifier::when_used_as_spec(spec_kind)]
    pub fn kind(&self) -> (k: FetchErrorKind)
        ensures
            k == self.spec_kind(),
    {
        match self {
            FetchError::Parsing(_) => FetchErrorKind::Parsing,
            FetchError::Fdb(_, _) => FetchErrorKind::Fdb,
            FetchError::FdbBinding(_) => FetchErrorKind::FdbBinding,
            FetchError::StatusNotFound => FetchErrorKind::StatusNotFound,
        }
    }

    /// The error in words.
    pub open spec fn words(&self) -> Seq<char> {
        match self {
            FetchError::Parsing(e) => "Failed to parse status JSON: "@ + e@.words(),
            FetchError::Fdb(_, message) => "FoundationDB error: "@ + message@,
            FetchError::FdbBinding(message) => "FoundationDB binding error: "@ + message@,
            FetchError::StatusNotFound => "Status key not found in FoundationDB"@,
        }
    }

    /// Writes the error in words.
    pub fn to_string(&self) -> (r: String)
        ensures
            r@ == self.words(),
    {
        match self {
            FetchError::Parsing(e) => {
                let detail = e.to_string();
                String::from_str("Failed to parse status JSON: ").concat(detail.as_str())
            },
            FetchError::Fdb(_, message) => String::from_str("FoundationDB error: ").concat(
                message.as_str(),
            ),
            FetchError::FdbBinding(message) => String::from_str(
                "FoundationDB binding error: ",
            ).concat(message.as_str()),
            FetchError::StatusNotFound => String::from_str("Status key not found in FoundationDB"),
        }
    }

    /// Whether the error ends the exporter: only a failure of the binding
    /// does, since no later fetch can succeed after it.
    pub open spec fn spec_is_fatal(&self) -> bool {
        self is FdbBinding
    }

    /// Whether the error ends the exporter.
    #[verifier::when_used_as_spec(spec_is_fatal)]
    pub fn is_fatal(&self) -> (b: bool)
        ensures
            b == self.spec_is_fatal(),
    {
        match self {
            FetchError::FdbBinding(_) => true,
            _ => false,
        }
    }
}

/// What the value read under the status key stands for: without a value the
/// status was not found; a value is decoded as the status document.
pub open spec fn status_of(value: Option<Seq<u8>>) -> Result<Status, Option<DecodeErrorView>> {
    match value {
        None => Err(None),
        Some(bytes) => match Status::decoded_document(document_of(bytes)) {
            Ok(status) => Ok(status),
            Err(e) => Err(Some(e)),
        },
    }
}

/// Turns what was read under the status key into the status of the cluster.
pub fn decode_cluster_status(value: Option<&[u8]>) -> (r: Result<Status, FetchError>)
    ensures
        r matches Ok(status) ==> value matches Some(bytes) && status_of(Some(bytes@)) == Ok::<
            _,
            Option<DecodeErrorView>,
        >(status),
        r matches Err(e) ==> (match value {
            None => e is StatusNotFound,
            Some(bytes) => e matches FetchError::Parsing(d) && status_of(Some(bytes@)) == Err::<
                Status,
                _,
            >(Some(d@)),
        }),
{
    match value {
        None => Err(FetchError::StatusNotFound),
        Some(bytes) => match Status::decode(bytes) {
            Ok(status) => Ok(status),
            Err(e) => Err(FetchError::Parsing(e)),
        },
    }
}

} // verus!
