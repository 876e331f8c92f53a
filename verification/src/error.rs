//! What can go wrong: one error type for the whole library.

use crate::text::concat2;
use vstd::prelude::*;

verus! {

/// The class of a host I/O failure.
#[derive(Debug, Clone, Copy, PartialEq, Eq, Structural)]
pub enum IoErrorKind {
    /// Something the host should provide is missing.
    NotFound,
    /// Any other failure.
    Other,
}

/// A host I/O failure: its class and its text.
#[derive(Debug)]
pub struct IoError {
    pub kind: IoErrorKind,
    pub text: String,
}

#[derive(Debug)]
pub enum StorageError {
    /// The host's files or directories failed.
    Io(IoError),
    /// Sealing or opening a value failed.
    Crypto(String),
    /// A value did not parse.
    Parse(String),
    /// Vault-layer error.
    Vault(String),
}

/// A [`StorageError`] as plain mathematics.
#[verifier::ext_equal]
pub enum StorageErrorView {
    Io { kind: IoErrorKind, text: Seq<char> },
    Crypto(Seq<char>),
    Parse(Seq<char>),
    Vault(Seq<char>),
}

impl View for StorageError {
    type V = StorageErrorView;

    open spec fn view(&self) -> StorageErrorView {
        match self {
            StorageError::Io(e) => StorageErrorView::Io { kind: e.kind, text: e.text@ },
            StorageError::Crypto(s) => StorageErrorView::Crypto(s@),
            StorageError::Parse(s) => StorageErrorView::Parse(s@),
            StorageError::Vault(s) => StorageErrorView::Vault(s@),
        }
    }
}

impl StorageError {
    /// The line shown for this error.
    pub open spec fn message_text(&self) -> Seq<char> {
        match self {
            StorageError::Io(e) => "IO: "@ + e.text@,
            StorageError::Crypto(s) => "Crypto: "@ + s@,
            StorageError::Parse(s) => "Parse: "@ + s@,
            StorageError::Vault(s) => "Vault: "@ + s@,
        }
    }

    /// The error as one line: the layer that failed, then what it said.
    pub fn message(&self) -> (line: String)
        ensures
            line@ == self.message_text(),
            match self {
                StorageError::Io(e) => line@ == "IO: "@ + e.text@,
                StorageError::Crypto(s) => line@ == "Crypto: "@ + s@,
                StorageError::Parse(s) => line@ == "Parse: "@ + s@,
                StorageError::Vault(s) => line@ == "Vault: "@ + s@,
            },
    {
        match self {
            StorageError::Io(e) => concat2("IO: ", e.text.as_str()),
            StorageError::Crypto(s) => concat2("Crypto: ", s.as_str()),
            StorageError::Parse(s) => concat2("Parse: ", s.as_str()),
            StorageError::Vault(s) => concat2("Vault: ", s.as_str()),
        }
    }
}

/// The failure to lock `what`, for the reason `cause`.
pub fn lock_error(what: &str, cause: &str) -> (e: StorageError)
    ensures
        e@ == (StorageErrorView::Io { kind: IoErrorKind::Other, text: what@ + ": "@ + cause@ }),
{
    let head = concat2(what, ": ");
    StorageError::Io(IoError { kind: IoErrorKind::Other, text: concat2(head.as_str(), cause) })
}

/// A host I/O failure.
impl From<IoError> for StorageError {
    fn from(e: IoError) -> (error: StorageError) {
        StorageError::Io(e)
    }
}

impl vstd::std_specs::convert::FromSpecImpl<IoError> for StorageError {
    open spec fn obeys_from_spec() -> bool {
        true
    }

    open spec fn from_spec(e: IoError) -> StorageError {
        StorageError::Io(e)
    }
}

/// A bare text is the vault layer's complaint.
impl From<String> for StorageError {
    fn from(s: String) -> (e: StorageError) {
        StorageError::Vault(s)
    }
}

impl vstd::std_specs::convert::FromSpecImpl<String> for StorageError {
    open spec fn obeys_from_spec() -> bool {
        true
    }

    open spec fn from_spec(s: String) -> StorageError {
        StorageError::Vault(s)
    }
}

/// An error's view keeps all of it: two errors with one view are of one layer, say the same, and show
/// the same line.
pub proof fn error_views_tell_errors_apart(a: StorageError, b: StorageError)
    requires
        a@ == b@,
    ensures
        match (a, b) {
            (StorageError::Io(x), StorageError::Io(y)) => x.kind == y.kind && x.text@ == y.text@,
            (StorageError::Crypto(x), StorageError::Crypto(y)) => x@ == y@,
            (StorageError::Parse(x), StorageError::Parse(y)) => x@ == y@,
            (StorageError::Vault(x), StorageError::Vault(y)) => x@ == y@,
            _ => false,
        },
        a.message_text() == b.message_text(),
{
}

/// An error's line is the layer that failed and, whole, what it said.
pub proof fn errors_name_their_layer(e: StorageError)
    ensures
        match e {
            StorageError::Io(io) => e.message_text() == "IO: "@ + io.text@,
            StorageError::Crypto(said) => e.message_text() == "Crypto: "@ + said@,
            StorageError::Parse(said) => e.message_text() == "Parse: "@ + said@,
            StorageError::Vault(said) => e.message_text() == "Vault: "@ + said@,
        },
{
}

} // verus!
