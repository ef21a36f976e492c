//! When connecting to the database is tried again.

use vstd::prelude::*;

verus! {

/// Why a connection to the database failed, by the kind of Diesel's
/// `ConnectionError`.
#[derive(Debug, Clone, Copy, PartialEq, Eq, Structural)]
pub enum ConnectionErrorKind {
    /// The connection URL contained a NUL byte.
    InvalidCString,
    /// The database refused the connection or could not be reached.
    BadConnection,
    /// The connection URL could not be parsed.
    InvalidConnectionUrl,
    /// The connection could not be configured.
    CouldntSetupConfiguration,
    /// A kind that a later Diesel added.
    Other,
}

/// Whether a failed connection attempt is worth another try: only when the
/// database could not be reached; every other failure would fail again.
pub fn is_retryable(kind: ConnectionErrorKind) -> (retry: bool)
    ensures
        retry == (kind == ConnectionErrorKind::BadConnection),
{
    match kind {
        ConnectionErrorKind::BadConnection => true,
        ConnectionErrorKind::CouldntSetupConfiguration
        | ConnectionErrorKind::InvalidConnectionUrl
        | ConnectionErrorKind::InvalidCString => false,
        ConnectionErrorKind::Other => false,
    }
}

} // verus!
