//! The proxy's error type, as far as the verified decisions read it.

use vstd::prelude::*;

verus! {

/// Errors of the proxy. The transport and database variants carry the
/// underlying error's message; the decisions here read only the variant.
#[derive(Debug, Clone)]
pub enum ProxyError {
    /// An HTTP request to the upstream failed.
    Http(String),
    /// A database operation failed.
    Database(String),
    /// Any other failure, with its message.
    Other(String),
    /// A reconciliation claim was superseded by a newer one.
    StaleClaim { job_id: i64, claim_generation: i64 },
}

} // verus!
