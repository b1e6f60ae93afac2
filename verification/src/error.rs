//! Error taxonomy: domain-level validation errors, storage-level errors
//! translated once at the storage boundary, and orchestration errors for
//! the multi-step transactional flows.

use vstd::prelude::*;

verus! {

/// Errors raised while validating or constructing domain records.
#[derive(Debug, Clone, PartialEq, Eq)]
pub enum DomainError {
    ServerError(String),
    NotFoundError(String),
    DatabaseError(String),
    DuplicateError(String),
    InvalidArgument(String),
    ValidationError(String),
}

/// Errors reported by the storage layer, one variant per condition the
/// callers distinguish.
#[derive(Debug, Clone, PartialEq, Eq)]
pub enum DatabaseError {
    /// No row matched a scoped lookup.
    NotFound,
    /// A unique constraint was violated.
    UniqueViolation,
    /// A foreign key constraint was violated.
    ForeignKeyViolation,
    RecordExists(String),
    /// A data invariant does not hold (a server-side bug signal).
    InvalidRecordState(String),
    /// An intermediate write inside a multi-step transaction affected the
    /// wrong number of rows; the whole transaction was rolled back.
    TransactionStepError(String),
    Configuration(String),
    Tls(String),
    Protocol(String),
    Encode(String),
    Decode(String),
    PoolTimedOut,
    PoolClosed,
    WorkerCrashed,
    InvalidArgument(String),
    Unknown(String),
}

/// Errors surfaced by the transfer/issuance orchestrator.
#[derive(Debug, Clone, PartialEq, Eq)]
pub enum OrchestrateError {
    ServerError(String),
    NotFoundError(String),
    InvalidArgument(String),
    DatabaseError(DatabaseError),
}

impl DomainError {
    /// The message carried by the error, for display at the service edge.
    pub fn message(&self) -> (r: String)
        ensures
            r@ == self.message_spec(),
    {
        match self {
            DomainError::ServerError(m) => m.clone(),
            DomainError::NotFoundError(m) => m.clone(),
            DomainError::DatabaseError(m) => m.clone(),
            DomainError::DuplicateError(m) => m.clone(),
            DomainError::InvalidArgument(m) => m.clone(),
            DomainError::ValidationError(m) => m.clone(),
        }
    }

    pub open spec fn message_spec(&self) -> Seq<char> {
        match self {
            DomainError::ServerError(m) => m@,
            DomainError::NotFoundError(m) => m@,
            DomainError::DatabaseError(m) => m@,
            DomainError::DuplicateError(m) => m@,
            DomainError::InvalidArgument(m) => m@,
            DomainError::ValidationError(m) => m@,
        }
    }
}

} // verus!
