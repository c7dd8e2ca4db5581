//! Storage seams: appending observations and rated records idempotently.

use vstd::prelude::*;
use vstd::string::*;
use crate::billing::observation::UsageObservation;
use crate::billing::rating::RatedUsageRecord;

verus! {

/// Appends raw observations; a repeated event id is a success that stores nothing.
pub trait ObservationStore {
    fn append_observation(&self, observation: UsageObservation) -> Result<StoreResult, StoreError>;
}

/// Appends rated records.
pub trait RatedRecordStore {
    fn append_rated_record(&self, record: RatedUsageRecord) -> Result<StoreResult, StoreError>;
}

/// What an append did.
#[derive(Clone, Copy, Debug, PartialEq, Eq, Structural)]
pub enum StoreResult {
    Appended,
    AlreadyExists,
}

/// Why an append failed.
#[derive(Clone, Debug, PartialEq, Eq)]
pub enum StoreError {
    ConnectionError(String),
    IntegrityError(String),
    SerializationError(String),
    Other(String),
}

/// The message of a storage error.
pub open spec fn store_error_message(e: StoreError) -> Seq<char> {
    match e {
        StoreError::ConnectionError(s) => "Connection error: "@ + s@,
        StoreError::IntegrityError(s) => "Integrity error: "@ + s@,
        StoreError::SerializationError(s) => "Serialization error: "@ + s@,
        StoreError::Other(s) => "Store error: "@ + s@,
    }
}

impl StoreError {
    /// The human-readable message.
    pub fn message(&self) -> (m: String)
        ensures
            m@ == store_error_message(*self),
    {
        let (prefix, s) = match self {
            StoreError::ConnectionError(s) => ("Connection error: ", s),
            StoreError::IntegrityError(s) => ("Integrity error: ", s),
            StoreError::SerializationError(s) => ("Serialization error: ", s),
            StoreError::Other(s) => ("Store error: ", s),
        };
        let mut m = String::from_str(prefix);
        m.append(s.as_str());
        m
    }
}

} // verus!
