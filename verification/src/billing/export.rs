//! Export seam: sending rated records to outside systems.

use vstd::prelude::*;
use vstd::string::*;
use crate::billing::rating::RatedUsageRecord;

verus! {

/// Exports rated records (not raw observations).
pub trait RatedRecordExporter {
    fn export(&self, record: &RatedUsageRecord) -> Result<(), ExportError>;
}

/// Why an export failed.
#[derive(Clone, Debug, PartialEq, Eq)]
pub enum ExportError {
    ConnectionError(String),
    AuthError(String),
    InvalidData(String),
    RateLimited { retry_after_secs: Option<u64> },
    Other(String),
}

/// The message of an export error.
pub open spec fn export_error_message(e: ExportError) -> Seq<char> {
    match e {
        ExportError::ConnectionError(s) => "Export connection error: "@ + s@,
        ExportError::AuthError(s) => "Export auth error: "@ + s@,
        ExportError::InvalidData(s) => "Export invalid data: "@ + s@,
        ExportError::RateLimited { .. } => "Export rate limited"@,
        ExportError::Other(s) => "Export error: "@ + s@,
    }
}

impl ExportError {
    /// The human-readable message.
    pub fn message(&self) -> (m: String)
        ensures
            m@ == export_error_message(*self),
    {
        match self {
            ExportError::RateLimited { .. } => String::from_str("Export rate limited"),
            ExportError::ConnectionError(s) => {
                let mut m = String::from_str("Export connection error: ");
                m.append(s.as_str());
                m
            },
            ExportError::AuthError(s) => {
                let mut m = String::from_str("Export auth error: ");
                m.append(s.as_str());
                m
            },
            ExportError::InvalidData(s) => {
                let mut m = String::from_str("Export invalid data: ");
                m.append(s.as_str());
                m
            },
            ExportError::Other(s) => {
                let mut m = String::from_str("Export error: ");
                m.append(s.as_str());
                m
            },
        }
    }
}

} // verus!
