//! Error taxonomy shared by every component of the oracle core.
//!
//! Validation failures on the consensus path degrade to "no aggregate" or a
//! rejected submission and are never raised through this type; the variants
//! here cover the hard failures (cryptographic inconsistency, bad
//! configuration, malformed data) that must surface to the caller.

use vstd::prelude::*;

verus! {

/// Error raised by the oracle core.
#[derive(Debug, Clone, PartialEq, Eq)]
pub enum OracleVmError {
    /// Transport-level failure reported by a caller-supplied adapter.
    Network(String),
    /// A value could not be encoded or decoded.
    Serialization(String),
    /// A cryptographic operation failed; never silently ignored.
    Crypto(String),
    /// Failure reported by the Bitcoin-facing layer.
    Bitcoin(String),
    /// An oracle-level rule was broken.
    Oracle(String),
    /// Price aggregation could not be carried out.
    Aggregation(String),
    /// A configuration value is absent or malformed.
    Config(String),
    /// Input data failed validation.
    InvalidData(String),
    /// An operation ran out of time.
    Timeout,
    /// An unclassified internal failure.
    Internal(String),
}

impl OracleVmError {
    /// A short, stable label naming the error's category.
    pub fn category(&self) -> (r: &'static str)
        ensures
            self is Network ==> r@ == "network"@,
            self is Serialization ==> r@ == "serialization"@,
            self is Crypto ==> r@ == "crypto"@,
            self is Bitcoin ==> r@ == "bitcoin"@,
            self is Oracle ==> r@ == "oracle"@,
            self is Aggregation ==> r@ == "aggregation"@,
            self is Config ==> r@ == "config"@,
            self is InvalidData ==> r@ == "invalid_data"@,
            self is Timeout ==> r@ == "timeout"@,
            self is Internal ==> r@ == "internal"@,
    {
        match self {
            OracleVmError::Network(_) => "network",
            OracleVmError::Serialization(_) => "serialization",
            OracleVmError::Crypto(_) => "crypto",
            OracleVmError::Bitcoin(_) => "bitcoin",
            OracleVmError::Oracle(_) => "oracle",
            OracleVmError::Aggregation(_) => "aggregation",
            OracleVmError::Config(_) => "config",
            OracleVmError::InvalidData(_) => "invalid_data",
            OracleVmError::Timeout => "timeout",
            OracleVmError::Internal(_) => "internal",
        }
    }
}

} // verus!
