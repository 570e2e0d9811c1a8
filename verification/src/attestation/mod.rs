//! Runtime attestation capsules.

pub mod canonical;
pub mod digest;
pub mod receipt;
pub mod redaction;
pub mod schema;
pub mod scorecard;
pub mod signing;
