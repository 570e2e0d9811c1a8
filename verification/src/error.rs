//! The errors of this crate.

use vstd::prelude::*;

verus! {

/// What a request can fail with.
#[derive(Debug, Clone, PartialEq, Eq)]
pub enum NexusError {
    /// A token, a key or a signature is not valid.
    InvalidCapability(String),
    /// Something is not permitted.
    CapabilityDenied(String),
    /// A request cannot be carried out as configured.
    ConfigError(String),
    /// A module failed to load or to run.
    WasmError(String),
    /// A path is missing, of the wrong kind or out of bounds.
    FilesystemError(String),
    /// A snapshot cannot be restored.
    RollbackFailed(String),
    /// A value cannot be written or read.
    SerializationError(String),
    /// The wall-clock limit was reached.
    Timeout(String),
    /// The fuel budget was used up.
    FuelExhausted(String),
    /// The memory cap was exceeded.
    MemoryLimitExceeded(String),
    /// Another budget was used up.
    ResourceExhausted(String),
    /// Anything else.
    Other(String),
}

/// An error, by its contents.
pub enum Fault {
    InvalidCapability(Seq<char>),
    CapabilityDenied(Seq<char>),
    ConfigError(Seq<char>),
    WasmError(Seq<char>),
    FilesystemError(Seq<char>),
    RollbackFailed(Seq<char>),
    SerializationError(Seq<char>),
    Timeout(Seq<char>),
    FuelExhausted(Seq<char>),
    MemoryLimitExceeded(Seq<char>),
    ResourceExhausted(Seq<char>),
    Other(Seq<char>),
}

impl View for NexusError {
    type V = Fault;

    open spec fn view(&self) -> Fault {
        match self {
            NexusError::InvalidCapability(m) => Fault::InvalidCapability(m@),
            NexusError::CapabilityDenied(m) => Fault::CapabilityDenied(m@),
            NexusError::ConfigError(m) => Fault::ConfigError(m@),
            NexusError::WasmError(m) => Fault::WasmError(m@),
            NexusError::FilesystemError(m) => Fault::FilesystemError(m@),
            NexusError::RollbackFailed(m) => Fault::RollbackFailed(m@),
            NexusError::SerializationError(m) => Fault::SerializationError(m@),
            NexusError::Timeout(m) => Fault::Timeout(m@),
            NexusError::FuelExhausted(m) => Fault::FuelExhausted(m@),
            NexusError::MemoryLimitExceeded(m) => Fault::MemoryLimitExceeded(m@),
            NexusError::ResourceExhausted(m) => Fault::ResourceExhausted(m@),
            NexusError::Other(m) => Fault::Other(m@),
        }
    }
}

} // verus!
