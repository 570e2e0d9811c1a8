use vstd::prelude::*;

pub mod aeon;
pub mod attestation;
pub mod constant_time;
pub mod daemon;
pub mod env;
pub mod error;
pub mod hypervisor;
pub mod ids;
pub mod instinct;
pub mod json;
pub mod mcp;
pub mod paths;
pub mod profile;
pub mod security;
pub mod session;
pub mod text;

verus! {

/// The library's version.
pub const VERSION: &'static str = "0.1.0";

/// The library's name.
pub const NAME: &'static str = "nexus";

} // verus!
