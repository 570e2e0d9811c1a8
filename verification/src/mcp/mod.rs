//! The tools that callers can use: what each accepts, what it refuses, and what
//! it answers.

pub mod capability;
pub mod error;
pub mod execute;
pub mod gate;
pub mod http_auth;
pub mod instinct_tools;
pub mod iq;
pub mod iq_run;
pub mod params;
pub mod postgres;
pub mod registry;
pub mod rollback_run;
pub mod server;
pub mod snapshot_tools;
pub mod tenants;
pub mod timeline_run;
pub mod tokens;
pub mod wasi_run;
