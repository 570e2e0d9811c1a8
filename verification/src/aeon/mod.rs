//! The memory service: where it is, what is asked of it, and what is told to
//! it.

pub mod config;
pub mod memory;
pub mod timeline;
