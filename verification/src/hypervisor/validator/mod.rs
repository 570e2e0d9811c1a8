pub mod error_log;
pub mod health;
