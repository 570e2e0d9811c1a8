pub mod capsule;
pub mod config;
pub mod execution;
pub mod failure_mode;
pub mod llm_policy;
pub mod memory_text;
pub mod proof_run;
pub mod recovery;
pub mod retry;
pub mod snapshots;
pub mod speculative;
pub mod state;
pub mod tool;
pub mod validator;
pub mod wasi;
