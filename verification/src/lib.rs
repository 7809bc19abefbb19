//! A deterministic, sandboxed bytecode engine.
//!
//! Untrusted bytecode computes on an operand stack and per-frame locals; every
//! effect that the host can observe passes through a recorded event and a
//! capability check. The loader rejects malformed programs before they run.

pub mod error;
pub mod config;
pub mod bytecode;
pub mod capability;
pub mod vm;
pub mod loader;
pub mod vol;
pub mod policy;
pub mod allow_list;
pub mod soundness;

pub use error::{VreError, VreResult};
pub use config::VreConfig;
pub use capability::registry::CapabilityRegistry;
pub use loader::loader::BytecodeLoader;
