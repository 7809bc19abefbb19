//! Capability identifiers and the registry of granted ones.

pub mod capability;
pub mod registry;

pub use capability::CapabilityId;
pub use registry::CapabilityRegistry;
