//! Loading a program from bytes and validating it before it may run.

pub mod format;
pub mod decode;
pub mod flow;
pub mod summary;
pub mod validate;
pub mod recursion;
pub mod encode;
pub mod loader;

pub use loader::{BytecodeLoader, LoadedBytecode};
