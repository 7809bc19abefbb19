//! Resource limits of one machine instance.

use vstd::prelude::*;

verus! {

/// Limits that the machine enforces on every instruction.
#[derive(Debug, Clone, Copy)]
pub struct VreConfig {
    /// Largest number of values on the operand stack.
    pub max_stack_size: usize,
    /// Number of local slots in each call frame.
    pub max_locals: usize,
    /// Largest number of call frames, the root frame included.
    pub max_call_depth: usize,
}

impl VreConfig {
    /// The default limits: 1024 stack slots, 256 locals, 256 frames.
    pub fn new() -> (c: VreConfig)
        ensures
            c.max_stack_size == 1024,
            c.max_locals == 256,
            c.max_call_depth == 256,
    {
        VreConfig { max_stack_size: 1024, max_locals: 256, max_call_depth: 256 }
    }
}

impl Default for VreConfig {
    fn default() -> (c: VreConfig)
        ensures
            c.max_stack_size == 1024,
            c.max_locals == 256,
            c.max_call_depth == 256,
    {
        VreConfig::new()
    }
}

} // verus!
