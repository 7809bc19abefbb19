//! The set of capabilities that the host has granted.

use vstd::prelude::*;
use std::collections::HashSet;
use crate::error::{VreError, VreResult};
use super::capability::CapabilityId;

verus! {

broadcast use vstd::std_specs::hash::group_hash_axioms;

/// Granted capability ids. Nothing is granted until the host says so.
#[derive(Debug)]
pub struct CapabilityRegistry {
    granted: HashSet<u8>,
}

impl CapabilityRegistry {
    /// The ids that are granted.
    pub closed spec fn view(&self) -> Set<u8> {
        self.granted@
    }

    /// A registry that denies everything.
    pub fn new() -> (r: CapabilityRegistry)
        ensures
            r@ == Set::<u8>::empty(),
    {
        CapabilityRegistry { granted: HashSet::new() }
    }

    /// Grants `id`.
    pub fn grant(&mut self, id: CapabilityId)
        ensures
            final(self)@ == old(self)@.insert(id.0),
    {
        self.granted.insert(id.0);
    }

    /// Takes `id` back.
    pub fn revoke(&mut self, id: &CapabilityId)
        ensures
            final(self)@ == old(self)@.remove(id.0),
    {
        self.granted.remove(&id.0);
    }

    /// Whether `raw_id` is granted.
    pub fn is_granted(&self, raw_id: u8) -> (b: bool)
        ensures
            b == self@.contains(raw_id),
    {
        self.granted.contains(&raw_id)
    }

    /// Succeeds exactly when `raw_id` is granted, and fails closed otherwise.
    pub fn check(&self, raw_id: u8) -> (res: VreResult<()>)
        ensures
            self@.contains(raw_id) ==> res == Ok::<(), VreError>(()),
            !self@.contains(raw_id) ==> res == Err::<(), VreError>(VreError::CapabilityDenied),
    {
        if self.granted.contains(&raw_id) {
            Ok(())
        } else {
            Err(VreError::CapabilityDenied)
        }
    }
}

} // verus!
