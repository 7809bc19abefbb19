//! The identifier of one class of external call.

use vstd::prelude::*;
use vstd::std_specs::convert::FromSpecImpl;

verus! {

/// A small, stable number that names one permission.
#[derive(Debug, Clone, Copy, PartialEq, Eq, Structural, Hash)]
pub struct CapabilityId(pub u8);

impl From<u8> for CapabilityId {
    fn from(b: u8) -> (id: CapabilityId) {
        CapabilityId(b)
    }
}

impl FromSpecImpl<u8> for CapabilityId {
    open spec fn obeys_from_spec() -> bool {
        true
    }

    open spec fn from_spec(b: u8) -> CapabilityId {
        CapabilityId(b)
    }
}

impl From<CapabilityId> for u8 {
    fn from(c: CapabilityId) -> (b: u8) {
        c.0
    }
}

impl FromSpecImpl<CapabilityId> for u8 {
    open spec fn obeys_from_spec() -> bool {
        true
    }

    open spec fn from_spec(c: CapabilityId) -> u8 {
        c.0
    }
}

} // verus!
