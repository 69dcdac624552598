//! The per-process identity: a random UUID, fixed for the process lifetime,
//! distinguishing concurrently running agent instances on one host.

use vstd::prelude::*;

use crate::uuid_value::UuidValue;

verus! {

/// A per-process-lifetime random identifier.
#[derive(Clone, Copy, PartialEq, Eq, Structural, Debug)]
pub struct AgentId {
    pub raw_value: UuidValue,
}

impl AgentId {
    pub fn new(raw_value: UuidValue) -> (r: AgentId)
        ensures
            r.raw_value == raw_value,
    {
        AgentId { raw_value }
    }

    pub fn raw_value(&self) -> (r: UuidValue)
        ensures
            r == self.raw_value,
    {
        self.raw_value
    }
}

/// Relies on `uuid::Uuid::new_v4` and `as_u128`: a random value whose
/// version nibble is 4 and whose variant bits are the RFC variant; nothing
/// else can be said of a random draw.
#[verifier::external_body]
fn generate_v4_value() -> (r: u128)
    ensures
        (r >> 76u128) & 0xf == 4,
        (r >> 62u128) & 0x3 == 2,
{
    uuid::Uuid::new_v4().as_u128()
}

impl Default for AgentId {
    /// A fresh random identity.
    fn default() -> (r: AgentId)
        ensures
            (r.raw_value.value >> 76u128) & 0xf == 4,
            (r.raw_value.value >> 62u128) & 0x3 == 2,
    {
        AgentId::new(UuidValue::new(generate_v4_value()))
    }
}

} // verus!
