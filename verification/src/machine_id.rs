//! The stable per-host identity: a UUID derived from a host-supplied secret
//! string by hashing, so that the raw secret is never stored or sent.

use vstd::prelude::*;

use crate::bytes::be_u128_at;
use crate::uuid_value::UuidValue;

verus! {

/// The SHA3-256 digest of a character sequence; the digest depends on the
/// characters alone.
pub uninterp spec fn sha3_256_of(s: Seq<char>) -> Seq<u8>;

/// Relies on `sha3::Sha3_256` (`Digest::new`, `update`, `finalize`): a
/// 32-byte digest that is a function of the input alone.
#[verifier::external_body]
fn sha3_256_digest(s: &str) -> (r: Vec<u8>)
    ensures
        r@ == sha3_256_of(s@),
        r@.len() == 32,
{
    let mut hasher = <sha3::Sha3_256 as sha3::Digest>::new();
    sha3::Digest::update(&mut hasher, s.as_bytes());
    let output = sha3::Digest::finalize(hasher);
    output.as_slice().to_vec()
}

/// The machine identity derived from a secret: the first 16 bytes of the
/// secret's SHA3-256 digest, read as a UUID.
pub open spec fn secure_uuid_of(s: Seq<char>) -> u128 {
    be_u128_at(sha3_256_of(s), 0, 16)
}

/// The stable, secret-derived, non-reversible host identifier.
#[derive(Clone, Copy, PartialEq, Eq, Structural, Debug)]
pub struct MachineId {
    pub secure_uuid: UuidValue,
}

impl MachineId {
    pub fn new(raw_value: String) -> (r: MachineId)
        ensures
            r.secure_uuid.value == secure_uuid_of(raw_value@),
    {
        let secure_uuid = calculate_secure_uuid(raw_value.as_str());
        MachineId { secure_uuid }
    }

    pub fn secure_uuid(&self) -> (r: UuidValue)
        ensures
            r == self.secure_uuid,
    {
        self.secure_uuid
    }
}

/// Hashes the secret and reads the first 16 digest bytes as a UUID.
pub fn calculate_secure_uuid(raw_value: &str) -> (r: UuidValue)
    ensures
        r.value == secure_uuid_of(raw_value@),
{
    let digest = sha3_256_digest(raw_value);
    UuidValue::from_be_bytes(digest.as_slice())
}

/// Machine identity is deterministic: equal secrets give equal identities,
/// because the identity is by definition a function of the secret's SHA3-256
/// digest truncated to 16 bytes.
pub proof fn lemma_machine_id_determinism(s1: Seq<char>, s2: Seq<char>)
    requires
        s1 == s2,
    ensures
        secure_uuid_of(s1) == secure_uuid_of(s2),
{
}

} // verus!
