//! The proof-of-work hash family, taken from `drillx_2`.

use vstd::prelude::*;

verus! {

/// `equix::SolverMemory`, the solver's temporary space; nothing is known of
/// what it holds.
#[verifier::external_type_specification]
#[verifier::external_body]
pub struct ExSolverMemory(drillx_2::equix::SolverMemory);

/// One hash of the family: the digest that is submitted, and the 32 bytes
/// whose leading zero bits score it.
#[derive(Clone, Copy, Debug, PartialEq, Eq)]
pub struct PowHash {
    pub d: [u8; 16],
    pub h: [u8; 32],
}

/// What `drillx_2::get_hashes_with_memory` returns for a challenge and a nonce,
/// in the order in which it returns them.
pub uninterp spec fn candidate_hashes(challenge: Seq<u8>, nonce: u64) -> Seq<PowHash>;

/// The number of leading zero bits of one byte.
pub open spec fn byte_leading_zeros(byte: u8) -> nat {
    if byte >= 128 {
        0
    } else if byte >= 64 {
        1
    } else if byte >= 32 {
        2
    } else if byte >= 16 {
        3
    } else if byte >= 8 {
        4
    } else if byte >= 4 {
        5
    } else if byte >= 2 {
        6
    } else if byte >= 1 {
        7
    } else {
        8
    }
}

/// The number of zero bits before the first set bit of `bytes`, read from the
/// first byte on and in each byte from the high bit down.
pub open spec fn leading_zero_bits(bytes: Seq<u8>) -> nat
    decreases bytes.len(),
{
    if bytes.len() == 0 {
        0
    } else if bytes[0] == 0 {
        8 + leading_zero_bits(bytes.drop_first())
    } else {
        byte_leading_zeros(bytes[0])
    }
}

/// Calls `drillx_2::difficulty`, which walks the 32 bytes from the first, adds
/// each byte's leading zeros and stops after the first byte that is not zero.
#[verifier::external_body]
fn count_leading_zeros(h: [u8; 32]) -> (zeros: u32)
    ensures
        zeros == leading_zero_bits(h@),
{
    drillx_2::difficulty(h)
}

impl PowHash {
    /// The score of this hash: the leading zero bits of `h`.
    pub open spec fn difficulty_spec(self) -> u32 {
        leading_zero_bits(self.h@) as u32
    }

    /// The score of this hash, as `drillx_2` counts it.
    #[verifier::when_used_as_spec(difficulty_spec)]
    pub fn difficulty(self) -> (zeros: u32)
        ensures
            zeros == self.difficulty_spec(),
            zeros == leading_zero_bits(self.h@),
    {
        count_leading_zeros(self.h)
    }
}

/// Scratch space of the solver: one per search thread, used again for every
/// nonce and never shared.
pub struct Scratch {
    memory: drillx_2::equix::SolverMemory,
}

/// Calls `equix::SolverMemory::new`, which allocates the solver's temporary
/// space.
#[verifier::external_body]
fn new_solver_memory() -> drillx_2::equix::SolverMemory {
    drillx_2::equix::SolverMemory::new()
}

/// Calls `drillx_2::get_hashes_with_memory` on the challenge and the eight
/// little-endian bytes of the nonce. The solver fills the memory anew on each
/// call, so the hashes depend on the challenge and the nonce alone; it hands
/// out at most eight solutions, one hash each.
#[verifier::external_body]
fn get_hashes(memory: &mut drillx_2::equix::SolverMemory, challenge: &[u8; 32], nonce: u64) -> (found:
    Vec<PowHash>)
    ensures
        found@ == candidate_hashes(challenge@, nonce),
        found@.len() <= 8,
{
    let hashes = drillx_2::get_hashes_with_memory(memory, challenge, &nonce.to_le_bytes());
    hashes.into_iter().map(|hx| PowHash { d: hx.d, h: hx.h }).collect()
}

impl Scratch {
    /// Fresh scratch space.
    pub fn new() -> Self {
        Scratch { memory: new_solver_memory() }
    }

    /// The hashes of one nonce under a challenge.
    pub fn hashes(&mut self, challenge: &[u8; 32], nonce: u64) -> (found: Vec<PowHash>)
        ensures
            found@ == candidate_hashes(challenge@, nonce),
            found@.len() <= 8,
    {
        get_hashes(&mut self.memory, challenge, nonce)
    }
}

} // verus!
