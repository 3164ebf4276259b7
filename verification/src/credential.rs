//! The credential binder: the frames and the handshake header that carry the
//! worker's signature. It keeps nothing between calls.

use crate::codec::{
    encode_best_solution, encode_ready, encode_solution_message, encode_timestamp, put_bytes,
    ready_wire, solution_message, solution_wire,
};
use crate::identity::{public_key_text, signature_text, Identity};
use crate::le::u64_le;
use crate::search::BestRecord;
use base64::prelude::{Engine, BASE64_STANDARD};
use vstd::prelude::*;
use vstd::string::StringExecFns;

verus! {

/// What `BASE64_STANDARD.encode` makes of `input`.
pub uninterp spec fn base64_text(input: Seq<u8>) -> Seq<char>;

/// Whether the base64 form of `len` bytes still has a length that a `usize`
/// holds.
pub open spec fn encodable(len: nat) -> bool {
    len / 3 * 4 + 4 <= usize::MAX
}

/// Calls `Engine::encode` on `BASE64_STANDARD`, which fails only where the
/// length of its result overflows.
#[verifier::external_body]
fn encode_base64(input: &[u8]) -> (text: String)
    requires
        encodable(input@.len()),
    ensures
        text@ == base64_text(input@),
{
    BASE64_STANDARD.encode(input)
}

/// The `Ready` frame of `identity` at `now`: it carries the signature of the
/// eight bytes of `now`.
pub open spec fn ready_frame_of(identity: Identity, now: u64) -> Seq<u8> {
    ready_wire(
        identity.public_key_bytes(),
        now,
        signature_text(identity.keypair_bytes(), u64_le(now)),
    )
}

/// The `BestSolution` frame of `identity` for `best`: it carries the signature
/// of the digest and the nonce.
pub open spec fn solution_frame_of(identity: Identity, best: BestRecord) -> Seq<u8> {
    solution_wire(
        best.hash@,
        best.nonce,
        identity.public_key_bytes(),
        signature_text(identity.keypair_bytes(), solution_message(best.hash@, best.nonce)),
    )
}

/// What is encoded for the handshake: the printed public key, a colon, and the
/// printed signature of the eight bytes of the server's timestamp.
pub open spec fn credential_of(identity: Identity, server_timestamp: u64) -> Seq<u8> {
    public_key_text(identity.public_key_bytes()) + seq![0x3au8] + signature_text(
        identity.keypair_bytes(),
        u64_le(server_timestamp),
    )
}

/// The value of the `Authorization` header of the handshake.
pub open spec fn authorization_of(identity: Identity, server_timestamp: u64) -> Seq<char> {
    "Basic "@ + base64_text(credential_of(identity, server_timestamp))
}

/// Builds the `Ready` frame for the wall clock `now`, in seconds since the
/// Unix epoch.
pub fn ready_frame(identity: &Identity, now: u64) -> (frame: Vec<u8>)
    ensures
        frame@ == ready_frame_of(*identity, now),
{
    let message = encode_timestamp(now);
    let signature = identity.sign(message.as_slice());
    let public_key = identity.public_key();
    encode_ready(&public_key, now, signature.as_slice())
}

/// Builds the `BestSolution` frame for a best record.
pub fn solution_frame(identity: &Identity, best: &BestRecord) -> (frame: Vec<u8>)
    ensures
        frame@ == solution_frame_of(*identity, *best),
{
    let message = encode_solution_message(&best.hash, best.nonce);
    let signature = identity.sign(message.as_slice());
    let public_key = identity.public_key();
    encode_best_solution(&best.hash, best.nonce, &public_key, signature.as_slice())
}

/// Builds the value of the `Authorization` header for the timestamp that the
/// server gave: `Basic`, a space, and the credential in base64. There is none
/// only where the credential is too long for base64 to encode.
pub fn authorization(identity: &Identity, server_timestamp: u64) -> (header: Option<String>)
    ensures
        header is Some <==> encodable(credential_of(*identity, server_timestamp).len()),
        header matches Some(value) ==> value@ == authorization_of(*identity, server_timestamp),
{
    let message = encode_timestamp(server_timestamp);
    let signature = identity.sign(message.as_slice());
    let mut credential = identity.public_key_text();
    credential.push(0x3au8);
    put_bytes(&mut credential, signature.as_slice());
    assert(credential@ =~= credential_of(*identity, server_timestamp));
    if credential.len() / 3 > (usize::MAX - 4) / 4 {
        return None;
    }
    let encoded = encode_base64(credential.as_slice());
    let header = String::from_str("Basic ").concat(encoded.as_str());
    Some(header)
}

} // verus!
