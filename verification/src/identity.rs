//! The worker's identity: an Ed25519 key pair, held as its 64 bytes, with the
//! signing and printing that `solana_sdk` does on it.

use solana_sdk::pubkey::Pubkey;
use solana_sdk::signature::Keypair;
use solana_sdk::signer::Signer;
use vstd::prelude::*;

verus! {

/// The public key of the key pair that `keypair` spells, as
/// `Keypair::from_bytes` reads it; `None` where it reads none.
pub uninterp spec fn keypair_public_key(keypair: Seq<u8>) -> Option<Seq<u8>>;

/// The `Display` form of the signature that `Signer::sign_message` gives to
/// `message` under the key pair that `keypair` spells.
pub uninterp spec fn signature_text(keypair: Seq<u8>, message: Seq<u8>) -> Seq<u8>;

/// The `Display` form of the `Pubkey` made of these 32 bytes.
pub uninterp spec fn public_key_text(public_key: Seq<u8>) -> Seq<u8>;

/// Calls `Keypair::from_bytes` and, where that gives a key pair, hands out the
/// 32 bytes of `Signer::pubkey` on it.
#[verifier::external_body]
fn read_public_key(keypair: &[u8]) -> (public_key: Option<[u8; 32]>)
    ensures
        match public_key {
            Some(key) => keypair_public_key(keypair@) == Some(key@),
            None => keypair_public_key(keypair@) is None,
        },
{
    match Keypair::from_bytes(keypair) {
        Ok(pair) => Some(pair.pubkey().to_bytes()),
        Err(_) => None,
    }
}

/// Calls `Signer::sign_message` on the key pair that `Keypair::from_bytes`
/// reads from `keypair` and hands out the bytes of the signature's `Display`
/// form. Ed25519 signs without chance: the same key and message give the same
/// signature.
#[verifier::external_body]
fn sign_as_text(keypair: &[u8], message: &[u8]) -> (text: Vec<u8>)
    requires
        keypair_public_key(keypair@) is Some,
    ensures
        text@ == signature_text(keypair@, message@),
{
    let pair = Keypair::from_bytes(keypair).unwrap();
    pair.sign_message(message).to_string().into_bytes()
}

/// Hands out the bytes of the `Display` form of the `Pubkey` made of
/// `public_key`.
#[verifier::external_body]
fn print_public_key(public_key: &[u8; 32]) -> (text: Vec<u8>)
    ensures
        text@ == public_key_text(public_key@),
{
    Pubkey::new_from_array(*public_key).to_string().into_bytes()
}

/// A key pair that signs for the worker, and its public key.
pub struct Identity {
    keypair: Vec<u8>,
    public_key: [u8; 32],
}

impl Identity {
    #[verifier::type_invariant]
    spec fn well_formed(self) -> bool {
        keypair_public_key(self.keypair@) == Some(self.public_key@)
    }

    /// The bytes of the key pair.
    pub closed spec fn keypair_bytes(self) -> Seq<u8> {
        self.keypair@
    }

    /// The 32 bytes of the public key.
    pub closed spec fn public_key_bytes(self) -> Seq<u8> {
        self.public_key@
    }

    /// Takes the bytes of a key pair: the secret key, then the public key
    /// that belongs to it. Bytes that spell no key pair give no identity.
    pub fn from_keypair_bytes(keypair: &[u8]) -> (identity: Option<Identity>)
        ensures
            identity is Some <==> keypair_public_key(keypair@) is Some,
            identity matches Some(id) ==> id.keypair_bytes() == keypair@ && Some(
                id.public_key_bytes(),
            ) == keypair_public_key(keypair@),
    {
        match read_public_key(keypair) {
            Some(public_key) => {
                let held = crate::codec::read_rest(keypair, 0);
                assert(held@ =~= keypair@);
                Some(Identity { keypair: held, public_key })
            },
            None => None,
        }
    }

    /// The public key.
    pub fn public_key(&self) -> (key: [u8; 32])
        ensures
            key@ == self.public_key_bytes(),
    {
        self.public_key
    }

    /// The printed form of the public key.
    pub fn public_key_text(&self) -> (text: Vec<u8>)
        ensures
            text@ == public_key_text(self.public_key_bytes()),
    {
        print_public_key(&self.public_key)
    }

    /// Signs `message` and hands out the signature in its printed form.
    pub fn sign(&self, message: &[u8]) -> (text: Vec<u8>)
        ensures
            text@ == signature_text(self.keypair_bytes(), message@),
    {
        proof {
            use_type_invariant(self);
        }
        sign_as_text(self.keypair.as_slice(), message)
    }
}

} // verus!
