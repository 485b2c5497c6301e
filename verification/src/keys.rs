//! BLS keys and signatures, as the bytes of their compressed form.

use crate::octets::array_eq;
use vstd::prelude::*;

verus! {

/// A BLS public key: 48 bytes.
#[derive(Clone, Copy, Debug, PartialEq, Eq, PartialOrd, Ord, Hash)]
pub struct PublicKey(pub [u8; 48]);

impl View for PublicKey {
    type V = Seq<u8>;

    open spec fn view(&self) -> Seq<u8> {
        self.0@
    }
}

impl PublicKey {
    /// Whether two keys are the same.
    pub fn equals(&self, other: &PublicKey) -> (same: bool)
        ensures
            same == (*self == *other),
            same == (self@ == other@),
    {
        array_eq(&self.0, &other.0)
    }
}

/// A BLS signature: 96 bytes.
#[derive(Clone, Copy, Debug, PartialEq, Eq, PartialOrd, Ord, Hash)]
pub struct Signature(pub [u8; 96]);

impl View for Signature {
    type V = Seq<u8>;

    open spec fn view(&self) -> Seq<u8> {
        self.0@
    }
}

impl Signature {
    /// Whether two signatures are the same.
    pub fn equals(&self, other: &Signature) -> (same: bool)
        ensures
            same == (*self == *other),
            same == (self@ == other@),
    {
        array_eq(&self.0, &other.0)
    }
}

/// A BLS secret key, as `blsttc` holds it.
#[verifier::external_type_specification]
#[verifier::external_body]
pub struct ExSecretKey(blsttc::SecretKey);

/// Whether `blsttc::PublicKey::verify` accepts `signature` for `message`
/// under the key `public_key`, each given by its bytes. Bytes that are no key
/// or no signature are not accepted.
pub uninterp spec fn bls_verifies(public_key: Seq<u8>, signature: Seq<u8>, message: Seq<u8>) -> bool;

/// Calls `blsttc::PublicKey::from_bytes`, `blsttc::Signature::from_bytes` and
/// `blsttc::PublicKey::verify`. The answer depends on the three byte strings
/// alone; it is `false` where the key or the signature does not decode.
#[verifier::external_body]
pub(crate) fn verify_bytes(public_key: &PublicKey, signature: &Signature, message: &Vec<u8>) -> (valid: bool)
    ensures
        valid == bls_verifies(public_key@, signature@, message@),
{
    match (blsttc::PublicKey::from_bytes(public_key.0), blsttc::Signature::from_bytes(signature.0)) {
        (Ok(key), Ok(sig)) => key.verify(&sig, message),
        _ => false,
    }
}

/// The bytes of the public key that `blsttc::SecretKey::public_key` gives for
/// a secret key.
pub uninterp spec fn bls_public_key_of(secret_key: blsttc::SecretKey) -> Seq<u8>;

/// The bytes of the signature that `blsttc::SecretKey::sign` makes over a
/// message with a secret key.
pub uninterp spec fn bls_signature_of(secret_key: blsttc::SecretKey, message: Seq<u8>) -> Seq<u8>;

/// Calls `blsttc::SecretKey::public_key` and copies the key's bytes out. The
/// key depends on the secret key alone.
#[verifier::external_body]
pub(crate) fn public_key_of(secret_key: &blsttc::SecretKey) -> (public_key: PublicKey)
    ensures
        public_key@ == bls_public_key_of(*secret_key),
{
    PublicKey(secret_key.public_key().to_bytes())
}

/// Calls `blsttc::SecretKey::sign` and copies the signature's bytes out. The
/// signature depends on the secret key and the message alone.
#[verifier::external_body]
pub(crate) fn sign_bytes(secret_key: &blsttc::SecretKey, message: &Vec<u8>) -> (signature: Signature)
    ensures
        signature@ == bls_signature_of(*secret_key, message@),
{
    Signature(secret_key.sign(message).to_bytes())
}

} // verus!
