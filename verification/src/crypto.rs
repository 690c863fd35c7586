//! The cryptographic primitives of the operation format: BLAKE3 digests and
//! Ed25519 keys and signatures. Each is computed by `p2panda_core`; what it
//! returns stands here under a name.

use vstd::prelude::*;

verus! {

/// The BLAKE3 digest of a byte string: 32 bytes.
pub uninterp spec fn blake3_digest(data: Seq<u8>) -> Seq<u8>;

/// Whether 32 bytes are the encoding of an Ed25519 public key.
pub uninterp spec fn ed25519_key_valid(key: Seq<u8>) -> bool;

/// Whether a signature over a message verifies under a public key.
pub uninterp spec fn ed25519_verifies(key: Seq<u8>, message: Seq<u8>, signature: Seq<u8>) -> bool;

/// The signature that a secret key makes over a message.
pub uninterp spec fn ed25519_signature(secret: Seq<u8>, message: Seq<u8>) -> Seq<u8>;

/// The public key that belongs to a secret key.
pub uninterp spec fn ed25519_public(secret: Seq<u8>) -> Seq<u8>;

/// Why bytes are not a key or a signature, as `p2panda_core` reports it.
#[verifier::external_type_specification]
#[verifier::external_body]
pub struct ExIdentityError(p2panda_core::IdentityError);

/// `p2panda_core::Hash::new`: the BLAKE3 digest of the bytes.
#[verifier::external_body]
pub(crate) fn digest(data: &[u8]) -> (out: [u8; 32])
    ensures
        out@ == blake3_digest(data@),
{
    *p2panda_core::Hash::new(data).as_bytes()
}

/// `p2panda_core::PublicKey::from_bytes`: it accepts exactly the encodings
/// of Ed25519 public keys.
#[verifier::external_body]
pub(crate) fn check_public_key(key: &[u8; 32]) -> (r: Result<(), p2panda_core::IdentityError>)
    ensures
        r is Ok <==> ed25519_key_valid(key@),
{
    p2panda_core::PublicKey::from_bytes(key).map(|_| ())
}

/// `p2panda_core::PublicKey::verify`, for a key that `from_bytes` accepts:
/// whether the signature over the message verifies under the key.
#[verifier::external_body]
pub(crate) fn verify_signature(key: &[u8; 32], message: &[u8], signature: &[u8; 64]) -> (ok: bool)
    requires
        ed25519_key_valid(key@),
    ensures
        ok == ed25519_verifies(key@, message@, signature@),
{
    let key = p2panda_core::PublicKey::from_bytes(key).unwrap();
    key.verify(message, &p2panda_core::Signature::from_bytes(signature))
}

/// `p2panda_core::PrivateKey::sign`: the Ed25519 signature of the secret key
/// over the message, which the key and the message determine.
#[verifier::external_body]
pub(crate) fn sign_bytes(secret: &[u8; 32], message: &[u8]) -> (signature: [u8; 64])
    ensures
        signature@ == ed25519_signature(secret@, message@),
{
    p2panda_core::PrivateKey::from_bytes(secret).sign(message).to_bytes()
}

/// `p2panda_core::PrivateKey::public_key`: the public key of the secret key,
/// which is always the encoding of a key.
#[verifier::external_body]
pub(crate) fn public_key_of(secret: &[u8; 32]) -> (key: [u8; 32])
    ensures
        key@ == ed25519_public(secret@),
        ed25519_key_valid(key@),
{
    *p2panda_core::PrivateKey::from_bytes(secret).public_key().as_bytes()
}

/// `rand::random`: 32 bytes from the thread's generator.
#[verifier::external_body]
pub(crate) fn random_32() -> (out: [u8; 32]) {
    rand::random()
}

} // verus!
