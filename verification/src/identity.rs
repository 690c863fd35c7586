//! The 32-byte identifiers of the protocol: content hashes and public keys,
//! with their hexadecimal and shortened forms.

use vstd::prelude::*;

use crate::bytes::equal_32;
use crate::crypto::{
    blake3_digest, check_public_key, digest, ed25519_key_valid, ed25519_public, public_key_of,
};
use crate::hexcode::{hex_chars, hex_encode, lemma_hex_chars_prefix};

verus! {

/// A value that can be told apart from another of its type at run time,
/// in agreement with equality in contracts.
pub trait Ident: Sized + Copy {
    /// Whether the two values are the same.
    fn same(&self, other: &Self) -> (r: bool)
        ensures
            r == (*self == *other),
    ;
}

/// A short text that stands for an identifier in logs and reports.
pub trait ShortId {
    /// What the short text of this kind of identifier begins with.
    const PREFIX: &'static str;

    /// The short text, in contracts.
    spec fn short_text(&self) -> Seq<char>;

    /// The short text.
    fn short(&self) -> (r: String)
        ensures
            r@ == self.short_text(),
    ;
}

/// Why bytes do not make an identity.
#[derive(Clone, Copy, Debug, PartialEq, Eq, Structural)]
pub enum KeyError {
    /// The bytes are not the encoding of an Ed25519 public key.
    InvalidKey,
}

/// The first `n` bytes of an identifier.
fn leading_bytes(bytes: &[u8; 32], n: usize) -> (out: Vec<u8>)
    requires
        n <= 32,
    ensures
        out@ == bytes@.take(n as int),
{
    let mut out: Vec<u8> = Vec::new();
    let mut i: usize = 0;
    while i < n
        invariant
            i <= n <= 32,
            out@ == bytes@.take(i as int),
        decreases n - i,
    {
        out.push(bytes[i]);
        assert(bytes@.take(i + 1) =~= bytes@.take(i as int).push(bytes@[i as int]));
        i += 1;
    }
    out
}

/// The first eight hexadecimal digits of an identifier.
fn short_hex(bytes: &[u8; 32]) -> (r: String)
    ensures
        r@ == hex_chars(bytes@).take(8),
{
    let head = leading_bytes(bytes, 4);
    proof {
        lemma_hex_chars_prefix(bytes@, 4);
    }
    hex_encode(head.as_slice())
}

/// A BLAKE3 content hash: the identifier of an operation or of a payload.
#[derive(Clone, Copy, Debug, PartialEq, Eq, Hash)]
pub struct Digest(pub [u8; 32]);

impl View for Digest {
    type V = Seq<u8>;

    open spec fn view(&self) -> Seq<u8> {
        self.0@
    }
}

impl Digest {
    /// The hash of a byte string.
    pub fn new(data: &[u8]) -> (r: Digest)
        ensures
            r@ == blake3_digest(data@),
    {
        Digest(digest(data))
    }

    /// The hash with the given bytes.
    pub fn from_bytes(bytes: [u8; 32]) -> (r: Digest)
        ensures
            r.0 == bytes,
    {
        Digest(bytes)
    }

    /// The bytes of the hash.
    pub fn as_bytes(&self) -> (r: &[u8; 32])
        ensures
            *r == self.0,
    {
        &self.0
    }

    /// The hash as 64 lower-case hexadecimal digits.
    pub fn to_hex(&self) -> (r: String)
        ensures
            r@ == hex_chars(self@),
    {
        hex_encode(self.0.as_slice())
    }
}

impl Ident for Digest {
    fn same(&self, other: &Self) -> (r: bool) {
        equal_32(&self.0, &other.0)
    }
}

impl ShortId for Digest {
    const PREFIX: &'static str = "H|";

    open spec fn short_text(&self) -> Seq<char> {
        "H|"@ + hex_chars(self@).take(8)
    }

    fn short(&self) -> (r: String) {
        let head = short_hex(&self.0);
        String::from_str("H|").concat(head.as_str())
    }
}

/// An Ed25519 public key: the identity of an actor.
#[derive(Clone, Copy, Debug, PartialEq, Eq, Hash)]
pub struct PK(pub [u8; 32]);

impl View for PK {
    type V = Seq<u8>;

    open spec fn view(&self) -> Seq<u8> {
        self.0@
    }
}

impl PK {
    /// The key with the given encoding, where the bytes encode a key.
    pub fn from_bytes(bytes: &[u8; 32]) -> (r: Result<PK, KeyError>)
        ensures
            r is Ok <==> ed25519_key_valid(bytes@),
            r matches Ok(pk) ==> pk.0 == *bytes,
    {
        match check_public_key(bytes) {
            Ok(_) => Ok(PK(*bytes)),
            Err(_) => Err(KeyError::InvalidKey),
        }
    }

    /// The bytes of the key.
    pub fn as_bytes(&self) -> (r: &[u8; 32])
        ensures
            *r == self.0,
    {
        &self.0
    }

    /// The key as 64 lower-case hexadecimal digits.
    pub fn to_hex(&self) -> (r: String)
        ensures
            r@ == hex_chars(self@),
    {
        hex_encode(self.0.as_slice())
    }

    /// The text by which a key is shown in logs: `PK|` and the first eight
    /// hexadecimal digits.
    pub fn label(&self) -> (r: String)
        ensures
            r@ == "PK|"@ + hex_chars(self@).take(8),
    {
        let head = short_hex(&self.0);
        String::from_str("PK|").concat(head.as_str())
    }
}

impl Ident for PK {
    fn same(&self, other: &Self) -> (r: bool) {
        equal_32(&self.0, &other.0)
    }
}

impl ShortId for PK {
    const PREFIX: &'static str = "PK|";

    open spec fn short_text(&self) -> Seq<char> {
        hex_chars(self@).take(8)
    }

    fn short(&self) -> (r: String) {
        short_hex(&self.0)
    }
}

/// An Ed25519 signature.
#[derive(Clone, Copy, Debug, PartialEq, Eq)]
pub struct Signature(pub [u8; 64]);

impl View for Signature {
    type V = Seq<u8>;

    open spec fn view(&self) -> Seq<u8> {
        self.0@
    }
}

/// An Ed25519 secret key.
#[derive(Clone, Copy, Debug, PartialEq, Eq)]
pub struct PrivateKey(pub [u8; 32]);

impl View for PrivateKey {
    type V = Seq<u8>;

    open spec fn view(&self) -> Seq<u8> {
        self.0@
    }
}

impl PrivateKey {
    /// The secret key with the given bytes.
    pub fn from_bytes(bytes: &[u8; 32]) -> (r: PrivateKey)
        ensures
            r.0 == *bytes,
    {
        PrivateKey(*bytes)
    }

    /// The public key that belongs to this secret key.
    pub fn public_key(&self) -> (r: PK)
        ensures
            r@ == ed25519_public(self@),
            ed25519_key_valid(r@),
    {
        PK(public_key_of(&self.0))
    }
}

} // verus!
