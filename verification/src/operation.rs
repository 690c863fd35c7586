//! Operations: the signed header, the body it vouches for, the payloads a
//! body can hold, and the frame in which an operation is gossiped.

use vstd::prelude::*;

use crate::bytes::equal_32;
use crate::chat::ChatId;
use crate::crypto::{
    blake3_digest, check_public_key, ed25519_key_valid, ed25519_signature, ed25519_verifies,
    sign_bytes, verify_signature,
};
use crate::identity::{Digest, PrivateKey, Signature, PK};
use crate::network::{LogId, Topic};
use crate::spaces::SpaceControlMessage;

verus! {

/// What a header carries beyond the fields of the operation format: the log
/// that the operation belongs to.
#[derive(Clone, Copy, Debug, PartialEq, Eq)]
pub struct Extensions {
    pub log_id: LogId,
}

/// A private invitation, sent through the inbox of the one it is for.
#[derive(Clone, Copy, Debug, PartialEq, Eq)]
pub enum InvitationMessage {
    /// Asks the recipient to subscribe to the topic of a chat.
    JoinGroup(ChatId),
    /// Tells the recipient that the sender has added them as a friend.
    Friend,
}

/// What the body of an operation holds.
#[derive(Clone, Debug, PartialEq, Eq)]
pub enum Payload {
    SpaceControl(Vec<SpaceControlMessage>),
    Invitation(InvitationMessage),
}

/// The header of an operation.
#[derive(Clone, Debug, PartialEq, Eq)]
pub struct Header {
    /// The version of the operation format.
    pub version: u64,
    /// The author.
    pub public_key: PK,
    /// The author's signature over the header without its signature.
    pub signature: Option<Signature>,
    /// The length of the body in bytes.
    pub payload_size: u64,
    /// The hash of the body.
    pub payload_hash: Option<Digest>,
    /// Wall-clock seconds at which the operation was written.
    pub timestamp: u64,
    /// The position of the operation in its author's log for the topic.
    pub seq_num: u64,
    /// The hash of the operation before this one in the same log.
    pub backlink: Option<Digest>,
    /// The hashes of the operations of other logs that this one depends on.
    pub previous: Vec<Digest>,
    /// The log that the operation belongs to.
    pub extensions: Option<Extensions>,
}

impl Header {
    /// The log that the header names.
    pub fn log_id(&self) -> (r: Option<LogId>)
        ensures
            r == match self.extensions {
                Some(extensions) => Some(extensions.log_id),
                None => None,
            },
    {
        match &self.extensions {
            Some(extensions) => Some(extensions.log_id),
            None => None,
        }
    }

    /// Whether the log is to be pruned up to this operation: never.
    pub fn prune_flag(&self) -> (r: Option<bool>)
        ensures
            r == Some(false),
    {
        Some(false)
    }

    /// Signs the header: `unsigned` is the encoding of the header without a
    /// signature, and the signature over it takes the place of any earlier
    /// one. No other field changes.
    pub fn sign(&mut self, private_key: &PrivateKey, unsigned: &[u8])
        ensures
            final(self).signature matches Some(signature) && signature@ == ed25519_signature(
                private_key@,
                unsigned@,
            ),
            final(self).version == old(self).version,
            final(self).public_key == old(self).public_key,
            final(self).payload_size == old(self).payload_size,
            final(self).payload_hash == old(self).payload_hash,
            final(self).timestamp == old(self).timestamp,
            final(self).seq_num == old(self).seq_num,
            final(self).backlink == old(self).backlink,
            final(self).previous == old(self).previous,
            final(self).extensions == old(self).extensions,
    {
        self.signature = Some(Signature(sign_bytes(&private_key.0, unsigned)));
    }
}

/// An operation as it is stored and sent: the header, its two encodings,
/// the body, and the hash that names the operation.
#[derive(Clone, Debug, PartialEq, Eq)]
pub struct Operation {
    /// The hash of the encoded header.
    pub hash: Digest,
    pub header: Header,
    /// The encoding of the header as it is sent.
    pub header_bytes: Vec<u8>,
    /// The encoding of the header without its signature: what is signed.
    pub unsigned_bytes: Vec<u8>,
    pub body: Option<Vec<u8>>,
}

impl Operation {
    /// The hash is that of the encoded header.
    pub open spec fn hash_ok(&self) -> bool {
        self.hash@ == blake3_digest(self.header_bytes@)
    }

    /// The author's key is a key, and the signature verifies under it over
    /// the encoding of the header without its signature.
    pub open spec fn signature_ok(&self) -> bool {
        &&& ed25519_key_valid(self.header.public_key@)
        &&& self.header.signature matches Some(signature) && ed25519_verifies(
            self.header.public_key@,
            self.unsigned_bytes@,
            signature@,
        )
    }

    /// Where there is a body, the header states its hash and its length.
    pub open spec fn payload_ok(&self) -> bool {
        self.body matches Some(body) ==> {
            &&& self.header.payload_hash matches Some(claimed) && claimed@ == blake3_digest(body@)
            &&& self.header.payload_size == body@.len()
        }
    }

    /// The operation is what its author signed.
    pub open spec fn valid(&self) -> bool {
        &&& self.hash_ok()
        &&& self.signature_ok()
        &&& self.payload_ok()
    }

    /// Puts an operation together, and names it by the hash of its encoded
    /// header.
    pub fn new(
        header: Header,
        header_bytes: Vec<u8>,
        unsigned_bytes: Vec<u8>,
        body: Option<Vec<u8>>,
    ) -> (r: Self)
        ensures
            r.header == header,
            r.header_bytes == header_bytes,
            r.unsigned_bytes == unsigned_bytes,
            r.body == body,
            r.hash_ok(),
    {
        let hash = Digest::new(header_bytes.as_slice());
        Operation { hash, header, header_bytes, unsigned_bytes, body }
    }

    /// Whether the signature in the header verifies.
    pub fn verify(&self) -> (r: bool)
        ensures
            r == self.signature_ok(),
    {
        match &self.header.signature {
            Some(signature) => {
                match check_public_key(&self.header.public_key.0) {
                    Ok(_) => verify_signature(
                        &self.header.public_key.0,
                        self.unsigned_bytes.as_slice(),
                        &signature.0,
                    ),
                    Err(_) => false,
                }
            },
            None => false,
        }
    }

    /// Whether the header states the hash and the length of the body, where
    /// there is one.
    pub fn check_payload(&self) -> (r: bool)
        ensures
            r == self.payload_ok(),
    {
        match &self.body {
            Some(body) => {
                match &self.header.payload_hash {
                    Some(claimed) => {
                        let actual = Digest::new(body.as_slice());
                        let same_hash = equal_32(&claimed.0, &actual.0);
                        let len = body.len();
                        same_hash && self.header.payload_size == len as u64
                    },
                    None => false,
                }
            },
            None => true,
        }
    }
}

/// Whether two optional hashes are the same.
pub fn same_link(a: &Option<Digest>, b: &Option<Digest>) -> (r: bool)
    ensures
        r == (*a == *b),
{
    match (a, b) {
        (Some(x), Some(y)) => equal_32(&x.0, &y.0),
        (None, None) => true,
        _ => false,
    }
}

/// The gossip frame of an operation: the CBOR encoding of the pair of the
/// header's bytes and the body's bytes or nothing. `None` where the encoder
/// gives none.
pub uninterp spec fn gossip_frame(header: Seq<u8>, body: Option<Seq<u8>>) -> Option<Seq<u8>>;

/// What a gossip frame holds: the header's bytes and the body's bytes or
/// nothing. `None` where the bytes are no such frame.
pub uninterp spec fn gossip_frame_parts(frame: Seq<u8>) -> Option<(Seq<u8>, Option<Seq<u8>>)>;

/// Why the CBOR encoder gave nothing, as `p2panda_core` reports it.
#[verifier::external_type_specification]
#[verifier::external_body]
pub struct ExEncodeError(p2panda_core::cbor::EncodeError);

/// Why bytes are not the CBOR encoding of a value, as `p2panda_core`
/// reports it.
#[verifier::external_type_specification]
#[verifier::external_body]
pub struct ExDecodeError(p2panda_core::cbor::DecodeError);

/// `p2panda_core::cbor::encode_cbor` on a pair of a byte string and an
/// optional byte string: the encoding, which the pair determines.
#[verifier::external_body]
fn encode_frame(header: &Vec<u8>, body: &Option<Vec<u8>>) -> (r: Result<
    Vec<u8>,
    p2panda_core::cbor::EncodeError,
>)
    ensures
        match r {
            Ok(frame) => gossip_frame(header@, option_bytes(*body)) == Some(frame@),
            Err(_) => gossip_frame(header@, option_bytes(*body)) is None,
        },
{
    p2panda_core::cbor::encode_cbor(&(header, body))
}

/// `p2panda_core::cbor::decode_cbor` to a pair of a byte string and an
/// optional byte string: the pair, which the bytes determine.
#[verifier::external_body]
fn decode_frame(frame: &[u8]) -> (r: Result<
    (Vec<u8>, Option<Vec<u8>>),
    p2panda_core::cbor::DecodeError,
>)
    ensures
        match r {
            Ok(parts) => gossip_frame_parts(frame@) == Some((parts.0@, option_bytes(parts.1))),
            Err(_) => gossip_frame_parts(frame@) is None,
        },
{
    p2panda_core::cbor::decode_cbor(frame)
}

/// The bytes of an optional byte string.
pub open spec fn option_bytes(body: Option<Vec<u8>>) -> Option<Seq<u8>> {
    match body {
        Some(bytes) => Some(bytes@),
        None => None,
    }
}

/// Why a frame or a text could not be encoded or decoded.
#[derive(Clone, Copy, Debug, PartialEq, Eq, Structural)]
pub enum CodecError {
    /// The encoder gave nothing.
    Encode,
    /// The bytes are not the encoding of a value of the kind asked for.
    Decode,
}

/// The gossip frame of an operation, from the bytes of its header and of its
/// body.
pub fn encode_gossip_message(header: &Vec<u8>, body: &Option<Vec<u8>>) -> (r: Result<
    Vec<u8>,
    CodecError,
>)
    ensures
        match r {
            Ok(frame) => gossip_frame(header@, option_bytes(*body)) == Some(frame@),
            Err(e) => e == CodecError::Encode && gossip_frame(header@, option_bytes(*body))
                is None,
        },
{
    match encode_frame(header, body) {
        Ok(frame) => Ok(frame),
        Err(_) => Err(CodecError::Encode),
    }
}

/// The bytes of the header and of the body that a gossip frame holds.
pub fn decode_gossip_message(bytes: &[u8]) -> (r: Result<(Vec<u8>, Option<Vec<u8>>), CodecError>)
    ensures
        match r {
            Ok(parts) => gossip_frame_parts(bytes@) == Some((parts.0@, option_bytes(parts.1))),
            Err(e) => e == CodecError::Decode && gossip_frame_parts(bytes@) is None,
        },
{
    match decode_frame(bytes) {
        Ok(parts) => Ok(parts),
        Err(_) => Err(CodecError::Decode),
    }
}

} // verus!
