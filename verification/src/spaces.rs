//! The control messages of a space, as far as the replication layer reads
//! them: what kind each is, who wrote it, and which earlier messages it
//! depends on. What only the space's own state machine reads is carried as
//! bytes.

use vstd::prelude::*;
use vstd::string::StringSliceAdditionalSpecFns;

use crate::bytes::equal_32;
use crate::chat::ChatId;
use crate::collections::{copy_vec, extend_copy};
use crate::crypto::{blake3_digest, ed25519_key_valid, ed25519_public};
use crate::hexcode::{hex_chars, hex_decode, hex_decoded, hex_encode, is_hex_text};
use crate::identity::{Digest, Ident, PrivateKey, PK};

verus! {

/// The identifier of a control message inside the space state machine: the
/// bytes of the message's content hash.
#[derive(Clone, Copy, Debug, PartialEq, Eq, Hash)]
pub struct OperationId(pub [u8; 32]);

impl View for OperationId {
    type V = Seq<u8>;

    open spec fn view(&self) -> Seq<u8> {
        self.0@
    }
}

impl Ident for OperationId {
    fn same(&self, other: &Self) -> (r: bool) {
        equal_32(&self.0, &other.0)
    }
}

impl OperationId {
    /// The identifier with the bytes of a hash.
    pub fn from_hash(hash: Digest) -> (r: Self)
        ensures
            r.0 == hash.0,
    {
        OperationId(hash.0)
    }
}

/// An actor of a space, named by the bytes of its public key.
#[derive(Clone, Copy, Debug, PartialEq, Eq, Hash)]
pub struct ActorId(pub [u8; 32]);

impl View for ActorId {
    type V = Seq<u8>;

    open spec fn view(&self) -> Seq<u8> {
        self.0@
    }
}

impl Ident for ActorId {
    fn same(&self, other: &Self) -> (r: bool) {
        equal_32(&self.0, &other.0)
    }
}

impl ActorId {
    /// The actor whose key this is.
    pub fn from_public_key(public_key: PK) -> (r: Self)
        ensures
            r.0 == public_key.0,
    {
        ActorId(public_key.0)
    }

    /// The key that names the actor.
    pub fn public_key(&self) -> (r: PK)
        ensures
            r.0 == self.0,
    {
        PK(self.0)
    }
}

impl From<PK> for ActorId {
    fn from(public_key: PK) -> (r: Self) {
        ActorId(public_key.0)
    }
}

impl vstd::std_specs::convert::FromSpecImpl<PK> for ActorId {
    open spec fn obeys_from_spec() -> bool {
        true
    }

    open spec fn from_spec(public_key: PK) -> Self {
        ActorId(public_key.0)
    }
}

impl From<ActorId> for PK {
    fn from(id: ActorId) -> (r: Self) {
        PK(id.0)
    }
}

impl vstd::std_specs::convert::FromSpecImpl<ActorId> for PK {
    open spec fn obeys_from_spec() -> bool {
        true
    }

    open spec fn from_spec(id: ActorId) -> Self {
        PK(id.0)
    }
}

/// What a control message asks of the space state machine.
#[derive(Clone, Debug, PartialEq, Eq)]
pub enum SpacesArgs {
    /// Publishes the author's long-term prekey bundle.
    KeyBundle { key_bundle: Vec<u8> },
    /// An update of the authorization graph: a grant or a revoke.
    Auth { control: Vec<u8>, auth_dependencies: Vec<OperationId> },
    /// Admits or removes a member, and delivers the sealed group secrets.
    SpaceMembership {
        space_id: ChatId,
        group_id: ActorId,
        space_dependencies: Vec<OperationId>,
        auth_message_id: OperationId,
        direct_messages: Vec<Vec<u8>>,
    },
    /// Rotates the group secret.
    SpaceUpdate { space_id: ChatId, group_id: ActorId, space_dependencies: Vec<OperationId> },
    /// An application message, encrypted under the current group secret.
    Application {
        space_id: ChatId,
        space_dependencies: Vec<OperationId>,
        group_secret_id: [u8; 32],
        nonce: [u8; 24],
        ciphertext: Vec<u8>,
    },
}

/// The kind of a control message.
#[derive(Clone, Copy, Debug, PartialEq, Eq, Structural)]
pub enum ArgType {
    KeyBundle,
    Auth,
    SpaceMembership,
    SpaceUpdate,
    Application,
}

impl SpacesArgs {
    /// The messages that must have been processed before this one: for a
    /// membership change the authorization message and then the space's
    /// dependencies, for the others their own list, for a key bundle none.
    pub open spec fn dependencies_spec(&self) -> Seq<OperationId> {
        match *self {
            SpacesArgs::KeyBundle { .. } => Seq::empty(),
            SpacesArgs::Auth { auth_dependencies, .. } => auth_dependencies@,
            SpacesArgs::SpaceMembership { space_dependencies, auth_message_id, .. } => seq![
                auth_message_id,
            ] + space_dependencies@,
            SpacesArgs::SpaceUpdate { space_dependencies, .. } => space_dependencies@,
            SpacesArgs::Application { space_dependencies, .. } => space_dependencies@,
        }
    }

    /// The kind of the message.
    pub open spec fn arg_type_spec(&self) -> ArgType {
        match *self {
            SpacesArgs::KeyBundle { .. } => ArgType::KeyBundle,
            SpacesArgs::Auth { .. } => ArgType::Auth,
            SpacesArgs::SpaceMembership { .. } => ArgType::SpaceMembership,
            SpacesArgs::SpaceUpdate { .. } => ArgType::SpaceUpdate,
            SpacesArgs::Application { .. } => ArgType::Application,
        }
    }
}

/// A control message of a space: its content hash, its author and what it
/// asks for.
#[derive(Clone, Debug, PartialEq, Eq)]
pub struct SpaceControlMessage {
    pub hash: Digest,
    pub author: ActorId,
    pub spaces_args: SpacesArgs,
}

impl SpaceControlMessage {
    /// The message of an author with the given arguments. Its hash is the
    /// content hash of `encoded`, the canonical encoding of the author and
    /// the arguments.
    pub fn new(author: ActorId, spaces_args: SpacesArgs, encoded: &[u8]) -> (r: Self)
        ensures
            r.hash@ == blake3_digest(encoded@),
            r.author == author,
            r.spaces_args == spaces_args,
    {
        SpaceControlMessage { hash: Digest::new(encoded), author, spaces_args }
    }

    /// The identifier of the message in the space state machine.
    pub open spec fn id_spec(&self) -> OperationId {
        OperationId(self.hash.0)
    }

    /// The identifier of the message in the space state machine.
    pub fn id(&self) -> (r: OperationId)
        ensures
            r == self.id_spec(),
    {
        OperationId::from_hash(self.hash)
    }

    /// Who wrote the message.
    pub fn author(&self) -> (r: ActorId)
        ensures
            r == self.author,
    {
        self.author
    }

    /// What the message asks for.
    pub fn args(&self) -> (r: &SpacesArgs)
        ensures
            *r == self.spaces_args,
    {
        &self.spaces_args
    }

    /// The messages that must have been processed before this one.
    pub fn dependencies(&self) -> (r: Vec<OperationId>)
        ensures
            r@ == self.spaces_args.dependencies_spec(),
    {
        match &self.spaces_args {
            SpacesArgs::KeyBundle { .. } => Vec::new(),
            SpacesArgs::SpaceMembership { space_dependencies, auth_message_id, .. } => {
                let mut out: Vec<OperationId> = Vec::new();
                out.push(*auth_message_id);
                extend_copy(&mut out, space_dependencies);
                out
            },
            SpacesArgs::Auth { auth_dependencies, .. } => copy_vec(auth_dependencies),
            SpacesArgs::SpaceUpdate { space_dependencies, .. } => copy_vec(space_dependencies),
            SpacesArgs::Application { space_dependencies, .. } => copy_vec(space_dependencies),
        }
    }

    /// The kind of the message.
    pub fn arg_type(&self) -> (r: ArgType)
        ensures
            r == self.spaces_args.arg_type_spec(),
    {
        match &self.spaces_args {
            SpacesArgs::KeyBundle { .. } => ArgType::KeyBundle,
            SpacesArgs::Auth { .. } => ArgType::Auth,
            SpacesArgs::SpaceMembership { .. } => ArgType::SpaceMembership,
            SpacesArgs::SpaceUpdate { .. } => ArgType::SpaceUpdate,
            SpacesArgs::Application { .. } => ArgType::Application,
        }
    }
}

/// Turns the arguments that the local space state machine produces into
/// control messages of this node.
#[derive(Clone, Copy, Debug)]
pub struct DashForge {
    pub private_key: PrivateKey,
}

impl DashForge {
    /// The key under which the forge writes.
    pub fn public_key(&self) -> (r: PK)
        ensures
            r@ == ed25519_public(self.private_key@),
            ed25519_key_valid(r@),
    {
        self.private_key.public_key()
    }

    /// The control message of this node for the arguments: its author is the
    /// node, its hash the content hash of `encoded`, the canonical encoding
    /// of the author and the arguments.
    pub fn forge(&self, args: SpacesArgs, encoded: &[u8]) -> (r: SpaceControlMessage)
        ensures
            r.hash@ == blake3_digest(encoded@),
            r.author@ == ed25519_public(self.private_key@),
            r.spaces_args == args,
    {
        let author = ActorId::from_public_key(self.public_key());
        SpaceControlMessage::new(author, args, encoded)
    }

    /// A control message under a key made for this one message, issued
    /// before the author's own key is registered: its hash is all zero.
    pub fn forge_ephemeral(&self, private_key: PrivateKey, args: SpacesArgs) -> (r:
        SpaceControlMessage)
        ensures
            r.hash.0@ == Seq::new(32, |i: int| 0u8),
            r.author@ == ed25519_public(private_key@),
            r.spaces_args == args,
    {
        let author = ActorId::from_public_key(private_key.public_key());
        let zero: [u8; 32] = [0u8; 32];
        assert(zero@ =~= Seq::new(32, |i: int| 0u8));
        SpaceControlMessage { hash: Digest(zero), author, spaces_args: args }
    }
}

/// What a member hands to another out of band to be added as a friend:
/// the encoding of its long-term key bundle and its actor identifier.
#[derive(Clone, Debug, PartialEq, Eq)]
pub struct MemberCode {
    pub encoded: Vec<u8>,
}

/// Why a text is not a member code.
#[derive(Clone, Copy, Debug, PartialEq, Eq, Structural)]
pub enum MemberCodeError {
    /// The text is not an even number of hexadecimal digits.
    InvalidHex,
}

impl MemberCode {
    /// The member code with the given encoding.
    pub fn new(encoded: Vec<u8>) -> (r: Self)
        ensures
            r.encoded == encoded,
    {
        MemberCode { encoded }
    }

    /// The code as text: two lower-case hexadecimal digits for each byte.
    pub fn to_string(&self) -> (r: String)
        ensures
            r@ == hex_chars(self.encoded@),
    {
        hex_encode(self.encoded.as_slice())
    }

    /// Reads a code from text: hexadecimal digits of either case.
    pub fn from_str(s: &str) -> (r: Result<Self, MemberCodeError>)
        ensures
            r is Ok <==> is_hex_text(s.spec_bytes()),
            r matches Ok(code) ==> code.encoded@ == hex_decoded(s.spec_bytes()),
    {
        match hex_decode(s.as_bytes()) {
            Ok(encoded) => Ok(MemberCode { encoded }),
            Err(_) => Err(MemberCodeError::InvalidHex),
        }
    }
}

/// What the space state machine reports after it has processed a message.
#[derive(Clone, Debug, PartialEq, Eq)]
pub enum Event {
    /// An application message was decrypted: these are its bytes.
    Application { space_id: ChatId, data: Vec<u8> },
    /// The local actor was removed from the space.
    Removed { space_id: ChatId },
}

/// Why the space state machine did not process a message.
#[derive(Clone, Copy, Debug, PartialEq, Eq)]
pub enum SpaceError {
    /// The message was processed before.
    DuplicateOperation(OperationId),
    /// The message refers to state that does not exist yet.
    UnexpectedMessage(OperationId),
    /// The message breaks the access policy.
    AuthGroup,
    /// Decryption or a signature failed.
    Crypto,
}

} // verus!
