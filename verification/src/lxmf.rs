//! LXMF messages: what is read from their bytes, and whether they are signed by
//! who they say they are from.
use vstd::prelude::*;

verus! {

/// Whether `signature` is a signature of `message` under an Ed25519 public key,
/// as `rns_crypto::ed25519` verifies it.
pub uninterp spec fn signature_holds(key: Seq<u8>, signature: Seq<u8>, message: Seq<u8>) -> bool;

/// `rns_crypto::ed25519::Ed25519PublicKey::from_bytes` and its `verify`: the
/// verdict depends on the three byte strings alone. Which signatures hold is left
/// unsaid.
#[verifier::external_body]
pub(crate) fn verify_signature(key: &[u8; 32], signature: &[u8; 64], message: &[u8]) -> (r: bool)
    ensures
        r == signature_holds(key@, signature@, message@),
{
    rns_crypto::ed25519::Ed25519PublicKey::from_bytes(key).is_ok_and(
        |key| key.verify(signature, message),
    )
}

/// Whether a message is signed under a key; never where the key is not known.
pub fn signature_matches(key: &Option<[u8; 32]>, signature: &[u8; 64], message: &[u8]) -> (r: bool)
    ensures
        r == match *key {
            Some(key) => signature_holds(key@, signature@, message@),
            None => false,
        },
{
    match key {
        Some(key) => verify_signature(key, signature, message),
        None => false,
    }
}

/// What is read from the bytes of a message. `timestamp` is in seconds;
/// `signed` says whether the signature was verified.
#[derive(Debug)]
pub struct UnpackedMessage {
    pub destination_hash: [u8; 16],
    pub source_hash: [u8; 16],
    pub timestamp: i64,
    pub title: Vec<u8>,
    pub content: Vec<u8>,
    pub message_hash: [u8; 32],
    pub signed: bool,
}

pub struct UnpackedModel {
    pub destination_hash: Seq<u8>,
    pub source_hash: Seq<u8>,
    pub timestamp: i64,
    pub title: Seq<u8>,
    pub content: Seq<u8>,
    pub message_hash: Seq<u8>,
    pub signed: bool,
}

impl View for UnpackedMessage {
    type V = UnpackedModel;

    open spec fn view(&self) -> UnpackedModel {
        UnpackedModel {
            destination_hash: self.destination_hash@,
            source_hash: self.source_hash@,
            timestamp: self.timestamp,
            title: self.title@,
            content: self.content@,
            message_hash: self.message_hash@,
            signed: self.signed,
        }
    }
}

pub open spec fn key_view(key: Option<[u8; 32]>) -> Option<Seq<u8>> {
    match key {
        Some(key) => Some(key@),
        None => None,
    }
}

pub open spec fn unpacked_model(message: Option<UnpackedMessage>) -> Option<UnpackedModel> {
    match message {
        Some(message) => Some(message@),
        None => None,
    }
}

/// The message that `lxmf_core::message::unpack` reads from a byte string, its
/// signature checked under `key`, if it reads one.
pub uninterp spec fn lxmf_unpacked(data: Seq<u8>, key: Option<Seq<u8>>) -> Option<UnpackedModel>;

/// `lxmf_core::message::unpack`: what it reads depends on the bytes and the key
/// alone. A message begins with the 16 bytes of its destination and the 16 bytes
/// of its source, and is not signed under a key that is not known. How the rest is
/// laid out is left unsaid.
#[verifier::external_body]
pub(crate) fn unpack_message(data: &[u8], key: &Option<[u8; 32]>) -> (r: Option<UnpackedMessage>)
    ensures
        unpacked_model(r) == lxmf_unpacked(data@, key_view(*key)),
        r.is_some() ==> data@.len() > 96 && r.unwrap().destination_hash@ == data@.take(16)
            && r.unwrap().source_hash@ == data@.subrange(16, 32),
        r.is_some() && key.is_none() ==> !r.unwrap().signed,
{
    let check = |_: &[u8; 16], signature: &[u8; 64], signed: &[u8]| {
        signature_matches(key, signature, signed)
    };
    lxmf_core::message::unpack(data, Some(&check)).ok().map(|message| UnpackedMessage {
        destination_hash: message.destination_hash,
        source_hash: message.source_hash,
        timestamp: message.timestamp as i64,
        title: message.title,
        content: message.content,
        message_hash: message.message_hash,
        signed: message.signature_valid.unwrap_or(false),
    })
}

/// Whose key is to be asked for before a message can be verified.
pub fn source_of(data: &[u8]) -> (r: Option<[u8; 16]>)
    ensures
        r.is_some() == lxmf_unpacked(data@, None).is_some(),
        r.is_some() ==> r.unwrap()@ == lxmf_unpacked(data@, None).unwrap().source_hash,
        r.is_some() ==> data@.len() > 96 && r.unwrap()@ == data@.subrange(16, 32),
{
    match unpack_message(data, &None) {
        Some(message) => Some(message.source_hash),
        None => None,
    }
}

} // verus!
