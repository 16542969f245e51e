//! Announces of peers, nodes, propagation nodes and chat hubs, and the directory
//! entries made from them.
use vstd::prelude::*;
use vstd::utf8::{decode_utf8, valid_utf8};

use crate::browser::text_view;
use crate::hexadecimal::{encode_hex, hex_text};
use crate::models::DirectoryEntry;
use crate::text::{clean_name, clean_name_of, text_from_utf8};

verus! {

#[derive(Debug, Clone, Copy, PartialEq, Eq, Structural)]
pub enum DirectoryKind {
    Peer,
    Node,
    Propagation,
    /// A chat hub.
    Rrc,
}

/// What an announce says. `delivery_hash` is the address for messages of the
/// identity behind it.
#[derive(Debug)]
pub struct Announce {
    pub destination_hash: [u8; 16],
    pub identity_hash: Option<[u8; 16]>,
    pub delivery_hash: Option<[u8; 16]>,
    pub hops: u8,
    pub app_data: Option<Vec<u8>>,
}

pub open spec fn data_view(data: Option<Vec<u8>>) -> Option<Seq<u8>> {
    match data {
        Some(data) => Some(data@),
        None => None,
    }
}

/// The name in a peer's announce, as
/// `lxmf_core::announce::display_name_from_app_data` reads it.
pub uninterp spec fn peer_name_in(app_data: Seq<u8>) -> Option<Seq<char>>;

/// The name in a propagation node's announce, as
/// `lxmf_core::announce::pn_name_from_app_data` reads it.
pub uninterp spec fn propagation_name_in(app_data: Seq<u8>) -> Option<Seq<char>>;

/// Whether a propagation node takes messages, and the cost of a stamp for it, as
/// `lxmf_core::announce::parse_pn_announce_data` reads them.
pub uninterp spec fn propagation_terms_in(app_data: Seq<u8>) -> Option<(bool, u8)>;

/// `lxmf_core::announce::display_name_from_app_data`: the name depends on the bytes
/// alone. How it stands in them is left unsaid.
#[verifier::external_body]
pub(crate) fn peer_name(app_data: &[u8]) -> (r: Option<String>)
    ensures
        text_view(r) == peer_name_in(app_data@),
{
    lxmf_core::announce::display_name_from_app_data(app_data)
}

/// `lxmf_core::announce::pn_name_from_app_data`: the name depends on the bytes
/// alone. How it stands in them is left unsaid.
#[verifier::external_body]
pub(crate) fn propagation_name(app_data: &[u8]) -> (r: Option<String>)
    ensures
        text_view(r) == propagation_name_in(app_data@),
{
    lxmf_core::announce::pn_name_from_app_data(app_data)
}

/// `lxmf_core::announce::parse_pn_announce_data`: whether the node takes messages
/// and the cost of a stamp depend on the bytes alone. How they stand in them is left
/// unsaid.
#[verifier::external_body]
pub(crate) fn propagation_terms(app_data: &[u8]) -> (r: Option<(bool, u8)>)
    ensures
        r == propagation_terms_in(app_data@),
{
    lxmf_core::announce::parse_pn_announce_data(app_data).map(
        |data| (data.propagation_enabled, data.propagation_stamp_cost),
    )
}

/// The name of a node: no control characters, at most 128 characters, no
/// surrounding space.
pub fn sanitise_name(value: &str) -> (r: String)
    ensures
        r@ == clean_name(value@, 128),
{
    clean_name_of(value, 128)
}

/// The name that an announce gives. The announce of a hub gives none: a hub tells
/// its name when a session begins.
pub open spec fn announced_name(kind: DirectoryKind, app_data: Option<Seq<u8>>) -> Option<
    Seq<char>,
> {
    match app_data {
        None => None,
        Some(data) => match kind {
            DirectoryKind::Peer => peer_name_in(data),
            DirectoryKind::Propagation => propagation_name_in(data),
            DirectoryKind::Node => if valid_utf8(data) {
                Some(clean_name(decode_utf8(data), 128))
            } else {
                None
            },
            DirectoryKind::Rrc => None,
        },
    }
}

/// Whether an announced destination is of use: a propagation node only where it
/// says that it takes messages.
pub open spec fn announced_active(kind: DirectoryKind, app_data: Option<Seq<u8>>) -> bool {
    kind != DirectoryKind::Propagation || (app_data.is_some() && propagation_terms_in(
        app_data.unwrap(),
    ).is_some() && propagation_terms_in(app_data.unwrap()).unwrap().0)
}

pub open spec fn kind_text(kind: DirectoryKind) -> Seq<char> {
    match kind {
        DirectoryKind::Peer => "peer"@,
        DirectoryKind::Node => "node"@,
        DirectoryKind::Propagation => "propagation"@,
        DirectoryKind::Rrc => "rrc"@,
    }
}

pub open spec fn hash_text_view(hash: Option<[u8; 16]>) -> Option<Seq<char>> {
    match hash {
        Some(hash) => Some(hex_text(hash@)),
        None => None,
    }
}

pub(crate) fn hash_text(hash: &Option<[u8; 16]>) -> (r: Option<String>)
    ensures
        text_view(r) == hash_text_view(*hash),
{
    match hash {
        Some(hash) => Some(encode_hex(hash)),
        None => None,
    }
}

/// The directory entry for an announce whose data has been read.
pub fn directory_entry(
    announce: &Announce,
    kind: DirectoryKind,
    display_name: Option<String>,
    active: bool,
    now: i64,
) -> (r: DirectoryEntry)
    ensures
        r.destination_hash@ == hex_text(announce.destination_hash@),
        text_view(r.identity_hash) == hash_text_view(announce.identity_hash),
        text_view(r.delivery_hash) == hash_text_view(announce.delivery_hash),
        r.kind@ == kind_text(kind),
        r.display_name == display_name,
        r.hops == announce.hops,
        r.last_seen == now,
        r.active == active,
{
    DirectoryEntry {
        destination_hash: encode_hex(&announce.destination_hash),
        identity_hash: hash_text(&announce.identity_hash),
        delivery_hash: hash_text(&announce.delivery_hash),
        kind: match kind {
            DirectoryKind::Peer => "peer".to_string(),
            DirectoryKind::Node => "node".to_string(),
            DirectoryKind::Propagation => "propagation".to_string(),
            DirectoryKind::Rrc => "rrc".to_string(),
        },
        display_name,
        hops: announce.hops,
        last_seen: now,
        active,
    }
}

/// Whether an entry of the directory says what was announced.
pub open spec fn is_entry_for(
    announce: Announce,
    kind: DirectoryKind,
    now: i64,
    entry: DirectoryEntry,
) -> bool {
    &&& entry.destination_hash@ == hex_text(announce.destination_hash@)
    &&& text_view(entry.identity_hash) == hash_text_view(announce.identity_hash)
    &&& text_view(entry.delivery_hash) == hash_text_view(announce.delivery_hash)
    &&& entry.kind@ == kind_text(kind)
    &&& text_view(entry.display_name) == announced_name(kind, data_view(announce.app_data))
    &&& entry.hops == announce.hops
    &&& entry.last_seen == now
    &&& entry.active == announced_active(kind, data_view(announce.app_data))
}

/// The directory entry for an announce.
pub fn process_announce(announce: &Announce, kind: DirectoryKind, now: i64) -> (r: DirectoryEntry)
    ensures
        r.destination_hash@ == hex_text(announce.destination_hash@),
        text_view(r.identity_hash) == hash_text_view(announce.identity_hash),
        text_view(r.delivery_hash) == hash_text_view(announce.delivery_hash),
        r.kind@ == kind_text(kind),
        text_view(r.display_name) == announced_name(kind, data_view(announce.app_data)),
        r.hops == announce.hops,
        r.last_seen == now,
        r.active == announced_active(kind, data_view(announce.app_data)),
        is_entry_for(*announce, kind, now, r),
{
    let display_name = match &announce.app_data {
        None => None,
        Some(data) => match kind {
            DirectoryKind::Peer => peer_name(data),
            DirectoryKind::Propagation => propagation_name(data),
            DirectoryKind::Node => match text_from_utf8(data) {
                Some(text) => Some(sanitise_name(text)),
                None => None,
            },
            DirectoryKind::Rrc => None,
        },
    };
    let active = match kind {
        DirectoryKind::Propagation => match &announce.app_data {
            None => false,
            Some(data) => match propagation_terms(data) {
                Some(terms) => terms.0,
                None => false,
            },
        },
        _ => true,
    };
    directory_entry(announce, kind, display_name, active, now)
}

/// The cost of a stamp for a propagation node, by the data it announced.
pub fn stamp_cost(app_data: &Option<Vec<u8>>) -> (r: u8)
    ensures
        r == match data_view(*app_data) {
            Some(data) => match propagation_terms_in(data) {
                Some(terms) => terms.1,
                None => 0u8,
            },
            None => 0u8,
        },
{
    match app_data {
        Some(data) => match propagation_terms(data) {
            Some(terms) => terms.1,
            None => 0,
        },
        None => 0,
    }
}

fn same_bytes(a: &[u8], b: &[u8]) -> (r: bool)
    ensures
        r == (a@ == b@),
{
    if a.len() != b.len() {
        return false;
    }
    for i in 0..a.len()
        invariant
            a@.len() == b@.len(),
            forall|j: int| 0 <= j < i ==> a@[j] == b@[j],
    {
        if a[i] != b[i] {
            return false;
        }
    }
    assert(a@ =~= b@);
    true
}

/// The kind of an announce, by the name that it was made under.
pub open spec fn kind_named(
    name: Seq<u8>,
    delivery: Seq<u8>,
    node: Seq<u8>,
    propagation: Seq<u8>,
    hub: Seq<u8>,
) -> Option<DirectoryKind> {
    if name == delivery {
        Some(DirectoryKind::Peer)
    } else if name == node {
        Some(DirectoryKind::Node)
    } else if name == propagation {
        Some(DirectoryKind::Propagation)
    } else if name == hub {
        Some(DirectoryKind::Rrc)
    } else {
        None
    }
}

/// The kind of a cached announce by the hash of its name.
pub fn announce_kind(
    name: &[u8],
    delivery: &[u8],
    node: &[u8],
    propagation: &[u8],
    hub: &[u8],
) -> (r: Option<DirectoryKind>)
    ensures
        r == kind_named(name@, delivery@, node@, propagation@, hub@),
        r == if name@ == delivery@ {
            Some(DirectoryKind::Peer)
        } else if name@ == node@ {
            Some(DirectoryKind::Node)
        } else if name@ == propagation@ {
            Some(DirectoryKind::Propagation)
        } else if name@ == hub@ {
            Some(DirectoryKind::Rrc)
        } else {
            None
        },
{
    if same_bytes(name, delivery) {
        Some(DirectoryKind::Peer)
    } else if same_bytes(name, node) {
        Some(DirectoryKind::Node)
    } else if same_bytes(name, propagation) {
        Some(DirectoryKind::Propagation)
    } else if same_bytes(name, hub) {
        Some(DirectoryKind::Rrc)
    } else {
        None
    }
}

} // verus!
