//! The plain data that the frontends show.
use vstd::prelude::*;

verus! {

#[derive(Debug, Clone, Copy, PartialEq, Eq, Structural)]
pub enum NetworkState {
    Offline,
    Starting,
    Online,
    Failed,
}

#[derive(Debug, Clone)]
pub struct NetworkSnapshot {
    pub state: NetworkState,
    pub detail: String,
    pub destination_hash: Option<String>,
    pub interfaces: Vec<InterfaceSnapshot>,
}

impl NetworkSnapshot {
    /// The snapshot of a client that uses no network.
    pub fn offline() -> (r: Self)
        ensures
            r.state == NetworkState::Offline,
            r.detail@ == "Offline mode"@,
            r.destination_hash.is_none(),
            r.interfaces@.len() == 0,
    {
        NetworkSnapshot {
            state: NetworkState::Offline,
            detail: "Offline mode".to_string(),
            destination_hash: None,
            interfaces: Vec::new(),
        }
    }
}

#[derive(Debug, Clone)]
pub struct InterfaceSnapshot {
    pub id: u64,
    pub name: String,
    pub online: bool,
    pub mode: String,
    pub role: String,
    pub bitrate: u64,
    pub mtu: u32,
    pub rx_bytes: u64,
    pub tx_bytes: u64,
    pub rx_rate: u64,
    pub tx_rate: u64,
    pub held_announces: u64,
    pub tx_drops: u64,
}

#[derive(Debug, Clone)]
pub struct ConversationSummary {
    pub destination_hash: String,
    pub display_name: Option<String>,
    pub last_message: Option<String>,
    pub last_activity: Option<i64>,
    pub unread: u32,
}

#[derive(Debug, Clone)]
pub struct MessageView {
    pub id: i64,
    pub destination_hash: String,
    pub source_hash: String,
    pub title: String,
    pub content: String,
    pub timestamp: i64,
    pub outbound: bool,
    pub state: String,
    pub delivery_method: String,
    pub attempts: u32,
    pub last_error: Option<String>,
}

#[derive(Debug, Clone)]
pub struct DirectoryEntry {
    pub destination_hash: String,
    pub identity_hash: Option<String>,
    pub delivery_hash: Option<String>,
    pub kind: String,
    pub display_name: Option<String>,
    pub hops: u8,
    pub last_seen: i64,
    pub active: bool,
}

#[derive(Debug, Clone)]
pub struct RrcHubView {
    pub destination_hash: String,
    pub local_identity: String,
    pub name: Option<String>,
    pub nick: Option<String>,
    pub version: Option<String>,
    pub supports_resources: bool,
    pub supports_actions: bool,
    pub supports_direct_notices: bool,
    pub supports_room_state: bool,
    pub supports_user_list: bool,
    pub max_message_bytes: Option<usize>,
    pub connected: bool,
    pub rooms: Vec<String>,
    pub room_states: Vec<RrcRoomStateView>,
    pub detail: String,
}

#[derive(Debug, Clone)]
pub struct RrcRoomStateView {
    pub name: String,
    pub registered: bool,
    pub modes: String,
    pub topic: Option<String>,
}

#[derive(Debug, Clone)]
pub struct RrcMessageView {
    pub hub_hash: String,
    pub room: Option<String>,
    pub source_hash: String,
    pub nick: Option<String>,
    pub body: String,
    pub timestamp_ms: u64,
    pub kind: String,
}

#[derive(Debug, Clone)]
pub struct RrcRoomView {
    pub name: String,
    pub topic: Option<String>,
}

#[derive(Debug, Clone)]
pub struct RrcUserView {
    pub nick: Option<String>,
    pub identity: String,
    pub operator: bool,
    pub voiced: bool,
}

#[derive(Debug, Clone)]
pub struct SendMessageRequest {
    pub destination_hash: String,
    pub title: String,
    pub content: String,
    pub delivery_method: String,
    pub propagation_node: Option<String>,
}

#[derive(Debug, Clone)]
pub enum ServerEvent {
    Snapshot(NetworkSnapshot),
    NetworkChanged(NetworkSnapshot),
    MessageStored(MessageView),
    DirectoryChanged(DirectoryEntry),
    RrcHubChanged(RrcHubView),
    RrcMessage(RrcMessageView),
}

} // verus!
