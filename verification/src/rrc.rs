//! Chat hubs: which call each command makes, what is remembered after it, and
//! what the frontends are told.
use vstd::prelude::*;
use vstd::string::*;

use crate::browser::{clone_text, text_view};
use crate::db::SavedRrcHub;
use crate::hexadecimal::{encode_hex, hex_bytes, hex_text, is_hash_text};
use crate::models::{
    RrcHubView, RrcMessageView, RrcRoomStateView, RrcRoomView, RrcUserView,
};
use crate::network::parse_hash;
use crate::text::{
    chars_of, equals, is_white_space, law_trim_is_idempotent, law_trim_keeps_trimmed,
    lemma_trim_ends, lower, lower_char, lower_of, skip_back_while, skip_while, string_of, trim,
    trim_chars,
};

verus! {

/// What is asked of the chat client.
#[derive(Debug)]
pub enum RrcCommand {
    Connect { destination_hash: [u8; 16], nick: Option<String> },
    Join { destination_hash: [u8; 16], room: String, key: Option<String> },
    Part { destination_hash: [u8; 16], room: String },
    Disconnect { destination_hash: [u8; 16] },
    SetNick { destination_hash: [u8; 16], nick: String },
    ListRooms { destination_hash: [u8; 16] },
    ListUsers { destination_hash: [u8; 16], room: String },
    Ping { destination_hash: [u8; 16] },
    Send { destination_hash: [u8; 16], room: Option<String>, body: String, action: bool },
}

/// The call that carries out a request to send something.
#[derive(Debug, Clone, Copy, PartialEq, Eq, Structural)]
pub enum SendCall {
    /// The hub reads the text as a command.
    Command,
    /// The text goes to the room as an action.
    Action,
    /// The text goes to the room.
    Message,
    /// There is no room to send to.
    InvalidRoom,
}

/// A text that begins with `/` is a command, unless it is an action; all else
/// needs a room.
pub open spec fn send_call_of(body: Seq<char>, action: bool, has_room: bool) -> SendCall {
    if !action && body.len() > 0 && body[0] == '/' {
        SendCall::Command
    } else if !has_room {
        SendCall::InvalidRoom
    } else if action {
        SendCall::Action
    } else {
        SendCall::Message
    }
}

pub fn send_call(body: &str, action: bool, room: &Option<String>) -> (r: SendCall)
    ensures
        r == send_call_of(body@, action, room.is_some()),
{
    let letters = chars_of(body);
    if !action && letters.len() > 0 && letters[0] == '/' {
        SendCall::Command
    } else if room.is_none() {
        SendCall::InvalidRoom
    } else if action {
        SendCall::Action
    } else {
        SendCall::Message
    }
}

/// How long a hub has to answer a question, in seconds.
pub const ANSWER_SECONDS: u64 = 30;

/// A call to the chat client.
#[derive(Debug)]
pub enum RrcCall {
    Connect { destination_hash: [u8; 16], nick: Option<String> },
    Join { destination_hash: [u8; 16], room: String, key: Option<String> },
    Part { destination_hash: [u8; 16], room: String },
    Disconnect { destination_hash: [u8; 16] },
    SetNick { destination_hash: [u8; 16], nick: String },
    ListRooms { destination_hash: [u8; 16], seconds: u64 },
    ListUsers { destination_hash: [u8; 16], room: String, seconds: u64 },
    Ping { destination_hash: [u8; 16], seconds: u64 },
    SendCommand { destination_hash: [u8; 16], room: Option<String>, body: String },
    SendAction { destination_hash: [u8; 16], room: String, body: String },
    SendMessage { destination_hash: [u8; 16], room: String, body: String },
    /// No call: there is no room to send to.
    InvalidRoom,
}

/// Whether a call carries out a command, with what the command says.
pub open spec fn carries_out(command: RrcCommand, call: RrcCall) -> bool {
    match command {
        RrcCommand::Connect { destination_hash, nick } => call matches RrcCall::Connect {
            destination_hash: to,
            nick: named,
        } && to == destination_hash && text_view(named) == text_view(nick),
        RrcCommand::Join { destination_hash, room, key } => call matches RrcCall::Join {
            destination_hash: to,
            room: named,
            key: given,
        } && to == destination_hash && named@ == room@ && text_view(given) == text_view(key),
        RrcCommand::Part { destination_hash, room } => call matches RrcCall::Part {
            destination_hash: to,
            room: named,
        } && to == destination_hash && named@ == room@,
        RrcCommand::Disconnect { destination_hash } => call matches RrcCall::Disconnect {
            destination_hash: to,
        } && to == destination_hash,
        RrcCommand::SetNick { destination_hash, nick } => call matches RrcCall::SetNick {
            destination_hash: to,
            nick: named,
        } && to == destination_hash && named@ == nick@,
        RrcCommand::ListRooms { destination_hash } => call matches RrcCall::ListRooms {
            destination_hash: to,
            seconds,
        } && to == destination_hash && seconds == ANSWER_SECONDS,
        RrcCommand::ListUsers { destination_hash, room } => call matches RrcCall::ListUsers {
            destination_hash: to,
            room: named,
            seconds,
        } && to == destination_hash && named@ == room@ && seconds == ANSWER_SECONDS,
        RrcCommand::Ping { destination_hash } => call matches RrcCall::Ping {
            destination_hash: to,
            seconds,
        } && to == destination_hash && seconds == ANSWER_SECONDS,
        RrcCommand::Send { destination_hash, room, body, action } => match send_call_of(
            body@,
            action,
            room.is_some(),
        ) {
            SendCall::Command => call matches RrcCall::SendCommand {
                destination_hash: to,
                room: named,
                body: text,
            } && to == destination_hash && text_view(named) == text_view(room) && text@ == body@,
            SendCall::Action => call matches RrcCall::SendAction {
                destination_hash: to,
                room: named,
                body: text,
            } && to == destination_hash && named@ == room.unwrap()@ && text@ == body@,
            SendCall::Message => call matches RrcCall::SendMessage {
                destination_hash: to,
                room: named,
                body: text,
            } && to == destination_hash && named@ == room.unwrap()@ && text@ == body@,
            SendCall::InvalidRoom => call is InvalidRoom,
        },
    }
}

/// The call that carries out a command.
pub fn client_call(command: &RrcCommand) -> (r: RrcCall)
    ensures
        carries_out(*command, r),
{
    match command {
        RrcCommand::Connect { destination_hash, nick } => RrcCall::Connect {
            destination_hash: *destination_hash,
            nick: clone_text(nick),
        },
        RrcCommand::Join { destination_hash, room, key } => RrcCall::Join {
            destination_hash: *destination_hash,
            room: room.clone(),
            key: clone_text(key),
        },
        RrcCommand::Part { destination_hash, room } => RrcCall::Part {
            destination_hash: *destination_hash,
            room: room.clone(),
        },
        RrcCommand::Disconnect { destination_hash } => RrcCall::Disconnect {
            destination_hash: *destination_hash,
        },
        RrcCommand::SetNick { destination_hash, nick } => RrcCall::SetNick {
            destination_hash: *destination_hash,
            nick: nick.clone(),
        },
        RrcCommand::ListRooms { destination_hash } => RrcCall::ListRooms {
            destination_hash: *destination_hash,
            seconds: ANSWER_SECONDS,
        },
        RrcCommand::ListUsers { destination_hash, room } => RrcCall::ListUsers {
            destination_hash: *destination_hash,
            room: room.clone(),
            seconds: ANSWER_SECONDS,
        },
        RrcCommand::Ping { destination_hash } => RrcCall::Ping {
            destination_hash: *destination_hash,
            seconds: ANSWER_SECONDS,
        },
        RrcCommand::Send { destination_hash, room, body, action } => {
            let way = send_call(body.as_str(), *action, room);
            if way == SendCall::Command {
                return RrcCall::SendCommand {
                    destination_hash: *destination_hash,
                    room: clone_text(room),
                    body: body.clone(),
                };
            }
            match room {
                None => RrcCall::InvalidRoom,
                Some(room) => if *action {
                    RrcCall::SendAction {
                        destination_hash: *destination_hash,
                        room: room.clone(),
                        body: body.clone(),
                    }
                } else {
                    RrcCall::SendMessage {
                        destination_hash: *destination_hash,
                        room: room.clone(),
                        body: body.clone(),
                    }
                },
            }
        },
    }
}

/// The name under which a room is remembered.
pub open spec fn room_key(room: Seq<char>) -> Seq<char> {
    lower(skip_while(trim(room), equals('#')))
}

pub fn normalize_room(room: &str) -> (r: String)
    ensures
        r@ == room_key(room@),
{
    let all = chars_of(room);
    let trimmed = trim_chars(&all);
    let mut from: usize = 0;
    assert(trimmed@.skip(0) =~= trimmed@);
    while from < trimmed.len() && trimmed[from] == '#'
        invariant
            from <= trimmed@.len(),
            skip_while(trimmed@, equals('#')) == skip_while(
                trimmed@.skip(from as int),
                equals('#'),
            ),
        decreases trimmed@.len() - from,
    {
        assert(trimmed@.skip(from as int).drop_first() =~= trimmed@.skip(from + 1));
        from = from + 1;
    }
    let bare = vstd::slice::slice_subrange(trimmed, from, trimmed.len());
    assert(bare@ =~= trimmed@.skip(from as int));
    let small = lower_of(bare);
    string_of(&small)
}

/// What is remembered once a command was carried out.
#[derive(Debug)]
pub enum RrcMemory {
    Nothing,
    SaveHub { destination_hash: String, name: Option<String>, nick: Option<String> },
    SaveRoom { destination_hash: String, room: String },
    ForgetRoom { destination_hash: String, room: String },
    ForgetHub { destination_hash: String },
}

pub enum MemoryModel {
    Nothing,
    SaveHub { destination_hash: Seq<char>, name: Option<Seq<char>>, nick: Option<Seq<char>> },
    SaveRoom { destination_hash: Seq<char>, room: Seq<char> },
    ForgetRoom { destination_hash: Seq<char>, room: Seq<char> },
    ForgetHub { destination_hash: Seq<char> },
}

impl View for RrcMemory {
    type V = MemoryModel;

    open spec fn view(&self) -> MemoryModel {
        match *self {
            RrcMemory::Nothing => MemoryModel::Nothing,
            RrcMemory::SaveHub { destination_hash, name, nick } => MemoryModel::SaveHub {
                destination_hash: destination_hash@,
                name: text_view(name),
                nick: text_view(nick),
            },
            RrcMemory::SaveRoom { destination_hash, room } => MemoryModel::SaveRoom {
                destination_hash: destination_hash@,
                room: room@,
            },
            RrcMemory::ForgetRoom { destination_hash, room } => MemoryModel::ForgetRoom {
                destination_hash: destination_hash@,
                room: room@,
            },
            RrcMemory::ForgetHub { destination_hash } => MemoryModel::ForgetHub {
                destination_hash: destination_hash@,
            },
        }
    }
}

/// A round-trip time in milliseconds, up to the largest that can be told.
pub open spec fn shown_milliseconds(milliseconds: u128) -> int {
    if milliseconds > u64::MAX {
        u64::MAX as int
    } else {
        milliseconds as int
    }
}

pub fn ping_milliseconds(milliseconds: u128) -> (r: u64)
    ensures
        r == shown_milliseconds(milliseconds),
{
    if milliseconds > 18446744073709551615u128 {
        u64::MAX
    } else {
        milliseconds as u64
    }
}

/// What a hub says of itself once it greets the client.
#[derive(Debug)]
pub struct Welcome {
    pub version: Option<String>,
    pub resource_envelope: bool,
    pub action: bool,
    pub direct_notice: bool,
    pub room_state: bool,
    pub user_list: bool,
    pub max_message_bytes: Option<usize>,
}

/// A hub as the chat client knows it.
#[derive(Debug)]
pub struct HubInfo {
    pub destination_hash: [u8; 16],
    pub name: Option<String>,
    pub nick: Option<String>,
    pub welcome: Option<Welcome>,
    pub connected: bool,
    pub rooms: Vec<String>,
    pub room_states: Vec<RrcRoomStateView>,
    pub detail: String,
}

/// Whether `view` shows a hub. It counts as connected once it greeted.
pub open spec fn shows_hub(hub: HubInfo, source: Seq<u8>, view: RrcHubView) -> bool {
    &&& view.destination_hash@ == hex_text(hub.destination_hash@)
    &&& view.local_identity@ == hex_text(source)
    &&& view.name == hub.name
    &&& view.nick == hub.nick
    &&& text_view(view.version) == match hub.welcome {
        Some(welcome) => text_view(welcome.version),
        None => None,
    }
    &&& view.supports_resources == (hub.welcome.is_some() && hub.welcome.unwrap().resource_envelope)
    &&& view.supports_actions == (hub.welcome.is_some() && hub.welcome.unwrap().action)
    &&& view.supports_direct_notices == (hub.welcome.is_some()
        && hub.welcome.unwrap().direct_notice)
    &&& view.supports_room_state == (hub.welcome.is_some() && hub.welcome.unwrap().room_state)
    &&& view.supports_user_list == (hub.welcome.is_some() && hub.welcome.unwrap().user_list)
    &&& view.max_message_bytes == match hub.welcome {
        Some(welcome) => welcome.max_message_bytes,
        None => None,
    }
    &&& view.connected == (hub.connected && hub.welcome.is_some())
    &&& view.rooms == hub.rooms
    &&& view.room_states == hub.room_states
    &&& view.detail == hub.detail
}

/// A hub as the frontends see it.
pub fn hub_view(hub: HubInfo, source: &[u8; 16]) -> (r: RrcHubView)
    ensures
        shows_hub(hub, source@, r),
{
    let connected = hub.connected && hub.welcome.is_some();
    let destination_hash = encode_hex(&hub.destination_hash);
    let local_identity = encode_hex(source);
    let (version, resources, actions, notices, states, users, limit) = match hub.welcome {
        Some(welcome) => (
            welcome.version,
            welcome.resource_envelope,
            welcome.action,
            welcome.direct_notice,
            welcome.room_state,
            welcome.user_list,
            welcome.max_message_bytes,
        ),
        None => (None, false, false, false, false, false, None),
    };
    RrcHubView {
        destination_hash,
        local_identity,
        name: hub.name,
        nick: hub.nick,
        version,
        supports_resources: resources,
        supports_actions: actions,
        supports_direct_notices: notices,
        supports_room_state: states,
        supports_user_list: users,
        max_message_bytes: limit,
        connected,
        rooms: hub.rooms,
        room_states: hub.room_states,
        detail: hub.detail,
    }
}

/// What came back from a call.
#[derive(Debug)]
pub enum ClientReply {
    Done,
    Hub(HubInfo),
    Rooms(Vec<RrcRoomView>),
    Users(Vec<RrcUserView>),
    /// A round-trip time in milliseconds.
    Elapsed(u128),
    Failed(String),
}

/// What the one who asked is told.
#[derive(Debug)]
pub enum RrcAnswer {
    Done,
    Hub(RrcHubView),
    Rooms(Vec<RrcRoomView>),
    Users(Vec<RrcUserView>),
    Milliseconds(u64),
    Failed(String),
}

/// Whether an answer tells what came back.
pub open spec fn tells(reply: ClientReply, source: Seq<u8>, answer: RrcAnswer) -> bool {
    match reply {
        ClientReply::Done => answer is Done,
        ClientReply::Hub(hub) => answer matches RrcAnswer::Hub(view) && shows_hub(
            hub,
            source,
            view,
        ),
        ClientReply::Rooms(rooms) => answer == RrcAnswer::Rooms(rooms),
        ClientReply::Users(users) => answer == RrcAnswer::Users(users),
        ClientReply::Elapsed(milliseconds) => answer matches RrcAnswer::Milliseconds(shown)
            && shown == shown_milliseconds(milliseconds),
        ClientReply::Failed(error) => answer == RrcAnswer::Failed(error),
    }
}

/// What a command leaves behind where it succeeded. A connection is remembered
/// under the nick that was asked for, a new nick under the one the hub reports.
/// Keys of rooms are not remembered.
pub open spec fn memory_of(command: RrcCommand, hub: Option<HubInfo>) -> MemoryModel {
    match command {
        RrcCommand::Connect { nick, .. } => match hub {
            Some(hub) => MemoryModel::SaveHub {
                destination_hash: hex_text(hub.destination_hash@),
                name: text_view(hub.name),
                nick: text_view(nick),
            },
            None => MemoryModel::Nothing,
        },
        RrcCommand::SetNick { .. } => match hub {
            Some(hub) => MemoryModel::SaveHub {
                destination_hash: hex_text(hub.destination_hash@),
                name: text_view(hub.name),
                nick: text_view(hub.nick),
            },
            None => MemoryModel::Nothing,
        },
        RrcCommand::Join { destination_hash, room, .. } => MemoryModel::SaveRoom {
            destination_hash: hex_text(destination_hash@),
            room: room_key(room@),
        },
        RrcCommand::Part { destination_hash, room } => MemoryModel::ForgetRoom {
            destination_hash: hex_text(destination_hash@),
            room: room_key(room@),
        },
        RrcCommand::Disconnect { destination_hash } => MemoryModel::ForgetHub {
            destination_hash: hex_text(destination_hash@),
        },
        _ => MemoryModel::Nothing,
    }
}

pub open spec fn reported_hub(reply: ClientReply) -> Option<HubInfo> {
    match reply {
        ClientReply::Hub(hub) => Some(hub),
        _ => None,
    }
}

fn remember(command: &RrcCommand, hub: &Option<HubInfo>) -> (r: RrcMemory)
    ensures
        r@ == memory_of(*command, *hub),
{
    match command {
        RrcCommand::Connect { nick, .. } => match hub {
            Some(hub) => RrcMemory::SaveHub {
                destination_hash: encode_hex(&hub.destination_hash),
                name: clone_text(&hub.name),
                nick: clone_text(nick),
            },
            None => RrcMemory::Nothing,
        },
        RrcCommand::SetNick { .. } => match hub {
            Some(hub) => RrcMemory::SaveHub {
                destination_hash: encode_hex(&hub.destination_hash),
                name: clone_text(&hub.name),
                nick: clone_text(&hub.nick),
            },
            None => RrcMemory::Nothing,
        },
        RrcCommand::Join { destination_hash, room, .. } => RrcMemory::SaveRoom {
            destination_hash: encode_hex(destination_hash),
            room: normalize_room(room.as_str()),
        },
        RrcCommand::Part { destination_hash, room } => RrcMemory::ForgetRoom {
            destination_hash: encode_hex(destination_hash),
            room: normalize_room(room.as_str()),
        },
        RrcCommand::Disconnect { destination_hash } => RrcMemory::ForgetHub {
            destination_hash: encode_hex(destination_hash),
        },
        RrcCommand::ListRooms { .. } => RrcMemory::Nothing,
        RrcCommand::ListUsers { .. } => RrcMemory::Nothing,
        RrcCommand::Ping { .. } => RrcMemory::Nothing,
        RrcCommand::Send { .. } => RrcMemory::Nothing,
    }
}

/// Decides, by what came back from the call of a command, on what is remembered
/// and what the one who asked is told.
pub fn handle_command(command: &RrcCommand, reply: ClientReply, source: &[u8; 16]) -> (r: (
    RrcMemory,
    RrcAnswer,
))
    ensures
        r.0@ == if reply is Failed {
            MemoryModel::Nothing
        } else {
            memory_of(*command, reported_hub(reply))
        },
        tells(reply, source@, r.1),
{
    match reply {
        ClientReply::Failed(error) => (RrcMemory::Nothing, RrcAnswer::Failed(error)),
        ClientReply::Hub(hub) => {
            let known = Some(hub);
            let memory = remember(command, &known);
            match known {
                Some(hub) => (memory, RrcAnswer::Hub(hub_view(hub, source))),
                None => (memory, RrcAnswer::Done),
            }
        },
        ClientReply::Done => (remember(command, &None), RrcAnswer::Done),
        ClientReply::Rooms(rooms) => (remember(command, &None), RrcAnswer::Rooms(rooms)),
        ClientReply::Users(users) => (remember(command, &None), RrcAnswer::Users(users)),
        ClientReply::Elapsed(milliseconds) => (
            remember(command, &None),
            RrcAnswer::Milliseconds(ping_milliseconds(milliseconds)),
        ),
    }
}

#[derive(Debug, Clone, Copy, PartialEq, Eq, Structural)]
pub enum MessageKind {
    Message,
    Notice,
    Action,
    Error,
}

/// A chat message as the chat client hands it out.
#[derive(Debug)]
pub struct MessageInfo {
    pub hub: [u8; 16],
    pub room: Option<String>,
    pub source: Option<[u8; 16]>,
    pub nick: Option<String>,
    pub body: String,
    pub timestamp_ms: u64,
    pub kind: MessageKind,
}

pub open spec fn message_kind_text(kind: MessageKind) -> Seq<char> {
    match kind {
        MessageKind::Message => "message"@,
        MessageKind::Notice => "notice"@,
        MessageKind::Action => "action"@,
        MessageKind::Error => "error"@,
    }
}

/// Whether `view` shows a chat message. Without a source its hash is empty.
pub open spec fn shows_message(message: MessageInfo, view: RrcMessageView) -> bool {
    &&& view.hub_hash@ == hex_text(message.hub@)
    &&& view.room == message.room
    &&& view.source_hash@ == match message.source {
        Some(source) => hex_text(source@),
        None => Seq::<char>::empty(),
    }
    &&& view.nick == message.nick
    &&& view.body == message.body
    &&& view.timestamp_ms == message.timestamp_ms
    &&& view.kind@ == message_kind_text(message.kind)
}

/// A chat message as the frontends see it.
pub fn message_view(message: MessageInfo) -> (r: RrcMessageView)
    ensures
        shows_message(message, r),
{
    let source_hash = match &message.source {
        Some(source) => encode_hex(source),
        None => {
            let none = String::new();
            assert(none@ =~= Seq::<char>::empty());
            none
        },
    };
    RrcMessageView {
        hub_hash: encode_hex(&message.hub),
        room: message.room,
        source_hash,
        nick: message.nick,
        body: message.body,
        timestamp_ms: message.timestamp_ms,
        kind: match message.kind {
            MessageKind::Message => "message".to_string(),
            MessageKind::Notice => "notice".to_string(),
            MessageKind::Action => "action".to_string(),
            MessageKind::Error => "error".to_string(),
        },
    }
}

/// Whether the frontends hear of a changed hub: not of one that went and was
/// forgotten. `saved` says whether it is remembered, where that is known.
pub fn forward_hub(connected: bool, saved: Option<bool>) -> (r: bool)
    ensures
        r == (connected || saved != Some(false)),
{
    if connected {
        true
    } else {
        match saved {
            Some(remembered) => remembered,
            None => true,
        }
    }
}

/// What the chat client reports on its own.
#[derive(Debug)]
pub enum ClientEvent {
    HubChanged(HubInfo),
    Message(MessageInfo),
    /// An envelope, a resource or something that could not be read.
    Other,
}

/// What becomes of a report.
#[derive(Debug)]
pub enum Forwarded {
    Nothing,
    /// The frontends hear of the hub.
    Hub(RrcHubView),
    /// The message is stored, then the frontends hear of it.
    Message(RrcMessageView),
}

/// What is passed on of what the chat client hands out: every line, and the state of a
/// hub, unless it is gone and no longer wanted.
pub open spec fn is_forwarded_as(
    event: ClientEvent,
    saved: Option<bool>,
    source: Seq<u8>,
    forwarded: Forwarded,
) -> bool {
    match event {
        ClientEvent::HubChanged(hub) => if hub.connected && hub.welcome.is_some() || saved
            != Some(false) {
            forwarded matches Forwarded::Hub(view) && shows_hub(hub, source, view)
        } else {
            forwarded is Nothing
        },
        ClientEvent::Message(message) => forwarded matches Forwarded::Message(view)
            && shows_message(message, view),
        ClientEvent::Other => forwarded is Nothing,
    }
}

/// Decides on what becomes of a report. `saved` says whether the hub is
/// remembered, where that is known.
pub fn forward_event(event: ClientEvent, saved: Option<bool>, source: &[u8; 16]) -> (r: Forwarded)
    ensures
        is_forwarded_as(event, saved, source@, r),
        match event {
            ClientEvent::HubChanged(hub) => if hub.connected && hub.welcome.is_some() || saved
                != Some(false) {
                r matches Forwarded::Hub(view) && shows_hub(hub, source@, view)
            } else {
                r is Nothing
            },
            ClientEvent::Message(message) => r matches Forwarded::Message(view) && shows_message(
                message,
                view,
            ),
            ClientEvent::Other => r is Nothing,
        },
{
    match event {
        ClientEvent::HubChanged(hub) => {
            let view = hub_view(hub, source);
            if forward_hub(view.connected, saved) {
                Forwarded::Hub(view)
            } else {
                Forwarded::Nothing
            }
        },
        ClientEvent::Message(message) => Forwarded::Message(message_view(message)),
        ClientEvent::Other => Forwarded::Nothing,
    }
}

/// A remembered hub whose address can be read.
#[derive(Debug)]
pub struct RestoredHub {
    pub destination: [u8; 16],
    pub nick: Option<String>,
    pub rooms: Vec<(String, Option<String>)>,
}

pub open spec fn restorable(saved: Seq<SavedRrcHub>) -> Seq<SavedRrcHub> {
    saved.filter(|hub: SavedRrcHub| is_hash_text(hub.destination_hash@))
}

/// The hubs to connect to at the start: the remembered ones, but for those whose
/// address is no address.
pub fn restore_saved_sessions(saved: Vec<SavedRrcHub>) -> (r: Vec<RestoredHub>)
    ensures
        r@.len() == restorable(saved@).len(),
        forall|i: int|
            0 <= i < r@.len() ==> (#[trigger] r@[i]).destination@ == hex_bytes(
                restorable(saved@)[i].destination_hash@,
            ) && r@[i].nick == restorable(saved@)[i].nick && r@[i].rooms == restorable(
                saved@,
            )[i].rooms,
{
    let ghost all = saved@;
    let ghost p = |hub: SavedRrcHub| is_hash_text(hub.destination_hash@);
    let mut rest = saved;
    let ghost mut done: int = 0;
    let mut out: Vec<RestoredHub> = Vec::new();
    while rest.len() > 0
        invariant
            p == (|hub: SavedRrcHub| is_hash_text(hub.destination_hash@)),
            0 <= done <= all.len(),
            rest@ == all.skip(done),
            out@.len() == all.take(done).filter(p).len(),
            forall|i: int|
                0 <= i < out@.len() ==> (#[trigger] out@[i]).destination@ == hex_bytes(
                    all.take(done).filter(p)[i].destination_hash@,
                ) && out@[i].nick == all.take(done).filter(p)[i].nick && out@[i].rooms == all.take(
                    done,
                ).filter(p)[i].rooms,
        decreases rest@.len(),
    {
        let hub = rest.remove(0);
        proof {
            assert(hub == all[done]);
            assert(all.take(done + 1).drop_last() =~= all.take(done));
            assert(rest@ =~= all.skip(done + 1));
            reveal(Seq::filter);
        }
        if let Ok(destination) = parse_hash(hub.destination_hash.as_str()) {
            out.push(RestoredHub { destination, nick: hub.nick, rooms: hub.rooms });
        }
        proof {
            done = done + 1;
        }
    }
    assert(all.take(done) =~= all);
    out
}

/// The mark before a room's name, the space around it and the case of its letters
/// do not matter.
pub proof fn law_room_marks_do_not_matter(room: Seq<char>)
    ensures
        room_key(seq!['#'] + trim(room)) == room_key(room),
        room_key(trim(room)) == room_key(room),
        room_key(lower(room)) == room_key(room),
{
    let marked = seq!['#'] + trim(room);
    lemma_trim_ends(room);
    law_trim_is_idempotent(room);
    assert(trim(room).len() > 0 ==> marked.last() == trim(room).last());
    law_trim_keeps_trimmed(marked);
    assert(marked.drop_first() =~= trim(room));
    lemma_lower_and_trim(room);
    lemma_lower_and_marks(trim(room));
}

proof fn lemma_lower_and_trim(s: Seq<char>)
    ensures
        trim(lower(s)) == lower(trim(s)),
{
    let p = |c: char| is_white_space(c);
    lemma_lower_and_front(s);
    lemma_lower_and_back(skip_while(s, p));
}

proof fn lemma_lower_and_front(s: Seq<char>)
    ensures
        skip_while(lower(s), |c: char| is_white_space(c)) == lower(
            skip_while(s, |c: char| is_white_space(c)),
        ),
    decreases s.len(),
{
    if s.len() > 0 {
        assert(lower(s)[0] == lower_char(s[0]));
        assert(lower(s).drop_first() =~= lower(s.drop_first()));
        lemma_lower_and_front(s.drop_first());
    }
}

proof fn lemma_lower_and_back(s: Seq<char>)
    ensures
        skip_back_while(lower(s), |c: char| is_white_space(c)) == lower(
            skip_back_while(s, |c: char| is_white_space(c)),
        ),
    decreases s.len(),
{
    if s.len() > 0 {
        assert(lower(s).last() == lower_char(s.last()));
        assert(lower(s).drop_last() =~= lower(s.drop_last()));
        lemma_lower_and_back(s.drop_last());
    }
}

proof fn lemma_lower_and_marks(s: Seq<char>)
    ensures
        lower(skip_while(lower(s), equals('#'))) == lower(skip_while(s, equals('#'))),
    decreases s.len(),
{
    let small = lower(s);
    assert forall|i: int| 0 <= i < s.len() implies #[trigger] lower(small)[i] == small[i] by {
        assert(small[i] == lower_char(s[i]));
    }
    assert(lower(small) =~= small);
    if s.len() > 0 {
        assert(small[0] == lower_char(s[0]));
        if s[0] == '#' {
            lemma_lower_and_marks(s.drop_first());
            assert(small.drop_first() =~= lower(s.drop_first()));
        }
    }
}

/// The remembered rooms, each with its hub, after something was remembered. A hub
/// that is forgotten takes its rooms with it.
pub open spec fn rooms_after(
    known: Set<(Seq<char>, Seq<char>)>,
    memory: MemoryModel,
) -> Set<(Seq<char>, Seq<char>)> {
    match memory {
        MemoryModel::SaveRoom { destination_hash, room } => known.insert((destination_hash, room)),
        MemoryModel::ForgetRoom { destination_hash, room } => known.remove(
            (destination_hash, room),
        ),
        MemoryModel::ForgetHub { destination_hash } => known.filter(
            |entry: (Seq<char>, Seq<char>)| entry.0 != destination_hash,
        ),
        _ => known,
    }
}

/// Leaving a room forgets what joining it remembered, and no other room.
pub proof fn law_joining_then_leaving_forgets(
    known: Set<(Seq<char>, Seq<char>)>,
    destination_hash: [u8; 16],
    room: String,
    key: Option<String>,
)
    ensures
        ({
            let joined = rooms_after(
                known,
                memory_of(RrcCommand::Join { destination_hash, room, key }, None),
            );
            let left = rooms_after(
                joined,
                memory_of(RrcCommand::Part { destination_hash, room }, None),
            );
            let entry = (hex_text(destination_hash@), room_key(room@));
            &&& joined.contains(entry)
            &&& left == known.remove(entry)
        }),
{
    let entry = (hex_text(destination_hash@), room_key(room@));
    assert(known.insert(entry).remove(entry) =~= known.remove(entry));
}

} // verus!
