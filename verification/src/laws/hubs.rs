//! Laws of chat hubs: what is asked of which hub, what is remembered of it, and how
//! what comes from it is shown.
use vstd::prelude::*;

use crate::browser::text_view;
use crate::db::SavedRrcHub;
use crate::hexadecimal::{hex_text, is_hash_text};
use crate::laws::chat::is_plain_room;
use crate::models::{RrcHubView, RrcMessageView};
use crate::rrc::{
    carries_out, is_forwarded_as, memory_of, message_kind_text, reported_hub, restorable, room_key,
    rooms_after, shown_milliseconds, shows_hub, shows_message, tells, ClientEvent, ClientReply,
    Forwarded, HubInfo, MemoryModel, MessageInfo, MessageKind, RrcAnswer, RrcCall, RrcCommand,
};
use crate::text::{equals, is_white_space, law_trim_keeps_trimmed, lower, skip_while};

verus! {

/// The hub that a request is for.
pub open spec fn asked_hub(command: RrcCommand) -> Seq<u8> {
    match command {
        RrcCommand::Connect { destination_hash, .. } => destination_hash@,
        RrcCommand::Join { destination_hash, .. } => destination_hash@,
        RrcCommand::Part { destination_hash, .. } => destination_hash@,
        RrcCommand::Disconnect { destination_hash } => destination_hash@,
        RrcCommand::SetNick { destination_hash, .. } => destination_hash@,
        RrcCommand::ListRooms { destination_hash } => destination_hash@,
        RrcCommand::ListUsers { destination_hash, .. } => destination_hash@,
        RrcCommand::Ping { destination_hash } => destination_hash@,
        RrcCommand::Send { destination_hash, .. } => destination_hash@,
    }
}

/// The hub that a call goes to, if it goes to one.
pub open spec fn called_hub(call: RrcCall) -> Option<Seq<u8>> {
    match call {
        RrcCall::Connect { destination_hash, .. } => Some(destination_hash@),
        RrcCall::Join { destination_hash, .. } => Some(destination_hash@),
        RrcCall::Part { destination_hash, .. } => Some(destination_hash@),
        RrcCall::Disconnect { destination_hash } => Some(destination_hash@),
        RrcCall::SetNick { destination_hash, .. } => Some(destination_hash@),
        RrcCall::ListRooms { destination_hash, .. } => Some(destination_hash@),
        RrcCall::ListUsers { destination_hash, .. } => Some(destination_hash@),
        RrcCall::Ping { destination_hash, .. } => Some(destination_hash@),
        RrcCall::SendCommand { destination_hash, .. } => Some(destination_hash@),
        RrcCall::SendAction { destination_hash, .. } => Some(destination_hash@),
        RrcCall::SendMessage { destination_hash, .. } => Some(destination_hash@),
        RrcCall::InvalidRoom => None,
    }
}

/// What is asked of a hub is asked of that hub and of no other.
pub proof fn law_requests_go_to_their_hub(command: RrcCommand, call: RrcCall)
    requires
        carries_out(command, call),
        !(call is InvalidRoom),
    ensures
        called_hub(call) == Some(asked_hub(command)),
{
}

/// Each request is carried out by the call that is named for it, with the room, the
/// key and the name that it holds.
pub proof fn law_requests_are_carried_out(
    hub: [u8; 16],
    room: String,
    key: Option<String>,
    nick: String,
    call: RrcCall,
)
    ensures
        carries_out(RrcCommand::Join { destination_hash: hub, room, key }, call) ==> call is Join
            && call->Join_room@ == room@ && text_view(call->key) == text_view(key),
        carries_out(RrcCommand::Part { destination_hash: hub, room }, call) ==> call is Part
            && call->Part_room@ == room@,
        carries_out(RrcCommand::Disconnect { destination_hash: hub }, call) ==> call
            is Disconnect,
        carries_out(RrcCommand::SetNick { destination_hash: hub, nick }, call) ==> call is SetNick
            && call->SetNick_nick@ == nick@,
        carries_out(RrcCommand::Connect { destination_hash: hub, nick: Some(nick) }, call)
            ==> call is Connect && text_view(call->Connect_nick) == Some(nick@),
        carries_out(RrcCommand::ListRooms { destination_hash: hub }, call) ==> call is ListRooms
            && call->ListRooms_seconds == 30,
        carries_out(RrcCommand::ListUsers { destination_hash: hub, room }, call) ==> call
            is ListUsers && call->ListUsers_room@ == room@ && call->ListUsers_seconds == 30,
        carries_out(RrcCommand::Ping { destination_hash: hub }, call) ==> call is Ping
            && call->Ping_seconds == 30,
{
}

/// A text is sent to its room as it is; an action as an action; what begins with a
/// slash, and is no action, is a command, for which no room is needed. Nothing else is
/// sent without a room.
pub proof fn law_texts_are_sent_as_what_they_are(
    hub: [u8; 16],
    room: String,
    body: String,
    call: RrcCall,
)
    ensures
        carries_out(
            RrcCommand::Send { destination_hash: hub, room: Some(room), body, action: true },
            call,
        ) ==> call is SendAction && call->SendAction_room@ == room@ && call->SendAction_body@
            == body@,
        (body@.len() == 0 || body@[0] != '/') && carries_out(
            RrcCommand::Send { destination_hash: hub, room: Some(room), body, action: false },
            call,
        ) ==> call is SendMessage && call->SendMessage_room@ == room@ && call->SendMessage_body@
            == body@,
        body@.len() > 0 && body@[0] == '/' && carries_out(
            RrcCommand::Send { destination_hash: hub, room: None, body, action: false },
            call,
        ) ==> call is SendCommand && call->SendCommand_body@ == body@ && text_view(
            call->SendCommand_room,
        ).is_none(),
        body@.len() > 0 && body@[0] == '/' && carries_out(
            RrcCommand::Send { destination_hash: hub, room: Some(room), body, action: false },
            call,
        ) ==> call is SendCommand && call->SendCommand_body@ == body@ && text_view(
            call->SendCommand_room,
        ) == Some(room@),
        carries_out(
            RrcCommand::Send { destination_hash: hub, room: None, body, action: true },
            call,
        ) ==> call is InvalidRoom,
        (body@.len() == 0 || body@[0] != '/') && carries_out(
            RrcCommand::Send { destination_hash: hub, room: None, body, action: false },
            call,
        ) ==> call is InvalidRoom,
{
}

/// A plain name of a room is kept as it is, and a mark before it and white space
/// around it do not matter.
pub proof fn law_plain_rooms_keep_their_name(name: Seq<char>)
    requires
        is_plain_room(name),
    ensures
        room_key(name) == name,
        room_key(seq!['#'] + name) == name,
{
    assert(!is_white_space(name[0]) && !is_white_space(name[name.len() - 1]));
    law_trim_keeps_trimmed(name);
    assert(lower(name) =~= name) by {
        assert forall|i: int| 0 <= i < name.len() implies lower(name)[i] == name[i] by {
            assert(!('A' <= name[i] <= 'Z'));
        }
    }
    let marked = seq!['#'] + name;
    assert(marked.last() == name.last());
    law_trim_keeps_trimmed(marked);
    assert(marked.drop_first() =~= name);
    assert(skip_while(marked, equals('#')) == skip_while(name, equals('#')));
}

/// A room that is joined is remembered under its hub; leaving a room forgets that room
/// alone, and disconnecting forgets all rooms of that hub and none of another.
pub proof fn law_rooms_are_remembered(
    known: Set<(Seq<char>, Seq<char>)>,
    hub: [u8; 16],
    room: String,
    key: Option<String>,
    entry: (Seq<char>, Seq<char>),
)
    ensures
        rooms_after(
            known,
            memory_of(RrcCommand::Join { destination_hash: hub, room, key }, None),
        ).contains(entry) <==> known.contains(entry) || entry == (
            hex_text(hub@),
            room_key(room@),
        ),
        rooms_after(
            known,
            memory_of(RrcCommand::Part { destination_hash: hub, room }, None),
        ).contains(entry) <==> known.contains(entry) && entry != (hex_text(hub@), room_key(room@)),
        rooms_after(
            known,
            memory_of(RrcCommand::Disconnect { destination_hash: hub }, None),
        ).contains(entry) <==> known.contains(entry) && entry.0 != hex_text(hub@),
{
}

/// A hub is remembered where it was connected to, with its name and the nickname that
/// was asked for; a new nickname is remembered as the hub reports it. What only asks or
/// sends leaves no memory.
pub proof fn law_hubs_are_remembered(
    hub: HubInfo,
    to: [u8; 16],
    nick: Option<String>,
    name: String,
    room: Option<String>,
    body: String,
    action: bool,
    reply: Option<HubInfo>,
)
    ensures
        memory_of(RrcCommand::Connect { destination_hash: to, nick }, Some(hub)) == (
        MemoryModel::SaveHub {
            destination_hash: hex_text(hub.destination_hash@),
            name: text_view(hub.name),
            nick: text_view(nick),
        }),
        memory_of(RrcCommand::SetNick { destination_hash: to, nick: name }, Some(hub)) == (
        MemoryModel::SaveHub {
            destination_hash: hex_text(hub.destination_hash@),
            name: text_view(hub.name),
            nick: text_view(hub.nick),
        }),
        memory_of(RrcCommand::Connect { destination_hash: to, nick }, None) is Nothing,
        memory_of(RrcCommand::ListRooms { destination_hash: to }, reply) is Nothing,
        memory_of(RrcCommand::ListUsers { destination_hash: to, room: name }, reply) is Nothing,
        memory_of(RrcCommand::Ping { destination_hash: to }, reply) is Nothing,
        memory_of(RrcCommand::Send { destination_hash: to, room, body, action }, reply)
            is Nothing,
{
}

/// What a hub answers is told to who asked: a failure in its words, rooms and users as
/// they came, and a time as far as it can be told.
pub proof fn law_answers_are_told(reply: ClientReply, source: Seq<u8>, answer: RrcAnswer)
    requires
        tells(reply, source, answer),
    ensures
        reply is Failed <==> answer is Failed,
        reply is Failed ==> answer->Failed_0 == reply->Failed_0,
        reply is Rooms ==> answer == RrcAnswer::Rooms(reply->Rooms_0),
        reply is Users ==> answer == RrcAnswer::Users(reply->Users_0),
        reply is Elapsed && reply->Elapsed_0 <= u64::MAX ==> answer == RrcAnswer::Milliseconds(
            reply->Elapsed_0 as u64,
        ),
        reply is Done ==> answer is Done,
        reply is Hub ==> answer is Hub && answer->Hub_0.destination_hash@ == hex_text(
            reply->Hub_0.destination_hash@,
        ),
        reported_hub(reply).is_some() <==> reply is Hub,
{
}

/// A hub counts as connected once it greeted, and what it can do is what it greeted
/// with: before that it can do nothing.
pub proof fn law_hubs_can_do_what_they_greeted_with(
    hub: HubInfo,
    source: Seq<u8>,
    view: RrcHubView,
)
    requires
        shows_hub(hub, source, view),
    ensures
        view.connected <==> hub.connected && hub.welcome.is_some(),
        hub.welcome.is_none() ==> !view.supports_resources && !view.supports_actions
            && !view.supports_direct_notices && !view.supports_room_state
            && !view.supports_user_list && view.version.is_none()
            && view.max_message_bytes.is_none(),
        hub.welcome.is_some() ==> view.supports_resources
            == hub.welcome.unwrap().resource_envelope && view.supports_actions
            == hub.welcome.unwrap().action && view.supports_direct_notices
            == hub.welcome.unwrap().direct_notice && view.supports_room_state
            == hub.welcome.unwrap().room_state && view.supports_user_list
            == hub.welcome.unwrap().user_list && view.max_message_bytes
            == hub.welcome.unwrap().max_message_bytes,
        view.rooms == hub.rooms,
        view.nick == hub.nick,
        view.local_identity@ == hex_text(source),
{
}

/// A line of a chat keeps its hub, its room, its words and its time; its sender is
/// written in hexadecimal, and the hub itself has none. Its kind is told by a word of
/// its own.
pub proof fn law_chat_lines_are_kept(
    message: MessageInfo,
    view: RrcMessageView,
    a: MessageKind,
    b: MessageKind,
)
    requires
        shows_message(message, view),
    ensures
        view.hub_hash@ == hex_text(message.hub@),
        view.room == message.room,
        view.body == message.body,
        view.nick == message.nick,
        view.timestamp_ms == message.timestamp_ms,
        message.source.is_none() <==> view.source_hash@.len() == 0,
        message.source.is_some() ==> view.source_hash@ == hex_text(message.source.unwrap()@),
        message_kind_text(a) == message_kind_text(b) ==> a == b,
{
    if message.source.is_some() {
        assert(hex_text(message.source.unwrap()@).len() == 32);
    }
    reveal_strlit("message");
    reveal_strlit("notice");
    reveal_strlit("action");
    reveal_strlit("error");
    assert("message"@[0] == 'm' && "notice"@[0] == 'n' && "action"@[0] == 'a' && "error"@[0]
        == 'e');
}

/// The hubs that are connected to again after a restart are those that were saved
/// under an address: all of them and no others.
pub proof fn law_saved_hubs_come_back(saved: Seq<SavedRrcHub>, hub: SavedRrcHub)
    ensures
        is_hash_text(hub.destination_hash@) ==> restorable(saved.push(hub)) == restorable(
            saved,
        ).push(hub),
        !is_hash_text(hub.destination_hash@) ==> restorable(saved.push(hub)) == restorable(saved),
        restorable(Seq::empty()) == Seq::<SavedRrcHub>::empty(),
{
    reveal(Seq::filter);
    assert(saved.push(hub).drop_last() =~= saved);
    assert(restorable(Seq::empty()) =~= Seq::<SavedRrcHub>::empty());
}

/// A time that can be told is told as it is.
pub proof fn law_short_times_are_told(milliseconds: u128)
    ensures
        milliseconds <= u64::MAX ==> shown_milliseconds(milliseconds) == milliseconds,
        shown_milliseconds(milliseconds) <= u64::MAX,
{
}

/// Every line of a chat is passed on. A hub is passed on while it is connected, and after
/// that unless it was left on purpose.
pub proof fn law_lines_and_hubs_are_passed_on(
    message: MessageInfo,
    hub: HubInfo,
    saved: Option<bool>,
    source: Seq<u8>,
    forwarded: Forwarded,
)
    ensures
        is_forwarded_as(ClientEvent::Message(message), saved, source, forwarded) ==> forwarded
            is Message && shows_message(message, forwarded->Message_0),
        is_forwarded_as(ClientEvent::HubChanged(hub), saved, source, forwarded) && hub.connected
            && hub.welcome.is_some() ==> forwarded is Hub && shows_hub(
            hub,
            source,
            forwarded->Hub_0,
        ),
        is_forwarded_as(ClientEvent::HubChanged(hub), Some(true), source, forwarded)
            ==> forwarded is Hub,
        is_forwarded_as(ClientEvent::HubChanged(hub), None, source, forwarded) ==> forwarded
            is Hub,
        is_forwarded_as(ClientEvent::HubChanged(hub), Some(false), source, forwarded)
            && !hub.connected ==> forwarded is Nothing,
        is_forwarded_as(ClientEvent::Other, saved, source, forwarded) ==> forwarded is Nothing,
{
}

} // verus!
