//! Laws of a chat session on the screen: what is asked of its hub, what an answer
//! changes, what counts as unread and what is shown.
use vstd::prelude::*;

use crate::browser::{text_view, text_views};
use crate::models::{RrcHubView, RrcMessageView};
use crate::text::decimal;
use crate::ui::rooms::{commanded, shift_of, turned, width_before, width_for, ChatCommand};
use crate::ui::rrc::{parsed, ActionModel, Answer};
use crate::ui::rrc_session::{
    answer_taken, answer_text, asked, clearing_asked, connections_noted, counted, counts,
    drafts_after, hub_hashes, is_connected, is_joined, is_listed, key_of, keys_of, own_identity,
    room_pressed, server_text, shown_places, submitted, typed, visible_in, KeyModel, PendingAnswer,
    RrcRequest, RrcSession, RrcState,
};
use crate::ui::state::{lemma_place_at, title_of, UiState};

verus! {

/// One thing at a time is asked of a hub: the hub that is open, while nothing else is
/// waited for; meanwhile the user is told to wait and nothing changes.
pub proof fn law_one_thing_is_asked_at_a_time(
    before: RrcSession,
    action: ActionModel,
    draft: Option<Seq<char>>,
    after: RrcSession,
    request: Option<RrcRequest>,
)
    requires
        asked(before, action, draft, after, request),
    ensures
        before.pending.is_none() ==> request.is_some() && request.unwrap().hub@ == before.hub@
            && request.unwrap().action@ == action && after.pending.is_some()
            && after.pending.unwrap().hub@ == before.hub@,
        before.pending.is_some() ==> request.is_none() && after.pending == before.pending,
        after.drafts == before.drafts,
        after.room == before.room,
        after.unread == before.unread,
        after.hub == before.hub,
{
}

/// The history of the room that is open is cleared, and of none where no room is.
pub proof fn law_the_open_room_is_cleared(
    before: RrcSession,
    after: RrcSession,
    request: Option<RrcRequest>,
)
    requires
        clearing_asked(before, after, request),
        before.pending.is_none(),
    ensures
        before.open_room(before.hub@).len() > 0 ==> request.is_some() && request.unwrap().action@
            == ActionModel::Clear(before.open_room(before.hub@)),
        before.open_room(before.hub@).len() == 0 ==> request.is_none(),
{
}

/// The commands of the window ask for what they are named for.
pub proof fn law_window_commands(
    before: RrcSession,
    after: RrcSession,
    request: Option<RrcRequest>,
)
    requires
        before.pending.is_none(),
    ensures
        commanded(before, ChatCommand::Rooms, after, request) ==> request.is_some()
            && request.unwrap().action@ == ActionModel::Rooms,
        commanded(before, ChatCommand::Disconnect, after, request) ==> request.is_some()
            && request.unwrap().action@ == ActionModel::Disconnect,
        commanded(before, ChatCommand::Clear, after, request) ==> clearing_asked(
            before,
            after,
            request,
        ),
        commanded(before, ChatCommand::Other, after, request) ==> request.is_none() && after
            == before,
{
}

/// A window turns to the hub that is called for, and else stays with its own.
pub proof fn law_windows_turn_to_the_hub(
    before: RrcSession,
    hub: Seq<char>,
    hubs: Seq<RrcHubView>,
    after: RrcSession,
)
    ensures
        turned(before, Some(hub), hubs, after) ==> after.hub@ == hub && after.drafts
            == before.drafts && after.room == before.room,
        turned(before, None, hubs, after) ==> after.hub == before.hub,
{
}

/// Whoever joined a room has it open at that hub, and other hubs keep theirs; whoever
/// disconnected has no room open there and nothing unread, and counts as gone.
pub proof fn law_answers_change_the_session(
    before: RrcSession,
    hub: Seq<char>,
    room: String,
    after: RrcSession,
    other: Seq<char>,
    name: Seq<char>,
)
    requires
        other != hub,
    ensures
        answer_taken(before, hub, Answer::Joined(room), after) ==> after.open_room(hub) == room@
            && after.open_room(other) == before.open_room(other) && after.unread == before.unread,
        answer_taken(before, hub, Answer::Disconnected, after) ==> after.open_room(hub)
            == Seq::<char>::empty() && after.open_room(other) == before.open_room(other)
            && after.unread_of(hub, name) == 0 && after.unread_of(other, name)
            == before.unread_of(other, name) && after.disconnected@.contains_key(hub),
        answer_taken(before, hub, Answer::Cleared(room), after) ==> after.unread_of(hub, room@)
            == 0 && after.unread_of(other, name) == before.unread_of(other, name) && (name != room@
            ==> after.unread_of(hub, name) == before.unread_of(hub, name)),
        answer_taken(before, hub, Answer::Joined(room), after) ==> after.pending.is_none(),
{
}

/// The rooms of a hub are listed as it told them, each once, and those of another hub
/// stay.
pub proof fn law_rooms_are_listed(
    before: RrcSession,
    hub: Seq<char>,
    rooms: Vec<String>,
    after: RrcSession,
    other: Seq<char>,
    room: Seq<char>,
)
    requires
        answer_taken(before, hub, Answer::Rooms(rooms), after),
        other != hub,
    ensures
        after.rooms@.contains_key(hub),
        text_views(after.rooms@[hub]@).contains(room) <==> text_views(rooms@).contains(room),
        after.rooms@.contains_key(other) <==> before.rooms@.contains_key(other),
        after.room == before.room,
{
}

/// An answer is told in its own words.
pub proof fn law_answers_are_put_into_words(room: String, status: String, rooms: Vec<String>)
    ensures
        answer_text(Answer::Cleared(room)) == "History cleared"@,
        answer_text(Answer::Disconnected) == "Disconnected"@,
        answer_text(Answer::Rooms(rooms)) == "Rooms updated"@,
        answer_text(Answer::Joined(room)) == "Joined"@,
        answer_text(Answer::Status(status)) == status@,
{
}

/// A draft that was sent is gone; one that was changed meanwhile stays.
pub proof fn law_sent_drafts_are_gone(
    before: Map<Seq<char>, String>,
    pending: PendingAnswer,
    after: Map<Seq<char>, String>,
)
    requires
        drafts_after(before, pending, after),
        pending.draft.is_some(),
        before.contains_key(pending.draft_key@),
    ensures
        before[pending.draft_key@]@ == pending.draft.unwrap()@ ==> !after.contains_key(
            pending.draft_key@,
        ),
        before[pending.draft_key@]@ != pending.draft.unwrap()@ ==> after.contains_key(
            pending.draft_key@,
        ) && after[pending.draft_key@] == before[pending.draft_key@],
{
}

/// A new line of a room is unread, unless it is one's own, was seen before or is of
/// another room.
pub proof fn law_new_lines_are_unread(
    messages: Seq<RrcMessageView>,
    previous: Seq<KeyModel>,
    own: Option<Seq<char>>,
    room: String,
)
    requires
        messages.len() > 0,
        room@.len() > 0,
    ensures
        ({
            let n = messages.len() as int;
            let last = messages[n - 1];
            let before = counted(messages, previous, own, room@, n - 1);
            let after = counted(messages, previous, own, room@, n);
            &&& last.room == Some(room) && own != Some(last.source_hash@) && !previous.contains(
                key_of(last),
            ) && !keys_of(messages.take(n - 1)).contains(key_of(last)) ==> after == before + 1
            &&& own == Some(last.source_hash@) ==> after == before
            &&& previous.contains(key_of(last)) ==> after == before
            &&& last.room.is_some() && last.room.unwrap()@ != room@ ==> after == before
            &&& last.room.is_none() ==> after == before
        }),
{
}

/// Lines are told apart by room, time, sender and words.
pub proof fn law_lines_are_told_apart(a: RrcMessageView, b: RrcMessageView)
    requires
        key_of(a) == key_of(b),
    ensures
        a.timestamp_ms == b.timestamp_ms,
        a.source_hash@ == b.source_hash@,
        a.body@ == b.body@,
        a.room.is_some() && b.room.is_some() ==> a.room.unwrap()@ == b.room.unwrap()@,
{
}

/// A room bears the number of its unread lines, where there are any.
pub proof fn law_rooms_bear_their_unread_lines(session: RrcSession, room: Seq<char>)
    ensures
        session.unread_of(session.hub@, room) == 0 ==> session.room_label(room) == room,
        session.unread_of(session.hub@, room) > 0 ==> session.room_label(room) == room + " ("@
            + decimal(session.unread_of(session.hub@, room) as nat) + ")"@,
{
}

/// The lines of the room that is open are shown, and those that are of no room, in their
/// order; those of another room are not.
pub proof fn law_lines_of_the_room_are_shown(
    messages: Seq<RrcMessageView>,
    message: RrcMessageView,
    room: Seq<char>,
)
    ensures
        ({
            let n = messages.len() as int;
            let all = messages.push(message);
            let shown = shown_places(all, room, n);
            &&& message.room.is_none() ==> shown_places(all, room, n + 1) == shown.push(n)
            &&& message.room.is_some() && message.room.unwrap()@ == room ==> shown_places(
                all,
                room,
                n + 1,
            ) == shown.push(n)
            &&& message.room.is_some() && message.room.unwrap()@ != room ==> shown_places(
                all,
                room,
                n + 1,
            ) == shown
            &&& shown_places(all, room, 0) == Seq::<int>::empty()
        }),
{
}

/// A hub counts as connected, and a room as joined, where the hub says so.
pub proof fn law_hubs_say_what_they_are(hubs: Seq<RrcHubView>, hub: RrcHubView, room: Seq<char>)
    ensures
        hub.connected ==> is_connected(hubs.push(hub), hub.destination_hash@),
        hub.connected && text_views(hub.rooms@).contains(room) ==> is_joined(
            hubs.push(hub),
            hub.destination_hash@,
            room,
        ),
        !is_connected(Seq::empty(), hub.destination_hash@),
        !hub.connected ==> !is_connected(seq![hub], hub.destination_hash@),
        !text_views(hub.rooms@).contains(room) ==> !is_joined(
            seq![hub],
            hub.destination_hash@,
            room,
        ),
        is_listed(hubs, hub.destination_hash@, hub.destination_hash@),
{
    let all = hubs.push(hub);
    assert(all[hubs.len() as int] == hub);
}

/// A server is listed by its own name, or the title it has in the directory, with
/// whether it is connected before it.
pub proof fn law_servers_are_listed(
    state: RrcState,
    shared: UiState,
    i: int,
    name: String,
)
    requires
        0 <= i < state.hubs@.len(),
        forall|j: int|
            0 <= j < i ==> (#[trigger] state.hubs@[j]).destination_hash@
                != state.hubs@[i].destination_hash@,
    ensures
        ({
            let hub = state.hubs@[i];
            let text = server_text(state, shared, hub.destination_hash@);
            &&& hub.connected && hub.name == Some(name) ==> text == "+ "@ + name@
            &&& !hub.connected && hub.name == Some(name) ==> text == "- "@ + name@
            &&& hub.connected && hub.name.is_none() ==> text == "+ "@ + title_of(
                shared.directory@,
                hub.destination_hash@,
            )
            &&& own_identity(state.hubs@, hub.destination_hash@) == Some(hub.local_identity@)
        }),
{
    let hashes = hub_hashes(state.hubs@);
    let hash = state.hubs@[i].destination_hash@;
    assert forall|j: int| 0 <= j < i implies #[trigger] hashes[j] != hash by {
        assert(hashes[j] == state.hubs@[j].destination_hash@);
    }
    lemma_place_at(hashes, hash, i);
}

/// A hub that was left is back once it is connected anew: its connection ended in the
/// meantime. Before that it stays gone.
pub proof fn law_left_hubs_come_back(
    before: RrcSession,
    hubs: Seq<RrcHubView>,
    after: RrcSession,
    hub: Seq<char>,
)
    requires
        connections_noted(before, hubs, after),
    ensures
        !before.disconnected@.contains_key(hub) ==> !after.disconnected@.contains_key(hub),
        before.disconnected@.contains_key(hub) && !is_connected(hubs, hub)
            ==> after.disconnected@.contains_key(hub) && after.disconnected@[hub],
        before.disconnected@.contains_key(hub) && !before.disconnected@[hub]
            ==> after.disconnected@.contains_key(hub),
        before.disconnected@.contains_key(hub) && before.disconnected@[hub] && is_connected(
            hubs,
            hub,
        ) ==> !after.disconnected@.contains_key(hub),
{
    assert(after.disconnected@.contains_key(hub) || !after.disconnected@.contains_key(hub));
}

/// The buttons of rooms stand side by side: each begins where the one before it ends,
/// and is as wide as its text and its edge, or the least there is.
pub proof fn law_buttons_stand_side_by_side(widths: Seq<usize>, i: int, cells: int)
    requires
        0 <= i < widths.len(),
        0 <= cells <= 1000000,
    ensures
        width_before(widths, i + 1) == width_before(widths, i) + widths[i],
        width_before(widths, 0) == 0,
        cells >= 2 ==> width_for(cells) == cells + 6,
        cells < 2 ==> width_for(cells) == 8,
{
    assert(usize::MAX >= 4294967295);
}

/// What is seen already is not moved.
pub proof fn law_seen_buttons_stay(left: int, right: int, width: int)
    requires
        0 <= left <= right <= width,
        right - left < width,
    ensures
        shift_of(left, right, width) == 0,
{
}

/// Pressing a room that is joined opens it and counts it as read, without asking the
/// hub; any other room is asked for by its name, without a key.
pub proof fn law_pressed_rooms_are_opened(
    before: RrcSession,
    hubs: Seq<RrcHubView>,
    room: Seq<char>,
    other: Seq<char>,
    after: RrcSession,
    request: Option<RrcRequest>,
)
    requires
        room_pressed(before, hubs, room, after, request),
        other != before.hub@,
        before.pending.is_none(),
    ensures
        is_joined(hubs, before.hub@, room) && !before.disconnected@.contains_key(before.hub@)
            ==> request.is_none() && after.open_room(before.hub@) == room && after.unread_of(
            before.hub@,
            room,
        ) == 0 && after.open_room(other) == before.open_room(other),
        !is_joined(hubs, before.hub@, room) ==> request.is_some() && request.unwrap().action@
            == ActionModel::Join(room, None) && request.unwrap().hub@ == before.hub@ && after.room
            == before.room,
{
}

/// What is typed goes to the room that is open, as it is, and is kept until the hub
/// answered; what cannot be read is told and stays.
pub proof fn law_typed_lines_are_submitted(
    before: RrcSession,
    after: RrcSession,
    request: Option<RrcRequest>,
    action: ActionModel,
    complaint: Seq<char>,
)
    requires
        submitted(before, after, request),
        before.pending.is_none(),
    ensures
        parsed(typed(before), before.open_room(before.hub@)) == Ok::<ActionModel, Seq<char>>(
            action,
        ) ==> request.is_some() && request.unwrap().action@ == action && request.unwrap().hub@
            == before.hub@ && text_view(after.pending.unwrap().draft) == Some(typed(before)),
        parsed(typed(before), before.open_room(before.hub@)) == Err::<ActionModel, Seq<char>>(
            complaint,
        ) ==> request.is_none() && after.status@[before.hub@]@ == complaint
            && after.pending.is_none(),
        after.drafts == before.drafts,
{
}

/// Of a hub that was left nothing is shown, and of another hub's lines nothing either.
pub proof fn law_left_hubs_show_nothing(session: RrcSession, state: RrcState)
    ensures
        session.disconnected@.contains_key(session.hub@) ==> visible_in(session, state).len() == 0,
        !state.history@.contains_key(session.hub@) ==> visible_in(session, state).len() == 0,
        !session.disconnected@.contains_key(session.hub@) && state.history@.contains_key(
            session.hub@,
        ) ==> visible_in(session, state) == shown_places(
            state.history@[session.hub@]@,
            session.open_room(session.hub@),
            state.history@[session.hub@]@.len() as int,
        ),
{
}

/// The room that is looked at has nothing unread; every other room keeps what it had and
/// gains what is new. Of a hub that is seen for the first time, or was left, nothing is
/// new.
pub proof fn law_looking_reads_a_room(
    session: RrcSession,
    state: RrcState,
    hub: Seq<char>,
    room: String,
    other: Seq<char>,
)
    requires
        session.room@.contains_key(session.hub@),
        session.room@[session.hub@] == room,
        other != room@,
        session.unread_of(session.hub@, other) < 1000000,
    ensures
        session.unread_then(state, true, session.hub@, room@) == 0,
        session.unread_then(state, true, session.hub@, other) >= session.unread_of(
            session.hub@,
            other,
        ),
        session.new_unread(state, session.hub@, other) == 0 ==> session.unread_then(
            state,
            true,
            session.hub@,
            other,
        ) == session.unread_of(session.hub@, other),
        session.new_unread(state, session.hub@, other) == 1 ==> session.unread_then(
            state,
            false,
            session.hub@,
            other,
        ) == session.unread_of(session.hub@, other) + 1,
        !session.seen@.contains_key(hub) ==> session.new_unread(state, hub, room@) == 0,
        session.disconnected@.contains_key(hub) ==> session.new_unread(state, hub, room@) == 0,
        !state.history@.contains_key(hub) ==> session.new_unread(state, hub, room@) == 0,
{
    assert(usize::MAX >= 4294967295);
    assert(session.new_unread(state, session.hub@, other) >= 0);
}

/// Drafts are kept apart by hub and room.
pub proof fn law_drafts_are_kept_apart(a: RrcSession, b: RrcSession)
    requires
        a.hub@.len() == b.hub@.len(),
        a.hub@ != b.hub@ || a.open_room(a.hub@) != b.open_room(b.hub@),
    ensures
        a.draft_name() != b.draft_name(),
{
    let n = a.hub@.len() as int;
    let x = a.draft_name();
    let y = b.draft_name();
    assert(x.take(n) =~= a.hub@);
    assert(y.take(n) =~= b.hub@);
    assert(x.skip(n + 1) =~= a.open_room(a.hub@));
    assert(y.skip(n + 1) =~= b.open_room(b.hub@));
}

} // verus!
