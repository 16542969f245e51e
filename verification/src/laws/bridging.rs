//! Laws of the bridge between the screens and the service: what a command begins, what
//! an event has read again, and what is remembered of either.
use vstd::prelude::*;

use crate::browser::{text_view, text_views};
use crate::models::{MessageView, NetworkSnapshot, RrcHubView, RrcMessageView, ServerEvent};
use crate::ui::bridge::{
    commanded, connect_answered, heard, hub_heard, is_lost, job_key, page_answered, send_answered,
    takes_over, version_of, Bridge, BridgeAction, EventAction, UiCommand,
};
use crate::ui::lines::{hub_texts, network_texts};
use crate::ui::state::{
    conversation_hashes, lemma_place_at, lemma_place_of, row_hashes, title_of, ConversationRow,
    DirectoryRow,
};

verus! {

/// Opening a conversation shows its last 500 messages and keeps it open, whatever else
/// is open.
pub proof fn law_opened_conversations_show_a_page(
    before: Bridge,
    destination: String,
    other: Seq<char>,
    after: Bridge,
    action: BridgeAction,
)
    requires
        commanded(
            before,
            UiCommand::OpenConversation { destination_hash: destination },
            after,
            action,
        ),
    ensures
        action == (BridgeAction::Open { destination_hash: destination, limit: 500 }),
        after.opened@.contains_key(destination@) && after.opened@[destination@] == 500,
        other != destination@ ==> (after.opened@.contains_key(other)
            <==> before.opened@.contains_key(other)),
        after.state == before.state,
        after.in_flight == before.in_flight,
        after.jobs == before.jobs,
{
}

/// More of an open conversation is shown 500 at a time, up to 10000; of one that is not
/// open nothing is.
pub proof fn law_older_messages_come_by_the_page(
    before: Bridge,
    destination: String,
    after: Bridge,
    action: BridgeAction,
)
    requires
        before.wf(),
        commanded(before, UiCommand::LoadOlder { destination_hash: destination }, after, action),
    ensures
        before.opened@.contains_key(destination@) && before.opened@[destination@] <= 9500
            ==> action == (BridgeAction::LoadHistory {
            destination_hash: destination,
            limit: (before.opened@[destination@] + 500) as usize,
        }) && after.opened@[destination@] == before.opened@[destination@] + 500,
        before.opened@.contains_key(destination@) && before.opened@[destination@] > 9500
            ==> action == (BridgeAction::LoadHistory { destination_hash: destination, limit: 10000 }),
        !before.opened@.contains_key(destination@) ==> action is Nothing && after.opened
            == before.opened,
        after.state == before.state,
{
}

/// Closing a conversation forgets that it was open and what it showed, and leaves every
/// other as it is.
pub proof fn law_closed_conversations_are_forgotten(
    before: Bridge,
    destination: String,
    other: Seq<char>,
    i: int,
    after: Bridge,
    action: BridgeAction,
)
    requires
        commanded(
            before,
            UiCommand::CloseConversation { destination_hash: destination },
            after,
            action,
        ),
        0 <= i < before.state.conversations@.len(),
        before.state.conversations@[i].destination_hash@ != destination@,
    ensures
        action is Nothing,
        !after.opened@.contains_key(destination@),
        other != destination@ ==> (after.opened@.contains_key(other)
            <==> before.opened@.contains_key(other)),
        after.state.conversations@.len() == before.state.conversations@.len(),
        after.state.conversations@[i] == before.state.conversations@[i],
        after.state.directory == before.state.directory,
{
    let rows = before.state.conversations@;
    lemma_place_of(conversation_hashes(rows), destination@);
}

/// A message that is stored has the conversations read again, and its own messages too
/// where it is open, as many as are shown of it.
pub proof fn law_stored_messages_are_read(
    before: Bridge,
    message: MessageView,
    after: Bridge,
    action: EventAction,
)
    requires
        heard(before, ServerEvent::MessageStored(message), after, action),
    ensures
        action is ReadConversations,
        action->ReadConversations_destination_hash == message.destination_hash,
        before.opened@.contains_key(message.destination_hash@) ==> action->limit == Some(
            before.opened@[message.destination_hash@],
        ),
        !before.opened@.contains_key(message.destination_hash@) ==> action->limit.is_none(),
        after == (Bridge { dirty: true, ..before }),
{
}

/// What else is heard: the network is shown, a change of the directory has it read, a
/// hub is taken in, and a line of a chat has the hub's lines read where it is shown.
pub proof fn law_events_are_followed_up(
    before: Bridge,
    network: NetworkSnapshot,
    hub: RrcHubView,
    line: RrcMessageView,
    entry: crate::models::DirectoryEntry,
    after: Bridge,
    action: EventAction,
)
    ensures
        heard(before, ServerEvent::NetworkChanged(network), after, action) ==> action is Nothing
            && text_views(after.state.network@) == network_texts(network)
            && after.state.conversations == before.state.conversations,
        heard(before, ServerEvent::Snapshot(network), after, action) ==> action is Nothing
            && text_views(after.state.network@) == network_texts(network),
        heard(before, ServerEvent::DirectoryChanged(entry), after, action) ==> action
            is ReadDirectory && after.state == before.state,
        heard(before, ServerEvent::RrcHubChanged(hub), after, action) ==> action
            == EventAction::ReadHub(hub) && after.state == before.state,
        heard(before, ServerEvent::RrcMessage(line), after, action)
            && before.hubs@.contains_key(line.hub_hash@) ==> action is ReadHistory
            && action->ReadHistory_destination_hash == line.hub_hash,
        heard(before, ServerEvent::RrcMessage(line), after, action)
            && !before.hubs@.contains_key(line.hub_hash@) ==> action is Nothing,
{
}

/// A message is sent to whom it is for, with its words, where nothing is under way to
/// the same destination and there is room for more work; what is shown does not change.
pub proof fn law_messages_are_handed_on(
    before: Bridge,
    destination: String,
    content: String,
    after: Bridge,
    action: BridgeAction,
)
    requires
        commanded(
            before,
            UiCommand::SendMessage { destination_hash: destination, content },
            after,
            action,
        ),
    ensures
        !before.in_flight@.contains_key("send:"@ + destination@) && before.jobs < 16 ==> action
            == (BridgeAction::Send { destination_hash: destination, content }) && after.jobs
            == before.jobs + 1 && after.state.conversations == before.state.conversations
            && after.in_flight@.contains_key("send:"@ + destination@),
        before.in_flight@.contains_key("send:"@ + destination@) ==> action is Nothing
            && after.state == before.state,
        !before.in_flight@.contains_key("send:"@ + destination@) && before.jobs >= 16 ==> action
            is Nothing && after.state.send_results@.contains_key(destination@)
            && after.state.send_results@[destination@].content == content
            && after.state.send_results@[destination@].error.is_some() && after.in_flight
            == before.in_flight,
{
}

/// Work for one destination, or of one kind, does not stand in the way of another.
pub proof fn law_work_is_told_apart(a: String, b: String, content: String)
    ensures
        ({
            let send = job_key(UiCommand::SendMessage { destination_hash: a, content });
            let connect = job_key(UiCommand::ConnectRrc { destination_hash: b });
            let fetch = job_key(UiCommand::FetchNodePage { destination_hash: b });
            &&& send != connect
            &&& send != fetch
            &&& connect != fetch
            &&& a@ != b@ ==> send != job_key(
                UiCommand::SendMessage { destination_hash: b, content },
            )
            &&& a@ != b@ ==> connect != job_key(UiCommand::ConnectRrc { destination_hash: a })
            &&& a@ != b@ ==> fetch != job_key(UiCommand::FetchNodePage { destination_hash: a })
        }),
{
    reveal_strlit("send:");
    reveal_strlit("rrc:");
    reveal_strlit("node:");
    assert(("send:"@ + a@)[0] == 's');
    assert(("rrc:"@ + b@)[0] == 'r');
    assert(("node:"@ + b@)[0] == 'n');
    assert(("send:"@ + a@).skip(5) =~= a@);
    assert(("send:"@ + b@).skip(5) =~= b@);
    assert(("rrc:"@ + a@).skip(4) =~= a@);
    assert(("rrc:"@ + b@).skip(4) =~= b@);
    assert(("node:"@ + a@).skip(5) =~= a@);
    assert(("node:"@ + b@).skip(5) =~= b@);
}

/// A hub that is connected is shown, and one that is not is connected to; the page of a
/// node is fetched.
pub proof fn law_hubs_are_connected_to_once(
    before: Bridge,
    destination: String,
    after: Bridge,
    action: BridgeAction,
)
    ensures
        commanded(before, UiCommand::ConnectRrc { destination_hash: destination }, after, action)
            && before.hubs@.contains_key(destination@) && before.hubs@[destination@].connected
            ==> action == (BridgeAction::ShowHub { destination_hash: destination })
            && after.in_flight == before.in_flight,
        commanded(before, UiCommand::ConnectRrc { destination_hash: destination }, after, action)
            && !(before.hubs@.contains_key(destination@) && before.hubs@[destination@].connected)
            && !before.in_flight@.contains_key("rrc:"@ + destination@) && before.jobs < 16
            ==> action == (BridgeAction::Connect {
            destination_hash: destination,
            version: version_of(before.versions@, destination@),
        }),
        commanded(
            before,
            UiCommand::FetchNodePage { destination_hash: destination },
            after,
            action,
        ) && !before.in_flight@.contains_key("node:"@ + destination@) && before.jobs < 16
            ==> action == (BridgeAction::Fetch { destination_hash: destination }),
{
}

/// An answer to a connection that is still current is shown: the hub with its lines, or
/// what went wrong. Either way the work is over.
pub proof fn law_connections_are_answered(
    before: Bridge,
    destination: Seq<char>,
    hub: RrcHubView,
    error: String,
    history: Seq<RrcMessageView>,
    after: Bridge,
)
    ensures
        ({
            let key = "rrc:"@ + destination;
            let version = version_of(before.versions@, destination);
            &&& connect_answered(before, destination, version, Ok(hub), history, after)
                ==> after.hubs@.contains_key(destination) && after.hubs@[destination] == hub
                && text_views(after.state.directory_views@[key]@) == hub_texts(hub, history)
                && !after.in_flight@.contains_key(key)
            &&& connect_answered(before, destination, version, Err(error), history, after)
                ==> after.hubs@ == before.hubs@ && text_views(
                after.state.directory_views@[key]@,
            ) == seq!["Connection failed: "@ + error@] && !after.in_flight@.contains_key(key)
            &&& before.jobs > 0 && connect_answered(
                before,
                destination,
                version,
                Err(error),
                history,
                after,
            ) ==> after.jobs == before.jobs - 1
        }),
{
}

/// A hub that is heard of is kept and its lines are shown, and an answer that was asked
/// for before that is out of date.
pub proof fn law_heard_hubs_are_newer(
    before: Bridge,
    hub: RrcHubView,
    history: Seq<RrcMessageView>,
    after: Bridge,
)
    requires
        hub_heard(before, hub, history, after),
    ensures
        after.hubs@.contains_key(hub.destination_hash@),
        after.hubs@[hub.destination_hash@] == hub,
        version_of(after.versions@, hub.destination_hash@) != version_of(
            before.versions@,
            hub.destination_hash@,
        ),
        text_views(after.state.directory_views@["rrc:"@ + hub.destination_hash@]@) == hub_texts(
            hub,
            history,
        ),
{
}

/// A destination of the directory is called by its title there, and one that is not in
/// it by its address.
pub proof fn law_destinations_are_called_by_title(rows: Seq<DirectoryRow>, i: int, other: Seq<char>)
    requires
        0 <= i < rows.len(),
        forall|j: int|
            0 <= j < i ==> (#[trigger] rows[j]).destination_hash@ != rows[i].destination_hash@,
        forall|j: int| 0 <= j < rows.len() ==> (#[trigger] rows[j]).destination_hash@ != other,
    ensures
        title_of(rows, rows[i].destination_hash@) == rows[i].title@,
        title_of(rows, other) == other,
{
    let hashes = row_hashes(rows);
    assert forall|j: int| 0 <= j < i implies #[trigger] hashes[j] != rows[i].destination_hash@ by {
        assert(hashes[j] == rows[j].destination_hash@);
    }
    lemma_place_at(hashes, rows[i].destination_hash@, i);
    assert forall|j: int| 0 <= j < rows.len() implies #[trigger] hashes[j] != other by {
        assert(hashes[j] == rows[j].destination_hash@);
    }
    lemma_place_at(hashes, other, rows.len() as int);
}

/// What became of a message is kept for its destination, with the words that were sent,
/// and the way to that destination is free again; others are as they were.
pub proof fn law_results_are_kept(
    before: Bridge,
    destination: Seq<char>,
    content: Seq<char>,
    error: Option<Seq<char>>,
    after: Bridge,
    other: Seq<char>,
)
    requires
        send_answered(before, destination, content, error, after),
        other != destination,
    ensures
        after.state.send_results@.contains_key(destination),
        after.state.send_results@[destination].content@ == content,
        text_view(after.state.send_results@[destination].error) == error,
        !after.in_flight@.contains_key("send:"@ + destination),
        before.state.send_results@.contains_key(other) ==> after.state.send_results@.contains_key(
            other,
        ) && after.state.send_results@[other] == before.state.send_results@[other],
        before.jobs > 0 ==> after.jobs == before.jobs - 1,
{
    let left = before.state.send_results@.remove(destination);
    let now = after.state.send_results@.remove(destination);
    assert(left.contains_key(other) == before.state.send_results@.contains_key(other));
    assert(now.contains_key(other) == after.state.send_results@.contains_key(other));
    if before.state.send_results@.contains_key(other) {
        assert(left[other] == before.state.send_results@[other]);
        assert(now[other] == after.state.send_results@[other]);
    }
}

/// A page that was fetched is shown for its node, or why it was not; the node can be
/// asked again.
pub proof fn law_fetched_pages_are_shown(
    before: Bridge,
    destination: Seq<char>,
    lines: Seq<Seq<char>>,
    error: Seq<char>,
    after: Bridge,
)
    ensures
        page_answered(before, destination, Ok(lines), after) ==> text_views(
            after.state.directory_views@["node:"@ + destination]@,
        ) == lines && !after.in_flight@.contains_key("node:"@ + destination),
        page_answered(before, destination, Err(error), after) ==> text_views(
            after.state.directory_views@["node:"@ + destination]@,
        ) == seq!["Page load failed: "@ + error] && !after.in_flight@.contains_key(
            "node:"@ + destination,
        ),
{
}

/// A conversation that is listed again keeps the messages that it showed.
pub proof fn law_listed_conversations_keep_their_messages(
    rows: Seq<ConversationRow>,
    before: Seq<ConversationRow>,
    row: ConversationRow,
    i: int,
)
    requires
        0 <= i < rows.len(),
        takes_over(rows, before.push(row), i),
        rows[i].destination_hash@ == row.destination_hash@,
        forall|j: int|
            0 <= j < i ==> (#[trigger] rows[j]).destination_hash@ != row.destination_hash@,
    ensures
        rows[i].messages == row.messages,
{
    assert(before.push(row).drop_last() =~= before);
    let hashes = conversation_hashes(rows.take(i));
    if hashes.contains(row.destination_hash@) {
        let j = hashes.index_of(row.destination_hash@);
        assert(hashes[j] == rows[j].destination_hash@);
    }
}

/// A conversation that is new shows nothing until it is read.
pub proof fn law_new_conversations_show_nothing(
    rows: Seq<ConversationRow>,
    i: int,
)
    requires
        0 <= i < rows.len(),
        takes_over(rows, Seq::empty(), i),
    ensures
        rows[i].messages@.len() == 0,
{
}

/// A hub whose events were lost counts as offline and keeps the rest of what is known of
/// it.
pub proof fn law_lost_hubs_are_offline(before: RrcHubView, after: RrcHubView)
    requires
        is_lost(before, after),
    ensures
        !after.connected,
        after.destination_hash == before.destination_hash,
        after.rooms == before.rooms,
        after.nick == before.nick,
        after.local_identity == before.local_identity,
{
}

} // verus!
