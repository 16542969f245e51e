//! Laws of lines on the screen: how messages, hubs, the network and the directory are
//! put into words, and how updates come together.
use vstd::prelude::*;

use crate::announce::{kind_text, DirectoryKind as AnnouncedKind};
use crate::laws::chat::is_word;
use crate::laws::words::{is_blank, lemma_skip_blank};
use crate::models::{DirectoryEntry, NetworkSnapshot, NetworkState, RrcHubView, RrcMessageView};
use crate::text::{is_white_space, skip_while};
use crate::ui::lines::{
    entry_label, hub_texts, is_row_of, joined, kind_of, message_mark, message_text, network_texts,
    one_line, padded_left, padded_right, rrc_text, word_run, words,
};
use crate::ui::state::{row_hashes, DirectoryKind, DirectoryRow, UiState};
use crate::ui::updates::{applied, coalesced, error_after, merged_directory};

verus! {

proof fn lemma_word_ends(word: Seq<char>, rest: Seq<char>)
    requires
        forall|i: int| 0 <= i < word.len() ==> !is_white_space(#[trigger] word[i]),
        rest.len() > 0 ==> is_white_space(rest[0]),
    ensures
        word_run(word + rest) == word.len(),
    decreases word.len(),
{
    let s = word + rest;
    if word.len() > 0 {
        assert(s[0] == word[0]);
        assert(s.drop_first() =~= word.drop_first() + rest);
        assert forall|i: int| 0 <= i < word.drop_first().len() implies !is_white_space(
            #[trigger] word.drop_first()[i],
        ) by {
            assert(word.drop_first()[i] == word[i + 1]);
        }
        lemma_word_ends(word.drop_first(), rest);
    } else {
        assert(s =~= rest);
    }
}

proof fn lemma_first_word(word: Seq<char>, rest: Seq<char>)
    requires
        is_word(word),
        rest.len() > 0 ==> is_white_space(rest[0]),
    ensures
        words(word + rest) == seq![word] + words(rest),
{
    let s = word + rest;
    let p = |c: char| is_white_space(c);
    assert(s[0] == word[0]);
    assert(!is_white_space(word[0]));
    assert(skip_while(s, p) == s);
    lemma_word_ends(word, rest);
    assert(s.take(word.len() as int) =~= word);
    assert(s.skip(word.len() as int) =~= rest);
}

proof fn lemma_gap(gap: Seq<char>, rest: Seq<char>)
    requires
        is_blank(gap),
    ensures
        words(gap + rest) == words(rest),
{
    lemma_skip_blank(gap, rest);
}

/// A text is put on one line: its words in their order, with one space between them,
/// whatever white space was there, line ends among it.
#[verifier::rlimit(50)]
pub proof fn law_texts_are_put_on_one_line(
    lead: Seq<char>,
    a: Seq<char>,
    gap: Seq<char>,
    b: Seq<char>,
    end: Seq<char>,
)
    requires
        is_blank(lead),
        is_blank(gap),
        is_blank(end),
        gap.len() > 0,
        is_word(a),
        is_word(b),
    ensures
        one_line(lead + (a + (gap + (b + end)))) == a + seq![' '] + b,
        one_line(lead + (a + end)) == a,
        one_line(lead) == Seq::<char>::empty(),
{
    let none = Seq::<char>::empty();
    lemma_gap(end, none);
    assert(end + none =~= end);
    lemma_gap(lead, none);
    assert(lead + none =~= lead);
    assert(words(none) =~= Seq::<Seq<char>>::empty());
    if end.len() > 0 {
        assert(is_white_space(end[0]));
    }
    lemma_first_word(b, end);
    assert(seq![b] + words(end) =~= seq![b]);
    let tail = gap + (b + end);
    lemma_gap(gap, b + end);
    assert(tail[0] == gap[0]);
    assert(is_white_space(gap[0]));
    lemma_first_word(a, tail);
    lemma_gap(lead, a + tail);
    assert(seq![a] + seq![b] =~= seq![a, b]);
    lemma_first_word(a, end);
    lemma_gap(lead, a + end);
    assert(seq![a] + words(end) =~= seq![a]);
    assert(seq![a, b].drop_last() =~= seq![a]);
    reveal_with_fuel(joined, 3);
    assert(joined(seq![a, b], ' ') == a.push(' ') + b);
    assert(a.push(' ') + b =~= a + seq![' '] + b);
}

/// The mark of a message says whether it came or went, and how far it has got.
pub proof fn law_messages_are_marked(state: Seq<char>, content: Seq<char>)
    ensures
        message_mark(false, state) == '<',
        message_mark(true, "delivered"@) == '>',
        message_mark(true, "stored_on_node"@) == '>',
        message_mark(true, "failed"@) == '!',
        state != "delivered"@ && state != "stored_on_node"@ && state != "failed"@ ==> message_mark(
            true,
            state,
        ) == '~',
        message_text(false, state, content) == seq!['[', '<', ']', ' '] + one_line(content),
        message_text(true, "delivered"@, content) == seq!['[', '>', ']', ' '] + one_line(content),
{
    reveal_strlit("delivered");
    reveal_strlit("stored_on_node");
    reveal_strlit("failed");
    assert("delivered"@[0] == 'd' && "stored_on_node"@[0] == 's' && "failed"@[0] == 'f');
}

/// A line of a chat shows its room, who said it and what was said, and whether it is an
/// action.
pub proof fn law_chat_lines_show_who_said_what(message: RrcMessageView, room: String, nick: String)
    ensures
        message.room == Some(room) && message.nick == Some(nick) && message.kind@ == "message"@
            ==> rrc_text(message) == seq!['[', '#'] + room@ + seq![' '] + nick@ + seq![']', ' ']
            + message.body@,
        message.room.is_none() && message.nick.is_none() && message.kind@ == "message"@
            ==> rrc_text(message) == seq!['['] + message.source_hash@ + seq![']', ' ']
            + message.body@,
        message.room.is_none() && message.nick == Some(nick) && message.kind@ == "action"@
            ==> rrc_text(message) == seq!['[', '*', ' '] + nick@ + seq![']', ' '] + message.body@,
{
    reveal_strlit("message");
    reveal_strlit("action");
    reveal_strlit("] ");
    reveal_strlit("* ");
    assert("message"@[0] == 'm' && "action"@[0] == 'a');
    if message.room == Some(room) && message.nick == Some(nick) && message.kind@ == "message"@ {
        assert(rrc_text(message) =~= seq!['[', '#'] + room@ + seq![' '] + nick@ + seq![']', ' ']
            + message.body@);
    }
    if message.room.is_none() && message.nick.is_none() && message.kind@ == "message"@ {
        assert(rrc_text(message) =~= seq!['['] + message.source_hash@ + seq![']', ' ']
            + message.body@);
    }
    if message.room.is_none() && message.nick == Some(nick) && message.kind@ == "action"@ {
        assert(rrc_text(message) =~= seq!['[', '*', ' '] + nick@ + seq![']', ' ']
            + message.body@);
    }
}

/// A hub is shown with its state first, then who one is there, then its rooms and then
/// its lines, each in order.
pub proof fn law_hubs_are_shown(hub: RrcHubView, history: Seq<RrcMessageView>, i: int)
    ensures
        ({
            let lines = hub_texts(hub, history);
            let rooms = hub.rooms@.len() as int;
            &&& lines[0] == "State: "@ + if hub.connected {
                "connected"@
            } else {
                "offline"@
            }
            &&& lines[1] == "Identity: "@ + hub.local_identity@
            &&& hub.nick.is_some() ==> lines[2] == "Nick: "@ + hub.nick.unwrap()@
            &&& lines[3] == hub.detail@
            &&& rooms > 0 ==> lines[4] == "Rooms:"@
            &&& rooms == 0 ==> lines[4] == "Rooms: none"@
            &&& 0 <= i < rooms ==> lines[5 + i] == "  "@ + hub.rooms@[i]@
            &&& rooms > 0 && 0 <= i < history.len() ==> lines[7 + rooms + i] == rrc_text(
                history[i],
            )
            &&& rooms == 0 && 0 <= i < history.len() ==> lines[7 + i] == rrc_text(history[i])
            &&& lines.len() == 5 + rooms + if history.len() > 0 {
                2 + history.len()
            } else {
                0
            }
        }),
{
}

/// The network is shown by its state, what there is to say of it and the own address.
pub proof fn law_the_network_is_shown(network: NetworkSnapshot, hash: String)
    ensures
        network_texts(network).len() == 3,
        network.state == NetworkState::Online ==> network_texts(network)[0] == "State: Online"@,
        network.state == NetworkState::Offline ==> network_texts(network)[0] == "State: Offline"@,
        network.state == NetworkState::Starting ==> network_texts(network)[0]
            == "State: Starting"@,
        network.state == NetworkState::Failed ==> network_texts(network)[0] == "State: Failed"@,
        network_texts(network)[1] == network.detail@,
        network.destination_hash == Some(hash) ==> network_texts(network)[2] == "Destination: "@
            + hash@,
{
}

/// What was announced as of a kind is listed as of that kind.
pub proof fn law_kinds_are_read_back()
    ensures
        kind_of(kind_text(AnnouncedKind::Peer)) == DirectoryKind::Peer,
        kind_of(kind_text(AnnouncedKind::Node)) == DirectoryKind::Node,
        kind_of(kind_text(AnnouncedKind::Propagation)) == DirectoryKind::Propagation,
        kind_of(kind_text(AnnouncedKind::Rrc)) == DirectoryKind::Rrc,
{
    reveal_strlit("peer");
    reveal_strlit("node");
    reveal_strlit("propagation");
    reveal_strlit("rrc");
    assert("peer"@[0] == 'p' && "peer"@.len() == 4);
    assert("node"@[0] == 'n');
    assert("propagation"@[0] == 'p' && "propagation"@.len() == 11);
    assert("rrc"@[0] == 'r');
}

/// A text of another kind is of no known one.
pub proof fn law_other_kinds_are_unknown(kind: Seq<char>)
    requires
        kind != "peer"@,
        kind != "node"@,
        kind != "propagation"@,
        kind != "rrc"@,
    ensures
        kind_of(kind) == DirectoryKind::Other,
{
}

/// Padding makes a text as wide as asked and takes nothing away from it.
pub proof fn law_padding_keeps_the_text(s: Seq<char>, width: nat)
    ensures
        s.len() <= width ==> padded_right(s, width).len() == width && padded_right(s, width).take(
            s.len() as int,
        ) == s,
        s.len() <= width ==> padded_left(s, width).len() == width && padded_left(s, width).skip(
            width - s.len(),
        ) == s,
        s.len() > width ==> padded_right(s, width) == s && padded_left(s, width) == s,
{
    if s.len() <= width {
        assert(padded_right(s, width).take(s.len() as int) =~= s);
        assert(padded_left(s, width).skip(width - s.len()) =~= s);
    }
}

/// A destination is listed by its name, or else by its address, with whether it is of
/// use before it.
pub proof fn law_destinations_are_listed(entry: DirectoryEntry, row: DirectoryRow)
    requires
        is_row_of(row, entry),
    ensures
        row.destination_hash@ == entry.destination_hash@,
        entry.display_name.is_some() ==> row.title@ == entry.display_name.unwrap()@,
        entry.display_name.is_none() ==> row.title@ == entry.destination_hash@,
        row.label@.len() > 2,
        row.label@[0] == '+' <==> entry.active,
        row.label@[0] == '-' <==> !entry.active,
{
    reveal_strlit("+ ");
    reveal_strlit("- ");
    let label = entry_label(entry);
    assert(label[0] == if entry.active {
        '+'
    } else {
        '-'
    });
}

/// Of two updates that come together the later one counts; what only the earlier one
/// shows or answers stays.
pub proof fn law_later_updates_count(
    previous: UiState,
    update: UiState,
    merged: UiState,
    key: Seq<char>,
)
    requires
        coalesced(previous, update, merged),
    ensures
        merged.network == update.network,
        merged.conversations == update.conversations,
        merged.directory == update.directory,
        update.directory_views@.contains_key(key) ==> merged.directory_views@[key]
            == update.directory_views@[key],
        previous.directory_views@.contains_key(key) && !update.directory_views@.contains_key(key)
            ==> merged.directory_views@[key] == previous.directory_views@[key],
        update.send_results@.contains_key(key) ==> merged.send_results@[key]
            == update.send_results@[key],
        !previous.send_results@.contains_key(key) && !update.send_results@.contains_key(key)
            ==> !merged.send_results@.contains_key(key),
{
}

/// An update shows what is new and keeps what the user has: the selection and the
/// drafts. A message that was sent no longer counts as under way, and its error is gone;
/// one that failed shows its error.
pub proof fn law_updates_keep_what_the_user_has(
    current: UiState,
    update: UiState,
    after: UiState,
    key: Seq<char>,
)
    requires
        applied(current, update, after),
    ensures
        after.network == update.network,
        after.conversations == update.conversations,
        after.drafts == current.drafts,
        after.selected_destination_hash == current.selected_destination_hash,
        after.selected_directory_hash == current.selected_directory_hash,
        update.directory_views@.contains_key(key) ==> after.directory_views@[key]
            == update.directory_views@[key],
        update.send_results@.contains_key(key) && update.send_results@[key].error.is_none()
            ==> !after.send_errors@.contains_key(key) && !after.pending_sends@.contains_key(key),
        update.send_results@.contains_key(key) && update.send_results@[key].error.is_some()
            ==> after.send_errors@.contains_key(key) && after.send_errors@[key]
            == update.send_results@[key].error.unwrap() && !after.pending_sends@.contains_key(key),
        !update.send_results@.contains_key(key) && current.pending_sends@.contains_key(key)
            ==> after.pending_sends@.contains_key(key),
        current.selected_directory_hash.is_none() ==> after.directory@ == update.directory@,
{
    let error = error_after(current.send_errors@, update.send_results@, key);
    assert(after.send_errors@.contains_key(key) == error.is_some());
    if after.send_errors@.contains_key(key) {
        assert(after.send_errors@[key] == error.unwrap());
    }
}

/// The directory is the one that was told, unless what is selected is missing from it.
pub proof fn law_the_directory_is_the_one_told(
    current: Seq<DirectoryRow>,
    update: Seq<DirectoryRow>,
    selected: Seq<char>,
)
    ensures
        merged_directory(current, update, None) == update,
        row_hashes(update).contains(selected) ==> merged_directory(
            current,
            update,
            Some(selected),
        ) == update,
{
}

} // verus!
