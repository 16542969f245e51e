//! Laws of conversations and file offers on the screen: what is shown of them, what is
//! sent and under which name.
use vstd::prelude::*;

use crate::attachments::OfferModel;
use crate::browser::text_view;
use crate::laws::words::{
    is_blank, is_trimmed, law_blank_is_trimmed_away, law_trim_drops_white_space,
};
use crate::models::{ConversationSummary, DirectoryEntry};
use crate::text::{decimal, law_trim_keeps_trimmed};
use crate::ui::conversation::{
    clear_error, clear_step_for, composed, history_texts, left_to_send, window_title, ClearReply,
    ClearStep,
};
use crate::ui::conversations::{
    conversation_label, conversation_title, directory_name, given_name, owner_name, peer_name,
};
use crate::ui::files::{
    accepted_by, is_offered, left_of, offer_text, reply_text, unseen, FileReply, FileWindow,
};
use crate::ui::state::{conversation_hashes, lemma_place_at, SendResult, UiState};

verus! {

proof fn lemma_conversation_at(state: UiState, i: int)
    requires
        0 <= i < state.conversations@.len(),
        forall|j: int|
            0 <= j < i ==> (#[trigger] state.conversations@[j]).destination_hash@
                != state.conversations@[i].destination_hash@,
    ensures
        crate::ui::state::place_of(
            conversation_hashes(state.conversations@),
            state.conversations@[i].destination_hash@,
        ) == i,
{
    let rows = state.conversations@;
    let hashes = conversation_hashes(rows);
    assert forall|j: int| 0 <= j < i implies #[trigger] hashes[j] != rows[i].destination_hash@ by {
        assert(hashes[j] == rows[j].destination_hash@);
    }
    lemma_place_at(hashes, rows[i].destination_hash@, i);
}

/// A conversation shows its own messages, in their order, and behind them what went
/// wrong and that a message is being saved; the title is its own.
pub proof fn law_conversations_show_their_messages(state: UiState, i: int, k: int)
    requires
        0 <= i < state.conversations@.len(),
        forall|j: int|
            0 <= j < i ==> (#[trigger] state.conversations@[j]).destination_hash@
                != state.conversations@[i].destination_hash@,
        state.conversations@[i].messages@.len() > 0,
    ensures
        ({
            let row = state.conversations@[i];
            let destination = row.destination_hash@;
            let lines = history_texts(state, destination);
            let count = row.messages@.len() as int;
            &&& 0 <= k < count ==> lines[k] == row.messages@[k]@
            &&& state.send_errors@.contains_key(destination) ==> lines[count] == "[!] "@
                + state.send_errors@[destination]@
            &&& state.pending_sends@.contains_key(destination) ==> lines.last()
                == "[~] Waiting for message to be saved\u{2026}"@
            &&& !state.pending_sends@.contains_key(destination)
                && !state.send_errors@.contains_key(destination) ==> lines.len() == count
            &&& window_title(state, destination) == "LXMF Conversation \u{2014} "@ + row.title@
        }),
{
    lemma_conversation_at(state, i);
}

/// What is typed is sent without the white space around it, unless it is blank or a
/// message to the same destination is still being saved.
pub proof fn law_messages_are_composed(
    state: UiState,
    destination: Seq<char>,
    a: Seq<char>,
    words: Seq<char>,
    b: Seq<char>,
)
    requires
        is_blank(a),
        is_blank(b),
        is_trimmed(words),
    ensures
        !state.pending_sends@.contains_key(destination) ==> composed(
            state,
            destination,
            a + words + b,
        ) == Some(words),
        state.pending_sends@.contains_key(destination) ==> composed(
            state,
            destination,
            a + words + b,
        ).is_none(),
        composed(state, destination, a).is_none(),
{
    law_trim_drops_white_space(a, words, b);
    law_blank_is_trimmed_away(a);
}

/// A history that was cleared shows no error; one that was not says why.
pub proof fn law_clearing_is_reported(error: String)
    ensures
        clear_error(ClearReply::Cleared).is_none(),
        clear_error(ClearReply::Refused(error)) == Some("Clear history: "@ + error@),
        clear_error(ClearReply::NotSent).is_some(),
        clear_error(ClearReply::Dropped).is_some(),
{
}

/// A conversation is called by its own name; where it has none, by the name of the peer
/// at its address; else by the name of whoever is reached there; else by the address.
/// Blank names do not count.
pub proof fn law_conversations_are_called(
    conversation: ConversationSummary,
    name: String,
    peer: DirectoryEntry,
    owner: DirectoryEntry,
    rest: Seq<DirectoryEntry>,
)
    requires
        is_trimmed(name@),
        peer.kind@ == "peer"@,
        peer.destination_hash@ == conversation.destination_hash@,
        peer.display_name == Some(name),
        owner.kind@ != "peer"@,
        text_view(owner.delivery_hash) == Some(conversation.destination_hash@),
        owner.display_name == Some(name),
    ensures
        conversation.display_name == Some(name) ==> conversation_title(conversation, rest)
            == name@,
        conversation.display_name.is_none() ==> conversation_title(
            conversation,
            seq![peer] + rest,
        ) == name@,
        conversation.display_name.is_none() ==> conversation_title(conversation, seq![owner])
            == name@,
        conversation.display_name.is_none() ==> conversation_title(conversation, Seq::empty())
            == conversation.destination_hash@,
{
    law_trim_keeps_trimmed(name@);
    assert((seq![peer] + rest)[0] == peer);
    assert(seq![owner][0] == owner);
    assert(seq![owner].drop_first() =~= Seq::<DirectoryEntry>::empty());
    reveal_with_fuel(peer_name, 2);
    reveal_with_fuel(owner_name, 2);
}

/// A peer's name is found wherever it stands in the directory, behind entries that are
/// not of it.
pub proof fn law_peers_are_found(
    before: Seq<DirectoryEntry>,
    peer: DirectoryEntry,
    after: Seq<DirectoryEntry>,
    hash: Seq<char>,
    name: String,
)
    requires
        forall|i: int|
            0 <= i < before.len() ==> (#[trigger] before[i]).destination_hash@ != hash,
        peer.kind@ == "peer"@,
        peer.destination_hash@ == hash,
        peer.display_name == Some(name),
        is_trimmed(name@),
    ensures
        directory_name(before + seq![peer] + after, hash) == Some(name@),
{
    law_trim_keeps_trimmed(name@);
    lemma_peer_found(before, peer, after, hash, name);
}

proof fn lemma_peer_found(
    before: Seq<DirectoryEntry>,
    peer: DirectoryEntry,
    after: Seq<DirectoryEntry>,
    hash: Seq<char>,
    name: String,
)
    requires
        forall|i: int|
            0 <= i < before.len() ==> (#[trigger] before[i]).destination_hash@ != hash,
        peer.kind@ == "peer"@,
        peer.destination_hash@ == hash,
        given_name(peer) == Some(name@),
    ensures
        peer_name(before + seq![peer] + after, hash) == Some(name@),
    decreases before.len(),
{
    let all = before + seq![peer] + after;
    if before.len() == 0 {
        assert(all[0] == peer);
    } else {
        assert(all[0] == before[0]);
        assert(all.drop_first() =~= before.drop_first() + seq![peer] + after);
        assert forall|i: int| 0 <= i < before.drop_first().len() implies (
        #[trigger] before.drop_first()[i]).destination_hash@ != hash by {
            assert(before.drop_first()[i] == before[i + 1]);
        }
        lemma_peer_found(before.drop_first(), peer, after, hash, name);
    }
}

/// A conversation is listed with how many messages are unread before its title, where
/// any are, and with its last message behind it.
pub proof fn law_conversations_are_labelled(
    conversation: ConversationSummary,
    title: Seq<char>,
    message: String,
)
    ensures
        conversation.unread == 0 && conversation.last_message == Some(message)
            ==> conversation_label(conversation, title) == title + "  "@ + message@,
        conversation.unread > 0 && conversation.last_message == Some(message)
            ==> conversation_label(conversation, title) == seq!['['] + decimal(
            conversation.unread as nat,
        ) + "] "@ + title + "  "@ + message@,
{
    if conversation.unread == 0 && conversation.last_message == Some(message) {
        assert(conversation_label(conversation, title) =~= title + "  "@ + message@);
    }
}

/// An offer is shown once: those that were seen before are left out, and of those that
/// come twice the first counts.
pub proof fn law_offers_are_shown_once(
    offers: Seq<OfferModel>,
    offer: OfferModel,
    seen: Set<Seq<char>>,
)
    ensures
        seen.contains(offer.id) || is_offered(offers, offer.id) ==> unseen(
            offers.push(offer),
            seen,
        ) == unseen(offers, seen),
        !seen.contains(offer.id) && !is_offered(offers, offer.id) ==> unseen(
            offers.push(offer),
            seen,
        ) == unseen(offers, seen).push(offer),
        unseen(Seq::empty(), seen) == Seq::<OfferModel>::empty(),
{
    assert(offers.push(offer).drop_last() =~= offers);
}

/// An offer says whose it is, how large it is and whether its sender is certain; a
/// sender that is not draws a warning.
pub proof fn law_offers_warn(offer: OfferModel)
    ensures
        offer.verified ==> offer_text(offer) == "Incoming file: "@ + offer.name + "\nSize: "@
            + decimal(offer.size as nat) + " bytes\nFrom: "@ + offer.sender + "\n"@
            + "Signature verified"@
            + "\nAccept to save in the files directory.\nOffers expire after 10 minutes."@,
        !offer.verified ==> offer_text(offer) == "Incoming file: "@ + offer.name + "\nSize: "@
            + decimal(offer.size as nat) + " bytes\nFrom: "@ + offer.sender + "\n"@
            + "WARNING: sender signature could not be verified"@
            + "\nAccept to save in the files directory.\nOffers expire after 10 minutes."@,
{
}

/// What became of a file is told: its status, or what went wrong.
pub proof fn law_transfers_are_reported(text: String)
    ensures
        reply_text(FileReply::Done(text)) == text@,
        reply_text(FileReply::Failed(text)) == "Error: "@ + text@,
{
}

/// What was sent is gone from the line it was typed in; what failed, and what was changed
/// meanwhile, stays there.
pub proof fn law_sent_words_are_gone(
    a: Seq<char>,
    words: Seq<char>,
    b: Seq<char>,
    other: Seq<char>,
    result: SendResult,
)
    requires
        is_blank(a),
        is_blank(b),
        is_trimmed(words),
        is_trimmed(other),
        other != words,
        result.content@ == words,
    ensures
        result.error.is_none() ==> left_to_send(Some(result), a + words + b) == Seq::<
            char,
        >::empty(),
        result.error.is_some() ==> left_to_send(Some(result), a + words + b) == a + words + b,
        left_to_send(Some(result), other) == other,
        left_to_send(None, a + words + b) == a + words + b,
{
    law_trim_drops_white_space(a, words, b);
    law_trim_keeps_trimmed(other);
}

/// A history is cleared only where nothing is being sent, and not twice at once.
pub proof fn law_histories_are_cleared_at_rest(sending: bool)
    ensures
        clear_step_for(false, false) == ClearStep::Ask,
        clear_step_for(false, true) == ClearStep::Refuse,
        clear_step_for(true, sending) == ClearStep::Ignore,
{
}

/// A window accepts its own offer, once; an offer that was handled is gone, and one that
/// failed can be tried again.
pub proof fn law_offers_are_accepted_once(
    window: FileWindow,
    id: String,
    text: String,
)
    requires
        window.offer == Some(id),
    ensures
        !window.waiting ==> accepted_by(window) == Some(id@),
        window.waiting ==> accepted_by(window).is_none(),
        left_of(Some(id), FileReply::Done(text)).is_none(),
        left_of(Some(id), FileReply::Failed(text)) == Some(id),
        left_of(Some(id), FileReply::Dropped) == Some(id),
{
}

/// Only a peer at the address lends it a name, and only one with a name that is not
/// blank; else it is whoever is reached there who does. Entries of other addresses do
/// not count.
pub proof fn law_only_peers_lend_their_name(
    entry: DirectoryEntry,
    rest: Seq<DirectoryEntry>,
    hash: Seq<char>,
    blank: String,
)
    requires
        is_blank(blank@),
    ensures
        entry.kind@ != "peer"@ || entry.destination_hash@ != hash || entry.display_name.is_none()
            || entry.display_name == Some(blank) ==> peer_name(seq![entry] + rest, hash)
            == peer_name(rest, hash),
        text_view(entry.delivery_hash) != Some(hash) || entry.display_name.is_none()
            || entry.display_name == Some(blank) ==> owner_name(seq![entry] + rest, hash)
            == owner_name(rest, hash),
        peer_name(rest, hash).is_some() ==> directory_name(rest, hash) == peer_name(rest, hash),
        peer_name(rest, hash).is_none() ==> directory_name(rest, hash) == owner_name(rest, hash),
        peer_name(Seq::empty(), hash).is_none(),
        owner_name(Seq::empty(), hash).is_none(),
{
    law_blank_is_trimmed_away(blank@);
    assert((seq![entry] + rest)[0] == entry);
    assert((seq![entry] + rest).drop_first() =~= rest);
}

/// A conversation without messages says so.
pub proof fn law_empty_conversations_say_so(state: UiState, destination: Seq<char>)
    requires
        forall|i: int|
            0 <= i < state.conversations@.len() ==> (
            #[trigger] state.conversations@[i]).destination_hash@ != destination,
        !state.send_errors@.contains_key(destination),
        !state.pending_sends@.contains_key(destination),
    ensures
        history_texts(state, destination) == seq!["No messages"@],
{
    let hashes = conversation_hashes(state.conversations@);
    assert forall|i: int| 0 <= i < hashes.len() implies #[trigger] hashes[i] != destination by {
        assert(hashes[i] == state.conversations@[i].destination_hash@);
    }
    lemma_place_at(hashes, destination, hashes.len() as int);
    assert(history_texts(state, destination) =~= seq!["No messages"@]);
}

} // verus!
