//! Laws of messages: by which way they leave and for whom, when they are tried
//! again, and with whom those that arrive are found.
use vstd::prelude::*;
use vstd::utf8::decode_utf8;

use crate::announce::{Announce, DirectoryKind};
use crate::browser::text_view;
use crate::db::{
    is_due, is_recovered, is_seen_as, is_sooner, saturating_sum, step_for, NewMessage,
    PendingMessage, QueueRow, SchemaStep,
};
use crate::hexadecimal::{hex_bytes, hex_text, is_hash_text, is_hex_text, law_hex_text_is_read_back};
use crate::laws::words::{is_blank, is_trimmed, law_trim_drops_white_space};
use crate::lxmf::UnpackedModel;
use crate::models::MessageView;
use crate::network::{
    action_fits, addressed, attempt_next, body_at, body_behind, delivery_after, ended_as, has_part,
    is_download_due, is_queued_as, is_stored_as, is_under_way, node_taken, power_of_two,
    queue_fault, queued_method, retry_delay, signing_part, via_text, AttemptEvent, AttemptModel,
    NetworkAction, NetworkCommand, NetworkEvent, NetworkLoop, NodeChoice, OutboundAttemptResult,
    QueueError, SENDING_SECONDS, SendVia, UpdateModel,
};
use crate::queries::{are_first, are_last, message_rows};
use crate::text::{law_trim_keeps_trimmed, lower, trim};

verus! {

/// Whether an event can follow a step of an attempt: a node is chosen where one was
/// asked for, and what is sent is sent, is too long or fails.
pub open spec fn may_follow(step: AttemptModel, event: AttemptEvent) -> bool {
    match step {
        AttemptModel::ChooseNode => event is NodeChosen || event is Failed,
        AttemptModel::Send { via, .. } => event == AttemptEvent::Sent(via) || event
            == AttemptEvent::MtuExceeded(via) || event is Failed,
        AttemptModel::Sent(_) => false,
        AttemptModel::Failed(_) => false,
    }
}

/// Whether events make up an attempt to send a message, from its beginning.
pub open spec fn is_attempt(message: PendingMessage, events: Seq<AttemptEvent>) -> bool {
    &&& events.len() > 0
    &&& events[0] is Begin
    &&& forall|i: int|
        0 < i < events.len() ==> may_follow(
            attempt_next(message, events[i - 1]),
            #[trigger] events[i],
        )
}

proof fn lemma_methods_differ()
    ensures
        "direct"@ != "automatic"@,
        "direct"@ != "opportunistic"@,
        "direct"@ != "propagated"@,
        "automatic"@ != "opportunistic"@,
        "automatic"@ != "propagated"@,
        "opportunistic"@ != "propagated"@,
        "auto"@ != "automatic"@,
        "auto"@.len() > 0,
        "automatic"@.len() > 0,
        "direct"@.len() > 0,
        "opportunistic"@.len() > 0,
        "propagated"@.len() > 0,
        "auto"@ != "direct"@,
        "auto"@ != "opportunistic"@,
        "auto"@ != "propagated"@,
{
    reveal_strlit("direct");
    reveal_strlit("automatic");
    reveal_strlit("opportunistic");
    reveal_strlit("propagated");
    reveal_strlit("auto");
    assert("direct"@[0] == 'd');
    assert("automatic"@[0] == 'a' && "automatic"@.len() == 9);
    assert("opportunistic"@[0] == 'o');
    assert("propagated"@[0] == 'p');
    assert("auto"@[0] == 'a' && "auto"@.len() == 4);
}

proof fn lemma_hash(hash: Seq<u8>)
    requires
        hash.len() == 16,
    ensures
        is_hash_text(hex_text(hash)),
        hex_bytes(hex_text(hash)) == hash,
{
    law_hex_text_is_read_back(hash);
}

/// A message to be delivered directly is sent directly, at once, to its
/// destination.
pub proof fn law_direct_messages_begin_directly(message: PendingMessage, recipient: Seq<u8>)
    requires
        recipient.len() == 16,
        message.destination_hash@ == hex_text(recipient),
        message.delivery_method@ == "direct"@,
    ensures
        attempt_next(message, AttemptEvent::Begin) == (AttemptModel::Send {
            via: SendVia::Direct,
            recipient,
            node: None,
        }),
{
    lemma_methods_differ();
    lemma_hash(recipient);
}

/// In the whole course of an attempt a message to be delivered directly leaves by
/// no other way, and to nobody else.
pub proof fn law_direct_messages_stay_direct(
    message: PendingMessage,
    recipient: Seq<u8>,
    events: Seq<AttemptEvent>,
    i: int,
)
    requires
        recipient.len() == 16,
        message.destination_hash@ == hex_text(recipient),
        message.delivery_method@ == "direct"@,
        is_attempt(message, events),
        0 <= i < events.len(),
    ensures
        attempt_next(message, events[i]) matches AttemptModel::Send { via, recipient: to, node }
            ==> via == SendVia::Direct && to == recipient && node.is_none(),
        attempt_next(message, events[i]) matches AttemptModel::Sent(via) ==> via
            == SendVia::Direct,
        attempt_next(message, events[i]) !is ChooseNode,
    decreases i,
{
    lemma_methods_differ();
    law_direct_messages_begin_directly(message, recipient);
    if i > 0 {
        law_direct_messages_stay_direct(message, recipient, events, i - 1);
        assert(may_follow(attempt_next(message, events[i - 1]), events[i]));
    }
}

/// A message to be delivered in one packet leaves in one packet or not at all: where
/// it is too long the attempt fails for good.
pub proof fn law_opportunistic_messages_stay_in_one_packet(
    message: PendingMessage,
    recipient: Seq<u8>,
    events: Seq<AttemptEvent>,
    i: int,
)
    requires
        recipient.len() == 16,
        message.destination_hash@ == hex_text(recipient),
        message.delivery_method@ == "opportunistic"@,
        is_attempt(message, events),
        0 <= i < events.len(),
    ensures
        i == 0 ==> attempt_next(message, events[i]) == (AttemptModel::Send {
            via: SendVia::Opportunistic,
            recipient,
            node: None,
        }),
        attempt_next(message, events[i]) is Send ==> i == 0,
        attempt_next(message, events[i]) !is ChooseNode,
        attempt_next(message, events[i]) matches AttemptModel::Sent(via) ==> via
            == SendVia::Opportunistic,
        events[i] is MtuExceeded ==> attempt_next(message, events[i]) is Failed && has_part(
            attempt_next(message, events[i])->Failed_0,
            "exceeds Reticulum MTU"@,
        ),
    decreases i,
{
    lemma_methods_differ();
    lemma_hash(recipient);
    lemma_too_long();
    if i > 0 {
        law_opportunistic_messages_stay_in_one_packet(message, recipient, events, i - 1);
        assert(may_follow(attempt_next(message, events[i - 1]), events[i]));
    }
}

proof fn lemma_too_long()
    ensures
        has_part("opportunistic message exceeds Reticulum MTU"@, "exceeds Reticulum MTU"@),
{
    reveal_strlit("opportunistic message exceeds Reticulum MTU");
    reveal_strlit("exceeds Reticulum MTU");
    let s = "opportunistic message exceeds Reticulum MTU"@;
    let part = "exceeds Reticulum MTU"@;
    assert(s.subrange(22, 22 + part.len() as int) =~= part);
}

/// An automatic delivery tries one packet first, and a link to the same destination
/// only where the packet is too short.
pub proof fn law_automatic_messages_grow_into_a_link(
    message: PendingMessage,
    recipient: Seq<u8>,
    events: Seq<AttemptEvent>,
    i: int,
)
    requires
        recipient.len() == 16,
        message.destination_hash@ == hex_text(recipient),
        message.delivery_method@ == "automatic"@,
        is_attempt(message, events),
        0 <= i < events.len(),
    ensures
        i == 0 ==> attempt_next(message, events[i]) == (AttemptModel::Send {
            via: SendVia::Opportunistic,
            recipient,
            node: None,
        }),
        events[i] == AttemptEvent::MtuExceeded(SendVia::Opportunistic) ==> attempt_next(
            message,
            events[i],
        ) == (AttemptModel::Send { via: SendVia::Direct, recipient, node: None }),
        attempt_next(message, events[i]) is Send ==> i == 0 || events[i]
            == AttemptEvent::MtuExceeded(SendVia::Opportunistic),
        attempt_next(message, events[i]) !is ChooseNode,
    decreases i,
{
    lemma_methods_differ();
    lemma_hash(recipient);
    if i > 0 {
        law_automatic_messages_grow_into_a_link(message, recipient, events, i - 1);
        assert(may_follow(attempt_next(message, events[i - 1]), events[i]));
    }
}

/// A message to be left with a propagation node goes to the node that is named, or
/// to the one that is chosen where none is, and never past it.
#[verifier::rlimit(50)]
pub proof fn law_propagated_messages_go_to_a_node(
    message: PendingMessage,
    recipient: Seq<u8>,
    node: Seq<u8>,
    events: Seq<AttemptEvent>,
    i: int,
)
    requires
        recipient.len() == 16,
        node.len() == 16,
        message.destination_hash@ == hex_text(recipient),
        message.delivery_method@ == "propagated"@,
        message.propagation_node.is_some() ==> message.propagation_node.unwrap()@ == hex_text(
            node,
        ),
        is_attempt(message, events),
        0 <= i < events.len(),
    ensures
        i == 0 && message.propagation_node.is_some() ==> attempt_next(message, events[i]) == (
        AttemptModel::Send { via: SendVia::Propagated, recipient, node: Some(node) }),
        i == 0 && message.propagation_node.is_none() ==> attempt_next(message, events[i])
            is ChooseNode,
        events[i] matches AttemptEvent::NodeChosen(Some(chosen)) ==> attempt_next(
            message,
            events[i],
        ) == (AttemptModel::Send { via: SendVia::Propagated, recipient, node: Some(chosen@) }),
        events[i] matches AttemptEvent::NodeChosen(None) ==> attempt_next(message, events[i])
            is Failed,
        attempt_next(message, events[i]) matches AttemptModel::Send { via, recipient: to, node: by }
            ==> via == SendVia::Propagated && to == recipient && by.is_some(),
        attempt_next(message, events[i]) matches AttemptModel::Sent(via) ==> via
            == SendVia::Propagated,
    decreases i,
{
    lemma_methods_differ();
    lemma_hash(recipient);
    lemma_hash(node);
    if i > 0 {
        law_propagated_messages_go_to_a_node(message, recipient, node, events, i - 1);
        assert(may_follow(attempt_next(message, events[i - 1]), events[i]));
    }
}

/// Nothing is sent to what is no address, whatever the way.
pub proof fn law_nothing_is_sent_to_a_bad_address(message: PendingMessage, event: AttemptEvent)
    requires
        !(message.destination_hash@.len() == 32 && is_hex_text(message.destination_hash@)),
    ensures
        attempt_next(message, event) !is Send,
        attempt_next(message, AttemptEvent::Begin) is Failed,
{
}

/// What ends an attempt is what happened: a message that was sent counts as sent by
/// that way, and a failure keeps its words.
pub proof fn law_attempts_end_as_they_went(message: PendingMessage, via: SendVia, text: String)
    ensures
        attempt_next(message, AttemptEvent::Sent(via)) == AttemptModel::Sent(via),
        attempt_next(message, AttemptEvent::Failed(text)) == AttemptModel::Failed(text@),
{
}

/// Every message that can be queued can be sent: for none of the ways in which it is
/// queued is an attempt refused at its beginning.
pub proof fn law_queued_messages_can_be_sent(
    requested: Seq<char>,
    message: PendingMessage,
    recipient: Seq<u8>,
)
    requires
        queued_method(requested).is_some(),
        message.delivery_method@ == queued_method(requested).unwrap(),
        recipient.len() == 16,
        message.destination_hash@ == hex_text(recipient),
        message.propagation_node.is_none(),
    ensures
        attempt_next(message, AttemptEvent::Begin) !is Failed,
        attempt_next(message, AttemptEvent::Begin) !is Sent,
{
    lemma_methods_differ();
    lemma_hash(recipient);
}

/// The ways that can be asked for: by name, in any case and with white space around
/// them. Nothing, "auto" and "automatic" are the same.
pub proof fn law_methods_are_read_loosely(a: Seq<char>, b: Seq<char>, s: Seq<char>)
    requires
        is_blank(a),
        is_blank(b),
        is_trimmed(s),
    ensures
        queued_method(a + s + b) == queued_method(s),
        queued_method(lower(s)) == queued_method(s) || !is_trimmed(lower(s)),
        queued_method(Seq::empty()) == Some("automatic"@),
        queued_method("auto"@) == Some("automatic"@),
        queued_method("automatic"@) == Some("automatic"@),
        queued_method("opportunistic"@) == Some("opportunistic"@),
        queued_method("direct"@) == Some("direct"@),
        queued_method("propagated"@) == Some("propagated"@),
        lower(s) != "auto"@ && lower(s) != "automatic"@ && lower(s) != "opportunistic"@ && lower(s)
            != "direct"@ && lower(s) != "propagated"@ ==> queued_method(s).is_none(),
{
    law_trim_drops_white_space(a, s, b);
    law_trim_keeps_trimmed(s);
    if is_trimmed(lower(s)) {
        law_trim_keeps_trimmed(lower(s));
        assert(lower(lower(s)) =~= lower(s));
    }
    assert(trim(Seq::<char>::empty()) == Seq::<char>::empty());
    assert(lower(Seq::<char>::empty()) =~= Seq::<char>::empty());
    lemma_methods_differ();
    lemma_lower_case();
}

proof fn lemma_lower_case()
    ensures
        lower(trim("auto"@)) == "auto"@,
        lower(trim("automatic"@)) == "automatic"@,
        lower(trim("opportunistic"@)) == "opportunistic"@,
        lower(trim("direct"@)) == "direct"@,
        lower(trim("propagated"@)) == "propagated"@,
{
    reveal_strlit("auto");
    reveal_strlit("automatic");
    reveal_strlit("opportunistic");
    reveal_strlit("direct");
    reveal_strlit("propagated");
    law_trim_keeps_trimmed("auto"@);
    law_trim_keeps_trimmed("automatic"@);
    law_trim_keeps_trimmed("opportunistic"@);
    law_trim_keeps_trimmed("direct"@);
    law_trim_keeps_trimmed("propagated"@);
    assert(lower("auto"@) =~= "auto"@);
    assert(lower("automatic"@) =~= "automatic"@);
    assert(lower("opportunistic"@) =~= "opportunistic"@);
    assert(lower("direct"@) =~= "direct"@);
    assert(lower("propagated"@) =~= "propagated"@);
}

/// A propagation node may be named for a message that is left with one, and for no
/// other; apart from that only an unknown way is refused.
pub proof fn law_nodes_are_for_propagated_messages(requested: Seq<char>, node: Option<Seq<u8>>)
    ensures
        queue_fault(requested, None).is_some() <==> queued_method(requested).is_none(),
        queue_fault(requested, None).is_some() ==> queue_fault(requested, None)
            == Some(QueueError::UnknownMethod),
        node.is_some() ==> (queue_fault(requested, node).is_none() <==> queued_method(requested)
            == Some("propagated"@)),
        queued_method(requested).is_some() && queue_fault(requested, node).is_some()
            ==> queue_fault(requested, node) == Some(QueueError::NodeNotAllowed),
{
}

/// Whether a row of the queue holds what is stored after an attempt.
pub open spec fn holds_update(row: QueueRow, result: OutboundAttemptResult, now: i64) -> bool {
    let update = delivery_after(result, now);
    row.outbound && row.id == update.id && row.state@ == update.state && row.next_attempt
        == update.next_attempt
}

proof fn lemma_states()
    ensures
        "queued"@ != "delivered"@ && "queued"@ != "stored_on_node"@ && "queued"@ != "failed"@,
        "retrying"@ != "delivered"@ && "retrying"@ != "stored_on_node"@ && "retrying"@
            != "failed"@,
        "sending"@ != "delivered"@ && "sending"@ != "stored_on_node"@ && "sending"@ != "failed"@,
        "delivered"@ != "failed"@ && "delivered"@ != "stored_on_node"@,
        "queued"@ != "retrying"@ && "queued"@ != "sending"@ && "sending"@ != "retrying"@,
        "delivered"@ != "invalid_signature"@,
        "delivered"@ != "source_unknown"@,
        "invalid_signature"@ != "source_unknown"@,
{
    reveal_strlit("queued");
    reveal_strlit("retrying");
    reveal_strlit("sending");
    reveal_strlit("delivered");
    reveal_strlit("stored_on_node");
    reveal_strlit("failed");
    reveal_strlit("invalid_signature");
    reveal_strlit("source_unknown");
    assert("queued"@[0] == 'q');
    assert("retrying"@[0] == 'r');
    assert("sending"@[0] == 's' && "sending"@[1] == 'e');
    assert("delivered"@[0] == 'd');
    assert("stored_on_node"@[0] == 's' && "stored_on_node"@[1] == 't');
    assert("failed"@[0] == 'f');
    assert("invalid_signature"@[0] == 'i');
    assert("source_unknown"@[0] == 's');
}

/// A message that was sent is never sent again. It counts as delivered, or, where it
/// lies with a propagation node, as stored there.
pub proof fn law_sent_messages_are_done(
    result: OutboundAttemptResult,
    via: SendVia,
    row: QueueRow,
    now: i64,
    later: i64,
)
    requires
        result.result is Ok,
        result.method@ == via_text(via),
        holds_update(row, result, now),
    ensures
        !is_due(row, later),
        row.id == result.message.id,
        (via == SendVia::Propagated) ==> row.state@ == "stored_on_node"@,
        (via != SendVia::Propagated) ==> row.state@ == "delivered"@,
        delivery_after(result, now).last_error.is_none(),
        delivery_after(result, now).delivery_method == via_text(via),
{
    lemma_states();
    lemma_methods_differ();
}

/// A message that failed for the first four times is tried again, not before the
/// wait is over and as soon as it is, unless it is too long. Its error is kept.
pub proof fn law_failed_messages_are_tried_again(
    result: OutboundAttemptResult,
    row: QueueRow,
    now: i64,
    later: i64,
)
    requires
        result.result is Err,
        result.message.attempts < 4,
        !has_part(result.result->Err_0@, "exceeds Reticulum MTU"@),
        holds_update(row, result, now),
        now <= i64::MAX - 300,
    ensures
        row.state@ == "retrying"@,
        is_due(row, later) <==> later - now >= retry_delay((result.message.attempts + 1) as u32),
        delivery_after(result, now).attempts == result.message.attempts + 1,
        delivery_after(result, now).last_error == Some(result.result->Err_0@),
        delivery_after(result, now).delivery_method == result.method@,
        row.id == result.message.id,
{
    lemma_states();
    law_waits_double(result.message.attempts);
    law_waits_double((result.message.attempts + 1) as u32);
}

/// The fifth failure is the last, and so is one for length: such a message is never
/// due again, and its error is kept.
pub proof fn law_hopeless_messages_are_given_up(
    result: OutboundAttemptResult,
    row: QueueRow,
    now: i64,
    later: i64,
)
    requires
        result.result is Err,
        result.message.attempts >= 4 || has_part(
            result.result->Err_0@,
            "exceeds Reticulum MTU"@,
        ),
        holds_update(row, result, now),
    ensures
        row.state@ == "failed"@,
        !is_due(row, later),
        delivery_after(result, now).last_error == Some(result.result->Err_0@),
        row.id == result.message.id,
{
    lemma_states();
}

/// The wait before another attempt is ten seconds after the first, and doubles up to
/// five minutes.
pub proof fn law_waits_double(attempts: u32)
    ensures
        retry_delay(0) == 5,
        attempts < 5 ==> retry_delay((attempts + 1) as u32) == 2 * retry_delay(attempts),
        attempts >= 6 ==> retry_delay(attempts) == 300,
        retry_delay(attempts) <= 300,
{
    reveal_with_fuel(power_of_two, 7);
}

/// A message that is under way is left alone for three minutes, and then counts as
/// lost: it is due again.
pub proof fn law_messages_under_way_are_left_alone(row: QueueRow, now: i64, later: i64)
    requires
        row.outbound,
        row.state@ == "sending"@,
        row.next_attempt == saturating_sum(now as int, SENDING_SECONDS as int),
        now <= i64::MAX - 180,
    ensures
        is_due(row, later) <==> later - now >= 180,
{
}

/// What is queued is due at once. What arrived is never sent.
pub proof fn law_new_messages_are_due(row: QueueRow, now: i64)
    requires
        row.state@ == "queued"@,
        row.next_attempt <= now,
    ensures
        is_due(row, now) <==> row.outbound,
{
}

/// Of two messages the turn of exactly one is first: the one that was to be sent
/// earlier, and of two that were to be sent together the older one.
pub proof fn law_turns_are_settled(a: QueueRow, b: QueueRow)
    requires
        a.id != b.id,
    ensures
        is_sooner(a, b) != is_sooner(b, a),
        a.next_attempt < b.next_attempt ==> is_sooner(a, b),
        a.next_attempt == b.next_attempt && a.id < b.id ==> is_sooner(a, b),
{
}

/// A restart touches only what was under way: that is tried again at once.
pub proof fn law_restart_keeps_the_rest(row: QueueRow, now: i64, after: QueueRow)
    requires
        is_recovered(row, now, after),
    ensures
        row.state@ != "sending"@ || !row.outbound ==> after == row,
        row.state@ == "sending"@ && row.outbound ==> after.state@ == "retrying"@
            && after.next_attempt == now && after.outbound && after.id == row.id && text_view(
            after.last_error,
        ) == Some("delivery interrupted by application restart"@),
{
}

/// A message that arrives is kept in the conversation with its sender, by the
/// address that stands in bytes 16 to 32 of its payload, and so is a reply: what is
/// sent to the conversation goes to the sender.
#[verifier::rlimit(50)]
pub proof fn law_incoming_messages_belong_to_their_sender(
    payload: Seq<u8>,
    message: UnpackedModel,
    key_known: bool,
    stored: NewMessage,
    reply: PendingMessage,
)
    requires
        payload.len() >= 32,
        message.source_hash == payload.subrange(16, 32),
        is_stored_as(message, key_known, stored),
        reply.destination_hash@ == stored.destination_hash@,
    ensures
        stored.destination_hash@ == hex_text(payload.subrange(16, 32)),
        stored.source_hash@ == hex_text(payload.subrange(16, 32)),
        !stored.outbound,
        attempt_next(reply, AttemptEvent::Begin) matches AttemptModel::Send { recipient, .. }
            ==> recipient == payload.subrange(16, 32),
{
    lemma_hash(payload.subrange(16, 32));
}

/// A message that arrived is found where the messages of its sender are asked for,
/// among the first and among the last of them, where there are not too many.
#[verifier::rlimit(50)]
pub proof fn law_incoming_messages_are_found_with_their_sender(
    message: UnpackedModel,
    key_known: bool,
    stored: NewMessage,
    messages: Seq<MessageView>,
    p: usize,
    limit: nat,
    places: Seq<usize>,
)
    requires
        is_stored_as(message, key_known, stored),
        p < messages.len(),
        messages[p as int].destination_hash == stored.destination_hash,
        places.len() < limit,
        are_first(
            message_rows(messages),
            |q: int| messages[q].destination_hash@ == hex_text(message.source_hash),
            limit,
            places,
        ) || are_last(
            message_rows(messages),
            |q: int| messages[q].destination_hash@ == hex_text(message.source_hash),
            limit,
            places,
        ),
    ensures
        places.contains(p),
{
}

/// What a message says is stored as it was written, and it counts as delivered only
/// where its signature holds; where its sender's key is known and it does not hold,
/// it is marked as false, and where no key is known, as of unknown source.
pub proof fn law_incoming_messages_are_judged_by_their_signature(
    message: UnpackedModel,
    key_known: bool,
    stored: NewMessage,
)
    requires
        is_stored_as(message, key_known, stored),
    ensures
        stored.state@ == "delivered"@ <==> message.signed,
        stored.state@ == "invalid_signature"@ <==> !message.signed && key_known,
        stored.state@ == "source_unknown"@ <==> !message.signed && !key_known,
        stored.title@ == decode_utf8(message.title),
        stored.content@ == decode_utf8(message.content),
        stored.timestamp == message.timestamp,
        text_view(stored.message_hash) == Some(hex_text(message.message_hash)),
        stored.last_error.is_none(),
{
    lemma_states();
}

/// The key that a signature is checked with is the second half of a public key of
/// 64 bytes; of a shorter one nothing is taken.
pub proof fn law_signing_keys_are_second_halves(encryption: Seq<u8>, signing: Seq<u8>)
    requires
        encryption.len() == 32,
    ensures
        signing.len() == 32 ==> signing_part(Some(encryption + signing)) == Some(signing),
        signing.len() < 32 ==> signing_part(Some(encryption + signing)).is_none(),
        signing_part(None).is_none(),
{
    if signing.len() == 32 {
        assert((encryption + signing).subrange(32, 64) =~= signing);
    }
}

/// The own address is put before a message that lacks it, and nothing of the
/// message is lost.
pub proof fn law_addressing_adds_the_own_address(plaintext: Seq<u8>, own: Seq<u8>)
    ensures
        addressed(own + plaintext, own) == own + plaintext,
        plaintext.len() < own.len() ==> addressed(plaintext, own) == own + plaintext,
        plaintext.len() >= own.len() && plaintext.take(own.len() as int) != own ==> addressed(
            plaintext,
            own,
        ) == own + plaintext,
{
    assert((own + plaintext).take(own.len() as int) =~= own);
}

/// A message that was queued for a recipient waits at once, is kept in the conversation
/// with that recipient, and is sent to nobody else.
pub proof fn law_queued_messages_go_to_the_recipient(
    recipient: Seq<u8>,
    source: Seq<u8>,
    title: Seq<char>,
    content: Seq<char>,
    requested: Seq<char>,
    now: i64,
    message: NewMessage,
    pending: PendingMessage,
    row: QueueRow,
)
    requires
        recipient.len() == 16,
        is_queued_as(recipient, source, title, content, requested, now, message),
        pending.destination_hash@ == message.destination_hash@,
        pending.delivery_method@ == message.delivery_method@,
        row.outbound == message.outbound,
        row.state@ == message.state@,
        row.next_attempt == message.next_attempt,
        now >= 0,
    ensures
        is_due(row, now),
        message.destination_hash@ == hex_text(recipient),
        message.source_hash@ == hex_text(source),
        message.title@ == title,
        message.content@ == content,
        message.timestamp == now,
        attempt_next(pending, AttemptEvent::Begin) matches AttemptModel::Send { recipient: to, .. }
            ==> to == recipient,
        queued_method(requested) == Some("direct"@) ==> attempt_next(pending, AttemptEvent::Begin)
            == (AttemptModel::Send { via: SendVia::Direct, recipient, node: None }),
{
    lemma_hash(recipient);
    lemma_methods_differ();
}

/// How an attempt ended is how it is stored: what was sent counts as sent by its way,
/// and what failed is stored with its error.
pub proof fn law_ends_are_stored(
    message: PendingMessage,
    via: SendVia,
    text: String,
    result: OutboundAttemptResult,
    now: i64,
)
    ensures
        ended_as(message, Ok(via), result) ==> delivery_after(result, now).id == message.id
            && delivery_after(result, now).delivery_method == via_text(via) && delivery_after(
            result,
            now,
        ).last_error.is_none(),
        ended_as(message, Err(text), result) ==> delivery_after(result, now).id == message.id
            && delivery_after(result, now).delivery_method == message.delivery_method@
            && delivery_after(result, now).last_error == Some(text@),
{
}

/// A message that is being sent is not tried again for three minutes, and keeps its
/// number, its way and its count.
pub proof fn law_sending_holds_for_three_minutes(
    pending: PendingMessage,
    now: i64,
    update: UpdateModel,
    row: QueueRow,
    later: i64,
)
    requires
        is_under_way(pending, now, update),
        row.outbound,
        row.state@ == update.state,
        row.next_attempt == update.next_attempt,
        now <= i64::MAX - 180,
    ensures
        is_due(row, later) <==> later - now >= 180,
        update.id == pending.id,
        update.delivery_method == pending.delivery_method@,
        update.attempts == pending.attempts,
        update.last_error.is_none(),
{
}

/// The best propagation node is taken and asked at once; while it stays the best, or
/// none is known, nothing changes.
pub proof fn law_the_best_node_is_taken(
    before: NetworkLoop,
    node: [u8; 16],
    after: NetworkLoop,
    choice: NodeChoice,
    now: u64,
)
    ensures
        node_taken(before, Some(node), after, choice) && before.selected_node.is_none()
            ==> after.selected_node == Some(node) && choice.select == Some(node)
            && after.last_download == 0,
        node_taken(before, Some(node), after, choice) && before.selected_node == Some(node)
            ==> after.selected_node == Some(node) && choice.select.is_none()
            && after.last_download == before.last_download,
        node_taken(before, None, after, choice) ==> after.selected_node == before.selected_node
            && choice.select.is_none(),
        now >= 90000 ==> is_download_due(0, true, now, true),
        now < 90000 ==> !is_download_due(0, true, now, true),
        !is_download_due(0, false, now, true),
        !is_download_due(0, true, now, false),
{
}

/// What the network meets leads to what it is there for: messages are taken in, commands
/// obeyed, announces recorded, ends stored and waits polled; it stops when it is told to
/// or when nobody commands any more.
pub proof fn law_events_lead_to_their_action(
    payload: Vec<u8>,
    command: NetworkCommand,
    kind: DirectoryKind,
    announce: Announce,
    result: OutboundAttemptResult,
    now: i64,
    action: NetworkAction,
)
    ensures
        action_fits(NetworkEvent::Shutdown, now, action) ==> action is Stop,
        action_fits(NetworkEvent::Command(None), now, action) ==> action is Stop,
        action_fits(NetworkEvent::Tick, now, action) ==> action is Poll,
        action_fits(NetworkEvent::Packet(Some(payload)), now, action) ==> action
            == NetworkAction::Receive(payload),
        action_fits(NetworkEvent::Resource(Some(payload)), now, action) ==> action
            == NetworkAction::Receive(payload),
        action_fits(NetworkEvent::Raw(Some(payload)), now, action) ==> action
            == NetworkAction::ReceiveRaw(payload),
        action_fits(NetworkEvent::Command(Some(command)), now, action) ==> action
            == NetworkAction::Obey(command),
        action_fits(NetworkEvent::Announced(kind, Some(announce)), now, action) ==> action
            == NetworkAction::Record(kind, announce),
        action_fits(NetworkEvent::AttemptEnded(Some(result)), now, action) ==> action is Store
            && action->Store_0@ == delivery_after(result, now),
        action_fits(NetworkEvent::Packet(None), now, action) ==> action is Wait,
        action_fits(NetworkEvent::Raw(None), now, action) ==> action is Wait,
{
}

/// A message is shown as it is stored, so that one that arrived is seen in the
/// conversation with its sender.
pub proof fn law_messages_are_seen_as_they_are_stored(
    message: UnpackedModel,
    key_known: bool,
    stored: NewMessage,
    id: i64,
    view: MessageView,
)
    requires
        is_stored_as(message, key_known, stored),
        is_seen_as(id, stored, view),
    ensures
        view.id == id,
        view.destination_hash@ == hex_text(message.source_hash),
        view.source_hash@ == hex_text(message.source_hash),
        view.title@ == decode_utf8(message.title),
        view.content@ == decode_utf8(message.content),
        view.timestamp == message.timestamp,
        !view.outbound,
        view.state@ == "delivered"@ <==> message.signed,
{
    lemma_states();
}

/// A database of the own version is kept, an older one is brought up to date and one
/// from the future is left alone.
pub proof fn law_databases_of_the_future_are_refused(version: i64)
    ensures
        step_for(7) == SchemaStep::Keep,
        version < 7 ==> step_for(version) == SchemaStep::Upgrade,
        version > 7 ==> step_for(version) == SchemaStep::Refuse,
{
}

/// Of what comes for the own address the rest is read, and of what comes for another
/// nothing.
pub proof fn law_only_the_own_messages_are_read(
    own: Seq<u8>,
    other: Seq<u8>,
    header: Seq<u8>,
    body: Seq<u8>,
)
    requires
        own.len() == 16,
        other.len() == 16,
        other != own,
        body.len() > 0,
    ensures
        body_behind(own + body, own) == Some(body),
        body_behind(other + body, own).is_none(),
        body_at(header + body, header.len() as int, own, own) == Some(body),
        body_at(header + body, header.len() as int, other, own).is_none(),
        body_at(header, header.len() as int, own, own).is_none(),
{
    assert((own + body).take(16) =~= own);
    assert((own + body).skip(16) =~= body);
    assert((other + body).take(16) =~= other);
    assert((header + body).skip(header.len() as int) =~= body);
}

} // verus!
