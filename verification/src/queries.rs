//! What is read from the store, and in which order.
use vstd::prelude::*;

use crate::browser::{text_view, text_views};
use crate::db::HistoryRow;
use crate::hexadecimal::is_hash_text;
use crate::models::{ConversationSummary, DirectoryEntry, MessageView, RrcMessageView};
use crate::network::{contains_text, has_part};
use crate::service::{canonical_hash, check_clear, hash_message, AppResult, ErrorModel};
use crate::table::TextMap;
use crate::text::{lower, same_text};

verus! {

/// How many messages of a conversation, or of a hub, are read at once.
pub const PAGE_ROWS: usize = 500;

/// How many destinations are read at once.
pub const DIRECTORY_ROWS: usize = 512;

/// Whether the row at `p` comes before the row at `q`: by time, then by identifier,
/// then by place.
pub open spec fn is_before(rows: Seq<HistoryRow>, p: int, q: int) -> bool {
    let a = rows[p];
    let b = rows[q];
    a.timestamp < b.timestamp || (a.timestamp == b.timestamp && (a.id < b.id || (a.id == b.id && p
        < q)))
}

/// Whether places stand for rows, in order.
pub open spec fn in_order(rows: Seq<HistoryRow>, places: Seq<usize>) -> bool {
    &&& forall|i: int| 0 <= i < places.len() ==> (#[trigger] places[i]) < rows.len()
    &&& forall|i: int, j: int|
        0 <= i < j < places.len() ==> is_before(
            rows,
            #[trigger] places[i] as int,
            #[trigger] places[j] as int,
        )
}

fn comes_before(rows: &Vec<HistoryRow>, p: usize, q: usize) -> (r: bool)
    requires
        p < rows@.len(),
        q < rows@.len(),
    ensures
        r == is_before(rows@, p as int, q as int),
{
    let a = rows[p];
    let b = rows[q];
    a.timestamp < b.timestamp || (a.timestamp == b.timestamp && (a.id < b.id || (a.id == b.id && p
        < q)))
}

/// Puts a row in its place among others.
fn insert_place(rows: &Vec<HistoryRow>, places: &mut Vec<usize>, place: usize)
    requires
        in_order(rows@, old(places)@),
        place < rows@.len(),
        !old(places)@.contains(place),
    ensures
        in_order(rows@, final(places)@),
        final(places)@.len() == old(places)@.len() + 1,
        forall|p: usize| #[trigger]
            final(places)@.contains(p) <==> old(places)@.contains(p) || p == place,
{
    let ghost before = places@;
    let mut at: usize = 0;
    let count: usize = places.len();
    while at < count && comes_before(rows, places[at], place)
        invariant
            at <= count,
            count == places@.len(),
            places@ == before,
            in_order(rows@, before),
            place < rows@.len(),
            forall|i: int| 0 <= i < at ==> is_before(rows@, #[trigger] before[i] as int, place as int),
        decreases count - at,
    {
        at = at + 1;
    }
    places.insert(at, place);
    proof {
        let after = places@;
        assert(after == before.insert(at as int, place));
        assert forall|i: int| at <= i < before.len() implies is_before(
            rows@,
            place as int,
            #[trigger] before[i] as int,
        ) by {
            assert(before.contains(before[at as int]));
            assert(before[at as int] != place);
            if i > at {
                assert(is_before(rows@, before[at as int] as int, before[i] as int));
            }
        }
        assert forall|i: int, j: int| 0 <= i < j < after.len() implies is_before(
            rows@,
            #[trigger] after[i] as int,
            #[trigger] after[j] as int,
        ) by {
            if j < at {
                assert(after[i] == before[i] && after[j] == before[j]);
            } else if i > at {
                assert(after[i] == before[i - 1] && after[j] == before[j - 1]);
            } else if i < at && j > at {
                assert(after[i] == before[i] && after[j] == before[j - 1]);
            } else if i < at {
                assert(after[i] == before[i] && after[j] == place);
            } else {
                assert(after[i] == place && after[j] == before[j - 1]);
            }
        }
        assert forall|p: usize| #[trigger] after.contains(p) <==> before.contains(p) || p
            == place by {
            if before.contains(p) {
                let i = choose|i: int| 0 <= i < before.len() && before[i] == p;
                if i < at {
                    assert(after[i] == p);
                } else {
                    assert(after[i + 1] == p);
                }
            }
            if p == place {
                assert(after[at as int] == p);
            }
            if after.contains(p) {
                let i = choose|i: int| 0 <= i < after.len() && after[i] == p;
                if i < at {
                    assert(before[i] == p);
                } else if i > at {
                    assert(before[i - 1] == p);
                }
            }
        }
    }
}

/// Whether `places` are the first of the rows that are asked for, in order, up to a
/// limit.
pub open spec fn are_first(
    rows: Seq<HistoryRow>,
    asked: spec_fn(int) -> bool,
    limit: nat,
    places: Seq<usize>,
) -> bool {
    &&& in_order(rows, places)
    &&& places.len() <= limit
    &&& forall|p: usize| #[trigger] places.contains(p) ==> p < rows.len() && asked(p as int)
    &&& forall|p: usize|
        p < rows.len() && asked(p as int) && !#[trigger] places.contains(p) ==> places.len()
            == limit && (limit > 0 ==> is_before(rows, places.last() as int, p as int))
}

/// Whether `places` are the last of the rows that are asked for, in order, up to a
/// limit.
pub open spec fn are_last(
    rows: Seq<HistoryRow>,
    asked: spec_fn(int) -> bool,
    limit: nat,
    places: Seq<usize>,
) -> bool {
    &&& in_order(rows, places)
    &&& places.len() <= limit
    &&& forall|p: usize| #[trigger] places.contains(p) ==> p < rows.len() && asked(p as int)
    &&& forall|p: usize|
        p < rows.len() && asked(p as int) && !#[trigger] places.contains(p) ==> places.len()
            == limit && (limit > 0 ==> is_before(rows, p as int, places[0] as int))
}

/// All rows that are asked for, in order.
fn ordered(rows: &Vec<HistoryRow>, asked: &Vec<bool>) -> (r: Vec<usize>)
    requires
        rows@.len() == asked@.len(),
    ensures
        in_order(rows@, r@),
        forall|p: usize| #[trigger] r@.contains(p) <==> p < rows@.len() && asked@[p as int],
{
    let mut places: Vec<usize> = Vec::new();
    for i in 0..rows.len()
        invariant
            rows@.len() == asked@.len(),
            in_order(rows@, places@),
            forall|p: usize| #[trigger] places@.contains(p) <==> p < i && asked@[p as int],
    {
        if asked[i] {
            insert_place(rows, &mut places, i);
        }
    }
    places
}

fn first_of(rows: &Vec<HistoryRow>, asked: &Vec<bool>, limit: usize) -> (r: Vec<usize>)
    requires
        rows@.len() == asked@.len(),
    ensures
        are_first(rows@, |p: int| asked@[p], limit as nat, r@),
{
    let mut places = ordered(rows, asked);
    let ghost all = places@;
    if places.len() > limit {
        places.truncate(limit);
        proof {
            let kept = places@;
            assert(kept == all.take(limit as int));
            assert forall|p: usize| #[trigger] kept.contains(p) implies all.contains(p) by {
                let i = choose|i: int| 0 <= i < kept.len() && kept[i] == p;
                assert(all[i] == p);
            }
            assert forall|p: usize|
                p < rows@.len() && asked@[p as int] && !#[trigger] kept.contains(p) && limit
                    > 0 implies is_before(rows@, kept.last() as int, p as int) by {
                assert(all.contains(p));
                let i = choose|i: int| 0 <= i < all.len() && all[i] == p;
                if i < limit {
                    assert(kept[i] == p);
                }
                assert(is_before(rows@, all[limit - 1] as int, all[i] as int));
            }
        }
    }
    places
}

fn last_of(rows: &Vec<HistoryRow>, asked: &Vec<bool>, limit: usize) -> (r: Vec<usize>)
    requires
        rows@.len() == asked@.len(),
    ensures
        are_last(rows@, |p: int| asked@[p], limit as nat, r@),
{
    let places = ordered(rows, asked);
    let ghost all = places@;
    if places.len() <= limit {
        return places;
    }
    let start: usize = places.len() - limit;
    let kept = vstd::slice::slice_to_vec(
        vstd::slice::slice_subrange(&places, start, places.len()),
    );
    proof {
        assert(kept@ =~= all.skip(start as int));
        assert forall|p: usize| #[trigger] kept@.contains(p) implies all.contains(p) by {
            let i = choose|i: int| 0 <= i < kept@.len() && kept@[i] == p;
            assert(all[i + start] == p);
        }
        assert forall|i: int, j: int| 0 <= i < j < kept@.len() implies is_before(
            rows@,
            #[trigger] kept@[i] as int,
            #[trigger] kept@[j] as int,
        ) by {
            assert(kept@[i] == all[i + start] && kept@[j] == all[j + start]);
        }
        assert forall|i: int| 0 <= i < kept@.len() implies (#[trigger] kept@[i]) < rows@.len() by {
            assert(kept@[i] == all[i + start]);
        }
        assert forall|p: usize|
            p < rows@.len() && asked@[p as int] && !#[trigger] kept@.contains(p) && limit
                > 0 implies is_before(rows@, p as int, kept@[0] as int) by {
            assert(all.contains(p));
            let i = choose|i: int| 0 <= i < all.len() && all[i] == p;
            if i >= start {
                assert(kept@[i - start] == p);
            }
            assert(is_before(rows@, all[i] as int, all[start as int] as int));
        }
    }
    kept
}

/// The rows of messages, as far as their order depends on them.
pub open spec fn message_rows(messages: Seq<MessageView>) -> Seq<HistoryRow> {
    messages.map_values(
        |message: MessageView| HistoryRow { id: message.id, timestamp: message.timestamp },
    )
}

pub(crate) fn rows_of(messages: &Vec<MessageView>) -> (r: Vec<HistoryRow>)
    ensures
        r@ == message_rows(messages@),
{
    let mut rows: Vec<HistoryRow> = Vec::new();
    for i in 0..messages.len()
        invariant
            rows@ == message_rows(messages@.take(i as int)),
    {
        rows.push(HistoryRow { id: messages[i].id, timestamp: messages[i].timestamp });
        assert(rows@ =~= message_rows(messages@.take(i + 1)));
    }
    assert(messages@.take(messages@.len() as int) =~= messages@);
    rows
}

/// Which messages belong to a conversation.
fn in_conversation(messages: &Vec<MessageView>, destination: &str) -> (r: Vec<bool>)
    ensures
        r@.len() == messages@.len(),
        forall|p: int|
            0 <= p < r@.len() ==> #[trigger] r@[p] == (messages@[p].destination_hash@
                == destination@),
{
    let mut asked: Vec<bool> = Vec::new();
    for i in 0..messages.len()
        invariant
            asked@.len() == i,
            forall|p: int|
                0 <= p < i ==> #[trigger] asked@[p] == (messages@[p].destination_hash@
                    == destination@),
    {
        asked.push(same_text(messages[i].destination_hash.as_str(), destination));
    }
    asked
}

/// The places of a conversation's messages: its first five hundred, the oldest
/// first.
pub fn conversation_messages(messages: &Vec<MessageView>, destination: &str) -> (r: Vec<usize>)
    ensures
        are_first(
            message_rows(messages@),
            |p: int| messages@[p].destination_hash@ == destination@,
            PAGE_ROWS as nat,
            r@,
        ),
{
    let rows = rows_of(messages);
    let asked = in_conversation(messages, destination);
    first_of(&rows, &asked, PAGE_ROWS)
}

/// The places of the newest messages of a conversation, the oldest of them first.
pub fn recent_messages(messages: &Vec<MessageView>, destination: &str, limit: usize) -> (r: Vec<
    usize,
>)
    ensures
        are_last(
            message_rows(messages@),
            |p: int| messages@[p].destination_hash@ == destination@,
            limit as nat,
            r@,
        ),
{
    let rows = rows_of(messages);
    let asked = in_conversation(messages, destination);
    last_of(&rows, &asked, limit)
}

/// Whether a message of a conversation holds a text, in its title or its content.
pub open spec fn is_found(message: MessageView, destination: Seq<char>, query: Seq<char>) -> bool {
    &&& message.destination_hash@ == destination
    &&& has_part(message.title@, query) || has_part(message.content@, query)
}

/// The places of the messages of a conversation that hold a text, the oldest first.
pub fn search_messages(messages: &Vec<MessageView>, destination: &str, query: &str) -> (r: Vec<
    usize,
>)
    ensures
        are_first(
            message_rows(messages@),
            |p: int| is_found(messages@[p], destination@, query@),
            messages@.len(),
            r@,
        ),
{
    let rows = rows_of(messages);
    let mut asked: Vec<bool> = Vec::new();
    for i in 0..messages.len()
        invariant
            asked@.len() == i,
            forall|p: int|
                0 <= p < i ==> #[trigger] asked@[p] == is_found(
                    messages@[p],
                    destination@,
                    query@,
                ),
    {
        let message = &messages[i];
        asked.push(
            same_text(message.destination_hash.as_str(), destination) && (contains_text(
                message.title.as_str(),
                query,
            ) || contains_text(message.content.as_str(), query)),
        );
    }
    first_of(&rows, &asked, messages.len())
}

/// Whether a chat message is asked for: of the hub, and of the room where one is
/// given.
pub open spec fn is_asked_for(
    message: RrcMessageView,
    hub: Seq<char>,
    room: Option<Seq<char>>,
) -> bool {
    message.hub_hash@ == hub && (room.is_none() || text_view(message.room) == room)
}

/// The places of a hub's messages, or of those of one of its rooms: the last five
/// hundred, the oldest first. `rows` tells the order of the messages.
pub fn rrc_messages(
    rows: &Vec<HistoryRow>,
    messages: &Vec<RrcMessageView>,
    hub: &str,
    room: &Option<String>,
) -> (r: Vec<usize>)
    requires
        rows@.len() == messages@.len(),
    ensures
        are_last(
            rows@,
            |p: int| is_asked_for(messages@[p], hub@, text_view(*room)),
            PAGE_ROWS as nat,
            r@,
        ),
{
    let mut asked: Vec<bool> = Vec::new();
    for i in 0..messages.len()
        invariant
            asked@.len() == i,
            forall|p: int|
                0 <= p < i ==> #[trigger] asked@[p] == is_asked_for(
                    messages@[p],
                    hub@,
                    text_view(*room),
                ),
    {
        let message = &messages[i];
        let of_room = match room {
            None => true,
            Some(room) => match &message.room {
                None => false,
                Some(name) => same_text(name.as_str(), room.as_str()),
            },
        };
        asked.push(same_text(message.hub_hash.as_str(), hub) && of_room);
    }
    last_of(rows, &asked, PAGE_ROWS)
}

/// The places of the messages that go when a room is cleared, in order of place.
pub fn clear_rrc_messages(messages: &Vec<RrcMessageView>, hub: &str, room: &str) -> (r: Vec<usize>)
    ensures
        forall|p: usize| #[trigger]
            r@.contains(p) <==> p < messages@.len() && is_asked_for(
                messages@[p as int],
                hub@,
                Some(room@),
            ),
        forall|i: int, j: int| 0 <= i < j < r@.len() ==> r@[i] < r@[j],
{
    let mut out: Vec<usize> = Vec::new();
    for i in 0..messages.len()
        invariant
            forall|p: usize| #[trigger]
                out@.contains(p) <==> p < i && is_asked_for(messages@[p as int], hub@, Some(room@)),
            forall|a: int, b: int| 0 <= a < b < out@.len() ==> out@[a] < out@[b],
            forall|a: int| 0 <= a < out@.len() ==> #[trigger] out@[a] < i,
    {
        let of_room = match &messages[i].room {
            None => false,
            Some(name) => same_text(name.as_str(), room),
        };
        if same_text(messages[i].hub_hash.as_str(), hub) && of_room {
            let ghost before = out@;
            out.push(i);
            proof {
                lemma_contains_pushed(before, i);
            }
        }
    }
    out
}

/// Whether a message waits to be sent.
pub open spec fn awaits_delivery(message: MessageView) -> bool {
    &&& message.outbound
    &&& message.state@ == "queued"@ || message.state@ == "retrying"@ || message.state@
        == "sending"@
}

pub(crate) fn pending_message(message: &MessageView) -> (r: bool)
    ensures
        r == awaits_delivery(*message),
{
    message.outbound && (same_text(message.state.as_str(), "queued") || same_text(
        message.state.as_str(),
        "retrying",
    ) || same_text(message.state.as_str(), "sending"))
}

/// Whether a message of a conversation waits to be sent.
pub open spec fn has_pending(messages: Seq<MessageView>, destination: Seq<char>) -> bool {
    exists|i: int|
        0 <= i < messages.len() && (#[trigger] messages[i]).destination_hash@ == destination
            && awaits_delivery(messages[i])
}

pub fn conversation_has_pending(messages: &Vec<MessageView>, destination: &str) -> (r: bool)
    ensures
        r == has_pending(messages@, destination@),
{
    for i in 0..messages.len()
        invariant
            forall|j: int|
                0 <= j < i ==> !((#[trigger] messages@[j]).destination_hash@ == destination@
                    && awaits_delivery(messages@[j])),
    {
        if same_text(messages[i].destination_hash.as_str(), destination) && pending_message(
            &messages[i],
        ) {
            return true;
        }
    }
    false
}

/// The places of the messages that go when a conversation is cleared, in order of
/// place: all of it, or none where one waits to be sent.
pub fn clear_conversation(messages: &Vec<MessageView>, destination_hash: &str) -> (r: AppResult<
    Vec<usize>,
>)
    ensures
        r is Ok == (is_hash_text(destination_hash@) && !has_pending(
            messages@,
            lower(destination_hash@),
        )),
        r is Err ==> r->Err_0@ == if is_hash_text(destination_hash@) {
            ErrorModel::Conflict("conversation has messages awaiting delivery"@)
        } else {
            ErrorModel::Invalid(hash_message("destination hash"@))
        },
        r is Ok ==> (forall|p: usize| #[trigger]
            r->Ok_0@.contains(p) <==> p < messages@.len()
                && messages@[p as int].destination_hash@ == lower(destination_hash@)),
        r is Ok ==> forall|i: int, j: int|
            0 <= i < j < r->Ok_0@.len() ==> r->Ok_0@[i] < r->Ok_0@[j],
{
    let destination = match canonical_hash(destination_hash, "destination hash") {
        Ok(destination) => destination,
        Err(error) => {
            return Err(error);
        },
    };
    if let Err(error) = check_clear(conversation_has_pending(messages, destination.as_str())) {
        return Err(error);
    }
    let mut out: Vec<usize> = Vec::new();
    for i in 0..messages.len()
        invariant
            destination@ == lower(destination_hash@),
            forall|p: usize| #[trigger]
                out@.contains(p) <==> p < i && messages@[p as int].destination_hash@
                    == destination@,
            forall|a: int, b: int| 0 <= a < b < out@.len() ==> out@[a] < out@[b],
            forall|a: int| 0 <= a < out@.len() ==> #[trigger] out@[a] < i,
    {
        if same_text(messages[i].destination_hash.as_str(), destination.as_str()) {
            let ghost before = out@;
            out.push(i);
            proof {
                lemma_contains_pushed(before, i);
            }
        }
    }
    Ok(out)
}

proof fn lemma_contains_pushed(before: Seq<usize>, place: usize)
    ensures
        forall|p: usize| #[trigger]
            before.push(place).contains(p) <==> before.contains(p) || p == place,
{
    let after = before.push(place);
    assert forall|p: usize| #[trigger] after.contains(p) <==> before.contains(p) || p == place by {
        if before.contains(p) {
            let k = choose|k: int| 0 <= k < before.len() && before[k] == p;
            assert(after[k] == p);
        }
        if p == place {
            assert(after[before.len() as int] == p);
        }
        if after.contains(p) {
            let k = choose|k: int| 0 <= k < after.len() && after[k] == p;
            if k < before.len() {
                assert(before[k] == p);
            }
        }
    }
}

/// Whether a message of this hash is stored already.
pub fn message_hash_exists(hashes: &Vec<String>, wanted: &str) -> (r: bool)
    ensures
        r == text_views(hashes@).contains(wanted@),
{
    for i in 0..hashes.len()
        invariant
            forall|j: int| 0 <= j < i ==> (#[trigger] hashes@[j])@ != wanted@,
    {
        if same_text(hashes[i].as_str(), wanted) {
            assert(text_views(hashes@)[i as int] == wanted@);
            return true;
        }
    }
    proof {
        if text_views(hashes@).contains(wanted@) {
            let j = choose|j: int|
                0 <= j < text_views(hashes@).len() && text_views(hashes@)[j] == wanted@;
            assert(hashes@[j]@ == wanted@);
        }
    }
    false
}

/// The rows of the directory, as far as their order depends on them.
pub open spec fn directory_rows(entries: Seq<DirectoryEntry>) -> Seq<HistoryRow> {
    entries.map_values(|entry: DirectoryEntry| HistoryRow { id: 0, timestamp: entry.last_seen })
}

/// The places of the destinations that were heard of last, the latest first.
pub fn recent_destinations(entries: &Vec<DirectoryEntry>) -> (r: Vec<usize>)
    ensures
        are_last(directory_rows(entries@), |p: int| true, DIRECTORY_ROWS as nat, r@.reverse()),
{
    let mut rows: Vec<HistoryRow> = Vec::new();
    let mut asked: Vec<bool> = Vec::new();
    for i in 0..entries.len()
        invariant
            rows@ == directory_rows(entries@.take(i as int)),
            asked@.len() == i,
            forall|p: int| 0 <= p < i ==> #[trigger] asked@[p],
    {
        rows.push(HistoryRow { id: 0, timestamp: entries[i].last_seen });
        asked.push(true);
        assert(rows@ =~= directory_rows(entries@.take(i + 1)));
    }
    assert(entries@.take(entries@.len() as int) =~= entries@);
    let oldest_first = last_of(&rows, &asked, DIRECTORY_ROWS);
    let count: usize = oldest_first.len();
    let mut out: Vec<usize> = Vec::new();
    for i in 0..count
        invariant
            count == oldest_first@.len(),
            out@.len() == i,
            forall|j: int| 0 <= j < i ==> #[trigger] out@[j] == oldest_first@[count - 1 - j],
    {
        out.push(oldest_first[count - 1 - i]);
    }
    assert(out@.reverse() =~= oldest_first@);
    out
}

/// Whether a message is the last of its conversation.
pub open spec fn is_latest(messages: Seq<MessageView>, i: int) -> bool {
    &&& 0 <= i < messages.len()
    &&& forall|j: int|
        0 <= j < messages.len() && (#[trigger] messages[j]).destination_hash@
            == messages[i].destination_hash@ && j != i ==> messages[j].id < messages[i].id
}

/// Whether a message came in from a destination and has not been read. `read` holds
/// the last message read of each conversation.
pub open spec fn is_unread(
    message: MessageView,
    destination: Seq<char>,
    read: Map<Seq<char>, i64>,
) -> bool {
    &&& message.destination_hash@ == destination
    &&& !message.outbound
    &&& read.contains_key(destination) ==> message.id > read[destination]
}

/// How many messages of a conversation have not been read.
pub open spec fn unread_in(
    messages: Seq<MessageView>,
    destination: Seq<char>,
    read: Map<Seq<char>, i64>,
) -> nat {
    messages.filter(|message: MessageView| is_unread(message, destination, read)).len()
}

/// Counts the unread messages of a conversation, as far as a count goes.
pub fn unread_count(messages: &Vec<MessageView>, destination: &str, read: &TextMap<i64>) -> (r: u32)
    requires
        read.wf(),
    ensures
        unread_in(messages@, destination@, read@) <= u32::MAX ==> r == unread_in(
            messages@,
            destination@,
            read@,
        ),
        unread_in(messages@, destination@, read@) > u32::MAX ==> r == u32::MAX,
{
    let mark: Option<i64> = match read.get(destination) {
        Some(mark) => Some(*mark),
        None => None,
    };
    let mut count: u32 = 0;
    for i in 0..messages.len()
        invariant
            mark == (if read@.contains_key(destination@) {
                Some(read@[destination@])
            } else {
                None
            }),
            unread_in(messages@.take(i as int), destination@, read@) <= u32::MAX ==> count
                == unread_in(messages@.take(i as int), destination@, read@),
            unread_in(messages@.take(i as int), destination@, read@) > u32::MAX ==> count
                == u32::MAX,
    {
        let message = &messages[i];
        let fresh = match mark {
            Some(mark) => message.id > mark,
            None => true,
        };
        let counts = same_text(message.destination_hash.as_str(), destination) && !message.outbound
            && fresh;
        proof {
            let taken = messages@.take(i + 1);
            assert(taken.drop_last() =~= messages@.take(i as int));
            assert(taken.last() == messages@[i as int]);
            reveal(Seq::filter);
            assert(counts == is_unread(messages@[i as int], destination@, read@));
        }
        if counts && count < u32::MAX {
            count = count + 1;
        }
    }
    assert(messages@.take(messages@.len() as int) =~= messages@);
    count
}

/// Whether `mark` is the last message of a conversation.
pub open spec fn is_last_message(messages: Seq<MessageView>, destination: Seq<char>, mark: i64) -> bool {
    &&& exists|i: int|
        0 <= i < messages.len() && (#[trigger] messages[i]).destination_hash@ == destination
            && messages[i].id == mark
    &&& forall|i: int|
        0 <= i < messages.len() && (#[trigger] messages[i]).destination_hash@ == destination
            ==> messages[i].id <= mark
}

/// The last message of a conversation, which is kept as read when the conversation
/// is marked as read. There is none where there is no message.
pub fn mark_conversation_read(messages: &Vec<MessageView>, destination: &str) -> (r: Option<i64>)
    ensures
        match r {
            Some(mark) => is_last_message(messages@, destination@, mark),
            None => forall|i: int|
                0 <= i < messages@.len() ==> (#[trigger] messages@[i]).destination_hash@
                    != destination@,
        },
{
    let mut mark: Option<i64> = None;
    for i in 0..messages.len()
        invariant
            match mark {
                Some(mark) => is_last_message(messages@.take(i as int), destination@, mark),
                None => forall|j: int|
                    0 <= j < i ==> (#[trigger] messages@[j]).destination_hash@ != destination@,
            },
    {
        let ghost before = mark;
        let ghost taken = messages@.take(i as int);
        let ghost longer = messages@.take(i + 1);
        let id: i64 = messages[i].id;
        if same_text(messages[i].destination_hash.as_str(), destination) {
            mark = match mark {
                Some(known) => Some(if id > known { id } else { known }),
                None => Some(id),
            };
        }
        proof {
            assert(longer[i as int] == messages@[i as int]);
            assert(forall|j: int| 0 <= j < i ==> longer[j] == taken[j]);
            if before.is_some() {
                let j = choose|j: int|
                    0 <= j < taken.len() && (#[trigger] taken[j]).destination_hash@ == destination@
                        && taken[j].id == before.unwrap();
                assert(longer[j] == taken[j]);
            }
            if mark.is_some() {
                assert(is_last_message(longer, destination@, mark.unwrap()));
            }
        }
    }
    assert(messages@.take(messages@.len() as int) =~= messages@);
    mark
}

/// Whether a summary tells of a conversation by its last message, the name of the
/// contact and how much of it is unread.
pub open spec fn summarises(
    messages: Seq<MessageView>,
    message: MessageView,
    names: Map<Seq<char>, String>,
    read: Map<Seq<char>, i64>,
    summary: ConversationSummary,
) -> bool {
    &&& summary.destination_hash@ == message.destination_hash@
    &&& text_view(summary.display_name) == if names.contains_key(message.destination_hash@) {
        Some(names[message.destination_hash@]@)
    } else {
        None
    }
    &&& text_view(summary.last_message) == Some(message.content@)
    &&& summary.last_activity == Some(message.timestamp)
    &&& unread_in(messages, message.destination_hash@, read) <= u32::MAX ==> summary.unread
        == unread_in(messages, message.destination_hash@, read)
    &&& unread_in(messages, message.destination_hash@, read) > u32::MAX ==> summary.unread
        == u32::MAX
}

/// Whether a summary tells of a conversation.
pub open spec fn is_summary(
    messages: Seq<MessageView>,
    names: Map<Seq<char>, String>,
    read: Map<Seq<char>, i64>,
    summary: ConversationSummary,
) -> bool {
    exists|m: int|
        is_latest(messages, m) && summarises(messages, #[trigger] messages[m], names, read, summary)
}

fn latest(messages: &Vec<MessageView>, i: usize) -> (r: bool)
    requires
        i < messages@.len(),
    ensures
        r == is_latest(messages@, i as int),
{
    for j in 0..messages.len()
        invariant
            i < messages@.len(),
            forall|k: int|
                0 <= k < j && (#[trigger] messages@[k]).destination_hash@
                    == messages@[i as int].destination_hash@ && k != i ==> messages@[k].id
                    < messages@[i as int].id,
    {
        if j != i && same_text(
            messages[j].destination_hash.as_str(),
            messages[i].destination_hash.as_str(),
        ) && messages[j].id >= messages[i].id {
            return false;
        }
    }
    true
}

/// The conversations, the most recent first: one for each destination that a
/// message was exchanged with. `read` holds the last message read of each. No two
/// messages have the same identifier.
pub fn conversations(
    messages: &Vec<MessageView>,
    names: &TextMap<String>,
    read: &TextMap<i64>,
) -> (r: Vec<ConversationSummary>)
    requires
        names.wf(),
        read.wf(),
        forall|i: int, j: int| 0 <= i < j < messages@.len() ==> messages@[i].id != messages@[j].id,
    ensures
        forall|i: int|
            0 <= i < r@.len() ==> is_summary(messages@, names@, read@, #[trigger] r@[i]),
        forall|m: int|
            #![trigger messages@[m]]
            is_latest(messages@, m) ==> exists|i: int|
                0 <= i < r@.len() && summarises(
                    messages@,
                    messages@[m],
                    names@,
                    read@,
                    #[trigger] r@[i],
                ),
        forall|i: int, j: int|
            0 <= i < j < r@.len() ==> (#[trigger] r@[i]).destination_hash@ != (
            #[trigger] r@[j]).destination_hash@ && r@[i].last_activity.unwrap()
                >= r@[j].last_activity.unwrap(),
{
    let rows = rows_of(messages);
    let mut asked: Vec<bool> = Vec::new();
    for i in 0..messages.len()
        invariant
            asked@.len() == i,
            forall|p: int| 0 <= p < i ==> #[trigger] asked@[p] == is_latest(messages@, p),
    {
        asked.push(latest(messages, i));
    }
    let places = ordered(&rows, &asked);
    let count: usize = places.len();
    let mut out: Vec<ConversationSummary> = Vec::new();
    for i in 0..count
        invariant
            count == places@.len(),
            names.wf(),
            read.wf(),
            rows@ == message_rows(messages@),
            in_order(rows@, places@),
            out@.len() == i,
            forall|j: int|
                0 <= j < i ==> summarises(
                    messages@,
                    messages@[places@[count - 1 - j] as int],
                    names@,
                    read@,
                    #[trigger] out@[j],
                ),
    {
        let message = &messages[places[count - 1 - i]];
        let display_name = match names.get(message.destination_hash.as_str()) {
            Some(name) => Some(name.clone()),
            None => None,
        };
        out.push(
            ConversationSummary {
                destination_hash: message.destination_hash.clone(),
                display_name,
                last_message: Some(message.content.clone()),
                last_activity: Some(message.timestamp),
                unread: unread_count(messages, message.destination_hash.as_str(), read),
            },
        );
    }
    proof {
        assert forall|i: int| 0 <= i < out@.len() implies is_summary(
            messages@,
            names@,
            read@,
            #[trigger] out@[i],
        ) by {
            let p = places@[count - 1 - i];
            assert(places@.contains(p));
            assert(is_latest(messages@, p as int));
            assert(summarises(messages@, messages@[p as int], names@, read@, out@[i]));
        }
        assert forall|m: int|
            #![trigger messages@[m]]
            is_latest(messages@, m) implies exists|i: int|
            0 <= i < out@.len() && summarises(
            messages@,
            messages@[m],
            names@,
            read@,
            #[trigger] out@[i],
        ) by {
            assert(asked@[m]);
            assert(places@.contains(m as usize));
            let k = choose|k: int| 0 <= k < places@.len() && places@[k] == m;
            let i = count - 1 - k;
            assert(summarises(
                messages@,
                messages@[places@[count - 1 - i] as int],
                names@,
                read@,
                out@[i],
            ));
        }
        assert forall|i: int, j: int| 0 <= i < j < out@.len() implies (
        #[trigger] out@[i]).destination_hash@ != (#[trigger] out@[j]).destination_hash@
            && out@[i].last_activity.unwrap() >= out@[j].last_activity.unwrap() by {
            let p = places@[count - 1 - i];
            let q = places@[count - 1 - j];
            assert(is_before(rows@, q as int, p as int));
            assert(places@.contains(p) && places@.contains(q));
            assert(is_latest(messages@, p as int) && is_latest(messages@, q as int));
            if messages@[p as int].destination_hash@ == messages@[q as int].destination_hash@ {
                assert(messages@[p as int].id < messages@[q as int].id);
                assert(messages@[q as int].id < messages@[p as int].id);
            }
        }
    }
    out
}

proof fn lemma_nothing_unread(
    messages: Seq<MessageView>,
    destination: Seq<char>,
    read: Map<Seq<char>, i64>,
)
    requires
        forall|i: int|
            0 <= i < messages.len() ==> !is_unread(#[trigger] messages[i], destination, read),
    ensures
        unread_in(messages, destination, read) == 0,
    decreases messages.len(),
{
    reveal(Seq::filter);
    if messages.len() > 0 {
        lemma_nothing_unread(messages.drop_last(), destination, read);
    }
}

/// A conversation that was marked as read holds nothing unread, and other
/// conversations hold what they held.
pub proof fn law_marking_reads_a_conversation(
    messages: Seq<MessageView>,
    destination: Seq<char>,
    other: Seq<char>,
    read: Map<Seq<char>, i64>,
    mark: i64,
)
    requires
        is_last_message(messages, destination, mark),
        other != destination,
    ensures
        unread_in(messages, destination, read.insert(destination, mark)) == 0,
        unread_in(messages, other, read.insert(destination, mark)) == unread_in(
            messages,
            other,
            read,
        ),
{
    let marked = read.insert(destination, mark);
    lemma_nothing_unread(messages, destination, marked);
    let with_mark = |message: MessageView| is_unread(message, other, marked);
    let without = |message: MessageView| is_unread(message, other, read);
    assert(with_mark =~= without);
}

/// A message that comes in counts as unread until the conversation is marked again.
pub proof fn law_a_new_message_is_unread(
    messages: Seq<MessageView>,
    message: MessageView,
    read: Map<Seq<char>, i64>,
)
    requires
        !message.outbound,
        read.contains_key(message.destination_hash@) ==> message.id
            > read[message.destination_hash@],
    ensures
        unread_in(messages.push(message), message.destination_hash@, read) == unread_in(
            messages,
            message.destination_hash@,
            read,
        ) + 1,
{
    reveal(Seq::filter);
    assert(messages.push(message).drop_last() =~= messages);
    assert(messages.push(message).last() == message);
}

/// Every conversation is listed: the last message of it is among the messages.
pub proof fn law_every_conversation_is_listed(messages: Seq<MessageView>, m: int)
    requires
        forall|i: int, j: int| 0 <= i < j < messages.len() ==> messages[i].id != messages[j].id,
        0 <= m < messages.len(),
    ensures
        exists|l: int|
            is_latest(messages, l) && (#[trigger] messages[l]).destination_hash@
                == messages[m].destination_hash@ && messages[m].id <= messages[l].id,
{
    lemma_latest_in(messages, m, messages.len() as int);
    let l = choose|l: int|
        is_latest_in(messages, l, messages.len() as int) && (#[trigger] messages[l]).destination_hash@
            == messages[m].destination_hash@ && messages[m].id <= messages[l].id;
    assert(is_latest(messages, l));
}

spec fn is_latest_in(messages: Seq<MessageView>, i: int, n: int) -> bool {
    &&& 0 <= i < messages.len()
    &&& forall|j: int|
        0 <= j < n && (#[trigger] messages[j]).destination_hash@ == messages[i].destination_hash@
            && j != i ==> messages[j].id < messages[i].id
}

proof fn lemma_latest_in(messages: Seq<MessageView>, m: int, n: int)
    requires
        forall|i: int, j: int| 0 <= i < j < messages.len() ==> messages[i].id != messages[j].id,
        0 <= m < messages.len(),
        0 <= n <= messages.len(),
    ensures
        exists|l: int|
            is_latest_in(messages, l, n) && (#[trigger] messages[l]).destination_hash@
                == messages[m].destination_hash@ && messages[m].id <= messages[l].id,
    decreases n,
{
    if n == 0 {
        assert(is_latest_in(messages, m, 0));
        assert(messages[m].destination_hash@ == messages[m].destination_hash@);
    } else {
        lemma_latest_in(messages, m, n - 1);
        let l = choose|l: int|
            is_latest_in(messages, l, n - 1) && (#[trigger] messages[l]).destination_hash@
                == messages[m].destination_hash@ && messages[m].id <= messages[l].id;
        let k = n - 1;
        if messages[k].destination_hash@ == messages[l].destination_hash@ && k != l
            && messages[k].id > messages[l].id {
            assert(is_latest_in(messages, k, n));
            assert(messages[k].destination_hash@ == messages[m].destination_hash@);
        } else {
            if k != l {
                assert(messages[k].id != messages[l].id);
            }
            assert(is_latest_in(messages, l, n));
            assert(messages[l].destination_hash@ == messages[m].destination_hash@);
        }
    }
}

} // verus!
