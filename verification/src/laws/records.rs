//! Laws of what is kept: the directory, the messages of a conversation, what is unread
//! and what is thrown away.
use vstd::prelude::*;
use vstd::utf8::{decode_utf8, valid_utf8};

use crate::announce::{
    announced_active, announced_name, is_entry_for, kind_named, kind_text, Announce, DirectoryKind,
};
use crate::browser::text_view;
use crate::db::{
    is_active_node, is_best, is_cached_as, is_merged, is_newer, loaded_time, may_be_shown,
    newer_than, some_time_later, stored_time, CacheEntry, DirectoryRecord, HistoryRow,
};
use crate::digest::sha256_of;
use crate::hexadecimal::hex_text;
use crate::models::{ConversationSummary, DirectoryEntry, MessageView, RrcMessageView};
use crate::network::has_part;
use crate::queries::{
    are_first, are_last, awaits_delivery, directory_rows, has_pending, is_asked_for, is_before,
    is_found, is_latest, is_unread, message_rows, summarises, unread_in,
};
use crate::retention::{among_newest, page_kept, CachedPage};
use crate::text::clean_name;

verus! {

/// The first announce of a destination is recorded as it is. A later one brings the
/// distance and the time up to date in any case, and what it does not say stays as it
/// was known.
pub proof fn law_announces_bring_the_directory_up_to_date(
    known: DirectoryRecord,
    entry: DirectoryEntry,
    data: Vec<u8>,
    first: DirectoryRecord,
    silent: DirectoryRecord,
    telling: DirectoryRecord,
)
    requires
        is_merged(None, entry, Some(data), first),
        is_merged(Some(known), entry, None, silent),
        is_merged(Some(known), entry, Some(data), telling),
    ensures
        first.entry == entry && first.app_data == Some(data),
        silent.entry.hops == entry.hops && telling.entry.hops == entry.hops,
        silent.entry.last_seen == entry.last_seen && telling.entry.last_seen == entry.last_seen,
        silent.entry.destination_hash == entry.destination_hash,
        silent.entry.kind == entry.kind,
        silent.entry.active == known.entry.active,
        telling.entry.active == entry.active,
        silent.app_data == known.app_data,
        telling.app_data == Some(data),
        entry.display_name.is_some() ==> silent.entry.display_name == entry.display_name
            && telling.entry.display_name == entry.display_name,
        entry.display_name.is_none() ==> silent.entry.display_name == known.entry.display_name
            && telling.entry.display_name == known.entry.display_name,
{
}

/// The propagation node that is chosen is one, takes messages, and no other that does
/// is nearer; of those as near as it none was seen later.
pub proof fn law_the_nearest_node_is_chosen(entries: Seq<DirectoryEntry>, i: int, j: int)
    requires
        is_best(entries, i),
        0 <= j < entries.len(),
        entries[j].kind@ == "propagation"@,
        entries[j].active,
    ensures
        entries[i].kind@ == "propagation"@,
        entries[i].active,
        entries[i].hops <= entries[j].hops,
        entries[i].hops == entries[j].hops ==> entries[i].last_seen >= entries[j].last_seen,
{
    assert(is_active_node(entries[j]));
}

/// What is announced goes into the directory under its kind, each kind under a word of
/// its own; only propagation nodes can be out of use, and chat hubs tell no name.
pub proof fn law_kinds_are_told_apart(a: DirectoryKind, b: DirectoryKind, data: Option<Seq<u8>>)
    ensures
        kind_text(a) == kind_text(b) ==> a == b,
        kind_text(DirectoryKind::Propagation) == "propagation"@,
        a != DirectoryKind::Propagation ==> announced_active(a, data),
        !announced_active(DirectoryKind::Propagation, None),
        announced_name(DirectoryKind::Rrc, data).is_none(),
        announced_name(a, None).is_none(),
        data.is_some() && valid_utf8(data.unwrap()) ==> announced_name(DirectoryKind::Node, data)
            == Some(clean_name(decode_utf8(data.unwrap()), 128)),
        data.is_some() && !valid_utf8(data.unwrap()) ==> announced_name(
            DirectoryKind::Node,
            data,
        ).is_none(),
{
    reveal_strlit("peer");
    reveal_strlit("node");
    reveal_strlit("propagation");
    reveal_strlit("rrc");
    assert("peer"@[0] == 'p' && "peer"@.len() == 4);
    assert("node"@[0] == 'n');
    assert("propagation"@[0] == 'p' && "propagation"@.len() == 11);
    assert("rrc"@[0] == 'r');
}

/// Times are kept as they are, up to the last one that can be kept.
pub proof fn law_times_are_kept(timestamp_ms: u64, seconds: u64, now: i64)
    requires
        now >= 0,
    ensures
        timestamp_ms <= i64::MAX ==> stored_time(timestamp_ms) == timestamp_ms,
        stored_time(timestamp_ms) >= 0,
        loaded_time(stored_time(timestamp_ms)) <= timestamp_ms,
        now + seconds <= i64::MAX ==> some_time_later(now, seconds) == now + seconds,
        now + seconds > i64::MAX ==> some_time_later(now, seconds) == i64::MAX,
        may_be_shown(None, now),
        !may_be_shown(Some(now), now),
{
}

/// Messages of a conversation come in the order of their time, and those of one time
/// in the order in which they were stored.
pub proof fn law_messages_come_in_order(
    messages: Seq<MessageView>,
    asked: spec_fn(int) -> bool,
    limit: nat,
    places: Seq<usize>,
    i: int,
    j: int,
)
    requires
        are_first(message_rows(messages), asked, limit, places) || are_last(
            message_rows(messages),
            asked,
            limit,
            places,
        ),
        0 <= i < j < places.len(),
    ensures
        asked(places[i] as int),
        messages[places[i] as int].timestamp <= messages[places[j] as int].timestamp,
        messages[places[i] as int].timestamp == messages[places[j] as int].timestamp
            ==> messages[places[i] as int].id <= messages[places[j] as int].id,
        places[i] != places[j],
{
    assert(places.contains(places[i]));
    let rows = message_rows(messages);
    assert(is_before(rows, places[i] as int, places[j] as int));
}

/// Where not all messages fit, the first of them are shown in a page, and the last of
/// them where a conversation is opened: what is left out is later than all of the
/// former and earlier than all of the latter.
pub proof fn law_what_is_left_out(
    messages: Seq<MessageView>,
    asked: spec_fn(int) -> bool,
    limit: nat,
    first: Seq<usize>,
    last: Seq<usize>,
    p: usize,
    i: int,
)
    requires
        limit > 0,
        are_first(message_rows(messages), asked, limit, first),
        are_last(message_rows(messages), asked, limit, last),
        p < messages.len(),
        asked(p as int),
    ensures
        !first.contains(p) && 0 <= i < first.len() ==> messages[first[i] as int].timestamp
            <= messages[p as int].timestamp,
        !last.contains(p) && 0 <= i < last.len() ==> messages[p as int].timestamp
            <= messages[last[i] as int].timestamp,
        !first.contains(p) ==> first.len() == limit,
        !last.contains(p) ==> last.len() == limit,
{
    let rows = message_rows(messages);
    assert(asked(p as int));
    if !first.contains(p) && 0 <= i < first.len() {
        assert(is_before(rows, first.last() as int, p as int));
        if i < first.len() - 1 {
            assert(is_before(rows, first[i] as int, first[first.len() - 1] as int));
        }
    }
    if !last.contains(p) && 0 <= i < last.len() {
        assert(is_before(rows, p as int, last[0] as int));
        if i > 0 {
            assert(is_before(rows, last[0] as int, last[i] as int));
        }
    }
}

/// A search finds a message by any piece of its title or its content, in its own
/// conversation and in no other.
pub proof fn law_searches_find_what_is_written(
    message: MessageView,
    before: Seq<char>,
    words: Seq<char>,
    after: Seq<char>,
    other: Seq<char>,
)
    ensures
        message.content@ == before + words + after ==> is_found(
            message,
            message.destination_hash@,
            words,
        ),
        message.title@ == before + words + after ==> is_found(
            message,
            message.destination_hash@,
            words,
        ),
        other != message.destination_hash@ ==> !is_found(message, other, words),
        words.len() > message.title@.len() && words.len() > message.content@.len() ==> !is_found(
            message,
            message.destination_hash@,
            words,
        ),
{
    let s = before + words + after;
    assert(s.subrange(before.len() as int, before.len() as int + words.len()) =~= words);
    assert(has_part(s, words));
}

/// The lines of a chat are asked for by hub and room: those of the room, or those of
/// all rooms where none is named, and none of another hub.
pub proof fn law_chats_are_asked_for_by_room(
    message: RrcMessageView,
    hub: Seq<char>,
    room: Seq<char>,
)
    ensures
        message.hub_hash@ != hub ==> !is_asked_for(message, hub, Some(room)) && !is_asked_for(
            message,
            hub,
            None,
        ),
        is_asked_for(message, message.hub_hash@, None),
        is_asked_for(message, message.hub_hash@, Some(room)) <==> text_view(message.room)
            == Some(room),
{
}

/// A conversation cannot be cleared while one of its messages is still to be sent, and
/// only then: neither a message that is done, nor one that arrived, nor one of another
/// conversation stands in the way.
pub proof fn law_only_unsent_messages_hold_a_conversation(
    messages: Seq<MessageView>,
    message: MessageView,
    destination: Seq<char>,
)
    ensures
        has_pending(messages.push(message), destination) <==> has_pending(messages, destination)
            || (message.destination_hash@ == destination && awaits_delivery(message)),
        !has_pending(Seq::empty(), destination),
        !message.outbound ==> !awaits_delivery(message),
        message.state@ == "delivered"@ || message.state@ == "failed"@ || message.state@
            == "stored_on_node"@ ==> !awaits_delivery(message),
        message.outbound && (message.state@ == "queued"@ || message.state@ == "retrying"@
            || message.state@ == "sending"@) ==> awaits_delivery(message),
{
    reveal_strlit("queued");
    reveal_strlit("retrying");
    reveal_strlit("sending");
    reveal_strlit("delivered");
    reveal_strlit("failed");
    reveal_strlit("stored_on_node");
    assert("queued"@[0] == 'q' && "retrying"@[0] == 'r' && "sending"@[1] == 'e');
    assert("delivered"@[0] == 'd' && "failed"@[0] == 'f' && "stored_on_node"@[1] == 't');
    assert("sending"@[0] == 's' && "stored_on_node"@[0] == 's');
    let all = messages.push(message);
    if has_pending(messages, destination) {
        let i = choose|i: int|
            0 <= i < messages.len() && (#[trigger] messages[i]).destination_hash@ == destination
                && awaits_delivery(messages[i]);
        assert(all[i] == messages[i]);
    }
    if message.destination_hash@ == destination && awaits_delivery(message) {
        assert(all[messages.len() as int] == message);
    }
    if has_pending(all, destination) {
        let i = choose|i: int|
            0 <= i < all.len() && (#[trigger] all[i]).destination_hash@ == destination
                && awaits_delivery(all[i]);
        if i < messages.len() {
            assert(all[i] == messages[i]);
        }
    }
}

/// What was sent is never unread, nor is what came before the mark of what was read;
/// what came behind it, or where there is no mark, is.
pub proof fn law_unread_is_what_came_since(
    message: MessageView,
    read: Map<Seq<char>, i64>,
)
    ensures
        message.outbound ==> !is_unread(message, message.destination_hash@, read),
        !message.outbound && !read.contains_key(message.destination_hash@) ==> is_unread(
            message,
            message.destination_hash@,
            read,
        ),
        !message.outbound && read.contains_key(message.destination_hash@) ==> (is_unread(
            message,
            message.destination_hash@,
            read,
        ) <==> message.id > read[message.destination_hash@]),
{
}

/// A conversation is listed with its last message: what that says, when it came, and
/// how many are unread.
pub proof fn law_conversations_show_their_last_message(
    messages: Seq<MessageView>,
    m: int,
    i: int,
    names: Map<Seq<char>, String>,
    read: Map<Seq<char>, i64>,
    summary: ConversationSummary,
)
    requires
        is_latest(messages, m),
        summarises(messages, messages[m], names, read, summary),
        0 <= i < messages.len(),
        messages[i].destination_hash@ == summary.destination_hash@,
    ensures
        messages[i].id <= messages[m].id,
        summary.last_message.is_some(),
        summary.last_message.unwrap()@ == messages[m].content@,
        summary.last_activity == Some(messages[m].timestamp),
        summary.display_name.is_some() <==> names.contains_key(summary.destination_hash@),
        unread_in(messages, summary.destination_hash@, read) < 4294967296 ==> summary.unread
            == unread_in(messages, summary.destination_hash@, read),
{
}

proof fn lemma_newer_is_less(rows: Seq<HistoryRow>, a: HistoryRow, b: HistoryRow, n: int)
    requires
        is_newer(a, b),
        0 <= n <= rows.len(),
    ensures
        newer_than(rows, a, n) <= newer_than(rows, b, n),
    decreases n,
{
    if n > 0 {
        lemma_newer_is_less(rows, a, b, n - 1);
    }
}

/// What is thrown away is the oldest: where a row is kept, every newer one is.
pub proof fn law_the_oldest_go_first(rows: Seq<HistoryRow>, i: int, j: int, limit: int)
    requires
        0 <= i < rows.len(),
        0 <= j < rows.len(),
        among_newest(rows, i, limit),
        rows[j].timestamp > rows[i].timestamp || (rows[j].timestamp == rows[i].timestamp
            && rows[j].id > rows[i].id),
    ensures
        among_newest(rows, j, limit),
{
    lemma_newer_is_less(rows, rows[j], rows[i], rows.len() as int);
}

/// A page that is alone in the cache is kept where it is no larger than 64 megabytes.
pub proof fn law_a_single_page_is_kept(pages: Seq<CachedPage>, i: int)
    requires
        0 <= i < pages.len(),
        pages.len() == 1,
    ensures
        page_kept(pages, i) <==> pages[i].bytes <= 67108864,
{
    assert(!is_newer(pages[0].row, pages[0].row));
    let rows = crate::retention::page_rows(pages);
    assert(rows[0] == pages[0].row);
    reveal_with_fuel(newer_than, 2);
    reveal_with_fuel(crate::retention::newer_bytes, 2);
    assert(newer_than(rows, rows[i], 1) == 0);
    assert(crate::retention::newer_bytes(pages, pages[i].row, 1) == 0);
}

/// What is announced is recorded: who it is, how far away, when, and under which kind.
pub proof fn law_announces_are_recorded(
    announce: Announce,
    kind: DirectoryKind,
    now: i64,
    entry: DirectoryEntry,
)
    requires
        is_entry_for(announce, kind, now, entry),
    ensures
        entry.destination_hash@ == hex_text(announce.destination_hash@),
        entry.hops == announce.hops,
        entry.last_seen == now,
        entry.kind@ == "propagation"@ <==> kind == DirectoryKind::Propagation,
        is_active_node(entry) ==> kind == DirectoryKind::Propagation,
        kind != DirectoryKind::Propagation ==> entry.active,
        announce.delivery_hash.is_none() ==> entry.delivery_hash.is_none(),
        announce.delivery_hash.is_some() ==> text_view(entry.delivery_hash) == Some(
            hex_text(announce.delivery_hash.unwrap()@),
        ),
{
    law_kinds_are_told_apart(kind, DirectoryKind::Propagation, None);
}

/// The kind of an announce goes by the name that it was made under; under any other
/// name it is none.
pub proof fn law_announces_are_told_apart(
    delivery: Seq<u8>,
    node: Seq<u8>,
    propagation: Seq<u8>,
    hub: Seq<u8>,
    other: Seq<u8>,
)
    requires
        delivery != node && delivery != propagation && delivery != hub,
        node != propagation && node != hub && propagation != hub,
        other != delivery && other != node && other != propagation && other != hub,
    ensures
        kind_named(delivery, delivery, node, propagation, hub) == Some(DirectoryKind::Peer),
        kind_named(node, delivery, node, propagation, hub) == Some(DirectoryKind::Node),
        kind_named(propagation, delivery, node, propagation, hub) == Some(
            DirectoryKind::Propagation,
        ),
        kind_named(hub, delivery, node, propagation, hub) == Some(DirectoryKind::Rrc),
        kind_named(other, delivery, node, propagation, hub).is_none(),
{
}

/// A page is kept for as long as it says and may be shown until then; one that says
/// nothing of time is not kept.
pub proof fn law_pages_are_kept_as_long_as_they_say(
    body: Seq<u8>,
    seconds: u64,
    now: i64,
    entry: Option<CacheEntry>,
    later: i64,
)
    requires
        is_cached_as(body, seconds, now, entry),
        now >= 0,
        now + seconds <= i64::MAX,
    ensures
        entry.is_some() <==> seconds > 0,
        entry.is_some() ==> entry.unwrap().content_hash@ == hex_text(sha256_of(body)),
        entry.is_some() ==> (may_be_shown(Some(entry.unwrap().expires_at), later) <==> later
            - now < seconds),
{
}

/// The destinations that were seen last come first.
pub proof fn law_recent_destinations_come_first(
    entries: Seq<DirectoryEntry>,
    limit: nat,
    places: Seq<usize>,
    i: int,
    j: int,
)
    requires
        are_last(directory_rows(entries), |p: int| true, limit, places.reverse()),
        0 <= i < j < places.len(),
    ensures
        entries[places[i] as int].last_seen >= entries[places[j] as int].last_seen,
        places[i] != places[j],
{
    let back = places.reverse();
    let n = places.len() as int;
    let rows = directory_rows(entries);
    assert(back[n - 1 - j] == places[j]);
    assert(back[n - 1 - i] == places[i]);
    assert(is_before(rows, back[n - 1 - j] as int, back[n - 1 - i] as int));
}

} // verus!
