//! What is stored, and the rules on what is kept and for how long.
use vstd::prelude::*;

use crate::browser::text_view;
use crate::digest::{full_hash, sha256_of};
use crate::hexadecimal::{encode_hex, hex_text};
use crate::models::{DirectoryEntry, MessageView};
use crate::text::same_text;

verus! {

/// The version of the tables that this library writes.
pub const SCHEMA_VERSION: i64 = 7;

/// What is done with a database when it is opened.
#[derive(Debug, Clone, Copy, PartialEq, Eq, Structural)]
pub enum SchemaStep {
    /// It has the tables of this version.
    Keep,
    /// Its tables are older. The keys of rooms that older versions stored are cleared.
    Upgrade,
    /// It comes from a newer version and is left alone.
    Refuse,
}

/// What is done with a database of a version: its own is kept, an older one upgraded,
/// and a newer one refused.
pub open spec fn step_for(version: i64) -> SchemaStep {
    if version == SCHEMA_VERSION {
        SchemaStep::Keep
    } else if version < SCHEMA_VERSION {
        SchemaStep::Upgrade
    } else {
        SchemaStep::Refuse
    }
}

/// Decides what is done with a database of a version.
pub fn schema_step(version: i64) -> (r: SchemaStep)
    ensures
        r == step_for(version),
        r == if version == SCHEMA_VERSION {
            SchemaStep::Keep
        } else if version < SCHEMA_VERSION {
            SchemaStep::Upgrade
        } else {
            SchemaStep::Refuse
        },
{
    if version == SCHEMA_VERSION {
        SchemaStep::Keep
    } else if version < SCHEMA_VERSION {
        SchemaStep::Upgrade
    } else {
        SchemaStep::Refuse
    }
}

/// How many messages of a room are kept.
pub const RRC_HISTORY_PER_ROOM: usize = 500;

/// A message to be stored.
#[derive(Debug, Clone)]
pub struct NewMessage {
    pub destination_hash: String,
    pub source_hash: String,
    pub title: String,
    pub content: String,
    pub timestamp: i64,
    pub outbound: bool,
    pub state: String,
    pub delivery_method: String,
    pub attempts: u32,
    pub next_attempt: i64,
    pub last_error: Option<String>,
    pub message_hash: Option<String>,
}

/// A message that waits to be sent.
#[derive(Clone, Debug, Eq, PartialEq)]
pub struct PendingMessage {
    pub id: i64,
    pub destination_hash: String,
    pub title: String,
    pub content: String,
    pub delivery_method: String,
    pub propagation_node: Option<String>,
    pub attempts: u32,
    pub next_attempt: i64,
}

/// A chat hub to connect to again, with its rooms and their keys.
#[derive(Clone, Debug, Eq, PartialEq)]
pub struct SavedRrcHub {
    pub destination_hash: String,
    pub nick: Option<String>,
    pub rooms: Vec<(String, Option<String>)>,
}

/// Whether a stored message is seen as what it is.
pub open spec fn is_seen_as(id: i64, message: NewMessage, view: MessageView) -> bool {
    &&& view.id == id
    &&& view.destination_hash@ == message.destination_hash@
    &&& view.source_hash@ == message.source_hash@
    &&& view.title@ == message.title@
    &&& view.content@ == message.content@
    &&& view.timestamp == message.timestamp
    &&& view.outbound == message.outbound
    &&& view.state@ == message.state@
    &&& view.delivery_method@ == message.delivery_method@
    &&& view.attempts == message.attempts
    &&& text_view(view.last_error) == text_view(message.last_error)
}

/// A stored message as the frontends see it.
pub fn stored_message(id: i64, message: NewMessage) -> (r: MessageView)
    ensures
        r.id == id,
        r.destination_hash == message.destination_hash,
        r.source_hash == message.source_hash,
        r.title == message.title,
        r.content == message.content,
        r.timestamp == message.timestamp,
        r.outbound == message.outbound,
        r.state == message.state,
        r.delivery_method == message.delivery_method,
        r.attempts == message.attempts,
        r.last_error == message.last_error,
        is_seen_as(id, message, r),
{
    MessageView {
        id,
        destination_hash: message.destination_hash,
        source_hash: message.source_hash,
        title: message.title,
        content: message.content,
        timestamp: message.timestamp,
        outbound: message.outbound,
        state: message.state,
        delivery_method: message.delivery_method,
        attempts: message.attempts,
        last_error: message.last_error,
    }
}

/// What is stored beside the bytes of a page.
#[derive(Debug)]
pub struct CacheEntry {
    pub content_hash: String,
    pub expires_at: i64,
    pub stored_at: i64,
}

/// The sum, held at the largest number there is.
pub open spec fn saturating_sum(a: int, b: int) -> int {
    if a + b > i64::MAX {
        i64::MAX as int
    } else {
        a + b
    }
}

/// `now` and a number of seconds, held at the end of time.
pub open spec fn some_time_later(now: i64, seconds: u64) -> int {
    saturating_sum(now as int, saturating_sum(0, seconds as int))
}

pub fn later(now: i64, seconds: u64) -> (r: i64)
    ensures
        r == some_time_later(now, seconds),
{
    let more: i64 = if seconds > 9223372036854775807u64 {
        9223372036854775807i64
    } else {
        seconds as i64
    };
    if now > 9223372036854775807i64 - more {
        9223372036854775807i64
    } else {
        now + more
    }
}

/// Whether a page is kept, and if it is, until when and by which digest of its bytes.
pub open spec fn is_cached_as(
    body: Seq<u8>,
    cache_seconds: u64,
    now: i64,
    entry: Option<CacheEntry>,
) -> bool {
    match entry {
        None => cache_seconds == 0,
        Some(entry) => {
            &&& cache_seconds > 0
            &&& entry.content_hash@ == hex_text(sha256_of(body))
            &&& entry.stored_at == now
            &&& entry.expires_at == some_time_later(now, cache_seconds)
        },
    }
}

/// How a page is kept. A page that says zero seconds is not.
pub fn cache_entry(body: &[u8], cache_seconds: u64, now: i64) -> (r: Option<CacheEntry>)
    ensures
        r.is_some() == (cache_seconds > 0),
        r.is_some() ==> r.unwrap().content_hash@ == hex_text(sha256_of(body@)) && r.unwrap().stored_at
            == now && r.unwrap().expires_at == some_time_later(now, cache_seconds),
        is_cached_as(body@, cache_seconds, now, r),
{
    if cache_seconds == 0 {
        return None;
    }
    let hash = full_hash(body);
    Some(
        CacheEntry {
            content_hash: encode_hex(&hash),
            expires_at: later(now, cache_seconds),
            stored_at: now,
        },
    )
}

/// Whether a kept page may still be shown.
pub open spec fn may_be_shown(expires_at: Option<i64>, now: i64) -> bool {
    expires_at.is_none() || expires_at.unwrap() > now
}

pub fn is_fresh(expires_at: Option<i64>, now: i64) -> (r: bool)
    ensures
        r == may_be_shown(expires_at, now),
{
    match expires_at {
        None => true,
        Some(end) => end > now,
    }
}

/// A time in milliseconds as it is stored.
pub open spec fn stored_time(timestamp_ms: u64) -> i64 {
    if timestamp_ms > i64::MAX {
        i64::MAX
    } else {
        timestamp_ms as i64
    }
}

/// A stored time as it is shown.
pub open spec fn loaded_time(timestamp: i64) -> u64 {
    if timestamp < 0 {
        0
    } else {
        timestamp as u64
    }
}

pub fn store_time(timestamp_ms: u64) -> (r: i64)
    ensures
        r == stored_time(timestamp_ms),
{
    if timestamp_ms > 9223372036854775807u64 {
        9223372036854775807i64
    } else {
        timestamp_ms as i64
    }
}

pub fn load_time(timestamp: i64) -> (r: u64)
    ensures
        r == loaded_time(timestamp),
{
    if timestamp < 0 {
        0
    } else {
        timestamp as u64
    }
}

/// Times are read back as they were stored, up to the largest that can be.
pub proof fn law_times_are_read_back(timestamp_ms: u64)
    requires
        timestamp_ms <= i64::MAX,
    ensures
        loaded_time(stored_time(timestamp_ms)) == timestamp_ms,
{
}

/// A page is shown from the cache for exactly the seconds it asked for.
pub proof fn law_cache_lasts_as_asked(stored: i64, cache_seconds: u64, now: i64)
    requires
        stored + cache_seconds <= i64::MAX,
        cache_seconds <= i64::MAX,
    ensures
        may_be_shown(Some(some_time_later(stored, cache_seconds) as i64), now) <==> now - stored
            < cache_seconds,
{
}

/// A destination as it is stored: its entry and the data it announced.
#[derive(Debug)]
pub struct DirectoryRecord {
    pub entry: DirectoryEntry,
    pub app_data: Option<Vec<u8>>,
}

/// A destination after an announce. A name that is missing from the announce stays,
/// and so do the data and whether the destination is of use, where the announce
/// brings no data.
pub open spec fn is_merged(
    known: Option<DirectoryRecord>,
    entry: DirectoryEntry,
    app_data: Option<Vec<u8>>,
    after: DirectoryRecord,
) -> bool {
    match known {
        None => after.entry == entry && after.app_data == app_data,
        Some(known) => {
            &&& after.entry == (DirectoryEntry {
                display_name: if entry.display_name.is_some() {
                    entry.display_name
                } else {
                    known.entry.display_name
                },
                active: if app_data.is_some() {
                    entry.active
                } else {
                    known.entry.active
                },
                ..entry
            })
            &&& after.app_data == if app_data.is_some() {
                app_data
            } else {
                known.app_data
            }
        },
    }
}

/// Merges an announce into what is known of its destination.
pub fn upsert_directory(
    known: Option<DirectoryRecord>,
    entry: DirectoryEntry,
    app_data: Option<Vec<u8>>,
) -> (r: DirectoryRecord)
    ensures
        is_merged(known, entry, app_data, r),
{
    match known {
        None => DirectoryRecord { entry, app_data },
        Some(known) => {
            let active = if app_data.is_some() {
                entry.active
            } else {
                known.entry.active
            };
            let display_name = match entry.display_name {
                Some(name) => Some(name),
                None => known.entry.display_name,
            };
            let data = match app_data {
                Some(data) => Some(data),
                None => known.app_data,
            };
            DirectoryRecord {
                entry: DirectoryEntry {
                    destination_hash: entry.destination_hash,
                    identity_hash: entry.identity_hash,
                    delivery_hash: entry.delivery_hash,
                    kind: entry.kind,
                    display_name,
                    hops: entry.hops,
                    last_seen: entry.last_seen,
                    active,
                },
                app_data: data,
            }
        },
    }
}

/// Whether messages can be left with a destination.
pub open spec fn is_active_node(entry: DirectoryEntry) -> bool {
    entry.kind@ == "propagation"@ && entry.active
}

/// Whether `a` is a better propagation node than `b`: nearer, or as near and heard
/// of later.
pub open spec fn is_better(a: DirectoryEntry, b: DirectoryEntry) -> bool {
    a.hops < b.hops || (a.hops == b.hops && a.last_seen > b.last_seen)
}

/// The place of the best propagation node; of equal ones the first.
pub open spec fn is_best(entries: Seq<DirectoryEntry>, i: int) -> bool {
    &&& 0 <= i < entries.len()
    &&& is_active_node(entries[i])
    &&& forall|j: int|
        0 <= j < entries.len() && is_active_node(#[trigger] entries[j]) ==> !is_better(
            entries[j],
            entries[i],
        ) && (j < i ==> is_better(entries[i], entries[j]))
}

/// The nearest propagation node that takes messages.
pub fn best_propagation_node(entries: &Vec<DirectoryEntry>) -> (r: Option<String>)
    ensures
        r.is_some() == exists|i: int|
            0 <= i < entries@.len() && is_active_node(#[trigger] entries@[i]),
        r.is_some() ==> exists|i: int|
            is_best(entries@, i) && r.unwrap()@ == (#[trigger] entries@[i]).destination_hash@,
{
    let mut best: Option<usize> = None;
    for i in 0..entries.len()
        invariant
            best.is_none() ==> forall|j: int|
                0 <= j < i ==> !is_active_node(#[trigger] entries@[j]),
            best.is_some() ==> best.unwrap() < i && is_active_node(
                entries@[best.unwrap() as int],
            ) && forall|j: int|
                0 <= j < i && is_active_node(#[trigger] entries@[j]) ==> !is_better(
                    entries@[j],
                    entries@[best.unwrap() as int],
                ) && (j < best.unwrap() ==> is_better(entries@[best.unwrap() as int], entries@[j])),
    {
        let entry = &entries[i];
        if same_text(entry.kind.as_str(), "propagation") && entry.active {
            let better = match best {
                None => true,
                Some(place) => entry.hops < entries[place].hops || (entry.hops
                    == entries[place].hops && entry.last_seen > entries[place].last_seen),
            };
            if better {
                best = Some(i);
            }
        }
    }
    match best {
        Some(place) => {
            assert(is_best(entries@, place as int));
            assert(is_active_node(entries@[place as int]));
            Some(entries[place].destination_hash.clone())
        },
        None => None,
    }
}

/// A message of the queue, as far as its turn depends on it.
#[derive(Debug)]
pub struct QueueRow {
    pub id: i64,
    pub outbound: bool,
    pub state: String,
    pub next_attempt: i64,
    pub last_error: Option<String>,
}

/// Whether a message is to be sent now.
pub open spec fn is_due(row: QueueRow, now: i64) -> bool {
    &&& row.outbound
    &&& row.state@ == "queued"@ || row.state@ == "retrying"@ || row.state@ == "sending"@
    &&& row.next_attempt <= now
}

/// Whether the turn of `a` is before that of `b`.
pub open spec fn is_sooner(a: QueueRow, b: QueueRow) -> bool {
    a.next_attempt < b.next_attempt || (a.next_attempt == b.next_attempt && a.id < b.id)
}

fn due_row(row: &QueueRow, now: i64) -> (r: bool)
    ensures
        r == is_due(*row, now),
{
    row.outbound && row.next_attempt <= now && (same_text(row.state.as_str(), "queued")
        || same_text(row.state.as_str(), "retrying") || same_text(row.state.as_str(), "sending"))
}

/// The message whose turn it is, if one is to be sent now. No two rows have the same
/// identifier.
pub fn next_pending(rows: &Vec<QueueRow>, now: i64) -> (r: Option<usize>)
    requires
        forall|i: int, j: int| 0 <= i < j < rows@.len() ==> rows@[i].id != rows@[j].id,
    ensures
        r.is_some() == exists|i: int| 0 <= i < rows@.len() && is_due(#[trigger] rows@[i], now),
        r.is_some() ==> r.unwrap() < rows@.len() && is_due(rows@[r.unwrap() as int], now)
            && forall|j: int|
            0 <= j < rows@.len() && is_due(#[trigger] rows@[j], now) && j != r.unwrap()
                ==> is_sooner(rows@[r.unwrap() as int], rows@[j]),
{
    let mut first: Option<usize> = None;
    for i in 0..rows.len()
        invariant
            forall|a: int, b: int| 0 <= a < b < rows@.len() ==> rows@[a].id != rows@[b].id,
            first.is_none() ==> forall|j: int| 0 <= j < i ==> !is_due(#[trigger] rows@[j], now),
            first.is_some() ==> first.unwrap() < i && is_due(rows@[first.unwrap() as int], now)
                && forall|j: int|
                0 <= j < i && is_due(#[trigger] rows@[j], now) && j != first.unwrap()
                    ==> is_sooner(rows@[first.unwrap() as int], rows@[j]),
    {
        if due_row(&rows[i], now) {
            let sooner = match first {
                None => true,
                Some(place) => rows[i].next_attempt < rows[place].next_attempt || (
                rows[i].next_attempt == rows[place].next_attempt && rows[i].id < rows[place].id),
            };
            proof {
                if first.is_some() {
                    assert(rows@[first.unwrap() as int].id != rows@[i as int].id);
                }
            }
            if sooner {
                first = Some(i);
            }
        }
    }
    first
}

/// Whether a message was under way when the application was left.
pub open spec fn is_interrupted(row: QueueRow) -> bool {
    row.outbound && row.state@ == "sending"@
}

/// A message after the application was started again: one that was under way is due
/// at once, and says why; the others stay as they are.
pub open spec fn is_recovered(row: QueueRow, now: i64, after: QueueRow) -> bool {
    if is_interrupted(row) {
        &&& after.state@ == "retrying"@
        &&& text_view(after.last_error) == Some("delivery interrupted by application restart"@)
        &&& after == (QueueRow {
            state: after.state,
            next_attempt: now,
            last_error: after.last_error,
            ..row
        })
    } else {
        after == row
    }
}

/// Makes a message that was under way when the application was left due again.
pub fn recover_interrupted(row: QueueRow, now: i64) -> (r: QueueRow)
    ensures
        is_recovered(row, now, r),
{
    if row.outbound && same_text(row.state.as_str(), "sending") {
        QueueRow {
            id: row.id,
            outbound: row.outbound,
            state: "retrying".to_string(),
            next_attempt: now,
            last_error: Some("delivery interrupted by application restart".to_string()),
        }
    } else {
        row
    }
}

/// A row of a list, as far as its place among the others depends on it: its
/// identifier and its time.
#[derive(Debug, Clone, Copy)]
pub struct HistoryRow {
    pub id: i64,
    pub timestamp: i64,
}

/// Whether `a` is newer than `b`.
pub open spec fn is_newer(a: HistoryRow, b: HistoryRow) -> bool {
    a.timestamp > b.timestamp || (a.timestamp == b.timestamp && a.id > b.id)
}

/// How many of the first `n` rows are newer than another.
pub open spec fn newer_than(rows: Seq<HistoryRow>, row: HistoryRow, n: int) -> nat
    decreases n,
{
    if n <= 0 {
        0
    } else {
        newer_than(rows, row, n - 1) + if is_newer(rows[n - 1], row) {
            1nat
        } else {
            0nat
        }
    }
}

/// Whether a row of a list is kept: unless as many as the limit are newer.
pub fn is_retained(rows: &Vec<HistoryRow>, row: HistoryRow, limit: usize) -> (r: bool)
    ensures
        r == (newer_than(rows@, row, rows@.len() as int) < limit),
{
    let mut newer: usize = 0;
    for i in 0..rows.len()
        invariant
            newer == newer_than(rows@, row, i as int),
            newer <= i,
    {
        let other = rows[i];
        if other.timestamp > row.timestamp || (other.timestamp == row.timestamp && other.id
            > row.id) {
            newer = newer + 1;
        }
    }
    newer < limit
}

/// Whether a message of a room is kept: unless five hundred are newer.
pub fn is_kept(rows: &Vec<HistoryRow>, row: HistoryRow) -> (r: bool)
    ensures
        r == (newer_than(rows@, row, rows@.len() as int) < RRC_HISTORY_PER_ROOM),
{
    is_retained(rows, row, RRC_HISTORY_PER_ROOM)
}

/// The name or nick of a hub after it was saved anew: a new one, or the one it had.
pub fn keep_known(known: Option<String>, given: Option<String>) -> (r: Option<String>)
    ensures
        r == if given.is_some() {
            given
        } else {
            known
        },
{
    match given {
        Some(text) => Some(text),
        None => known,
    }
}

/// A message that was delivered, left with a node or given up is never due.
pub proof fn law_finished_messages_are_not_due(row: QueueRow, now: i64)
    requires
        row.state@ == "delivered"@ || row.state@ == "stored_on_node"@ || row.state@ == "failed"@,
    ensures
        !is_due(row, now),
{
    reveal_strlit("delivered");
    reveal_strlit("stored_on_node");
    reveal_strlit("failed");
    reveal_strlit("queued");
    reveal_strlit("retrying");
    reveal_strlit("sending");
    assert("delivered"@[0] == 'd');
    assert("stored_on_node"@[1] == 't');
    assert("failed"@[0] == 'f');
    assert("queued"@[0] == 'q');
    assert("retrying"@[0] == 'r');
    assert("sending"@[1] == 'e');
    assert("sending"@[0] == 's');
}

/// A message that was under way when the application was left is sent again: it is
/// due from the start on.
pub proof fn law_interrupted_messages_are_due(row: QueueRow, start: i64, after: QueueRow, now: i64)
    requires
        is_interrupted(row),
        is_recovered(row, start, after),
        start <= now,
    ensures
        is_due(after, now),
        after.id == row.id,
{
}

/// A known name is never lost by an announce that gives none.
pub proof fn law_known_names_stay(
    known: DirectoryRecord,
    entry: DirectoryEntry,
    app_data: Option<Vec<u8>>,
    after: DirectoryRecord,
)
    requires
        is_merged(Some(known), entry, app_data, after),
        known.entry.display_name.is_some(),
    ensures
        after.entry.display_name.is_some(),
        entry.display_name.is_none() ==> after.entry.display_name == known.entry.display_name,
        app_data.is_none() ==> after.app_data == known.app_data,
{
}

} // verus!
