//! What the store keeps when it grows: of every list the newest rows, up to a
//! limit.
use vstd::prelude::*;

use crate::db::{is_newer, is_retained, newer_than, HistoryRow};
use crate::models::MessageView;
use crate::queries::{awaits_delivery, message_rows, pending_message, rows_of};

verus! {

/// How many messages of a peer are kept.
pub const MESSAGES_PER_PEER: usize = 10000;

/// How many announced destinations are kept.
pub const KNOWN_DESTINATIONS: usize = 4096;

/// How many pages the cache keeps.
pub const CACHED_PAGES: usize = 512;

/// How many bytes of pages the cache keeps: 64 MiB.
pub const CACHED_BYTES: u64 = 67108864;

/// Whether the row at a place is among the newest of its list.
pub open spec fn among_newest(rows: Seq<HistoryRow>, i: int, limit: int) -> bool {
    newer_than(rows, rows[i], rows.len() as int) < limit
}

/// Whether a message of a peer is kept, by all the messages of that peer. One that
/// waits to be sent is kept in any case.
pub fn is_message_kept(messages: &Vec<MessageView>, place: usize) -> (r: bool)
    requires
        place < messages@.len(),
    ensures
        r == (awaits_delivery(messages@[place as int]) || among_newest(
            message_rows(messages@),
            place as int,
            MESSAGES_PER_PEER as int,
        )),
{
    let rows = rows_of(messages);
    pending_message(&messages[place]) || is_retained(&rows, rows[place], MESSAGES_PER_PEER)
}

/// Whether an announced destination is kept, by when each was heard of last.
pub fn is_destination_kept(rows: &Vec<HistoryRow>, place: usize) -> (r: bool)
    requires
        place < rows@.len(),
    ensures
        r == among_newest(rows@, place as int, KNOWN_DESTINATIONS as int),
{
    is_retained(rows, rows[place], KNOWN_DESTINATIONS)
}

/// A page of the cache: when it was stored, and how long it is.
#[derive(Debug, Clone, Copy)]
pub struct CachedPage {
    pub row: HistoryRow,
    pub bytes: u64,
}

pub open spec fn page_rows(pages: Seq<CachedPage>) -> Seq<HistoryRow> {
    pages.map_values(|page: CachedPage| page.row)
}

/// How many bytes those of the first `n` pages hold that are newer than another.
pub open spec fn newer_bytes(pages: Seq<CachedPage>, row: HistoryRow, n: int) -> nat
    decreases n,
{
    if n <= 0 {
        0
    } else {
        newer_bytes(pages, row, n - 1) + if is_newer(pages[n - 1].row, row) {
            pages[n - 1].bytes as nat
        } else {
            0nat
        }
    }
}

/// Whether a page stays in the cache: it is among the newest, and together with
/// all newer ones not too long.
pub open spec fn page_kept(pages: Seq<CachedPage>, i: int) -> bool {
    &&& among_newest(page_rows(pages), i, CACHED_PAGES as int)
    &&& newer_bytes(pages, pages[i].row, pages.len() as int) + pages[i].bytes <= CACHED_BYTES
}

pub fn is_page_kept(pages: &Vec<CachedPage>, place: usize) -> (r: bool)
    requires
        place < pages@.len(),
    ensures
        r == page_kept(pages@, place as int),
{
    let page = pages[place];
    let mut rows: Vec<HistoryRow> = Vec::new();
    let mut total: u128 = 0;
    for i in 0..pages.len()
        invariant
            rows@ == page_rows(pages@.take(i as int)),
            total == newer_bytes(pages@, page.row, i as int),
            total <= i * u64::MAX,
    {
        let other = pages[i];
        rows.push(other.row);
        assert(rows@ =~= page_rows(pages@.take(i + 1)));
        if other.row.timestamp > page.row.timestamp || (other.row.timestamp == page.row.timestamp
            && other.row.id > page.row.id) {
            total = total + other.bytes as u128;
        }
    }
    assert(pages@.take(pages@.len() as int) =~= pages@);
    is_retained(&rows, page.row, CACHED_PAGES) && total + page.bytes as u128
        <= CACHED_BYTES as u128
}

/// How many of the first `n` places are kept.
pub open spec fn kept_count(kept: spec_fn(int) -> bool, n: int) -> nat
    decreases n,
{
    if n <= 0 {
        0
    } else {
        kept_count(kept, n - 1) + if kept(n - 1) {
            1nat
        } else {
            0nat
        }
    }
}

/// How many bytes those of the first `n` pages hold that are kept.
pub open spec fn kept_bytes(pages: Seq<CachedPage>, kept: spec_fn(int) -> bool, n: int) -> nat
    decreases n,
{
    if n <= 0 {
        0
    } else {
        kept_bytes(pages, kept, n - 1) + if kept(n - 1) {
            pages[n - 1].bytes as nat
        } else {
            0nat
        }
    }
}

/// No two rows have the same identifier.
pub open spec fn distinct_rows(rows: Seq<HistoryRow>) -> bool {
    forall|i: int, j: int| 0 <= i < j < rows.len() ==> rows[i].id != rows[j].id
}

/// The oldest of the first `n` places that are kept, if any is.
proof fn lemma_oldest(rows: Seq<HistoryRow>, kept: spec_fn(int) -> bool, n: int) -> (r: Option<int>)
    requires
        distinct_rows(rows),
        0 <= n <= rows.len(),
    ensures
        r.is_none() ==> forall|j: int| 0 <= j < n ==> !#[trigger] kept(j),
        r.is_some() ==> 0 <= r.unwrap() < n && kept(r.unwrap()) && forall|j: int|
            0 <= j < n && #[trigger] kept(j) && j != r.unwrap() ==> is_newer(
                rows[j],
                rows[r.unwrap()],
            ),
    decreases n,
{
    if n == 0 {
        None
    } else {
        let before = lemma_oldest(rows, kept, n - 1);
        if !kept(n - 1) {
            before
        } else if before.is_none() {
            Some(n - 1)
        } else {
            let o = before.unwrap();
            assert(rows[o].id != rows[n - 1].id);
            if is_newer(rows[o], rows[n - 1]) {
                Some(n - 1)
            } else {
                Some(o)
            }
        }
    }
}

proof fn lemma_kept_count(rows: Seq<HistoryRow>, kept: spec_fn(int) -> bool, o: int, n: int)
    requires
        0 <= n <= rows.len(),
        0 <= o < rows.len(),
        forall|j: int|
            0 <= j < rows.len() && #[trigger] kept(j) && j != o ==> is_newer(rows[j], rows[o]),
    ensures
        kept_count(kept, n) <= newer_than(rows, rows[o], n) + if o < n {
            1int
        } else {
            0int
        },
    decreases n,
{
    if n > 0 {
        lemma_kept_count(rows, kept, o, n - 1);
    }
}

proof fn lemma_kept_bytes(pages: Seq<CachedPage>, kept: spec_fn(int) -> bool, o: int, n: int)
    requires
        0 <= n <= pages.len(),
        0 <= o < pages.len(),
        forall|j: int|
            0 <= j < pages.len() && #[trigger] kept(j) && j != o ==> is_newer(
                pages[j].row,
                pages[o].row,
            ),
    ensures
        kept_bytes(pages, kept, n) <= newer_bytes(pages, pages[o].row, n) + if o < n {
            pages[o].bytes as int
        } else {
            0int
        },
    decreases n,
{
    if n > 0 {
        lemma_kept_bytes(pages, kept, o, n - 1);
    }
}

proof fn lemma_none_kept(pages: Seq<CachedPage>, kept: spec_fn(int) -> bool, n: int)
    requires
        forall|j: int| 0 <= j < n ==> !#[trigger] kept(j),
    ensures
        kept_count(kept, n) == 0,
        kept_bytes(pages, kept, n) == 0,
    decreases n,
{
    if n > 0 {
        lemma_none_kept(pages, kept, n - 1);
    }
}

proof fn lemma_fewer_kept(kept: spec_fn(int) -> bool, more: spec_fn(int) -> bool, n: int)
    requires
        forall|j: int| 0 <= j < n && #[trigger] kept(j) ==> more(j),
    ensures
        kept_count(kept, n) <= kept_count(more, n),
    decreases n,
{
    if n > 0 {
        lemma_fewer_kept(kept, more, n - 1);
    }
}

/// No list keeps more rows than its limit.
pub proof fn law_retention_is_bounded(rows: Seq<HistoryRow>, limit: nat)
    requires
        distinct_rows(rows),
    ensures
        kept_count(|i: int| among_newest(rows, i, limit as int), rows.len() as int) <= limit,
{
    let kept = |i: int| among_newest(rows, i, limit as int);
    match lemma_oldest(rows, kept, rows.len() as int) {
        None => lemma_none_kept(Seq::empty(), kept, rows.len() as int),
        Some(o) => lemma_kept_count(rows, kept, o, rows.len() as int),
    }
}

/// The cache keeps neither more pages nor more bytes than its limits.
pub proof fn law_cache_is_bounded(pages: Seq<CachedPage>)
    requires
        distinct_rows(page_rows(pages)),
    ensures
        kept_count(|i: int| page_kept(pages, i), pages.len() as int) <= CACHED_PAGES,
        kept_bytes(pages, |i: int| page_kept(pages, i), pages.len() as int) <= CACHED_BYTES,
{
    let rows = page_rows(pages);
    let kept = |i: int| page_kept(pages, i);
    law_retention_is_bounded(rows, CACHED_PAGES as nat);
    lemma_fewer_kept(
        kept,
        |i: int| among_newest(rows, i, CACHED_PAGES as int),
        pages.len() as int,
    );
    match lemma_oldest(rows, kept, pages.len() as int) {
        None => lemma_none_kept(pages, kept, pages.len() as int),
        Some(o) => {
            assert forall|j: int| 0 <= j < pages.len() && #[trigger] kept(j) && j != o implies is_newer(
                pages[j].row,
                pages[o].row,
            ) by {
                assert(is_newer(rows[j], rows[o]));
            }
            lemma_kept_bytes(pages, kept, o, pages.len() as int);
        },
    }
}

proof fn lemma_newer_count(rows: Seq<HistoryRow>, i: int, n: int)
    requires
        0 <= i < rows.len(),
        0 <= n <= rows.len(),
    ensures
        newer_than(rows, rows[i], n) <= n - if i < n {
            1int
        } else {
            0int
        },
    decreases n,
{
    if n > 0 {
        lemma_newer_count(rows, i, n - 1);
    }
}

/// Nothing goes from a list that is within its limit.
pub proof fn law_nothing_goes_within_the_limit(rows: Seq<HistoryRow>, i: int, limit: int)
    requires
        0 <= i < rows.len(),
        rows.len() <= limit,
    ensures
        among_newest(rows, i, limit),
{
    lemma_newer_count(rows, i, rows.len() as int);
}

} // verus!
