//! Laws of the desktop: which windows are kept and where they stand, which rows lists
//! show, and what the screen of the network holds.
use vstd::prelude::*;

use crate::browser::text_view;
use crate::hexadecimal::{hex_text, law_hex_text_is_read_back};
use crate::laws::addresses::{is_path, law_addresses_lead_where_they_say, written};
use crate::text::{lemma_find_char_at, starts_with};
use crate::ui::conversation::centred;
use crate::ui::directory::{key_bit, kind_bit, Filters};
use crate::ui::glyphs::clipped_text;
use crate::ui::layout::{
    fitted, forgotten, is_kept_as, is_lower_hex, is_placed, is_window_key, kept_windows,
    layout_fault, recorded, sized, window_keys, Layout, LayoutError, Point, Rect, SavedWindow,
};
use crate::ui::lists::{opened_by, row_shown, shown_rows, within, OpenCommand, Pane, StateList};
use crate::ui::network::{
    counts_text, interface_text, screen_texts, widest_received, widest_sent, Counters,
};
use crate::ui::state::{lemma_place_at, DirectoryKind, DirectoryRow, UiState};
use crate::ui::windows::first_rrc;

verus! {

/// The windows of a node, a hub and a conversation are known by their kind and their
/// address, and the three lists by their names; no other key is one of a window.
pub proof fn law_windows_are_known_by_their_key(hash: Seq<u8>, key: Seq<char>)
    requires
        hash.len() == 16,
    ensures
        is_window_key(seq!['n', 'o', 'd', 'e', ':'] + hex_text(hash)),
        is_window_key(seq!['r', 'r', 'c', ':'] + hex_text(hash)),
        is_window_key(seq!['l', 'x', 'm', 'f', ':'] + hex_text(hash)),
        is_window_key("network"@),
        is_window_key("directory"@),
        is_window_key("conversations"@),
        !key.contains(':') && key != "network"@ && key != "directory"@ && key != "conversations"@
            ==> !is_window_key(key),
{
    reveal_strlit("node");
    reveal_strlit("rrc");
    reveal_strlit("lxmf");
    lemma_key("node"@, hash);
    lemma_key("rrc"@, hash);
    lemma_key("lxmf"@, hash);
    assert(seq!['n', 'o', 'd', 'e', ':'] + hex_text(hash) =~= "node"@ + seq![':'] + hex_text(hash));
    assert(seq!['r', 'r', 'c', ':'] + hex_text(hash) =~= "rrc"@ + seq![':'] + hex_text(hash));
    assert(seq!['l', 'x', 'm', 'f', ':'] + hex_text(hash) =~= "lxmf"@ + seq![':'] + hex_text(hash));
    crate::text::lemma_find_char(key, ':');
}

proof fn lemma_key(kind: Seq<char>, hash: Seq<u8>)
    requires
        kind == "node"@ || kind == "rrc"@ || kind == "lxmf"@,
        forall|i: int| 0 <= i < kind.len() ==> #[trigger] kind[i] != ':',
        hash.len() == 16,
    ensures
        is_window_key(kind + seq![':'] + hex_text(hash)),
{
    let key = kind + seq![':'] + hex_text(hash);
    let text = hex_text(hash);
    law_hex_text_is_read_back(hash);
    assert forall|i: int| 0 <= i < kind.len() implies key[i] != ':' by {
        assert(key[i] == kind[i]);
    }
    assert(key[kind.len() as int] == ':');
    lemma_find_char_at(key, ':', kind.len() as int);
    assert(key.take(kind.len() as int) =~= kind);
    assert(key.skip(kind.len() as int + 1) =~= text);
    assert forall|i: int| 0 <= i < text.len() implies is_lower_hex(#[trigger] text[i]) by {
        let n = if i % 2 == 0 {
            hash[i / 2] as int / 16
        } else {
            hash[i / 2] as int % 16
        };
        assert(text[i] == crate::hexadecimal::hex_digit(n));
        assert(0 <= n < 16);
    }
}

/// Of windows that were saved the known ones come back, each once and in their order.
pub proof fn law_known_windows_come_back(windows: Seq<SavedWindow>, window: SavedWindow)
    ensures
        is_window_key(window.key@) && !window_keys(kept_windows(windows)).contains(window.key@)
            ==> kept_windows(windows.push(window)) == kept_windows(windows).push(window),
        !is_window_key(window.key@) ==> kept_windows(windows.push(window)) == kept_windows(windows),
        window_keys(kept_windows(windows)).contains(window.key@) ==> kept_windows(
            windows.push(window),
        ) == kept_windows(windows),
{
    assert(windows.push(window).drop_last() =~= windows);
}

/// A window comes back where it was, and with its page where that can still be asked
/// for.
pub proof fn law_windows_keep_their_page(
    window: SavedWindow,
    kept: SavedWindow,
    node: Seq<u8>,
    path: Seq<char>,
    url: String,
)
    requires
        is_kept_as(window, kept),
        node.len() == 16,
        is_path(path),
        url@ == written(node, path),
        window.url == Some(url),
    ensures
        kept.key == window.key,
        kept.x == window.x && kept.y == window.y,
        kept.width == window.width && kept.height == window.height,
        path[1] == 'p' ==> text_view(kept.url) == Some(url@),
        path[1] == 'f' ==> kept.url.is_none(),
{
    law_addresses_lead_where_they_say(node, path);
    reveal_strlit("/page/");
    assert("/page/"@ =~= seq!['/', 'p', 'a', 'g', 'e', '/']);
    assert(path.take(6)[1] == path[1]);
}

/// A layout of another version, or with more than 128 windows, is refused.
pub proof fn law_odd_layouts_are_refused(layout: Layout)
    ensures
        layout.version != 1 ==> layout_fault(layout) == Some(
            LayoutError::UnsupportedVersion(layout.version),
        ),
        layout.version == 1 && layout.windows@.len() > 128 ==> layout_fault(layout) == Some(
            LayoutError::TooManyWindows,
        ),
        layout.version == 1 && layout.windows@.len() <= 128 ==> layout_fault(layout).is_none(),
{
}

/// A window that is too large for the screen is made as large as the screen, and one
/// that reaches over its edge is moved back onto it.
pub proof fn law_windows_are_moved_onto_the_screen(
    saved: int,
    size: int,
    least: int,
    available: int,
)
    requires
        1 <= least <= available,
        1 <= available,
    ensures
        size >= available ==> fitted(saved, size, least, available) == (0int, available),
        least <= size <= available && saved + size > available ==> fitted(
            saved,
            size,
            least,
            available,
        ) == (available - size, size),
        least <= size <= available && saved < 0 ==> fitted(saved, size, least, available) == (
            0int,
            size,
        ),
        size < least && saved == 0 ==> fitted(saved, size, least, available) == (0int, least),
{
}

/// A new window takes the screen but for its edge, within what is the least and the
/// most for it.
pub proof fn law_new_windows_are_sized(extent: int, least: int, most: int)
    requires
        least <= most,
    ensures
        least <= sized(extent, least, most) <= most,
        least <= extent - 2 <= most ==> sized(extent, least, most) == extent - 2,
{
}

/// A window in the middle has as much room on one side as on the other, but for one.
pub proof fn law_middle_windows_are_in_the_middle(from: int, to: int, wanted: int, least: int)
    requires
        0 <= least <= wanted <= to - from - 2,
    ensures
        ({
            let place = centred(from, to, wanted, least);
            &&& place.1 - place.0 == wanted
            &&& from <= place.0
            &&& place.1 <= to
            &&& 0 <= (to - place.1) - (place.0 - from) <= 1
        }),
{
}

/// A place in a list stays where it is while the list is long enough, and else is its
/// end.
pub proof fn law_places_stay_in_the_list(place: int, length: int)
    requires
        0 <= place,
        0 <= length,
    ensures
        place < length ==> within(place, length) == place,
        place >= length && length > 0 ==> within(place, length) == length - 1,
        within(place, 0) == 0,
{
}

/// A list shows the rows of the kinds that are switched on, in their order, and all of
/// them where nothing is switched.
pub proof fn law_lists_show_what_is_switched_on(
    filters: Filters,
    rows: Seq<DirectoryRow>,
    row: DirectoryRow,
)
    ensures
        filters.shows(row.kind) ==> shown_rows(Some(filters), rows.push(row)) == shown_rows(
            Some(filters),
            rows,
        ).push(row),
        !filters.shows(row.kind) ==> shown_rows(Some(filters), rows.push(row)) == shown_rows(
            Some(filters),
            rows,
        ),
        shown_rows(None, rows.push(row)) == shown_rows(None, rows).push(row),
        row_shown(None, row),
{
    reveal(Seq::filter);
    assert(rows.push(row).drop_last() =~= rows);
}

/// Each kind has a key of its own: p for peers, o for propagation nodes, r for hubs and
/// n for nodes, in capitals or not; no other key switches anything.
pub proof fn law_kinds_have_their_keys(key: char)
    ensures
        key_bit('p') == kind_bit(DirectoryKind::Peer) && key_bit('P') == kind_bit(
            DirectoryKind::Peer,
        ),
        key_bit('o') == kind_bit(DirectoryKind::Propagation) && key_bit('O') == kind_bit(
            DirectoryKind::Propagation,
        ),
        key_bit('r') == kind_bit(DirectoryKind::Rrc) && key_bit('R') == kind_bit(
            DirectoryKind::Rrc,
        ),
        key_bit('n') == kind_bit(DirectoryKind::Node) && key_bit('N') == kind_bit(
            DirectoryKind::Node,
        ),
        key != 'p' && key != 'P' && key != 'o' && key != 'O' && key != 'r' && key != 'R' && key
            != 'n' && key != 'N' ==> key_bit(key) == 0,
        kind_bit(DirectoryKind::Peer) != 0 && kind_bit(DirectoryKind::Propagation) != 0
            && kind_bit(DirectoryKind::Rrc) != 0 && kind_bit(DirectoryKind::Node) != 0,
        kind_bit(DirectoryKind::Peer) != kind_bit(DirectoryKind::Node),
        kind_bit(DirectoryKind::Other) == 0,
{
}

/// The first hub window is found, wherever it stands among the windows.
pub proof fn law_hub_windows_are_found(
    before: Seq<(Seq<char>, ())>,
    hash: Seq<char>,
    after: Seq<(Seq<char>, ())>,
)
    requires
        forall|i: int|
            0 <= i < before.len() ==> !starts_with(
                (#[trigger] before[i]).0,
                seq!['r', 'r', 'c', ':'],
            ),
    ensures
        first_rrc(before + seq![(seq!['r', 'r', 'c', ':'] + hash, ())] + after) == Some(
            seq!['r', 'r', 'c', ':'] + hash,
        ),
        first_rrc(before).is_none(),
    decreases before.len(),
{
    let key = seq!['r', 'r', 'c', ':'] + hash;
    let all = before + seq![(key, ())] + after;
    reveal_strlit("rrc:");
    assert("rrc:"@ =~= seq!['r', 'r', 'c', ':']);
    if before.len() == 0 {
        assert(all[0] == (key, ()));
        assert(key.take(4) =~= "rrc:"@);
    } else {
        assert(all[0] == before[0]);
        assert(!starts_with(before[0].0, seq!['r', 'r', 'c', ':']));
        assert(all.drop_first() =~= before.drop_first() + seq![(key, ())] + after);
        assert forall|i: int| 0 <= i < before.drop_first().len() implies !starts_with(
            (#[trigger] before.drop_first()[i]).0,
            seq!['r', 'r', 'c', ':'],
        ) by {
            assert(before.drop_first()[i] == before[i + 1]);
        }
        law_hub_windows_are_found(before.drop_first(), hash, after);
    }
}

/// The screen of the network shows what is said of it, then the own name and what
/// became of an announce, where there are any, and then a line for each interface.
pub proof fn law_the_network_has_a_screen(
    state: UiState,
    counters: Counters,
    width: nat,
    i: int,
)
    requires
        counters.len() == state.network_interfaces@.len(),
        state.announce_name@.len() > 0,
        state.announce_status@.len() > 0,
    ensures
        ({
            let lines = screen_texts(state, counters, width);
            let head = state.network@.len() as int;
            &&& lines.len() == head + 2 + counters.len()
            &&& 0 <= i < head ==> lines[i] == clipped_text(state.network@[i]@, width)
            &&& lines[head] == clipped_text("Name: "@ + state.announce_name@, width)
            &&& lines[head + 1] == clipped_text(state.announce_status@, width)
            &&& 0 <= i < counters.len() ==> lines[head + 2 + i] == interface_text(
                state.network_interfaces@[i],
                counts_text(counters[i].0@, counters[i].1@, counters),
                width,
            )
        }),
{
}

/// A window is recorded in its own place, or behind the others where it is new, and the
/// others stay.
pub proof fn law_windows_are_recorded_once(
    windows: Seq<SavedWindow>,
    entry: SavedWindow,
    i: int,
)
    ensures
        !window_keys(windows).contains(entry.key@) ==> recorded(windows, entry) == windows.push(
            entry,
        ),
        0 <= i < windows.len() && windows[i].key@ == entry.key@ && (forall|j: int|
            0 <= j < i ==> (#[trigger] windows[j]).key@ != entry.key@) ==> recorded(
            windows,
            entry,
        ) == windows.update(i, entry),
{
    let keys = window_keys(windows);
    crate::ui::state::lemma_place_of(keys, entry.key@);
    if 0 <= i < windows.len() && windows[i].key@ == entry.key@ && (forall|j: int|
        0 <= j < i ==> (#[trigger] windows[j]).key@ != entry.key@) {
        assert forall|j: int| 0 <= j < i implies #[trigger] keys[j] != entry.key@ by {
            assert(keys[j] == windows[j].key@);
        }
        lemma_place_at(keys, entry.key@, i);
    }
}

/// A window that is forgotten is gone, and no other.
pub proof fn law_windows_are_forgotten(
    windows: Seq<SavedWindow>,
    window: SavedWindow,
    key: Seq<char>,
)
    ensures
        window.key@ == key ==> forgotten(windows.push(window), key) == forgotten(windows, key),
        window.key@ != key ==> forgotten(windows.push(window), key) == forgotten(
            windows,
            key,
        ).push(window),
        forgotten(Seq::empty(), key) == Seq::<SavedWindow>::empty(),
{
    reveal(Seq::filter);
    assert(windows.push(window).drop_last() =~= windows);
    assert(forgotten(Seq::empty(), key) =~= Seq::<SavedWindow>::empty());
}

/// A row opens what it is: a conversation, the chat of a hub or the pages of a node; a
/// propagation node opens nothing, and so does no row.
pub proof fn law_rows_open_what_they_are(pane: Pane, kind: Option<DirectoryKind>)
    ensures
        opened_by(Pane::Conversations, true, kind) == Some(OpenCommand::Conversation),
        opened_by(Pane::Directory, true, Some(DirectoryKind::Peer)) == Some(
            OpenCommand::Conversation,
        ),
        opened_by(Pane::Directory, true, Some(DirectoryKind::Rrc)) == Some(OpenCommand::RrcHub),
        opened_by(Pane::Directory, true, Some(DirectoryKind::Node)) == Some(
            OpenCommand::NodeBrowser,
        ),
        opened_by(Pane::Directory, true, Some(DirectoryKind::Propagation)).is_none(),
        opened_by(Pane::Directory, true, None).is_none(),
        opened_by(pane, false, kind).is_none(),
{
}

/// A new window stands one place in from the corner of the desktop and is no larger than
/// it may be.
pub proof fn law_new_windows_stand_in_the_corner(
    desktop: Rect,
    least: Point,
    most: Point,
    r: Rect,
)
    requires
        is_placed(desktop, least, most, r),
        least.x <= most.x,
        least.y <= most.y,
    ensures
        r.a.x == desktop.a.x + 1,
        r.a.y == desktop.a.y + 1,
        least.x <= r.b.x - r.a.x <= most.x,
        least.y <= r.b.y - r.a.y <= most.y,
        least.x <= desktop.b.x - desktop.a.x - 2 <= most.x ==> r.b.x == desktop.b.x - 1,
        least.y <= desktop.b.y - desktop.a.y - 2 <= most.y ==> r.b.y == desktop.b.y - 1,
{
}

/// The lines of a list and what they stand for go together, one for one.
pub proof fn law_lines_stand_for_something(list: StateList, state: UiState)
    ensures
        list.labels(state).len() == list.destinations(state).len(),
        list.pane == Pane::Conversations ==> list.labels(state).len()
            == state.conversations@.len(),
        list.pane == Pane::Conversations && state.conversations@.len() > 0 ==> list.labels(
            state,
        )[0] == state.conversations@[0].label@ && list.destinations(state)[0]
            == state.conversations@[0].destination_hash@,
        list.selected < list.row_ids@.len() ==> list.focused() == Some(
            list.row_ids@[list.selected as int]@,
        ),
{
}

/// The columns of the counts are as wide as the widest of them.
pub proof fn law_counts_are_as_wide_as_the_widest(counters: Counters, i: int)
    requires
        0 <= i < counters.len(),
    ensures
        widest_received(counters) >= vstd::utf8::encode_utf8(counters[i].0@).len(),
        widest_sent(counters) >= vstd::utf8::encode_utf8(counters[i].1@).len(),
    decreases counters.len(),
{
    if i < counters.len() - 1 {
        assert(counters.drop_last()[i] == counters[i]);
        law_counts_are_as_wide_as_the_widest(counters.drop_last(), i);
    }
}

} // verus!
