//! The buttons of the rooms, the list of the hubs and the commands of the chat
//! window.
use vstd::prelude::*;

use crate::browser::{text_view, text_views};
use crate::models::RrcHubView;
use crate::table::text_less;
use crate::text::same_text;
use crate::ui::glyphs::{cells_in, cells_of};
use crate::ui::rrc::{Action, ActionModel};
use crate::ui::rrc_session::{
    asked, bounded, clearing_asked, connections_noted, is_listed, server_hashes, server_rows,
    server_text, RrcRequest, RrcSession, RrcState,
};
use crate::ui::state::{find_text, lemma_place_of, UiState};

verus! {

/// The width of the button of a room, by the cells that its label takes.
pub open spec fn width_for(cells: int) -> int {
    bounded(
        if cells < 2 {
            8
        } else {
            cells + 6
        },
    )
}

pub fn button_width(cells: usize) -> (r: usize)
    ensures
        r == width_for(cells as int),
{
    if cells < 2 {
        8
    } else if cells > usize::MAX - 6 {
        usize::MAX
    } else {
        cells + 6
    }
}

/// The widths of the buttons of some rooms.
pub fn button_widths(session: &RrcSession, rooms: &Vec<String>) -> (r: Vec<usize>)
    requires
        session.wf(),
    ensures
        r@.len() == rooms@.len(),
        forall|i: int|
            0 <= i < r@.len() ==> #[trigger] r@[i] == width_for(
                cells_in(session.room_label(rooms@[i]@)) as int,
            ),
{
    let mut widths: Vec<usize> = Vec::new();
    for i in 0..rooms.len()
        invariant
            session.wf(),
            widths@.len() == i,
            forall|j: int|
                0 <= j < i ==> #[trigger] widths@[j] == width_for(
                    cells_in(session.room_label(rooms@[j]@)) as int,
                ),
    {
        let label = session.label(rooms[i].as_str());
        widths.push(button_width(cells_of(label.as_str())));
    }
    widths
}

/// How far the buttons move so that the one with the focus is seen.
pub open spec fn shift_of(left: int, right: int, width: int) -> int {
    if left < 0 || right - left >= width {
        -left
    } else if right > width {
        width - right
    } else {
        0
    }
}

pub fn strip_shift(left: i32, right: i32, width: i32) -> (r: i32)
    requires
        i32::MIN < left <= right,
    ensures
        r == shift_of(left as int, right as int, width as int),
{
    if left < 0 || right - left >= width {
        -left
    } else if right > width {
        width - right
    } else {
        0
    }
}

/// How wide the first of some buttons are.
pub open spec fn width_before(widths: Seq<usize>, n: int) -> int
    decreases n,
{
    if n <= 0 {
        0
    } else {
        width_before(widths, n - 1) + widths[n - 1]
    }
}

proof fn lemma_width_grows(widths: Seq<usize>, a: int, b: int)
    requires
        0 <= a <= b <= widths.len(),
    ensures
        0 <= width_before(widths, a) <= width_before(widths, b),
    decreases b,
{
    if a < b {
        lemma_width_grows(widths, a, b - 1);
    } else if b > 0 {
        lemma_width_grows(widths, a - 1, b - 1);
    }
}

/// The strip of the buttons of the rooms, one for each room of the open hub.
#[derive(Debug)]
pub struct RoomStrip {
    pub hub: String,
    pub rooms: Vec<String>,
    /// How far the strip is scrolled.
    pub offset: i32,
}

/// Whether the places on a strip are numbers of 32 bits.
pub open spec fn fits(offset: int, widths: Seq<usize>) -> bool {
    &&& i32::MIN < offset
    &&& width_before(widths, widths.len() as int) - offset <= i32::MAX
}

impl RoomStrip {
    pub fn new() -> (r: Self)
        ensures
            r.hub@.len() == 0,
            r.rooms@.len() == 0,
            r.offset == 0,
    {
        RoomStrip { hub: String::new(), rooms: Vec::new(), offset: 0 }
    }

    /// Takes the rooms that have a button. Says whether the buttons are to be made
    /// anew; the strip then begins at its beginning.
    pub fn refresh(&mut self, hub: &String, rooms: Vec<String>) -> (r: bool)
        ensures
            r == (old(self).hub@ != hub@ || text_views(old(self).rooms@) != text_views(rooms@)),
            !r ==> *final(self) == *old(self),
            r ==> final(self).hub@ == hub@ && final(self).rooms == rooms && final(self).offset == 0,
    {
        if same_text(self.hub.as_str(), hub.as_str()) && same_texts(&self.rooms, &rooms) {
            return false;
        }
        self.hub = hub.clone();
        self.rooms = rooms;
        self.offset = 0;
        true
    }

    /// Where the buttons begin and end.
    pub fn places(&self, widths: &Vec<usize>) -> (r: Vec<(i32, i32)>)
        requires
            fits(self.offset as int, widths@),
        ensures
            r@.len() == widths@.len(),
            forall|i: int|
                0 <= i < r@.len() ==> (#[trigger] r@[i]).0 == width_before(widths@, i)
                    - self.offset && r@[i].1 == width_before(widths@, i + 1) - self.offset,
    {
        let mut places: Vec<(i32, i32)> = Vec::new();
        let mut at: i32 = -self.offset;
        for i in 0..widths.len()
            invariant
                fits(self.offset as int, widths@),
                at == width_before(widths@, i as int) - self.offset,
                places@.len() == i,
                forall|j: int|
                    0 <= j < i ==> (#[trigger] places@[j]).0 == width_before(widths@, j)
                        - self.offset && places@[j].1 == width_before(widths@, j + 1) - self.offset,
        {
            proof {
                lemma_width_grows(widths@, i as int, i + 1);
                lemma_width_grows(widths@, i + 1, widths@.len() as int);
            }
            let end: i32 = (at as i128 + widths[i] as i128) as i32;
            places.push((at, end));
            at = end;
        }
        places
    }

    /// Scrolls so that the button with the focus is seen on a strip of this width.
    pub fn follow(&mut self, focused: Option<(i32, i32)>, width: i32)
        requires
            focused.is_some() ==> i32::MIN < focused.unwrap().0 <= focused.unwrap().1,
            focused.is_some() ==> i32::MIN <= old(self).offset - shift_of(
                focused.unwrap().0 as int,
                focused.unwrap().1 as int,
                width as int,
            ) <= i32::MAX,
        ensures
            *final(self) == (RoomStrip {
                offset: match focused {
                    Some(place) => (old(self).offset - shift_of(
                        place.0 as int,
                        place.1 as int,
                        width as int,
                    )) as i32,
                    None => old(self).offset,
                },
                ..*old(self)
            }),
    {
        if let Some((left, right)) = focused {
            let shift: i32 = strip_shift(left, right, width);
            self.offset = self.offset - shift;
        }
    }
}

fn same_texts(a: &Vec<String>, b: &Vec<String>) -> (r: bool)
    ensures
        r == (text_views(a@) == text_views(b@)),
{
    if a.len() != b.len() {
        assert(text_views(a@).len() != text_views(b@).len());
        return false;
    }
    for i in 0..a.len()
        invariant
            a@.len() == b@.len(),
            forall|j: int| 0 <= j < i ==> text_views(a@)[j] == text_views(b@)[j],
    {
        if !same_text(a[i].as_str(), b[i].as_str()) {
            assert(text_views(a@)[i as int] != text_views(b@)[i as int]);
            return false;
        }
    }
    assert(text_views(a@) =~= text_views(b@));
    true
}

/// After the strip followed the focus, the button that has it begins in view, and it
/// ends in view where there is room for it.
pub proof fn law_focused_room_is_seen(left: int, right: int, width: int)
    requires
        left <= right,
        0 <= width,
    ensures
        ({
            let shift = shift_of(left, right, width);
            &&& 0 <= left + shift
            &&& right - left < width ==> right + shift <= width
            &&& right - left >= width ==> left + shift == 0
        }),
{
}

/// The list of the hubs.
#[derive(Debug)]
pub struct ServerList {
    pub hashes: Vec<String>,
    pub rows: Vec<String>,
    pub selected: usize,
}

impl ServerList {
    pub fn new() -> (r: Self)
        ensures
            r.hashes@.len() == 0,
            r.rows@.len() == 0,
            r.selected == 0,
    {
        ServerList { hashes: Vec::new(), rows: Vec::new(), selected: 0 }
    }

    /// Whether the list shows what is known of the hubs.
    pub open spec fn shows(&self, state: RrcState, shared: UiState, open: Seq<char>) -> bool {
        &&& forall|i: int, j: int|
            0 <= i < j < self.hashes@.len() ==> text_less(
                #[trigger] text_views(self.hashes@)[i],
                #[trigger] text_views(self.hashes@)[j],
            )
        &&& forall|hash: Seq<char>| #[trigger]
            text_views(self.hashes@).contains(hash) <==> is_listed(state.hubs@, open, hash)
        &&& self.rows@.len() == self.hashes@.len()
        &&& forall|i: int|
            0 <= i < self.rows@.len() ==> (#[trigger] text_views(self.rows@)[i]) == server_text(
                state,
                shared,
                text_views(self.hashes@)[i],
            )
    }

    /// The hub that is selected.
    pub open spec fn chosen(&self) -> Option<Seq<char>> {
        if self.selected < self.hashes@.len() {
            Some(self.hashes@[self.selected as int]@)
        } else {
            None
        }
    }

    /// Shows what is known of the hubs, and selects the open one. Says whether
    /// anything changed.
    pub fn refresh(&mut self, state: &RrcState, shared: &UiState, open: &String) -> (r: bool)
        ensures
            final(self).shows(*state, *shared, open@),
            final(self).chosen() == Some(open@),
            r == !(text_views(old(self).hashes@) == text_views(final(self).hashes@) && text_views(
                old(self).rows@,
            ) == text_views(final(self).rows@) && old(self).chosen() == Some(open@)),
            !r ==> *final(self) == *old(self),
    {
        let hashes = server_hashes(state, open);
        let rows = server_rows(state, shared, &hashes);
        proof {
            assert(forall|i: int|
                0 <= i < rows@.len() ==> (#[trigger] text_views(rows@)[i]) == rows@[i]@);
        }
        let chosen = self.selected < self.hashes.len() && same_text(
            self.hashes[self.selected].as_str(),
            open.as_str(),
        );
        if chosen && same_texts(&self.hashes, &hashes) && same_texts(&self.rows, &rows) {
            proof {
                let known = ServerList { hashes, rows, selected: 0 };
                assert(known.shows(*state, *shared, open@));
                assert(text_views(self.hashes@).len() == self.hashes@.len());
                assert(text_views(hashes@).len() == hashes@.len());
                assert(text_views(self.rows@).len() == self.rows@.len());
                assert(text_views(rows@).len() == rows@.len());
            }
            return false;
        }
        let place = find_text(&hashes, open.as_str());
        proof {
            assert(is_listed(state.hubs@, open@, open@));
            assert(text_views(hashes@).contains(open@));
            lemma_place_of(text_views(hashes@), open@);
        }
        self.hashes = hashes;
        self.rows = rows;
        self.selected = place;
        true
    }

    /// The hub at a place of the list.
    pub fn hub_at(&self, place: usize) -> (r: Option<String>)
        ensures
            text_view(r) == if place < self.hashes@.len() {
                Some(self.hashes@[place as int]@)
            } else {
                None
            },
    {
        if place < self.hashes.len() {
            Some(self.hashes[place].clone())
        } else {
            None
        }
    }
}

/// The commands of the chat window.
#[derive(Debug, Clone, Copy, PartialEq, Eq, Structural)]
pub enum ChatCommand {
    Clear,
    Rooms,
    Disconnect,
    Other,
}

/// A session that turned to a hub, where one asked for the focus, and looked at the
/// connections.
pub open spec fn turned(
    before: RrcSession,
    focus: Option<Seq<char>>,
    hubs: Seq<RrcHubView>,
    after: RrcSession,
) -> bool {
    &&& match focus {
        Some(hub) => after.hub@ == hub,
        None => after.hub == before.hub,
    }
    &&& connections_noted(RrcSession { hub: after.hub, ..before }, hubs, after)
}

/// What a command of the chat window does.
pub open spec fn commanded(
    before: RrcSession,
    command: ChatCommand,
    after: RrcSession,
    request: Option<RrcRequest>,
) -> bool {
    match command {
        ChatCommand::Clear => clearing_asked(before, after, request),
        ChatCommand::Rooms => asked(before, ActionModel::Rooms, None, after, request),
        ChatCommand::Disconnect => asked(before, ActionModel::Disconnect, None, after, request),
        ChatCommand::Other => request.is_none() && after == before,
    }
}

impl RrcSession {
    /// Takes an event of the chat window. `focus` is a hub that asked for the focus.
    pub fn window_event(
        &mut self,
        state: &RrcState,
        focus: Option<String>,
        command: ChatCommand,
    ) -> (r: Option<RrcRequest>)
        requires
            old(self).wf(),
        ensures
            final(self).wf(),
            exists|looked: RrcSession| #[trigger]
                turned(*old(self), text_view(focus), state.hubs@, looked) && commanded(
                    looked,
                    command,
                    *final(self),
                    r,
                ),
    {
        if let Some(hub) = focus {
            self.hub = hub;
        }
        self.note_connections(state);
        let ghost looked = *self;
        assert(turned(*old(self), text_view(focus), state.hubs@, looked));
        match command {
            ChatCommand::Clear => self.clear_room(),
            ChatCommand::Rooms => self.send(Action::Rooms, None),
            ChatCommand::Disconnect => self.send(Action::Disconnect, None),
            ChatCommand::Other => None,
        }
    }
}

} // verus!
