//! Lists that keep their selection by identity when their rows move.
use vstd::prelude::*;

use crate::browser::{text_view, text_views};
use crate::ui::directory::Filters;
use crate::ui::state::{
    find_row, find_text, lemma_place_of, place_of, row_hashes, ConversationRow, DirectoryKind,
    DirectoryRow, UiState,
};
use crate::text::same_text;

verus! {

#[derive(Debug, Clone, Copy, PartialEq, Eq, Structural)]
pub enum Pane {
    Conversations,
    Directory,
}

/// What the Enter key opens.
#[derive(Debug, Clone, Copy, PartialEq, Eq, Structural)]
pub enum OpenCommand {
    Conversation,
    RrcHub,
    NodeBrowser,
}

/// A list as it was last shown. `selected` is a place in it, the first where it is
/// empty.
#[derive(Debug)]
pub struct StateList {
    pub pane: Pane,
    pub seeded: bool,
    pub rows: Vec<String>,
    pub row_ids: Vec<String>,
    pub selected: usize,
    pub filters: Option<Filters>,
}

/// A place in a list of some length: the last one where it would be behind it.
pub open spec fn within(place: int, length: int) -> int {
    if place < length {
        place
    } else if length > 0 {
        length - 1
    } else {
        0
    }
}

pub(crate) fn place_within(place: usize, length: usize) -> (r: usize)
    ensures
        r == within(place as int, length as int),
{
    if place < length {
        place
    } else if length > 0 {
        length - 1
    } else {
        0
    }
}

pub open spec fn row_shown(filters: Option<Filters>, row: DirectoryRow) -> bool {
    match filters {
        None => true,
        Some(filters) => filters.shows(row.kind),
    }
}

pub open spec fn shown_rows(filters: Option<Filters>, rows: Seq<DirectoryRow>) -> Seq<DirectoryRow> {
    rows.filter(|row: DirectoryRow| row_shown(filters, row))
}

pub open spec fn conversation_labels(rows: Seq<ConversationRow>) -> Seq<Seq<char>> {
    rows.map_values(|row: ConversationRow| row.label@)
}

pub open spec fn directory_labels(rows: Seq<DirectoryRow>) -> Seq<Seq<char>> {
    rows.map_values(|row: DirectoryRow| row.label@)
}

fn same_lists(a: &Vec<String>, b: &Vec<String>) -> (r: bool)
    ensures
        r == (text_views(a@) == text_views(b@)),
{
    if a.len() != b.len() {
        assert(text_views(a@).len() != text_views(b@).len());
        return false;
    }
    for i in 0..a.len()
        invariant
            a@.len() == b@.len(),
            forall|j: int| 0 <= j < i ==> a@[j]@ == b@[j]@,
    {
        if !same_text(a[i].as_str(), b[i].as_str()) {
            assert(text_views(a@)[i as int] != text_views(b@)[i as int]);
            return false;
        }
    }
    assert(text_views(a@) =~= text_views(b@));
    true
}

/// What is opened of a row: a conversation, or what the kind of the destination says.
pub open spec fn opened_by(
    pane: Pane,
    focused: bool,
    kind: Option<DirectoryKind>,
) -> Option<OpenCommand> {
    if !focused {
        None
    } else if pane == Pane::Conversations {
        Some(OpenCommand::Conversation)
    } else {
        match kind {
            Some(DirectoryKind::Peer) => Some(OpenCommand::Conversation),
            Some(DirectoryKind::Rrc) => Some(OpenCommand::RrcHub),
            Some(DirectoryKind::Node) => Some(OpenCommand::NodeBrowser),
            _ => None,
        }
    }
}

impl StateList {
    pub fn new(pane: Pane, filters: Option<Filters>) -> (r: Self)
        ensures
            r.pane == pane,
            !r.seeded,
            r.rows@.len() == 0,
            r.row_ids@.len() == 0,
            r.selected == 0,
            r.filters == filters,
    {
        StateList {
            pane,
            seeded: false,
            rows: Vec::new(),
            row_ids: Vec::new(),
            selected: 0,
            filters,
        }
    }

    /// The labels that the list is to show.
    pub open spec fn labels(&self, state: UiState) -> Seq<Seq<char>> {
        match self.pane {
            Pane::Conversations => conversation_labels(state.conversations@),
            Pane::Directory => directory_labels(shown_rows(self.filters, state.directory@)),
        }
    }

    /// The destinations behind the labels.
    pub open spec fn destinations(&self, state: UiState) -> Seq<Seq<char>> {
        match self.pane {
            Pane::Conversations => crate::ui::state::conversation_hashes(state.conversations@),
            Pane::Directory => row_hashes(shown_rows(self.filters, state.directory@)),
        }
    }

    pub fn lines(&self, state: &UiState) -> (r: Vec<String>)
        ensures
            text_views(r@) == self.labels(*state),
    {
        let mut out: Vec<String> = Vec::new();
        match self.pane {
            Pane::Conversations => {
                for i in 0..state.conversations.len()
                    invariant
                        out@.len() == i,
                        forall|j: int| 0 <= j < i ==> out@[j]@ == state.conversations@[j].label@,
                {
                    out.push(state.conversations[i].label.clone());
                }
                assert(text_views(out@) =~= conversation_labels(state.conversations@));
            },
            Pane::Directory => {
                let ghost p = |row: DirectoryRow| row_shown(self.filters, row);
                assert(text_views(out@) =~= directory_labels(state.directory@.take(0).filter(p)));
                for i in 0..state.directory.len()
                    invariant
                        p == (|row: DirectoryRow| row_shown(self.filters, row)),
                        text_views(out@) == directory_labels(
                            state.directory@.take(i as int).filter(p),
                        ),
                {
                    let ghost before = out@;
                    proof {
                        assert(state.directory@.take(i + 1).drop_last() =~= state.directory@.take(
                            i as int,
                        ));
                        reveal(Seq::filter);
                    }
                    let shown = match &self.filters {
                        None => true,
                        Some(filters) => filters.includes(state.directory[i].kind),
                    };
                    if shown {
                        out.push(state.directory[i].label.clone());
                        assert(text_views(out@) =~= text_views(before).push(
                            state.directory@[i as int].label@,
                        ));
                        assert(directory_labels(
                            state.directory@.take(i as int).filter(p).push(
                                state.directory@[i as int],
                            ),
                        ) =~= directory_labels(state.directory@.take(i as int).filter(p)).push(
                            state.directory@[i as int].label@,
                        ));
                    }
                }
                assert(state.directory@.take(state.directory@.len() as int) =~= state.directory@);
            },
        }
        out
    }

    pub fn ids(&self, state: &UiState) -> (r: Vec<String>)
        ensures
            text_views(r@) == self.destinations(*state),
    {
        let mut out: Vec<String> = Vec::new();
        match self.pane {
            Pane::Conversations => {
                for i in 0..state.conversations.len()
                    invariant
                        out@.len() == i,
                        forall|j: int|
                            0 <= j < i ==> out@[j]@ == state.conversations@[j].destination_hash@,
                {
                    out.push(state.conversations[i].destination_hash.clone());
                }
                assert(text_views(out@) =~= crate::ui::state::conversation_hashes(
                    state.conversations@,
                ));
            },
            Pane::Directory => {
                let ghost p = |row: DirectoryRow| row_shown(self.filters, row);
                assert(text_views(out@) =~= row_hashes(state.directory@.take(0).filter(p)));
                for i in 0..state.directory.len()
                    invariant
                        p == (|row: DirectoryRow| row_shown(self.filters, row)),
                        text_views(out@) == row_hashes(state.directory@.take(i as int).filter(p)),
                {
                    let ghost before = out@;
                    proof {
                        assert(state.directory@.take(i + 1).drop_last() =~= state.directory@.take(
                            i as int,
                        ));
                        reveal(Seq::filter);
                    }
                    let shown = match &self.filters {
                        None => true,
                        Some(filters) => filters.includes(state.directory[i].kind),
                    };
                    if shown {
                        out.push(state.directory[i].destination_hash.clone());
                        assert(text_views(out@) =~= text_views(before).push(
                            state.directory@[i as int].destination_hash@,
                        ));
                        assert(row_hashes(
                            state.directory@.take(i as int).filter(p).push(
                                state.directory@[i as int],
                            ),
                        ) =~= row_hashes(state.directory@.take(i as int).filter(p)).push(
                            state.directory@[i as int].destination_hash@,
                        ));
                    }
                }
                assert(state.directory@.take(state.directory@.len() as int) =~= state.directory@);
            },
        }
        out
    }

    /// The destination behind the selected row.
    pub open spec fn focused(&self) -> Option<Seq<char>> {
        if self.selected < self.row_ids@.len() {
            Some(self.row_ids@[self.selected as int]@)
        } else {
            None
        }
    }

    pub fn focused_destination(&self) -> (r: Option<String>)
        ensures
            text_view(r) == self.focused(),
    {
        if self.selected < self.row_ids.len() {
            Some(self.row_ids[self.selected].clone())
        } else {
            None
        }
    }

    /// The kind of the selected entry of the directory.
    pub open spec fn focused_kind(&self, state: UiState) -> Option<DirectoryKind> {
        match self.focused() {
            None => None,
            Some(hash) => {
                let n = place_of(row_hashes(state.directory@), hash);
                if n < state.directory@.len() {
                    Some(state.directory@[n as int].kind)
                } else {
                    None
                }
            },
        }
    }

    pub fn focused_directory_kind(&self, state: &UiState) -> (r: Option<DirectoryKind>)
        ensures
            r == self.focused_kind(*state),
    {
        match self.focused_destination() {
            None => None,
            Some(hash) => {
                let i = find_row(&state.directory, hash.as_str());
                if i < state.directory.len() {
                    Some(state.directory[i].kind)
                } else {
                    None
                }
            },
        }
    }

    /// Where the selection goes when the rows change: with its destination, or, if
    /// that is gone, to the same place or the last one.
    pub open spec fn moved_selection(&self, ids: Seq<Seq<char>>) -> int {
        match self.focused() {
            Some(hash) if place_of(ids, hash) < ids.len() => place_of(ids, hash) as int,
            _ => within(self.selected as int, ids.len() as int),
        }
    }

    /// Takes the rows of a new state. Says whether they changed.
    pub fn refresh(&mut self, state: &UiState) -> (r: bool)
        ensures
            r == (!old(self).seeded || text_views(old(self).rows@) != old(self).labels(*state)
                || text_views(old(self).row_ids@) != old(self).destinations(*state)),
            final(self).pane == old(self).pane,
            final(self).filters == old(self).filters,
            final(self).seeded,
            !r ==> *final(self) == *old(self),
            r ==> text_views(final(self).rows@) == old(self).labels(*state) && text_views(
                final(self).row_ids@,
            ) == old(self).destinations(*state) && final(self).selected == old(
                self,
            ).moved_selection(old(self).destinations(*state)),
    {
        let lines = self.lines(state);
        let ids = self.ids(state);
        if self.seeded && same_lists(&self.rows, &lines) && same_lists(&self.row_ids, &ids) {
            return false;
        }
        if let Some(hash) = self.focused_destination() {
            let i = find_text(&ids, hash.as_str());
            self.selected = if i < ids.len() {
                i
            } else {
                place_within(self.selected, ids.len())
            };
        } else {
            self.selected = place_within(self.selected, ids.len());
        }
        self.seeded = true;
        self.rows = lines;
        self.row_ids = ids;
        true
    }

    /// Notes the selected destination in the shared state, where the list has the
    /// focus.
    pub fn note_focus(&self, state: &mut UiState, focused: bool)
        ensures
            !focused || self.focused().is_none() ==> *final(state) == *old(state),
            focused && self.focused().is_some() ==> {
                &&& text_view(final(state).selected_destination_hash) == self.focused()
                &&& self.pane == Pane::Directory ==> text_view(
                    final(state).selected_directory_hash,
                ) == self.focused()
                &&& self.pane != Pane::Directory ==> final(state).selected_directory_hash == old(
                    state,
                ).selected_directory_hash
                &&& *final(state) == (UiState {
                    selected_destination_hash: final(state).selected_destination_hash,
                    selected_directory_hash: final(state).selected_directory_hash,
                    ..*old(state)
                })
            },
    {
        if focused {
            if let Some(hash) = self.focused_destination() {
                if self.pane == Pane::Directory {
                    state.selected_directory_hash = Some(hash.clone());
                }
                state.selected_destination_hash = Some(hash);
            }
        }
    }

    /// What the Enter key opens: by the kind of the selected entry.
    pub fn open_command(&self, state: &UiState) -> (r: Option<OpenCommand>)
        ensures
            r == opened_by(self.pane, self.focused().is_some(), self.focused_kind(*state)),
            r == if self.focused().is_none() {
                None
            } else if self.pane == Pane::Conversations {
                Some(OpenCommand::Conversation)
            } else {
                match self.focused_kind(*state) {
                    Some(DirectoryKind::Peer) => Some(OpenCommand::Conversation),
                    Some(DirectoryKind::Rrc) => Some(OpenCommand::RrcHub),
                    Some(DirectoryKind::Node) => Some(OpenCommand::NodeBrowser),
                    _ => None,
                }
            },
    {
        if self.focused_destination().is_none() {
            return None;
        }
        match self.pane {
            Pane::Conversations => Some(OpenCommand::Conversation),
            Pane::Directory => match self.focused_directory_kind(state) {
                Some(DirectoryKind::Peer) => Some(OpenCommand::Conversation),
                Some(DirectoryKind::Rrc) => Some(OpenCommand::RrcHub),
                Some(DirectoryKind::Node) => Some(OpenCommand::NodeBrowser),
                _ => None,
            },
        }
    }
}

/// However the rows are renamed, filtered or ordered anew, the selected
/// destination stays selected as long as it is among them.
pub proof fn law_selection_follows_identity(
    before: StateList,
    after: StateList,
    ids: Seq<Seq<char>>,
)
    requires
        before.focused().is_some(),
        ids.contains(before.focused().unwrap()),
        text_views(after.row_ids@) == ids,
        after.selected == before.moved_selection(ids),
    ensures
        after.focused() == before.focused(),
{
    let hash = before.focused().unwrap();
    lemma_place_of(ids, hash);
    let n = place_of(ids, hash) as int;
    assert(text_views(after.row_ids@)[n] == after.row_ids@[n]@);
}

} // verus!
