//! The screen of one conversation.
use vstd::prelude::*;
use vstd::string::*;

use crate::browser::{text_view, text_views};
use crate::text::{same_text, trim, trim_text};
use crate::ui::layout::{at_least, at_most, Point, Rect};
use crate::ui::lines::labelled;
use crate::ui::lists::{place_within, within};
use crate::ui::state::{
    clone_texts, conversation_hashes, find_conversation, find_row, place_of, row_hashes,
    SendResult, UiState,
};

verus! {

/// What the history of a conversation shows: its messages, then what went wrong
/// and what is under way.
pub open spec fn history_texts(state: UiState, destination: Seq<char>) -> Seq<Seq<char>> {
    let n = place_of(conversation_hashes(state.conversations@), destination) as int;
    let messages = if n < state.conversations@.len() && state.conversations@[n].messages@.len()
        > 0 {
        text_views(state.conversations@[n].messages@)
    } else {
        seq!["No messages"@]
    };
    messages + (if state.send_errors@.contains_key(destination) {
        seq!["[!] "@ + state.send_errors@[destination]@]
    } else {
        Seq::empty()
    }) + (if state.pending_sends@.contains_key(destination) {
        seq!["[~] Waiting for message to be saved\u{2026}"@]
    } else {
        Seq::empty()
    })
}

pub fn history_lines(state: &UiState, destination: &str) -> (r: Vec<String>)
    requires
        state.wf(),
    ensures
        text_views(r@) == history_texts(*state, destination@),
{
    let n = find_conversation(&state.conversations, destination);
    let mut lines = if n < state.conversations.len() && state.conversations[n].messages.len() > 0 {
        clone_texts(&state.conversations[n].messages)
    } else {
        let mut none: Vec<String> = Vec::new();
        none.push("No messages".to_string());
        assert(text_views(none@) =~= seq!["No messages"@]);
        none
    };
    let ghost messages = text_views(lines@);
    if let Some(error) = state.send_errors.get(destination) {
        lines.push(labelled("[!] ", error.as_str()));
    }
    let ghost errors = if state.send_errors@.contains_key(destination@) {
        seq!["[!] "@ + state.send_errors@[destination@]@]
    } else {
        Seq::empty()
    };
    assert(text_views(lines@) =~= messages + errors);
    if state.pending_sends.contains(destination) {
        lines.push("[~] Waiting for message to be saved\u{2026}".to_string());
    }
    assert(text_views(lines@) =~= history_texts(*state, destination@));
    lines
}

/// Whether `tail` stands at the end of `all`.
pub open spec fn ends_with(all: Seq<Seq<char>>, tail: Seq<Seq<char>>) -> bool {
    tail.len() <= all.len() && all.skip(all.len() - tail.len()) == tail
}

/// A history as it was last shown. `selected` is a place in it, the first where it
/// is empty.
#[derive(Debug)]
pub struct ConversationHistory {
    pub destination_hash: String,
    pub seeded: bool,
    pub lines: Vec<String>,
    pub selected: usize,
}

/// Where a reader is after the lines changed: at the end, if they were there or
/// nothing was shown yet; else with the line they were at, also where older ones
/// came before it.
pub open spec fn reading_place(
    seeded: bool,
    shown: Seq<Seq<char>>,
    selected: usize,
    lines: Seq<Seq<char>>,
) -> int {
    let follows = !seeded || selected + 1 >= shown.len();
    let older = if lines.len() > shown.len() && ends_with(lines, shown) {
        lines.len() - shown.len()
    } else {
        0
    };
    if follows && lines.len() > 0 {
        lines.len() - 1
    } else {
        within(selected + older, lines.len() as int)
    }
}

fn tail_matches(lines: &Vec<String>, shown: &Vec<String>) -> (r: bool)
    ensures
        r == ends_with(text_views(lines@), text_views(shown@)),
{
    if shown.len() > lines.len() {
        return false;
    }
    let total: usize = lines.len();
    let offset: usize = total - shown.len();
    let ghost tail = text_views(lines@).skip(offset as int);
    for i in 0..shown.len()
        invariant
            total == lines@.len(),
            offset + shown@.len() == total,
            tail == text_views(lines@).skip(offset as int),
            forall|j: int| 0 <= j < i ==> #[trigger] tail[j] == shown@[j]@,
    {
        proof {
            assert(tail[i as int] == lines@[offset + i]@);
            assert(offset + i < lines@.len());
        }
        if !same_text(lines[offset + i].as_str(), shown[i].as_str()) {
            assert(text_views(shown@)[i as int] != tail[i as int]);
            return false;
        }
    }
    assert(tail =~= text_views(shown@));
    true
}

fn same_lines(a: &Vec<String>, b: &Vec<String>) -> (r: bool)
    ensures
        r == (text_views(a@) == text_views(b@)),
{
    let r = a.len() == b.len() && tail_matches(a, b);
    proof {
        if a@.len() == b@.len() {
            assert(text_views(a@).skip(0) =~= text_views(a@));
        } else {
            assert(text_views(a@).len() != text_views(b@).len());
        }
    }
    r
}

impl ConversationHistory {
    pub fn new(destination_hash: String) -> (r: Self)
        ensures
            r.destination_hash == destination_hash,
            !r.seeded,
            r.lines@.len() == 0,
            r.selected == 0,
    {
        ConversationHistory { destination_hash, seeded: false, lines: Vec::new(), selected: 0 }
    }

    /// What the history shows.
    pub fn lines(&self, state: &UiState) -> (r: Vec<String>)
        requires
            state.wf(),
        ensures
            text_views(r@) == history_texts(*state, self.destination_hash@),
    {
        history_lines(state, self.destination_hash.as_str())
    }

    /// Takes the lines of a new state. Says whether they changed.
    pub fn refresh(&mut self, state: &UiState) -> (r: bool)
        requires
            state.wf(),
        ensures
            ({
                let lines = history_texts(*state, old(self).destination_hash@);
                let shown = text_views(old(self).lines@);
                &&& r == (!old(self).seeded || shown != lines)
                &&& !r ==> *final(self) == *old(self)
                &&& r ==> text_views(final(self).lines@) == lines && final(self).selected == reading_place(old(self).seeded, shown, old(self).selected, lines)
            }),
            final(self).seeded,
            final(self).destination_hash == old(self).destination_hash,
    {
        let lines = self.lines(state);
        if self.seeded && same_lines(&self.lines, &lines) {
            return false;
        }
        let follows = !self.seeded || self.selected >= self.lines.len() || self.selected + 1
            >= self.lines.len();
        if follows && lines.len() > 0 {
            self.selected = lines.len() - 1;
        } else if !follows && lines.len() > self.lines.len() && tail_matches(
            &lines,
            &self.lines,
        ) {
            self.selected = self.selected + (lines.len() - self.lines.len());
        } else {
            self.selected = place_within(self.selected, lines.len());
        }
        self.seeded = true;
        self.lines = lines;
        true
    }

    /// Whether the Page-Up key asks for older messages: at the first line.
    pub fn wants_older(&self) -> (r: bool)
        ensures
            r == (self.selected == 0),
    {
        self.selected == 0
    }
}

/// The title of a conversation's window.
pub open spec fn window_title(state: UiState, destination: Seq<char>) -> Seq<char> {
    let n = place_of(conversation_hashes(state.conversations@), destination) as int;
    let m = place_of(row_hashes(state.directory@), destination) as int;
    "LXMF Conversation \u{2014} "@ + if n < state.conversations@.len() {
        state.conversations@[n].title@
    } else if m < state.directory@.len() {
        state.directory@[m].title@
    } else {
        destination
    }
}

pub fn conversation_window_title(state: &UiState, destination: &str) -> (r: String)
    ensures
        r@ == window_title(*state, destination@),
{
    let n = find_conversation(&state.conversations, destination);
    if n < state.conversations.len() {
        return labelled("LXMF Conversation \u{2014} ", state.conversations[n].title.as_str());
    }
    let m = find_row(&state.directory, destination);
    if m < state.directory.len() {
        return labelled("LXMF Conversation \u{2014} ", state.directory[m].title.as_str());
    }
    labelled("LXMF Conversation \u{2014} ", destination)
}

/// The extent of a window in the middle of a desktop: as large as it would like to
/// be where there is room for it and a margin, but never smaller than it can be.
pub open spec fn centred(from: int, to: int, wanted: int, least: int) -> (int, int) {
    let size = at_least(at_most(wanted, to - from - 2), least);
    let start = from + at_least((to - from - size) / 2, 0);
    (start, start + size)
}

fn centre(from: i32, to: i32, wanted: i32, least: i32) -> (r: (i32, i32))
    requires
        i32::MIN <= to - from - 2,
        to - from <= i32::MAX,
        0 <= least,
        centred(from as int, to as int, wanted as int, least as int).1 <= i32::MAX,
    ensures
        (r.0 as int, r.1 as int) == centred(from as int, to as int, wanted as int, least as int),
{
    let space: i32 = to - from - 2;
    let fitting: i32 = if wanted > space {
        space
    } else {
        wanted
    };
    let size: i32 = if fitting < least {
        least
    } else {
        fitting
    };
    let left: i32 = if to - from > size {
        (to - from - size) / 2
    } else {
        0
    };
    (from + left, from + left + size)
}

/// The place of a new window in the middle of a desktop.
pub fn centred_window(desktop: Rect, wanted: Point, least: Point) -> (r: Rect)
    requires
        i32::MIN <= desktop.b.x - desktop.a.x - 2,
        i32::MIN <= desktop.b.y - desktop.a.y - 2,
        desktop.b.x - desktop.a.x <= i32::MAX,
        desktop.b.y - desktop.a.y <= i32::MAX,
        0 <= least.x,
        0 <= least.y,
        centred(
            desktop.a.x as int,
            desktop.b.x as int,
            wanted.x as int,
            least.x as int,
        ).1 <= i32::MAX,
        centred(
            desktop.a.y as int,
            desktop.b.y as int,
            wanted.y as int,
            least.y as int,
        ).1 <= i32::MAX,
    ensures
        (r.a.x as int, r.b.x as int) == centred(
            desktop.a.x as int,
            desktop.b.x as int,
            wanted.x as int,
            least.x as int,
        ),
        (r.a.y as int, r.b.y as int) == centred(
            desktop.a.y as int,
            desktop.b.y as int,
            wanted.y as int,
            least.y as int,
        ),
{
    let (left, right) = centre(desktop.a.x, desktop.b.x, wanted.x, least.x);
    let (top, bottom) = centre(desktop.a.y, desktop.b.y, wanted.y, least.y);
    Rect { a: Point { x: left, y: top }, b: Point { x: right, y: bottom } }
}

/// The message to hand over: what was written, without surrounding space. Nothing
/// is sent while it is empty or the last message is still under way.
pub open spec fn composed(state: UiState, destination: Seq<char>, content: Seq<char>) -> Option<
    Seq<char>,
> {
    if trim(content).len() == 0 || state.pending_sends@.contains_key(destination) {
        None
    } else {
        Some(trim(content))
    }
}

pub fn compose(state: &UiState, destination: &str, content: &str) -> (r: Option<String>)
    requires
        state.wf(),
    ensures
        text_view(r) == composed(*state, destination@, content@),
{
    let message = trim_text(content);
    if message.as_str().is_empty() || state.pending_sends.contains(destination) {
        None
    } else {
        Some(message)
    }
}

/// Notes that a message was handed over, or that it could not be.
pub fn note_sent(state: &mut UiState, destination: String, message: String, handed_over: bool)
    requires
        old(state).wf(),
    ensures
        final(state).wf(),
        handed_over ==> final(state).pending_sends@ == old(state).pending_sends@.insert(
            destination@,
            message,
        ) && *final(state) == (UiState {
            pending_sends: final(state).pending_sends,
            ..*old(state)
        }),
        !handed_over ==> final(state).send_errors@.contains_key(destination@) && final(state).send_errors@[destination@]@ == "Application worker stopped"@ && final(state).send_errors@.remove(destination@) == old(state).send_errors@.remove(destination@)
            && *final(state) == (UiState {
            send_errors: final(state).send_errors,
            ..*old(state)
        }),
{
    if handed_over {
        state.pending_sends.insert(destination, message);
    } else {
        let ghost before = state.send_errors@;
        let text = "Application worker stopped".to_string();
        state.send_errors.insert(destination, text);
        assert(before.insert(destination@, text).remove(destination@) =~= before.remove(
            destination@,
        ));
    }
}

/// What stays of what is typed once it is known what became of a message: nothing of
/// what was sent, and all of anything else.
pub open spec fn left_to_send(result: Option<SendResult>, content: Seq<char>) -> Seq<char> {
    match result {
        Some(result) => if result.error.is_none() && trim(content) == result.content@ {
            Seq::empty()
        } else {
            content
        },
        None => content,
    }
}

pub open spec fn result_for(results: Map<Seq<char>, SendResult>, destination: Seq<char>) -> Option<
    SendResult,
> {
    if results.contains_key(destination) {
        Some(results[destination])
    } else {
        None
    }
}

/// Takes the result of a message. What was written goes only where it was accepted
/// and not changed since.
pub fn acknowledge(state: &mut UiState, destination: &str, content: &mut String)
    requires
        old(state).wf(),
    ensures
        final(content)@ == left_to_send(
            result_for(old(state).send_results@, destination@),
            old(content)@,
        ),
        final(state).wf(),
        final(state).send_results@ == old(state).send_results@.remove(destination@),
        *final(state) == (UiState { send_results: final(state).send_results, ..*old(state) }),
        final(content)@ == if old(state).send_results@.contains_key(destination@) && old(state).send_results@[destination@].error.is_none() && trim(old(content)@) == old(state).send_results@[destination@].content@ {
            Seq::<char>::empty()
        } else {
            old(content)@
        },
{
    if let Some(result) = state.send_results.remove(destination) {
        if result.error.is_none() && same_text(
            trim_text(content.as_str()).as_str(),
            result.content.as_str(),
        ) {
            *content = String::new();
            assert(content@ =~= Seq::<char>::empty());
        }
    }
}

/// What a request to clear a history leads to.
#[derive(Debug, Clone, Copy, PartialEq, Eq, Structural)]
pub enum ClearStep {
    /// One is under way already.
    Ignore,
    /// Not while a message is under way; the screen says so.
    Refuse,
    /// Ask for it.
    Ask,
}

/// Whether a history may be cleared: not while it is being cleared, and not while a
/// message is being sent.
pub open spec fn clear_step_for(clearing: bool, sending: bool) -> ClearStep {
    if clearing {
        ClearStep::Ignore
    } else if sending {
        ClearStep::Refuse
    } else {
        ClearStep::Ask
    }
}

pub fn clear_history(state: &mut UiState, destination: &str, clearing: bool) -> (r: ClearStep)
    requires
        old(state).wf(),
    ensures
        r == clear_step_for(clearing, old(state).pending_sends@.contains_key(destination@)),
        final(state).wf(),
        r == if clearing {
            ClearStep::Ignore
        } else if old(state).pending_sends@.contains_key(destination@) {
            ClearStep::Refuse
        } else {
            ClearStep::Ask
        },
        r != ClearStep::Refuse ==> *final(state) == *old(state),
        r == ClearStep::Refuse ==> final(state).send_errors@.contains_key(destination@) && final(state).send_errors@[destination@]@ == "Cannot clear history while sending a message"@
            && final(state).send_errors@ == old(state).send_errors@.insert(
            destination@,
            final(state).send_errors@[destination@],
        ) && *final(state) == (UiState {
            send_errors: final(state).send_errors,
            ..*old(state)
        }),
{
    if clearing {
        return ClearStep::Ignore;
    }
    if state.pending_sends.contains(destination) {
        state.send_errors.insert(
            destination.to_string(),
            "Cannot clear history while sending a message".to_string(),
        );
        return ClearStep::Refuse;
    }
    ClearStep::Ask
}

/// What became of a request to clear a history.
#[derive(Debug)]
pub enum ClearReply {
    Cleared,
    Refused(String),
    /// Nobody was there to ask.
    NotSent,
    /// Nobody answered.
    Dropped,
}

pub open spec fn clear_error(reply: ClearReply) -> Option<Seq<char>> {
    match reply {
        ClearReply::Cleared => None,
        ClearReply::Refused(error) => Some("Clear history: "@ + error@),
        ClearReply::NotSent => Some("Clear history: application worker stopped"@),
        ClearReply::Dropped => Some("Clear history: Application worker stopped"@),
    }
}

/// Notes what became of a request to clear a history.
pub fn note_cleared(state: &mut UiState, destination: &str, reply: ClearReply)
    requires
        old(state).wf(),
    ensures
        final(state).wf(),
        clear_error(reply).is_none() ==> final(state).send_errors@ == old(state).send_errors@.remove(destination@),
        clear_error(reply).is_some() ==> final(state).send_errors@.contains_key(destination@)
            && final(state).send_errors@[destination@]@ == clear_error(reply).unwrap(),
        final(state).send_errors@.remove(destination@) == old(state).send_errors@.remove(
            destination@,
        ),
        *final(state) == (UiState { send_errors: final(state).send_errors, ..*old(state) }),
{
    let ghost before = state.send_errors@;
    match reply {
        ClearReply::Cleared => {
            let _ = state.send_errors.remove(destination);
            assert(before.remove(destination@).remove(destination@) =~= before.remove(
                destination@,
            ));
        },
        ClearReply::Refused(error) => {
            let text = labelled("Clear history: ", error.as_str());
            state.send_errors.insert(destination.to_string(), text);
            assert(before.insert(destination@, text).remove(destination@) =~= before.remove(
                destination@,
            ));
        },
        ClearReply::NotSent => {
            let text = "Clear history: application worker stopped".to_string();
            state.send_errors.insert(destination.to_string(), text);
            assert(before.insert(destination@, text).remove(destination@) =~= before.remove(
                destination@,
            ));
        },
        ClearReply::Dropped => {
            let text = "Clear history: Application worker stopped".to_string();
            state.send_errors.insert(destination.to_string(), text);
            assert(before.insert(destination@, text).remove(destination@) =~= before.remove(
                destination@,
            ));
        },
    }
}

/// The draft of a conversation whose window is opened.
pub fn draft_of(state: &UiState, destination: &str) -> (r: String)
    requires
        state.wf(),
    ensures
        r@ == if state.drafts@.contains_key(destination@) {
            state.drafts@[destination@]@
        } else {
            Seq::<char>::empty()
        },
{
    match state.drafts.get(destination) {
        Some(draft) => draft.clone(),
        None => {
            let none = String::new();
            assert(none@ =~= Seq::<char>::empty());
            none
        },
    }
}

/// Keeps the draft of a conversation whose window is closed.
pub fn keep_draft(state: &mut UiState, destination: String, content: String)
    requires
        old(state).wf(),
    ensures
        final(state).wf(),
        final(state).drafts@ == old(state).drafts@.insert(destination@, content),
        *final(state) == (UiState { drafts: final(state).drafts, ..*old(state) }),
{
    state.drafts.insert(destination, content);
}

/// A reader is always at a line. Who does not read at the end keeps their place by
/// number where nothing came before it, and is at the last line where the lines got
/// too few for that.
pub proof fn law_reading_place_is_a_line(
    seeded: bool,
    shown: Seq<Seq<char>>,
    place: usize,
    lines: Seq<Seq<char>>,
)
    requires
        lines.len() > 0,
    ensures
        0 <= reading_place(seeded, shown, place, lines) < lines.len(),
        seeded && place + 1 < shown.len() && lines.len() <= shown.len() ==> reading_place(
            seeded,
            shown,
            place,
            lines,
        ) == if place < lines.len() {
            place as int
        } else {
            lines.len() - 1
        },
{
}

/// Who reads at the end stays at the end; who reads elsewhere stays at their line,
/// whether lines come after the others or before them. Lines that come after are taken
/// for others before where the shown ones end the new ones as well.
pub proof fn law_reading_place_is_kept(
    shown: Seq<Seq<char>>,
    place: usize,
    older: Seq<Seq<char>>,
    newer: Seq<Seq<char>>,
)
    requires
        older.len() == 0 || newer.len() == 0,
        newer.len() > 0 ==> !ends_with(older + shown + newer, shown),
    ensures
        ({
            let lines = older + shown + newer;
            let after = reading_place(true, shown, place, lines);
            &&& place + 1 < shown.len() ==> lines[after] == shown[place as int]
            &&& place + 1 >= shown.len() && lines.len() > 0 ==> after == lines.len() - 1
        }),
{
    let lines = older + shown + newer;
    if older.len() > 0 {
        assert(lines =~= older + shown);
        assert(lines.skip(older.len() as int) =~= shown);
    } else {
        assert(lines =~= shown + newer);
    }
}

} // verus!
