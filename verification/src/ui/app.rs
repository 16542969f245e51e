//! The terminal application: what its commands open, and where.
use vstd::prelude::*;
use vstd::slice::*;
use vstd::string::*;

use crate::attachments::{offer_views, FileOffer};
use crate::browser::{clone_text, text_view, text_views};
use crate::models::{ConversationSummary, DirectoryEntry, NetworkSnapshot};
use crate::table::TextMap;
use crate::text::{chars_of, find_char, find_in, lemma_find_char, same_text, string_of};
use crate::ui::conversation::{compose, composed};
use crate::ui::conversations::{is_conversation_row, rows_with_directory};
use crate::ui::files::{review, unseen};
use crate::ui::layout::{window_keys, Layout, Point, Rect, SavedWindow};
use crate::ui::lines::{directory_lines, is_row_of, labelled, network_lines, network_texts};
use crate::ui::state::{
    selected_destination, selected_in, SendResult, UiState, MAX_DIRECTORY_ROWS,
};
use crate::ui::windows::WindowRegistry;

verus! {

/// The commands of the application.
#[derive(Debug, Clone, Copy, PartialEq, Eq, Structural)]
pub enum AppCommand {
    Announce,
    Rename,
    ReviewFiles,
    SendFile,
    OpenConversations,
    OpenNetwork,
    OpenDirectory,
    SendMessage,
    LoadOlder,
    OpenConversation,
    OpenRrcHub,
    OpenNodeBrowser,
}

/// What a command leads to.
#[derive(Debug)]
pub enum AppAction {
    Nothing,
    /// Announce under the name there is.
    Announce,
    /// Ask for a name, then announce under it.
    AskName { initial: String },
    /// Prompt for files that arrived.
    Prompt(Vec<FileOffer>),
    /// Ask for a file to send to a peer.
    PickFile { destination: String },
    /// Open one of the main windows.
    OpenMain { key: String },
    /// Read older messages of a conversation.
    LoadOlder { destination: String },
    /// Hand over a message.
    Send { destination: String, message: String },
    /// Say that a peer has to be selected first.
    NoPeer,
    OpenConversation { key: String, destination: String },
    OpenRrcHub { key: String, destination: String },
    OpenNodeBrowser { key: String, destination: String },
}

/// What is being written, and to whom.
#[derive(Debug)]
pub struct Composer {
    pub destination: String,
    pub content: String,
}

pub open spec fn main_key(command: AppCommand) -> Option<Seq<char>> {
    match command {
        AppCommand::OpenConversations => Some("conversations"@),
        AppCommand::OpenNetwork => Some("network"@),
        AppCommand::OpenDirectory => Some("directory"@),
        _ => None,
    }
}

/// The windows of the application.
#[derive(Debug)]
pub struct Desk {
    pub state: UiState,
    pub layout: Layout,
    pub windows: WindowRegistry,
    pub prompted: TextMap<()>,
    pub composer: Option<Composer>,
}

/// The prefix of the key of a window that a command opens.
pub open spec fn target_prefix(command: AppCommand) -> Seq<char> {
    match command {
        AppCommand::OpenConversation => "lxmf:"@,
        AppCommand::OpenRrcHub => "rrc:"@,
        _ => "node:"@,
    }
}

/// What a command that opens the window of a destination leads to.
pub open spec fn opens_target(
    before: Desk,
    command: AppCommand,
    after: Desk,
    action: AppAction,
) -> bool {
    match selected_in(before.state) {
        None => {
            &&& after == before
            &&& if command == AppCommand::OpenConversation {
                action is NoPeer
            } else {
                action is Nothing
            }
        },
        Some(hash) => {
            let key = target_prefix(command) + hash;
            if before.windows.keys@.contains_key(key) {
                &&& action is Nothing
                &&& text_view(after.windows.focus) == Some(key)
                &&& after == (Desk {
                    windows: WindowRegistry { focus: after.windows.focus, ..before.windows },
                    ..before
                })
            } else {
                match action {
                    AppAction::OpenConversation { key: opened, destination } => command
                        == AppCommand::OpenConversation && opened@ == key && destination@ == hash
                        && after == before,
                    AppAction::OpenRrcHub { key: opened, destination } => {
                        &&& command == AppCommand::OpenRrcHub
                        &&& opened@ == key
                        &&& destination@ == hash
                        &&& after.state.directory_views@.contains_key(key)
                        &&& text_views(after.state.directory_views@[key]@) == seq![
                            "Loading\u{2026}"@,
                        ]
                        &&& after.state.directory_views@ == before.state.directory_views@.insert(
                            key,
                            after.state.directory_views@[key],
                        )
                        &&& after == (Desk {
                            state: UiState {
                                directory_views: after.state.directory_views,
                                ..before.state
                            },
                            ..before
                        })
                    },
                    AppAction::OpenNodeBrowser { key: opened, destination } => command
                        == AppCommand::OpenNodeBrowser && opened@ == key && destination@ == hash
                        && after == before,
                    _ => false,
                }
            }
        },
    }
}

/// What a command leads to.
pub open spec fn dispatched(
    before: Desk,
    command: AppCommand,
    after: Desk,
    action: AppAction,
) -> bool {
    match command {
        AppCommand::Announce => {
            &&& action is Announce
            &&& after.state.announce_status@ == "Announcing\u{2026}"@
            &&& after == (Desk {
                state: UiState { announce_status: after.state.announce_status, ..before.state },
                ..before
            })
        },
        AppCommand::Rename => action matches AppAction::AskName { initial } && initial@
            == before.state.announce_name@ && after == before,
        AppCommand::ReviewFiles => {
            let offers = offer_views(before.state.file_offers@);
            &&& action matches AppAction::Prompt(prompts) && offer_views(prompts@) == unseen(
                offers,
                before.prompted@.dom(),
            )
            &&& forall|id: Seq<char>| #[trigger]
                after.prompted@.contains_key(id) <==> crate::ui::files::is_offered(offers, id)
            &&& after == (Desk { prompted: after.prompted, ..before })
        },
        AppCommand::SendFile => {
            &&& after == before
            &&& match before.composer {
                Some(composer) => action matches AppAction::PickFile { destination } && destination@
                    == composer.destination@,
                None => action is Nothing,
            }
        },
        AppCommand::LoadOlder => {
            &&& after == before
            &&& match before.composer {
                Some(composer) => action matches AppAction::LoadOlder { destination }
                    && destination@ == composer.destination@,
                None => action is Nothing,
            }
        },
        AppCommand::SendMessage => {
            &&& after == before
            &&& match before.composer {
                Some(composer) => match composed(
                    before.state,
                    composer.destination@,
                    composer.content@,
                ) {
                    Some(text) => action matches AppAction::Send { destination, message }
                        && destination@ == composer.destination@ && message@ == text,
                    None => action is Nothing,
                },
                None => action is Nothing,
            }
        },
        AppCommand::OpenConversation => opens_target(before, command, after, action),
        AppCommand::OpenRrcHub => opens_target(before, command, after, action),
        AppCommand::OpenNodeBrowser => opens_target(before, command, after, action),
        _ => {
            let key = main_key(command).unwrap();
            if window_keys(before.layout.windows@).contains(key) {
                &&& action is Nothing
                &&& text_view(after.layout.requested_focus) == Some(key)
                &&& after == (Desk {
                    layout: Layout {
                        requested_focus: after.layout.requested_focus,
                        ..before.layout
                    },
                    ..before
                })
            } else {
                &&& action matches AppAction::OpenMain { key: opened } && opened@ == key
                &&& after == before
            }
        },
    }
}

impl Desk {
    pub open spec fn wf(&self) -> bool {
        self.state.wf() && self.windows.wf() && self.prompted.wf()
    }

    pub fn new(state: UiState) -> (r: Self)
        requires
            state.wf(),
        ensures
            r.wf(),
            r.state == state,
            r.layout.windows@.len() == 0,
            r.layout.active.is_none(),
            r.layout.requested_focus.is_none(),
            r.layout.version == 1,
            r.windows.focus.is_none(),
            r.windows.keys@ == Map::<Seq<char>, ()>::empty(),
            r.prompted@ == Map::<Seq<char>, ()>::empty(),
            r.composer.is_none(),
    {
        Desk {
            state,
            layout: Layout::default(),
            windows: WindowRegistry::new(),
            prompted: TextMap::new(),
            composer: None,
        }
    }

    fn open_main(&mut self, key: &str) -> (r: AppAction)
        requires
            old(self).wf(),
        ensures
            final(self).wf(),
            window_keys(old(self).layout.windows@).contains(key@) ==> r is Nothing && text_view(
                final(self).layout.requested_focus,
            ) == Some(key@) && *final(self) == (Desk {
                layout: Layout {
                    requested_focus: final(self).layout.requested_focus,
                    ..old(self).layout
                },
                ..*old(self)
            }),
            !window_keys(old(self).layout.windows@).contains(key@) ==> (r matches
                AppAction::OpenMain { key: opened } && opened@ == key@) && *final(self) == *old(self),
    {
        if self.layout.focus_existing(key) {
            AppAction::Nothing
        } else {
            AppAction::OpenMain { key: key.to_string() }
        }
    }

    fn open_target(&mut self, command: AppCommand) -> (r: AppAction)
        requires
            old(self).wf(),
            command == AppCommand::OpenConversation || command == AppCommand::OpenRrcHub || command
                == AppCommand::OpenNodeBrowser,
        ensures
            final(self).wf(),
            opens_target(*old(self), command, *final(self), r),
    {
        let destination = match selected_destination(&self.state) {
            Some(destination) => destination,
            None => {
                return if command == AppCommand::OpenConversation {
                    AppAction::NoPeer
                } else {
                    AppAction::Nothing
                };
            },
        };
        let prefix = if command == AppCommand::OpenConversation {
            "lxmf:"
        } else if command == AppCommand::OpenRrcHub {
            "rrc:"
        } else {
            "node:"
        };
        let key = labelled(prefix, destination.as_str());
        if self.windows.focus_existing(key.as_str()) {
            return AppAction::Nothing;
        }
        if command == AppCommand::OpenConversation {
            AppAction::OpenConversation { key, destination }
        } else if command == AppCommand::OpenRrcHub {
            let mut lines: Vec<String> = Vec::new();
            lines.push("Loading\u{2026}".to_string());
            assert(text_views(lines@) =~= seq!["Loading\u{2026}"@]);
            self.state.directory_views.insert(key.clone(), lines);
            AppAction::OpenRrcHub { key, destination }
        } else {
            AppAction::OpenNodeBrowser { key, destination }
        }
    }

    /// Decides on what a command leads to.
    pub fn dispatch(&mut self, command: AppCommand) -> (r: AppAction)
        requires
            old(self).wf(),
        ensures
            final(self).wf(),
            dispatched(*old(self), command, *final(self), r),
    {
        match command {
            AppCommand::Announce => {
                self.state.announce_status = "Announcing\u{2026}".to_string();
                AppAction::Announce
            },
            AppCommand::Rename => AppAction::AskName { initial: self.state.announce_name.clone() },
            AppCommand::ReviewFiles => AppAction::Prompt(
                review(&mut self.prompted, &self.state.file_offers),
            ),
            AppCommand::SendFile => match &self.composer {
                Some(composer) => AppAction::PickFile { destination: composer.destination.clone() },
                None => AppAction::Nothing,
            },
            AppCommand::LoadOlder => match &self.composer {
                Some(composer) => AppAction::LoadOlder { destination: composer.destination.clone() },
                None => AppAction::Nothing,
            },
            AppCommand::SendMessage => match &self.composer {
                Some(composer) => match compose(
                    &self.state,
                    composer.destination.as_str(),
                    composer.content.as_str(),
                ) {
                    Some(message) => AppAction::Send {
                        destination: composer.destination.clone(),
                        message,
                    },
                    None => AppAction::Nothing,
                },
                None => AppAction::Nothing,
            },
            AppCommand::OpenConversations => self.open_main("conversations"),
            AppCommand::OpenNetwork => self.open_main("network"),
            AppCommand::OpenDirectory => self.open_main("directory"),
            AppCommand::OpenConversation => self.open_target(command),
            AppCommand::OpenRrcHub => self.open_target(command),
            AppCommand::OpenNodeBrowser => self.open_target(command),
        }
    }

    /// Notes that the name was entered and the announce handed over, or not.
    pub fn announced(&mut self, handed_over: bool)
        requires
            old(self).wf(),
        ensures
            final(self).wf(),
            final(self).state.announce_status@ == if handed_over {
                "Announcing\u{2026}"@
            } else {
                "Announce failed: service stopped"@
            },
            *final(self) == (Desk {
                state: UiState {
                    announce_status: final(self).state.announce_status,
                    ..old(self).state
                },
                ..*old(self)
            }),
    {
        self.state.announce_status = if handed_over {
            "Announcing\u{2026}".to_string()
        } else {
            "Announce failed: service stopped".to_string()
        };
    }
}

/// What kind of window is restored.
#[derive(Debug, Clone, Copy, PartialEq, Eq, Structural)]
pub enum RestoredKind {
    Conversation,
    Browser,
    RrcHub,
}

/// A window of a destination that was open when the application was left.
#[derive(Debug)]
pub struct RestoredWindow {
    pub kind: RestoredKind,
    pub key: String,
    pub destination: String,
    pub url: Option<String>,
}

/// The kind of window behind a key; none for the main windows.
pub open spec fn restored_kind(key: Seq<char>) -> Option<RestoredKind> {
    let n = find_char(key, ':') as int;
    if n >= key.len() {
        None
    } else if key.take(n) == "lxmf"@ {
        Some(RestoredKind::Conversation)
    } else if key.take(n) == "node"@ {
        Some(RestoredKind::Browser)
    } else if key.take(n) == "rrc"@ {
        Some(RestoredKind::RrcHub)
    } else {
        None
    }
}

pub open spec fn is_restored(window: SavedWindow, restored: RestoredWindow) -> bool {
    &&& restored_kind(window.key@) == Some(restored.kind)
    &&& restored.key@ == window.key@
    &&& restored.destination@ == window.key@.skip(find_char(window.key@, ':') as int + 1)
    &&& text_view(restored.url) == text_view(window.url)
}

pub open spec fn restorable(windows: Seq<SavedWindow>) -> Seq<SavedWindow> {
    windows.filter(|window: SavedWindow| restored_kind(window.key@).is_some())
}

fn restore(window: &SavedWindow) -> (r: Option<RestoredWindow>)
    ensures
        r.is_some() == restored_kind(window.key@).is_some(),
        r.is_some() ==> is_restored(*window, r.unwrap()),
{
    let letters = chars_of(window.key.as_str());
    proof {
        lemma_find_char(letters@, ':');
    }
    let n: usize = find_in(&letters, ':');
    if n >= letters.len() {
        return None;
    }
    let head = slice_subrange(&letters, 0, n);
    let tail = slice_subrange(&letters, n + 1, letters.len());
    assert(head@ =~= window.key@.take(n as int));
    assert(tail@ =~= window.key@.skip(n + 1));
    let word = string_of(head);
    let kind = if same_text(word.as_str(), "lxmf") {
        RestoredKind::Conversation
    } else if same_text(word.as_str(), "node") {
        RestoredKind::Browser
    } else if same_text(word.as_str(), "rrc") {
        RestoredKind::RrcHub
    } else {
        return None;
    };
    Some(
        RestoredWindow {
            kind,
            key: window.key.clone(),
            destination: string_of(tail),
            url: clone_text(&window.url),
        },
    )
}

/// The windows of destinations that are opened again, in order.
pub fn restore_windows(layout: &Layout) -> (r: Vec<RestoredWindow>)
    ensures
        r@.len() == restorable(layout.windows@).len(),
        forall|i: int|
            0 <= i < r@.len() ==> is_restored(restorable(layout.windows@)[i], #[trigger] r@[i]),
{
    let ghost p = |window: SavedWindow| restored_kind(window.key@).is_some();
    let ghost all = layout.windows@;
    let mut out: Vec<RestoredWindow> = Vec::new();
    assert(all.take(0).filter(p) =~= Seq::empty());
    for i in 0..layout.windows.len()
        invariant
            p == (|window: SavedWindow| restored_kind(window.key@).is_some()),
            all == layout.windows@,
            out@.len() == all.take(i as int).filter(p).len(),
            forall|j: int|
                0 <= j < out@.len() ==> is_restored(
                    all.take(i as int).filter(p)[j],
                    #[trigger] out@[j],
                ),
    {
        proof {
            assert(all.take(i + 1).drop_last() =~= all.take(i as int));
            reveal(Seq::filter);
        }
        if let Some(restored) = restore(&layout.windows[i]) {
            out.push(restored);
        }
    }
    assert(all.take(layout.windows@.len() as int) =~= all);
    out
}

/// Whether a main window is open at the start: without a saved layout they all are.
pub fn opens_at_start(saved: &Option<Layout>, key: &str) -> (r: bool)
    ensures
        r == match *saved {
            Some(layout) => window_keys(layout.windows@).contains(key@),
            None => true,
        },
{
    match saved {
        None => true,
        Some(layout) => {
            for i in 0..layout.windows.len()
                invariant
                    *saved == Some(*layout),
                    forall|j: int|
                        0 <= j < i ==> #[trigger] window_keys(layout.windows@)[j] != key@,
            {
                if same_text(layout.windows[i].key.as_str(), key) {
                    assert(window_keys(layout.windows@)[i as int] == key@);
                    return true;
                }
            }
            false
        },
    }
}

/// The main windows.
#[derive(Debug, Clone, Copy, PartialEq, Eq, Structural)]
pub enum MainWindow {
    Conversations,
    Network,
    Directory,
}

/// Half of a number, toward zero.
pub open spec fn half(n: int) -> int {
    if n < 0 {
        -((-n) / 2)
    } else {
        n / 2
    }
}

fn half_of(n: i32) -> (r: i32)
    ensures
        r == half(n as int),
{
    if n < 0 {
        let away: i64 = -(n as i64);
        -((away / 2) as i32)
    } else {
        n / 2
    }
}

/// Where the main windows are at first: the conversations on the left, the network
/// above the directory on the right.
pub fn main_window_rect(bounds: Rect, window: MainWindow) -> (r: Rect)
    requires
        i32::MIN <= bounds.b.x - bounds.a.x <= i32::MAX,
        i32::MIN <= bounds.b.y - bounds.a.y <= i32::MAX,
        bounds.a.x < i32::MAX,
        bounds.a.y < i32::MAX,
        i32::MIN < bounds.b.x,
        i32::MIN < bounds.b.y,
    ensures
        ({
            let left = bounds.a.x + 1;
            let top = bounds.a.y + 1;
            let middle = left + half(bounds.b.x - bounds.a.x);
            let split = top + half(bounds.b.y - bounds.a.y);
            match window {
                MainWindow::Conversations => r.a.x == left && r.a.y == top && r.b.x == middle
                    && r.b.y == bounds.b.y - 1,
                MainWindow::Network => r.a.x == middle && r.a.y == top && r.b.x == bounds.b.x - 1
                    && r.b.y == split,
                MainWindow::Directory => r.a.x == middle && r.a.y == split && r.b.x == bounds.b.x
                    - 1 && r.b.y == bounds.b.y - 1,
            }
        }),
{
    let left: i32 = bounds.a.x + 1;
    let top: i32 = bounds.a.y + 1;
    let middle: i32 = left + half_of(bounds.b.x - bounds.a.x);
    let split: i32 = top + half_of(bounds.b.y - bounds.a.y);
    match window {
        MainWindow::Conversations => Rect {
            a: Point { x: left, y: top },
            b: Point { x: middle, y: bounds.b.y - 1 },
        },
        MainWindow::Network => Rect {
            a: Point { x: middle, y: top },
            b: Point { x: bounds.b.x - 1, y: split },
        },
        MainWindow::Directory => Rect {
            a: Point { x: middle, y: split },
            b: Point { x: bounds.b.x - 1, y: bounds.b.y - 1 },
        },
    }
}

/// What the screens show at first.
pub fn snapshot(
    network: NetworkSnapshot,
    conversations: &Vec<ConversationSummary>,
    directory: &Vec<DirectoryEntry>,
    announce_name: String,
) -> (r: UiState)
    ensures
        r.wf(),
        r.announce_name == announce_name,
        r.network_interfaces == network.interfaces,
        text_views(r.network@) == network_texts(network),
        r.conversations@.len() == conversations@.len(),
        forall|i: int|
            0 <= i < r.conversations@.len() ==> is_conversation_row(
                #[trigger] r.conversations@[i],
                conversations@[i],
                directory@,
            ),
        r.directory@.len() == if directory@.len() < MAX_DIRECTORY_ROWS {
            directory@.len() as int
        } else {
            MAX_DIRECTORY_ROWS as int
        },
        forall|i: int|
            0 <= i < r.directory@.len() ==> is_row_of(#[trigger] r.directory@[i], directory@[i]),
        r.directory_views@ == Map::<Seq<char>, Vec<String>>::empty(),
        r.selected_destination_hash.is_none(),
        r.selected_directory_hash.is_none(),
        r.announce_status@.len() == 0,
        r.file_offers@.len() == 0,
        r.send_results@ == Map::<Seq<char>, SendResult>::empty(),
        r.pending_sends@ == Map::<Seq<char>, String>::empty(),
        r.send_errors@ == Map::<Seq<char>, String>::empty(),
        r.drafts@ == Map::<Seq<char>, String>::empty(),
{
    let mut state = UiState::new();
    state.announce_name = announce_name;
    state.network = network_lines(&network);
    state.network_interfaces = network.interfaces;
    state.conversations = rows_with_directory(conversations, directory);
    state.directory = directory_lines(directory);
    state
}

/// A command never opens a window that is open: it is brought to the front.
pub proof fn law_windows_are_opened_once(
    before: Desk,
    command: AppCommand,
    after: Desk,
    action: AppAction,
)
    requires
        before.wf(),
        dispatched(before, command, after, action),
    ensures
        action matches AppAction::OpenMain { key } ==> !window_keys(
            before.layout.windows@,
        ).contains(key@),
        action matches AppAction::OpenConversation { key, .. }
            ==> !before.windows.keys@.contains_key(key@),
        action matches AppAction::OpenRrcHub { key, .. } ==> !before.windows.keys@.contains_key(
            key@,
        ),
        action matches AppAction::OpenNodeBrowser { key, .. }
            ==> !before.windows.keys@.contains_key(key@),
{
}

} // verus!
