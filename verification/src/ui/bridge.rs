//! Between the screens and the application: which of its events change what the
//! screens share, and which work a command starts.
use vstd::prelude::*;
use vstd::string::*;

use crate::browser::text_views;
use crate::models::{
    ConversationSummary, DirectoryEntry, MessageView, NetworkSnapshot, RrcHubView, RrcMessageView,
    ServerEvent,
};
use crate::table::TextMap;
use crate::ui::conversations::rows_with_directory;
use crate::ui::lines::{
    directory_lines, hub_texts, is_row_of, labelled, message_line, message_text, network_lines,
    network_texts, rrc_hub_lines,
};
use crate::ui::state::{
    conversation_hashes, find_conversation, place_of, ConversationRow, SendResult, UiState,
    MAX_DIRECTORY_ROWS,
};

verus! {

/// How many messages of a conversation are shown at first, and how many more each
/// time.
pub const HISTORY_PAGE: usize = 500;

pub const MAX_HISTORY: usize = 10000;

/// How much work may be under way at once.
pub const MAX_JOBS: usize = 16;

/// What the screens ask for.
#[derive(Debug)]
pub enum UiCommand {
    SendMessage { destination_hash: String, content: String },
    ConnectRrc { destination_hash: String },
    FetchNodePage { destination_hash: String },
    OpenConversation { destination_hash: String },
    CloseConversation { destination_hash: String },
    LoadOlder { destination_hash: String },
}

/// What is to be done about a command.
#[derive(Debug)]
pub enum BridgeAction {
    Nothing,
    /// Read the newest messages of a conversation, up to a number.
    LoadHistory { destination_hash: String, limit: usize },
    /// Mark a conversation as read, then read the conversations and its messages.
    Open { destination_hash: String, limit: usize },
    /// Show a hub that is connected.
    ShowHub { destination_hash: String },
    Send { destination_hash: String, content: String },
    /// Connect to a hub; the answer holds if nothing newer is known of it.
    Connect { destination_hash: String, version: u64 },
    Fetch { destination_hash: String },
}

/// What the bridge knows.
#[derive(Debug)]
pub struct Bridge {
    pub state: UiState,
    pub hubs: TextMap<RrcHubView>,
    pub versions: TextMap<u64>,
    pub opened: TextMap<usize>,
    pub in_flight: TextMap<()>,
    pub jobs: usize,
    pub dirty: bool,
}

/// What the key of a piece of work is made of.
pub open spec fn job_key(command: UiCommand) -> Option<Seq<char>> {
    match command {
        UiCommand::SendMessage { destination_hash, .. } => Some("send:"@ + destination_hash@),
        UiCommand::ConnectRrc { destination_hash } => Some("rrc:"@ + destination_hash@),
        UiCommand::FetchNodePage { destination_hash } => Some("node:"@ + destination_hash@),
        _ => None,
    }
}

pub open spec fn limit_of(opened: Map<Seq<char>, usize>, destination: Seq<char>) -> usize {
    if opened.contains_key(destination) {
        opened[destination]
    } else {
        HISTORY_PAGE
    }
}

pub open spec fn version_of(versions: Map<Seq<char>, u64>, destination: Seq<char>) -> u64 {
    if versions.contains_key(destination) {
        versions[destination]
    } else {
        0
    }
}

/// The version after another; the largest is followed by zero.
pub open spec fn next_version(version: u64) -> u64 {
    if version == u64::MAX {
        0
    } else {
        (version + 1) as u64
    }
}

/// The histories that rows of conversations hold; of two rows for the same
/// destination the later counts.
pub open spec fn histories_of(rows: Seq<ConversationRow>) -> Map<Seq<char>, Vec<String>>
    decreases rows.len(),
{
    if rows.len() == 0 {
        Map::empty()
    } else {
        histories_of(rows.drop_last()).insert(
            rows.last().destination_hash@,
            rows.last().messages,
        )
    }
}

/// The history that a row of the new list takes over: the one its destination had,
/// where no row before it took that.
pub open spec fn takes_over(
    rows: Seq<ConversationRow>,
    old_rows: Seq<ConversationRow>,
    i: int,
) -> bool {
    let hash = rows[i].destination_hash@;
    if histories_of(old_rows).contains_key(hash) && !conversation_hashes(rows.take(i)).contains(
        hash,
    ) {
        rows[i].messages == histories_of(old_rows)[hash]
    } else {
        rows[i].messages@.len() == 0
    }
}

/// A row for a conversation, but for its messages.
pub open spec fn is_row_for(
    row: ConversationRow,
    conversation: ConversationSummary,
    directory: Seq<DirectoryEntry>,
) -> bool {
    &&& row.destination_hash@ == conversation.destination_hash@
    &&& row.title@ == crate::ui::conversations::conversation_title(conversation, directory)
    &&& row.label@ == crate::ui::conversations::conversation_label(conversation, row.title@)
}

/// The lines of a history.
pub open spec fn message_texts(messages: Seq<MessageView>) -> Seq<Seq<char>> {
    messages.map_values(
        |message: MessageView| message_text(message.outbound, message.state@, message.content@),
    )
}

fn message_lines(messages: &Vec<MessageView>) -> (r: Vec<String>)
    ensures
        text_views(r@) == message_texts(messages@),
{
    let mut lines: Vec<String> = Vec::new();
    for i in 0..messages.len()
        invariant
            lines@.len() == i,
            forall|j: int|
                0 <= j < i ==> (#[trigger] lines@[j])@ == message_text(
                    messages@[j].outbound,
                    messages@[j].state@,
                    messages@[j].content@,
                ),
    {
        let message = &messages[i];
        lines.push(
            message_line(message.outbound, message.state.as_str(), message.content.as_str()),
        );
    }
    assert(text_views(lines@) =~= message_texts(messages@));
    lines
}

/// One line more on the network screen.
pub open spec fn line_added(before: Seq<String>, after: Seq<String>, line: Seq<char>) -> bool {
    text_views(after) == text_views(before).push(line)
}

impl Bridge {
    pub open spec fn wf(&self) -> bool {
        &&& self.state.wf()
        &&& self.hubs.wf()
        &&& self.versions.wf()
        &&& self.opened.wf()
        &&& self.in_flight.wf()
        &&& self.jobs <= MAX_JOBS
        &&& forall|k: Seq<char>| #[trigger]
            self.opened@.contains_key(k) ==> self.opened@[k] <= MAX_HISTORY
    }

    pub fn new(state: UiState) -> (r: Self)
        requires
            state.wf(),
        ensures
            r.wf(),
            r.state == state,
            r.hubs@ == Map::<Seq<char>, RrcHubView>::empty(),
            r.versions@ == Map::<Seq<char>, u64>::empty(),
            r.opened@ == Map::<Seq<char>, usize>::empty(),
            r.in_flight@ == Map::<Seq<char>, ()>::empty(),
            r.jobs == 0,
            r.dirty,
    {
        Bridge {
            state,
            hubs: TextMap::new(),
            versions: TextMap::new(),
            opened: TextMap::new(),
            in_flight: TextMap::new(),
            jobs: 0,
            dirty: true,
        }
    }

    /// Notes that the state was handed to the screens: results are told once.
    pub fn published(&mut self)
        requires
            old(self).wf(),
        ensures
            final(self).wf(),
            final(self).state.send_results@ == Map::<Seq<char>, SendResult>::empty(),
            *final(self) == (Bridge {
                state: UiState {
                    send_results: final(self).state.send_results,
                    ..old(self).state
                },
                dirty: false,
                ..*old(self)
            }),
    {
        self.state.send_results = TextMap::new();
        self.dirty = false;
    }

    /// Shows the state of the network.
    pub fn show_network(&mut self, network: &NetworkSnapshot)
        requires
            old(self).wf(),
        ensures
            final(self).wf(),
            text_views(final(self).state.network@) == network_texts(*network),
            *final(self) == (Bridge {
                state: UiState { network: final(self).state.network, ..old(self).state },
                dirty: true,
                ..*old(self)
            }),
    {
        self.state.network = network_lines(network);
        self.dirty = true;
    }

    /// Adds a line to the network screen.
    fn complain(&mut self, label: &str, error: &str)
        requires
            old(self).wf(),
        ensures
            final(self).wf(),
            line_added(old(self).state.network@, final(self).state.network@, label@ + error@),
            *final(self) == (Bridge {
                state: UiState { network: final(self).state.network, ..old(self).state },
                dirty: true,
                ..*old(self)
            }),
    {
        self.state.network.push(labelled(label, error));
        self.dirty = true;
        assert(text_views(self.state.network@) =~= text_views(old(self).state.network@).push(
            label@ + error@,
        ));
    }

    /// Shows the directory, or why it could not be read.
    pub fn show_directory(&mut self, result: &Result<Vec<DirectoryEntry>, String>)
        requires
            old(self).wf(),
        ensures
            final(self).wf(),
            result is Ok ==> {
                let entries = result->Ok_0@;
                let rows = final(self).state.directory@;
                &&& rows.len() == if entries.len() < MAX_DIRECTORY_ROWS {
                    entries.len() as int
                } else {
                    MAX_DIRECTORY_ROWS as int
                }
                &&& forall|i: int| 0 <= i < rows.len() ==> is_row_of(#[trigger] rows[i], entries[i])
                &&& *final(self) == (Bridge {
                    state: UiState { directory: final(self).state.directory, ..old(self).state },
                    dirty: true,
                    ..*old(self)
                })
            },
            result is Err ==> line_added(
                old(self).state.network@,
                final(self).state.network@,
                "Directory: "@ + result->Err_0@,
            ) && *final(self) == (Bridge {
                state: UiState { network: final(self).state.network, ..old(self).state },
                dirty: true,
                ..*old(self)
            }),
    {
        match result {
            Ok(entries) => {
                self.state.directory = directory_lines(entries);
                self.dirty = true;
            },
            Err(error) => self.complain("Directory: ", error.as_str()),
        }
    }

    /// Shows the conversations, each with the history it had, or why they could
    /// not be read.
    pub fn refresh_conversations(
        &mut self,
        result: &Result<Vec<ConversationSummary>, String>,
        directory: &Vec<DirectoryEntry>,
    )
        requires
            old(self).wf(),
        ensures
            final(self).wf(),
            result is Ok ==> {
                let rows = final(self).state.conversations@;
                &&& rows.len() == result->Ok_0@.len()
                &&& forall|i: int|
                    0 <= i < rows.len() ==> is_row_for(
                        #[trigger] rows[i],
                        result->Ok_0@[i],
                        directory@,
                    ) && takes_over(rows, old(self).state.conversations@, i)
                &&& *final(self) == (Bridge {
                    state: UiState {
                        conversations: final(self).state.conversations,
                        ..old(self).state
                    },
                    dirty: true,
                    ..*old(self)
                })
            },
            result is Err ==> line_added(
                old(self).state.network@,
                final(self).state.network@,
                "Conversations: "@ + result->Err_0@,
            ) && *final(self) == (Bridge {
                state: UiState { network: final(self).state.network, ..old(self).state },
                dirty: true,
                ..*old(self)
            }),
    {
        match result {
            Ok(summaries) => {
                let ghost old_rows = self.state.conversations@;
                let mut taken: Vec<ConversationRow> = Vec::new();
                std::mem::swap(&mut self.state.conversations, &mut taken);
                let histories = gather_histories(taken);
                let rows = rows_with_directory(summaries, directory);
                self.state.conversations = with_histories(rows, histories, Ghost(old_rows));
                self.dirty = true;
            },
            Err(error) => self.complain("Conversations: ", error.as_str()),
        }
    }

    /// Shows the history of a conversation, or why it could not be read.
    pub fn load_history(&mut self, destination: &str, result: &Result<Vec<MessageView>, String>)
        requires
            old(self).wf(),
        ensures
            final(self).wf(),
            result is Ok ==> {
                let rows = old(self).state.conversations@;
                let n = place_of(conversation_hashes(rows), destination@) as int;
                &&& n >= rows.len() ==> final(self).state.conversations@ == rows
                &&& n < rows.len() ==> final(self).state.conversations@.len() == rows.len()
                    && text_views(final(self).state.conversations@[n].messages@) == message_texts(
                    result->Ok_0@,
                ) && final(self).state.conversations@ == rows.update(
                    n,
                    ConversationRow {
                        messages: final(self).state.conversations@[n].messages,
                        ..rows[n]
                    },
                )
                &&& *final(self) == (Bridge {
                    state: UiState {
                        conversations: final(self).state.conversations,
                        ..old(self).state
                    },
                    dirty: true,
                    ..*old(self)
                })
            },
            result is Err ==> line_added(
                old(self).state.network@,
                final(self).state.network@,
                "History: "@ + result->Err_0@,
            ) && *final(self) == (Bridge {
                state: UiState { network: final(self).state.network, ..old(self).state },
                dirty: true,
                ..*old(self)
            }),
    {
        match result {
            Ok(messages) => {
                let n = find_conversation(&self.state.conversations, destination);
                if n < self.state.conversations.len() {
                    let lines = message_lines(messages);
                    self.state.conversations[n].messages = lines;
                }
                self.dirty = true;
            },
            Err(error) => self.complain("History: ", error.as_str()),
        }
    }

    /// How many messages of a conversation are shown, where it is open.
    pub fn shown_limit(&self, destination: &str) -> (r: Option<usize>)
        requires
            self.wf(),
        ensures
            r.is_some() == self.opened@.contains_key(destination@),
            r.is_some() ==> r.unwrap() == self.opened@[destination@],
    {
        match self.opened.get(destination) {
            Some(limit) => Some(*limit),
            None => None,
        }
    }

    /// Takes the news of a hub.
    pub fn hub_changed(&mut self, hub: RrcHubView, history: &Vec<RrcMessageView>)
        requires
            old(self).wf(),
        ensures
            final(self).wf(),
            hub_heard(*old(self), hub, history@, *final(self)),
    {
        let destination = hub.destination_hash.clone();
        let version: u64 = match self.versions.get(destination.as_str()) {
            Some(version) => *version,
            None => 0,
        };
        let next: u64 = if version == u64::MAX {
            0
        } else {
            version + 1
        };
        self.versions.insert(destination.clone(), next);
        let lines = rrc_hub_lines(&hub, history);
        self.state.directory_views.insert(labelled("rrc:", destination.as_str()), lines);
        self.hubs.insert(destination, hub);
        self.dirty = true;
    }

    /// Shows a hub anew, where it is known.
    pub fn show_hub(&mut self, destination: &str, history: &Vec<RrcMessageView>)
        requires
            old(self).wf(),
        ensures
            final(self).wf(),
            *final(self) == (Bridge {
                state: UiState {
                    directory_views: final(self).state.directory_views,
                    ..old(self).state
                },
                dirty: true,
                ..*old(self)
            }),
            !old(self).hubs@.contains_key(destination@) ==> final(self).state.directory_views
                == old(self).state.directory_views,
            old(self).hubs@.contains_key(destination@) ==> shows_lines(
                old(self).state.directory_views@,
                final(self).state.directory_views@,
                "rrc:"@ + destination@,
                hub_texts(old(self).hubs@[destination@], history@),
            ),
    {
        self.dirty = true;
        if let Some(hub) = self.hubs.get(destination) {
            let lines = rrc_hub_lines(hub, history);
            self.state.directory_views.insert(labelled("rrc:", destination), lines);
        }
    }

    /// Notes that events were lost: no hub counts as connected any more.
    pub fn events_lost(&mut self)
        requires
            old(self).wf(),
        ensures
            final(self).wf(),
            forall|k: Seq<char>| #[trigger]
                final(self).hubs@.contains_key(k) <==> old(self).hubs@.contains_key(k),
            forall|k: Seq<char>| #[trigger]
                final(self).hubs@.contains_key(k) ==> is_lost(
                    old(self).hubs@[k],
                    final(self).hubs@[k],
                ),
            *final(self) == (Bridge { hubs: final(self).hubs, dirty: true, ..*old(self) }),
    {
        let ghost start = self.hubs@;
        let mut rest: TextMap<RrcHubView> = TextMap::new();
        std::mem::swap(&mut self.hubs, &mut rest);
        let mut marked: TextMap<RrcHubView> = TextMap::new();
        while rest.len() > 0
            invariant
                rest.wf(),
                marked.wf(),
                forall|k: Seq<char>| #[trigger]
                    rest@.contains_key(k) ==> start.contains_key(k) && rest@[k] == start[k],
                forall|k: Seq<char>| #[trigger]
                    marked@.contains_key(k) ==> start.contains_key(k) && is_lost(
                        start[k],
                        marked@[k],
                    ),
                forall|k: Seq<char>| #[trigger]
                    start.contains_key(k) ==> rest@.contains_key(k) || marked@.contains_key(k),
            decreases rest.list().len(),
        {
            let ghost list = rest.list();
            let ghost before = rest@;
            let last: usize = rest.len() - 1;
            let (key, hub) = rest.remove_at(last);
            proof {
                crate::table::lemma_list_map(list);
                crate::table::lemma_list_map_remove(list, last as int);
                assert(before.contains_key(list[last as int].0));
                assert(rest@ == before.remove(key@));
            }
            let mut hub = hub;
            hub.connected = false;
            hub.detail = "RRC events lost; reopen hub to reconnect".to_string();
            marked.insert(key, hub);
        }
        proof {
            assert(rest.list() =~= Seq::empty());
            assert(rest@ =~= Map::empty());
        }
        self.hubs = marked;
        self.dirty = true;
    }

    fn job_ended(&mut self, label: &str, destination: &str)
        requires
            old(self).wf(),
        ensures
            final(self).wf(),
            final(self).in_flight@ == old(self).in_flight@.remove(label@ + destination@),
            *final(self) == (Bridge {
                in_flight: final(self).in_flight,
                jobs: fewer(old(self).jobs),
                dirty: true,
                ..*old(self)
            }),
    {
        let key = labelled(label, destination);
        let _ = self.in_flight.remove(key.as_str());
        if self.jobs > 0 {
            self.jobs = self.jobs - 1;
        }
        self.dirty = true;
    }

    /// Takes the result of a message that was handed over. Gives the number of
    /// messages to read anew where it was accepted.
    pub fn sent(&mut self, destination: String, content: String, error: Option<String>) -> (r:
        Option<usize>)
        requires
            old(self).wf(),
        ensures
            send_answered(
                *old(self),
                destination@,
                content@,
                crate::browser::text_view(error),
                *final(self),
            ),
            final(self).wf(),
            r.is_some() == error.is_none(),
            r.is_some() ==> r.unwrap() == limit_of(old(self).opened@, destination@),
            final(self).in_flight@ == old(self).in_flight@.remove("send:"@ + destination@),
            final(self).state.send_results@ == old(self).state.send_results@.insert(
                destination@,
                SendResult { content, error },
            ),
            *final(self) == (Bridge {
                state: UiState {
                    send_results: final(self).state.send_results,
                    ..old(self).state
                },
                in_flight: final(self).in_flight,
                jobs: fewer(old(self).jobs),
                dirty: true,
                ..*old(self)
            }),
    {
        self.job_ended("send:", destination.as_str());
        let limit = if error.is_none() {
            match self.opened.get(destination.as_str()) {
                Some(limit) => Some(*limit),
                None => Some(HISTORY_PAGE),
            }
        } else {
            None
        };
        self.state.send_results.insert(destination, SendResult { content, error });
        limit
    }

    /// Takes the answer of a hub. It says how things were before the hub greeted,
    /// so it counts only where nothing was heard of the hub since it was asked.
    pub fn connected(
        &mut self,
        destination: String,
        version: u64,
        result: Result<RrcHubView, String>,
        history: &Vec<RrcMessageView>,
    )
        requires
            old(self).wf(),
        ensures
            final(self).wf(),
            connect_answered(
                *old(self),
                destination@,
                version,
                result,
                history@,
                *final(self),
            ),
    {
        self.job_ended("rrc:", destination.as_str());
        let known: u64 = match self.versions.get(destination.as_str()) {
            Some(known) => *known,
            None => 0,
        };
        if known == version {
            let key = labelled("rrc:", destination.as_str());
            let lines = match result {
                Ok(hub) => {
                    let lines = rrc_hub_lines(&hub, history);
                    self.hubs.insert(destination, hub);
                    lines
                },
                Err(error) => one_text(labelled("Connection failed: ", error.as_str())),
            };
            self.state.directory_views.insert(key, lines);
        }
    }

    /// Takes the lines of a page, or why it could not be had.
    pub fn page_loaded(&mut self, destination: &str, result: Result<Vec<String>, String>)
        requires
            old(self).wf(),
        ensures
            page_answered(
                *old(self),
                destination@,
                match result {
                    Ok(lines) => Ok(text_views(lines@)),
                    Err(error) => Err(error@),
                },
                *final(self),
            ),
            final(self).wf(),
            final(self).in_flight@ == old(self).in_flight@.remove("node:"@ + destination@),
            shows_lines(
                old(self).state.directory_views@,
                final(self).state.directory_views@,
                "node:"@ + destination@,
                match result {
                    Ok(lines) => text_views(lines@),
                    Err(error) => seq!["Page load failed: "@ + error@],
                },
            ),
            *final(self) == (Bridge {
                state: UiState {
                    directory_views: final(self).state.directory_views,
                    ..old(self).state
                },
                in_flight: final(self).in_flight,
                jobs: fewer(old(self).jobs),
                dirty: true,
                ..*old(self)
            }),
    {
        self.job_ended("node:", destination);
        let lines = match result {
            Ok(lines) => lines,
            Err(error) => one_text(labelled("Page load failed: ", error.as_str())),
        };
        self.state.directory_views.insert(labelled("node:", destination), lines);
    }

    /// Notes that a piece of work broke down.
    pub fn job_failed(&mut self, error: &str)
        requires
            old(self).wf(),
        ensures
            final(self).wf(),
            line_added(
                old(self).state.network@,
                final(self).state.network@,
                "Background task failed: "@ + error@,
            ),
            *final(self) == (Bridge {
                state: UiState { network: final(self).state.network, ..old(self).state },
                jobs: fewer(old(self).jobs),
                dirty: true,
                ..*old(self)
            }),
    {
        self.complain("Background task failed: ", error);
        if self.jobs > 0 {
            self.jobs = self.jobs - 1;
        }
    }
}

/// What has to be read before an event of the application can be shown.
#[derive(Debug)]
pub enum EventAction {
    Nothing,
    /// Read the directory, then `show_directory`.
    ReadDirectory,
    /// Read the conversations, then `refresh_conversations`; where the conversation
    /// is open, read its messages up to the limit, then `load_history`.
    ReadConversations { destination_hash: String, limit: Option<usize> },
    /// Read the messages of the hub, then `hub_changed`.
    ReadHub(RrcHubView),
    /// Read the messages of the hub, then `show_hub`.
    ReadHistory { destination_hash: String },
}

/// What an event of the application leads to.
pub open spec fn heard(
    before: Bridge,
    event: ServerEvent,
    after: Bridge,
    action: EventAction,
) -> bool {
    let changed = Bridge {
        state: UiState { network: after.state.network, ..before.state },
        ..touched(before)
    };
    match event {
        ServerEvent::Snapshot(network) => action is Nothing && after == changed && text_views(
            after.state.network@,
        ) == network_texts(network),
        ServerEvent::NetworkChanged(network) => action is Nothing && after == changed && text_views(
            after.state.network@,
        ) == network_texts(network),
        ServerEvent::DirectoryChanged(_) => action is ReadDirectory && after == touched(before),
        ServerEvent::MessageStored(message) => {
            &&& action matches EventAction::ReadConversations { destination_hash, limit }
                && destination_hash == message.destination_hash && limit == if before.opened@.contains_key(
                message.destination_hash@,
            ) {
                Some(before.opened@[message.destination_hash@])
            } else {
                None
            }
            &&& after == touched(before)
        },
        ServerEvent::RrcHubChanged(hub) => action == EventAction::ReadHub(hub) && after == touched(
            before,
        ),
        ServerEvent::RrcMessage(message) => {
            &&& if before.hubs@.contains_key(message.hub_hash@) {
                action matches EventAction::ReadHistory { destination_hash } && destination_hash
                    == message.hub_hash
            } else {
                action is Nothing
            }
            &&& after == touched(before)
        },
    }
}

impl Bridge {
    /// Hears of an event of the application.
    pub fn event(&mut self, event: ServerEvent) -> (r: EventAction)
        requires
            old(self).wf(),
        ensures
            final(self).wf(),
            heard(*old(self), event, *final(self), r),
    {
        self.dirty = true;
        match event {
            ServerEvent::Snapshot(network) => {
                self.show_network(&network);
                EventAction::Nothing
            },
            ServerEvent::NetworkChanged(network) => {
                self.show_network(&network);
                EventAction::Nothing
            },
            ServerEvent::DirectoryChanged(_) => EventAction::ReadDirectory,
            ServerEvent::MessageStored(message) => {
                let limit = self.shown_limit(message.destination_hash.as_str());
                EventAction::ReadConversations {
                    destination_hash: message.destination_hash,
                    limit,
                }
            },
            ServerEvent::RrcHubChanged(hub) => EventAction::ReadHub(hub),
            ServerEvent::RrcMessage(message) => {
                if self.hubs.contains(message.hub_hash.as_str()) {
                    EventAction::ReadHistory { destination_hash: message.hub_hash }
                } else {
                    EventAction::Nothing
                }
            },
        }
    }

    /// Notes that a conversation could not be marked as read.
    pub fn mark_read_failed(&mut self, error: &str)
        requires
            old(self).wf(),
        ensures
            final(self).wf(),
            line_added(
                old(self).state.network@,
                final(self).state.network@,
                "Mark read: "@ + error@,
            ),
            *final(self) == (Bridge {
                state: UiState { network: final(self).state.network, ..old(self).state },
                ..touched(*old(self))
            }),
    {
        self.complain("Mark read: ", error);
    }
}

/// The state before, marked as changed.
pub open spec fn touched(before: Bridge) -> Bridge {
    Bridge { dirty: true, ..before }
}

/// Asks for more of a history, up to the most that is shown.
pub open spec fn loads_older(
    before: Bridge,
    destination: String,
    after: Bridge,
    action: BridgeAction,
) -> bool {
    if before.opened@.contains_key(destination@) {
        let more = before.opened@[destination@] + HISTORY_PAGE;
        let limit = if more < MAX_HISTORY {
            more as usize
        } else {
            MAX_HISTORY
        };
        &&& action == (BridgeAction::LoadHistory { destination_hash: destination, limit })
        &&& after.opened@ == before.opened@.insert(destination@, limit)
        &&& after == (Bridge { opened: after.opened, ..touched(before) })
    } else {
        action is Nothing && after == touched(before)
    }
}

/// Lets go of a history that is no longer shown.
pub open spec fn closes(before: Bridge, destination: Seq<char>, after: Bridge) -> bool {
    let rows = before.state.conversations@;
    let n = place_of(conversation_hashes(rows), destination) as int;
    &&& after.opened@ == before.opened@.remove(destination)
    &&& n >= rows.len() ==> after.state.conversations@ == rows
    &&& n < rows.len() ==> after.state.conversations@.len() == rows.len()
        && after.state.conversations@[n].messages@.len() == 0 && after.state.conversations@
        == rows.update(
        n,
        ConversationRow { messages: after.state.conversations@[n].messages, ..rows[n] },
    )
    &&& after == (Bridge {
        opened: after.opened,
        state: UiState { conversations: after.state.conversations, ..before.state },
        ..touched(before)
    })
}

/// Begins a piece of work, if it is not under way and there is room for it.
pub open spec fn begins(
    before: Bridge,
    command: UiCommand,
    destination: String,
    after: Bridge,
    action: BridgeAction,
) -> bool {
    let key = job_key(command).unwrap();
    if command is ConnectRrc && before.hubs@.contains_key(destination@)
        && before.hubs@[destination@].connected {
        action == (BridgeAction::ShowHub { destination_hash: destination }) && after == touched(
            before,
        )
    } else if before.in_flight@.contains_key(key) {
        action is Nothing && after == touched(before)
    } else if before.jobs >= MAX_JOBS {
        &&& action is Nothing
        &&& refuses(before, command, destination@, after)
    } else {
        &&& after.in_flight@ == before.in_flight@.insert(key, ())
        &&& after == (Bridge {
            in_flight: after.in_flight,
            jobs: (before.jobs + 1) as usize,
            state: UiState { directory_views: after.state.directory_views, ..before.state },
            ..touched(before)
        })
        &&& match command {
            UiCommand::SendMessage { content, .. } => action == (BridgeAction::Send {
                destination_hash: destination,
                content,
            }) && after.state.directory_views == before.state.directory_views,
            UiCommand::ConnectRrc { .. } => action == (BridgeAction::Connect {
                destination_hash: destination,
                version: version_of(before.versions@, destination@),
            }) && shows_lines(
                before.state.directory_views@,
                after.state.directory_views@,
                key,
                seq!["Connecting\u{2026}"@],
            ),
            _ => action == (BridgeAction::Fetch { destination_hash: destination }) && shows_lines(
                before.state.directory_views@,
                after.state.directory_views@,
                key,
                seq!["Loading\u{2026}"@],
            ),
        }
    }
}

pub open spec fn too_many() -> Seq<char> {
    "Too many pending operations; try again shortly"@
}

/// Says that there is no room for a piece of work.
pub open spec fn refuses(
    before: Bridge,
    command: UiCommand,
    destination: Seq<char>,
    after: Bridge,
) -> bool {
    match command {
        UiCommand::SendMessage { content, .. } => {
            let results = after.state.send_results@;
            &&& results.contains_key(destination)
            &&& results[destination].content == content
            &&& crate::browser::text_view(results[destination].error) == Some(too_many())
            &&& results == before.state.send_results@.insert(destination, results[destination])
            &&& after == (Bridge {
                state: UiState { send_results: after.state.send_results, ..before.state },
                ..touched(before)
            })
        },
        _ => {
            &&& shows_lines(
                before.state.directory_views@,
                after.state.directory_views@,
                job_key(command).unwrap(),
                seq![too_many()],
            )
            &&& after == (Bridge {
                state: UiState { directory_views: after.state.directory_views, ..before.state },
                ..touched(before)
            })
        },
    }
}

/// What a command does.
pub open spec fn commanded(
    before: Bridge,
    command: UiCommand,
    after: Bridge,
    action: BridgeAction,
) -> bool {
    match command {
        UiCommand::LoadOlder { destination_hash } => loads_older(
            before,
            destination_hash,
            after,
            action,
        ),
        UiCommand::CloseConversation { destination_hash } => action is Nothing && closes(
            before,
            destination_hash@,
            after,
        ),
        UiCommand::OpenConversation { destination_hash } => {
            &&& action == (BridgeAction::Open { destination_hash, limit: HISTORY_PAGE })
            &&& after.opened@ == before.opened@.insert(destination_hash@, HISTORY_PAGE)
            &&& after == (Bridge { opened: after.opened, ..touched(before) })
        },
        UiCommand::SendMessage { destination_hash, .. } => begins(
            before,
            command,
            destination_hash,
            after,
            action,
        ),
        UiCommand::ConnectRrc { destination_hash } => begins(
            before,
            command,
            destination_hash,
            after,
            action,
        ),
        UiCommand::FetchNodePage { destination_hash } => begins(
            before,
            command,
            destination_hash,
            after,
            action,
        ),
    }
}

impl Bridge {
    /// Carries out a command as far as it needs nothing from outside, and says what
    /// else is to be done.
    pub fn command(&mut self, command: UiCommand) -> (r: BridgeAction)
        requires
            old(self).wf(),
        ensures
            final(self).wf(),
            commanded(*old(self), command, *final(self), r),
    {
        self.dirty = true;
        match command {
            UiCommand::LoadOlder { destination_hash } => self.load_older(destination_hash),
            UiCommand::CloseConversation { destination_hash } => {
                let _ = self.opened.remove(destination_hash.as_str());
                let n = find_conversation(
                    &self.state.conversations,
                    destination_hash.as_str(),
                );
                if n < self.state.conversations.len() {
                    self.state.conversations[n].messages = Vec::new();
                }
                BridgeAction::Nothing
            },
            UiCommand::OpenConversation { destination_hash } => {
                self.opened.insert(destination_hash.clone(), HISTORY_PAGE);
                BridgeAction::Open { destination_hash, limit: HISTORY_PAGE }
            },
            UiCommand::SendMessage { destination_hash, content } => {
                let key = labelled("send:", destination_hash.as_str());
                if self.in_flight.contains(key.as_str()) {
                    return BridgeAction::Nothing;
                }
                if self.jobs >= MAX_JOBS {
                    let error = Some("Too many pending operations; try again shortly".to_string());
                    self.state.send_results.insert(
                        destination_hash,
                        SendResult { content, error },
                    );
                    return BridgeAction::Nothing;
                }
                self.in_flight.insert(key, ());
                self.jobs = self.jobs + 1;
                BridgeAction::Send { destination_hash, content }
            },
            UiCommand::ConnectRrc { destination_hash } => {
                let ready = match self.hubs.get(destination_hash.as_str()) {
                    Some(hub) => hub.connected,
                    None => false,
                };
                if ready {
                    return BridgeAction::ShowHub { destination_hash };
                }
                let key = labelled("rrc:", destination_hash.as_str());
                if self.in_flight.contains(key.as_str()) {
                    return BridgeAction::Nothing;
                }
                if self.jobs >= MAX_JOBS {
                    self.state.directory_views.insert(
                        key,
                        one_text("Too many pending operations; try again shortly".to_string()),
                    );
                    return BridgeAction::Nothing;
                }
                self.in_flight.insert(key.clone(), ());
                self.jobs = self.jobs + 1;
                self.state.directory_views.insert(
                    key,
                    one_text("Connecting\u{2026}".to_string()),
                );
                let version: u64 = match self.versions.get(destination_hash.as_str()) {
                    Some(version) => *version,
                    None => 0,
                };
                BridgeAction::Connect { destination_hash, version }
            },
            UiCommand::FetchNodePage { destination_hash } => {
                let key = labelled("node:", destination_hash.as_str());
                if self.in_flight.contains(key.as_str()) {
                    return BridgeAction::Nothing;
                }
                if self.jobs >= MAX_JOBS {
                    self.state.directory_views.insert(
                        key,
                        one_text("Too many pending operations; try again shortly".to_string()),
                    );
                    return BridgeAction::Nothing;
                }
                self.in_flight.insert(key.clone(), ());
                self.jobs = self.jobs + 1;
                self.state.directory_views.insert(key, one_text("Loading\u{2026}".to_string()));
                BridgeAction::Fetch { destination_hash }
            },
        }
    }

    fn load_older(&mut self, destination_hash: String) -> (r: BridgeAction)
        requires
            old(self).wf(),
            old(self).dirty,
        ensures
            final(self).wf(),
            loads_older(*old(self), destination_hash, *final(self), r),
    {
        let limit: usize = match self.opened.get(destination_hash.as_str()) {
            Some(limit) => *limit,
            None => {
                return BridgeAction::Nothing;
            },
        };
        let limit: usize = if limit + HISTORY_PAGE < MAX_HISTORY {
            limit + HISTORY_PAGE
        } else {
            MAX_HISTORY
        };
        self.opened.insert(destination_hash.clone(), limit);
        BridgeAction::LoadHistory { destination_hash, limit }
    }
}

/// A piece of work that is under way is not begun again, and there is never more
/// than a fixed number of them.
pub proof fn law_work_is_begun_once(
    before: Bridge,
    command: UiCommand,
    after: Bridge,
    action: BridgeAction,
)
    requires
        before.wf(),
        job_key(command).is_some(),
        commanded(before, command, after, action),
    ensures
        before.in_flight@.contains_key(job_key(command).unwrap()) ==> !(action is Send)
            && !(action is Connect) && !(action is Fetch),
        action is Send || action is Connect || action is Fetch
            ==> after.in_flight@.contains_key(job_key(command).unwrap()),
        after.jobs <= MAX_JOBS,
{
}

/// What the news of a hub does: it is remembered and shown, and every answer to a
/// request to connect that was made before is void.
pub open spec fn hub_heard(
    before: Bridge,
    hub: RrcHubView,
    history: Seq<RrcMessageView>,
    after: Bridge,
) -> bool {
    let destination = hub.destination_hash@;
    &&& after.versions@ == before.versions@.insert(
        destination,
        next_version(version_of(before.versions@, destination)),
    )
    &&& after.hubs@ == before.hubs@.insert(destination, hub)
    &&& shows_lines(
        before.state.directory_views@,
        after.state.directory_views@,
        "rrc:"@ + destination,
        hub_texts(hub, history),
    )
    &&& after == (Bridge {
        state: UiState { directory_views: after.state.directory_views, ..before.state },
        hubs: after.hubs,
        versions: after.versions,
        ..touched(before)
    })
}

/// What the answer to a request to connect does. It is shown, and a hub that it
/// brings is remembered, only where nothing newer is known of the hub.
pub open spec fn connect_answered(
    before: Bridge,
    destination: Seq<char>,
    version: u64,
    result: Result<RrcHubView, String>,
    history: Seq<RrcMessageView>,
    after: Bridge,
) -> bool {
    &&& after.in_flight@ == before.in_flight@.remove("rrc:"@ + destination)
    &&& after == (Bridge {
        state: UiState { directory_views: after.state.directory_views, ..before.state },
        hubs: after.hubs,
        in_flight: after.in_flight,
        jobs: fewer(before.jobs),
        ..touched(before)
    })
    &&& version_of(before.versions@, destination) != version ==> after.hubs == before.hubs
        && after.state.directory_views == before.state.directory_views
    &&& version_of(before.versions@, destination) == version ==> {
        &&& shows_lines(
            before.state.directory_views@,
            after.state.directory_views@,
            "rrc:"@ + destination,
            match result {
                Ok(hub) => hub_texts(hub, history),
                Err(error) => seq!["Connection failed: "@ + error@],
            },
        )
        &&& after.hubs@ == match result {
            Ok(hub) => before.hubs@.insert(destination, hub),
            Err(_) => before.hubs@,
        }
    }
}

/// A hub that said it is connected before the answer to the request to connect
/// came stays so. Whatever the late answer holds, the remembered hub and what is
/// shown of it do not change, and a further request to connect begins no new work:
/// the hub is shown as it is.
pub proof fn law_late_answer_does_not_overwrite_the_hub(
    before: Bridge,
    destination: String,
    asked: Bridge,
    action: BridgeAction,
    hub: RrcHubView,
    history: Seq<RrcMessageView>,
    heard: Bridge,
    result: Result<RrcHubView, String>,
    late: Seq<RrcMessageView>,
    after: Bridge,
    again: UiCommand,
    finally: Bridge,
    shown: BridgeAction,
)
    requires
        commanded(
            before,
            (UiCommand::ConnectRrc { destination_hash: destination }),
            asked,
            action,
        ),
        action is Connect,
        hub.destination_hash@ == destination@,
        hub.connected,
        hub_heard(asked, hub, history, heard),
        connect_answered(heard, destination@, action->version, result, late, after),
        again is ConnectRrc,
        again->ConnectRrc_destination_hash@ == destination@,
        commanded(after, again, finally, shown),
    ensures
        after.hubs == heard.hubs,
        after.hubs@[destination@] == hub,
        after.state == heard.state,
        text_views(after.state.directory_views@["rrc:"@ + destination@]@) == hub_texts(
            hub,
            history,
        ),
        hub_texts(hub, history)[0] == "State: connected"@,
        shown is ShowHub,
        shown->ShowHub_destination_hash@ == destination@,
        finally == touched(after),
{
    reveal_strlit("State: ");
    reveal_strlit("connected");
    reveal_strlit("State: connected");
    assert("State: "@ + "connected"@ =~= "State: connected"@);
}

/// What is kept of a message that was handed on: what became of it, and that it is no
/// longer under way.
pub open spec fn send_answered(
    before: Bridge,
    destination: Seq<char>,
    content: Seq<char>,
    error: Option<Seq<char>>,
    after: Bridge,
) -> bool {
    &&& after.state.send_results@.contains_key(destination)
    &&& after.state.send_results@[destination].content@ == content
    &&& crate::browser::text_view(after.state.send_results@[destination].error) == error
    &&& after.state.send_results@.remove(destination) =~= before.state.send_results@.remove(
        destination,
    )
    &&& after.in_flight@ == before.in_flight@.remove("send:"@ + destination)
    &&& after.jobs == fewer(before.jobs)
    &&& after.state.conversations == before.state.conversations
}

/// What is shown of a node once its page is there, or is not.
pub open spec fn page_answered(
    before: Bridge,
    destination: Seq<char>,
    result: Result<Seq<Seq<char>>, Seq<char>>,
    after: Bridge,
) -> bool {
    &&& shows_lines(
        before.state.directory_views@,
        after.state.directory_views@,
        "node:"@ + destination,
        match result {
            Ok(lines) => lines,
            Err(error) => seq!["Page load failed: "@ + error],
        },
    )
    &&& after.in_flight@ == before.in_flight@.remove("node:"@ + destination)
    &&& after.jobs == fewer(before.jobs)
    &&& after.hubs == before.hubs
}

/// One piece of work less.
pub open spec fn fewer(jobs: usize) -> usize {
    if jobs > 0 {
        (jobs - 1) as usize
    } else {
        0
    }
}

/// The views after lines are shown under a key.
pub open spec fn shows_lines(
    before: Map<Seq<char>, Vec<String>>,
    after: Map<Seq<char>, Vec<String>>,
    key: Seq<char>,
    lines: Seq<Seq<char>>,
) -> bool {
    &&& after.contains_key(key)
    &&& text_views(after[key]@) == lines
    &&& after == before.insert(key, after[key])
}

/// A hub of which events were lost.
pub open spec fn is_lost(before: RrcHubView, after: RrcHubView) -> bool {
    &&& !after.connected
    &&& after.detail@ == "RRC events lost; reopen hub to reconnect"@
    &&& after == (RrcHubView { connected: false, detail: after.detail, ..before })
}

fn one_text(text: String) -> (r: Vec<String>)
    ensures
        text_views(r@) == seq![text@],
{
    let mut lines: Vec<String> = Vec::new();
    lines.push(text);
    assert(text_views(lines@) =~= seq![text@]);
    lines
}

fn gather_histories(rows: Vec<ConversationRow>) -> (r: TextMap<Vec<String>>)
    ensures
        r.wf(),
        r@ == histories_of(rows@),
{
    let ghost all = rows@;
    let mut rest = rows;
    let mut histories: TextMap<Vec<String>> = TextMap::new();
    let ghost mut done: int = 0;
    assert(all.take(0) =~= Seq::empty());
    while rest.len() > 0
        invariant
            0 <= done <= all.len(),
            rest@ == all.skip(done),
            histories.wf(),
            histories@ == histories_of(all.take(done)),
        decreases rest@.len(),
    {
        let row = rest.remove(0);
        proof {
            assert(row == all[done]);
            assert(all.take(done + 1).drop_last() =~= all.take(done));
            assert(rest@ =~= all.skip(done + 1));
        }
        histories.insert(row.destination_hash, row.messages);
        proof {
            done = done + 1;
        }
    }
    assert(all.take(done) =~= all);
    histories
}

fn with_histories(
    rows: Vec<ConversationRow>,
    histories: TextMap<Vec<String>>,
    old_rows: Ghost<Seq<ConversationRow>>,
) -> (r: Vec<ConversationRow>)
    requires
        histories.wf(),
        histories@ == histories_of(old_rows@),
        forall|i: int| 0 <= i < rows@.len() ==> (#[trigger] rows@[i]).messages@.len() == 0,
    ensures
        r@.len() == rows@.len(),
        forall|i: int|
            0 <= i < r@.len() ==> #[trigger] r@[i] == (ConversationRow {
                messages: r@[i].messages,
                ..rows@[i]
            }) && takes_over(r@, old_rows@, i),
{
    let ghost all = rows@;
    let ghost known = histories@;
    let mut histories = histories;
    let mut rest = rows;
    let mut out: Vec<ConversationRow> = Vec::new();
    let ghost mut done: int = 0;
    while rest.len() > 0
        invariant
            0 <= done <= all.len(),
            rest@ == all.skip(done),
            out@.len() == done,
            histories.wf(),
            known == histories_of(old_rows@),
            forall|i: int| 0 <= i < all.len() ==> (#[trigger] all[i]).messages@.len() == 0,
            forall|i: int|
                0 <= i < done ==> #[trigger] out@[i] == (ConversationRow {
                    messages: out@[i].messages,
                    ..all[i]
                }) && takes_over(out@, old_rows@, i),
            forall|k: Seq<char>| #[trigger]
                histories@.contains_key(k) <==> known.contains_key(k) && !conversation_hashes(
                    out@,
                ).contains(k),
            forall|k: Seq<char>| #[trigger]
                histories@.contains_key(k) ==> histories@[k] == known[k],
        decreases rest@.len(),
    {
        let ghost before = out@;
        let ghost left = histories@;
        let mut row = rest.remove(0);
        proof {
            assert(row == all[done]);
            assert(rest@ =~= all.skip(done + 1));
        }
        let ghost hash = row.destination_hash@;
        if let Some(messages) = histories.remove(row.destination_hash.as_str()) {
            row.messages = messages;
        }
        out.push(row);
        proof {
            assert(out@.take(done) =~= before);
            assert(conversation_hashes(out@) =~= conversation_hashes(before).push(hash));
            assert forall|k: Seq<char>| conversation_hashes(out@).contains(k) == (
            conversation_hashes(before).contains(k) || k == hash) by {
                if conversation_hashes(before).contains(k) {
                    let i = choose|i: int|
                        0 <= i < before.len() && conversation_hashes(before)[i] == k;
                    assert(conversation_hashes(out@)[i] == k);
                }
                assert(conversation_hashes(out@)[done] == hash);
            }
            assert(takes_over(out@, old_rows@, done));
            assert forall|i: int| 0 <= i < done + 1 implies #[trigger] out@[i] == (
            ConversationRow { messages: out@[i].messages, ..all[i] }) && takes_over(
                out@,
                old_rows@,
                i,
            ) by {
                if i < done {
                    assert(out@[i] == before[i]);
                    assert(takes_over(before, old_rows@, i));
                    assert(out@.take(i) =~= before.take(i));
                }
            }
            done = done + 1;
        }
    }
    out
}

} // verus!
