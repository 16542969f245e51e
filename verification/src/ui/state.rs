//! What the terminal screens share.
use vstd::prelude::*;

use crate::attachments::FileOffer;
use crate::browser::text_views;
use crate::models::InterfaceSnapshot;
use crate::table::TextMap;
use crate::text::same_text;

verus! {

/// How many entries of the directory the terminal shows.
pub const MAX_DIRECTORY_ROWS: usize = 200;

/// What became of a message that was handed over.
#[derive(Debug, Clone)]
pub struct SendResult {
    pub content: String,
    pub error: Option<String>,
}

#[derive(Debug, Clone)]
pub struct ConversationRow {
    pub destination_hash: String,
    pub title: String,
    pub label: String,
    pub messages: Vec<String>,
}

#[derive(Debug, Clone, Copy, PartialEq, Eq, Structural)]
pub enum DirectoryKind {
    Peer,
    Propagation,
    Rrc,
    Node,
    Other,
}

#[derive(Debug)]
pub struct DirectoryRow {
    pub destination_hash: String,
    pub title: String,
    pub label: String,
    pub kind: DirectoryKind,
}

impl Clone for DirectoryRow {
    fn clone(&self) -> (r: Self)
        ensures
            r == *self,
    {
        DirectoryRow {
            destination_hash: self.destination_hash.clone(),
            title: self.title.clone(),
            label: self.label.clone(),
            kind: self.kind,
        }
    }
}

#[derive(Debug, Clone)]
pub struct UiState {
    pub announce_name: String,
    pub announce_status: String,
    pub file_offers: Vec<FileOffer>,
    pub network: Vec<String>,
    pub network_interfaces: Vec<InterfaceSnapshot>,
    pub conversations: Vec<ConversationRow>,
    pub directory: Vec<DirectoryRow>,
    pub directory_views: TextMap<Vec<String>>,
    pub selected_destination_hash: Option<String>,
    pub send_results: TextMap<SendResult>,
    pub pending_sends: TextMap<String>,
    pub send_errors: TextMap<String>,
    pub drafts: TextMap<String>,
    pub selected_directory_hash: Option<String>,
}

impl UiState {
    /// Whether the tables are in order.
    pub open spec fn wf(&self) -> bool {
        &&& self.directory_views.wf()
        &&& self.send_results.wf()
        &&& self.pending_sends.wf()
        &&& self.send_errors.wf()
        &&& self.drafts.wf()
    }

    /// The state before anything is known.
    pub fn new() -> (r: Self)
        ensures
            r.wf(),
            r.announce_name@.len() == 0,
            r.announce_status@.len() == 0,
            r.file_offers@.len() == 0,
            r.network@.len() == 0,
            r.network_interfaces@.len() == 0,
            r.conversations@.len() == 0,
            r.directory@.len() == 0,
            r.directory_views@ == Map::<Seq<char>, Vec<String>>::empty(),
            r.selected_destination_hash.is_none(),
            r.send_results@ == Map::<Seq<char>, SendResult>::empty(),
            r.pending_sends@ == Map::<Seq<char>, String>::empty(),
            r.send_errors@ == Map::<Seq<char>, String>::empty(),
            r.drafts@ == Map::<Seq<char>, String>::empty(),
            r.selected_directory_hash.is_none(),
    {
        UiState {
            announce_name: String::new(),
            announce_status: String::new(),
            file_offers: Vec::new(),
            network: Vec::new(),
            network_interfaces: Vec::new(),
            conversations: Vec::new(),
            directory: Vec::new(),
            directory_views: TextMap::new(),
            selected_destination_hash: None,
            send_results: TextMap::new(),
            pending_sends: TextMap::new(),
            send_errors: TextMap::new(),
            drafts: TextMap::new(),
            selected_directory_hash: None,
        }
    }
}

/// The place of the first of `texts` that is `wanted`, or their number without
/// one.
pub open spec fn place_of(texts: Seq<Seq<char>>, wanted: Seq<char>) -> nat
    decreases texts.len(),
{
    if texts.len() == 0 || texts[0] == wanted {
        0
    } else {
        1 + place_of(texts.drop_first(), wanted)
    }
}

pub proof fn lemma_place_of(texts: Seq<Seq<char>>, wanted: Seq<char>)
    ensures
        place_of(texts, wanted) <= texts.len(),
        place_of(texts, wanted) < texts.len() ==> texts[place_of(texts, wanted) as int] == wanted,
        place_of(texts, wanted) < texts.len() <==> texts.contains(wanted),
    decreases texts.len(),
{
    if texts.len() > 0 && texts[0] != wanted {
        let rest = texts.drop_first();
        lemma_place_of(rest, wanted);
        if texts.contains(wanted) {
            let i = choose|i: int| 0 <= i < texts.len() && texts[i] == wanted;
            assert(rest[i - 1] == wanted);
        }
        if rest.contains(wanted) {
            let i = choose|i: int| 0 <= i < rest.len() && rest[i] == wanted;
            assert(texts[i + 1] == wanted);
        }
    }
}

pub proof fn lemma_place_at(texts: Seq<Seq<char>>, wanted: Seq<char>, n: int)
    requires
        0 <= n <= texts.len(),
        forall|i: int| 0 <= i < n ==> #[trigger] texts[i] != wanted,
        n < texts.len() ==> texts[n] == wanted,
    ensures
        place_of(texts, wanted) == n,
    decreases texts.len(),
{
    if n > 0 {
        assert(texts[0] != wanted);
        lemma_place_at(texts.drop_first(), wanted, n - 1);
    }
}

pub fn find_text(texts: &Vec<String>, wanted: &str) -> (r: usize)
    ensures
        r == place_of(text_views(texts@), wanted@),
        r <= texts@.len(),
{
    let mut i: usize = 0;
    while i < texts.len() && !same_text(texts[i].as_str(), wanted)
        invariant
            i <= texts@.len(),
            forall|j: int| 0 <= j < i ==> #[trigger] text_views(texts@)[j] != wanted@,
        decreases texts@.len() - i,
    {
        i = i + 1;
    }
    proof {
        lemma_place_at(text_views(texts@), wanted@, i as int);
    }
    i
}

pub open spec fn row_hashes(rows: Seq<DirectoryRow>) -> Seq<Seq<char>> {
    rows.map_values(|row: DirectoryRow| row.destination_hash@)
}

pub open spec fn conversation_hashes(rows: Seq<ConversationRow>) -> Seq<Seq<char>> {
    rows.map_values(|row: ConversationRow| row.destination_hash@)
}

/// The place of a destination in the directory, or the length of it.
pub fn find_row(rows: &Vec<DirectoryRow>, wanted: &str) -> (r: usize)
    ensures
        r == place_of(row_hashes(rows@), wanted@),
        r <= rows@.len(),
        r < rows@.len() ==> rows@[r as int].destination_hash@ == wanted@,
{
    let mut i: usize = 0;
    while i < rows.len() && !same_text(rows[i].destination_hash.as_str(), wanted)
        invariant
            i <= rows@.len(),
            forall|j: int| 0 <= j < i ==> #[trigger] row_hashes(rows@)[j] != wanted@,
        decreases rows@.len() - i,
    {
        i = i + 1;
    }
    proof {
        lemma_place_at(row_hashes(rows@), wanted@, i as int);
    }
    i
}

/// The place of a conversation, or the number of them.
pub fn find_conversation(rows: &Vec<ConversationRow>, wanted: &str) -> (r: usize)
    ensures
        r == place_of(conversation_hashes(rows@), wanted@),
        r <= rows@.len(),
        r < rows@.len() ==> rows@[r as int].destination_hash@ == wanted@,
{
    let mut i: usize = 0;
    while i < rows.len() && !same_text(rows[i].destination_hash.as_str(), wanted)
        invariant
            i <= rows@.len(),
            forall|j: int| 0 <= j < i ==> #[trigger] conversation_hashes(rows@)[j] != wanted@,
        decreases rows@.len() - i,
    {
        i = i + 1;
    }
    proof {
        lemma_place_at(conversation_hashes(rows@), wanted@, i as int);
    }
    i
}

pub fn clone_texts(texts: &Vec<String>) -> (r: Vec<String>)
    ensures
        r@ == texts@,
{
    let mut out: Vec<String> = Vec::new();
    for i in 0..texts.len()
        invariant
            out@ == texts@.take(i as int),
    {
        out.push(texts[i].clone());
        assert(out@ =~= texts@.take(i + 1));
    }
    assert(out@ =~= texts@);
    out
}

/// The name that a destination has in the directory, or its address.
pub open spec fn title_of(rows: Seq<DirectoryRow>, destination_hash: Seq<char>) -> Seq<char> {
    let n = place_of(row_hashes(rows), destination_hash);
    if n < rows.len() {
        rows[n as int].title@
    } else {
        destination_hash
    }
}

pub fn directory_title(state: &UiState, destination_hash: &str) -> (r: String)
    ensures
        r@ == title_of(state.directory@, destination_hash@),
{
    let i = find_row(&state.directory, destination_hash);
    if i < state.directory.len() {
        state.directory[i].title.clone()
    } else {
        destination_hash.to_string()
    }
}

/// The destination that commands act on: the selected one, or that of the first
/// conversation.
pub open spec fn selected_in(state: UiState) -> Option<Seq<char>> {
    match state.selected_destination_hash {
        Some(hash) => Some(hash@),
        None => if state.conversations@.len() > 0 {
            Some(state.conversations@[0].destination_hash@)
        } else {
            None
        },
    }
}

pub fn selected_destination(state: &UiState) -> (r: Option<String>)
    ensures
        crate::browser::text_view(r) == selected_in(*state),
{
    match &state.selected_destination_hash {
        Some(hash) => Some(hash.clone()),
        None => if state.conversations.len() > 0 {
            Some(state.conversations[0].destination_hash.clone())
        } else {
            None
        },
    }
}

/// What the window of a destination shows.
pub fn target_lines(state: &UiState, key: &str) -> (r: Vec<String>)
    requires
        state.wf(),
    ensures
        text_views(r@) == if state.directory_views@.contains_key(key@) {
            text_views(state.directory_views@[key@]@)
        } else {
            seq!["Loading\u{2026}"@]
        },
{
    match state.directory_views.get(key) {
        Some(lines) => clone_texts(lines),
        None => {
            let mut lines: Vec<String> = Vec::new();
            lines.push("Loading\u{2026}".to_string());
            assert(text_views(lines@) =~= seq!["Loading\u{2026}"@]);
            lines
        },
    }
}

} // verus!
