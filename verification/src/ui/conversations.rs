//! The list of conversations.
use vstd::prelude::*;
use vstd::string::*;

use crate::browser::text_view;
use crate::models::{ConversationSummary, DirectoryEntry};
use crate::service::search_text;
use crate::text::{decimal, push_decimal, same_text, trim_text};
use crate::ui::state::ConversationRow;

verus! {

/// The name that a directory entry gives, if it holds more than space.
pub open spec fn given_name(entry: DirectoryEntry) -> Option<Seq<char>> {
    search_text(text_view(entry.display_name))
}

fn read_name(name: &Option<String>) -> (r: Option<String>)
    ensures
        text_view(r) == search_text(text_view(*name)),
{
    match name {
        Some(text) => {
            let trimmed = trim_text(text.as_str());
            if trimmed.as_str().is_empty() {
                None
            } else {
                Some(trimmed)
            }
        },
        None => None,
    }
}

/// The name of the first peer entry for an address that gives one.
pub open spec fn peer_name(directory: Seq<DirectoryEntry>, hash: Seq<char>) -> Option<Seq<char>>
    decreases directory.len(),
{
    if directory.len() == 0 {
        None
    } else if directory[0].kind@ == "peer"@ && directory[0].destination_hash@ == hash && given_name(
        directory[0],
    ).is_some() {
        given_name(directory[0])
    } else {
        peer_name(directory.drop_first(), hash)
    }
}

/// The name of the first entry that is reached at an address and gives one.
pub open spec fn owner_name(directory: Seq<DirectoryEntry>, hash: Seq<char>) -> Option<Seq<char>>
    decreases directory.len(),
{
    if directory.len() == 0 {
        None
    } else if text_view(directory[0].delivery_hash) == Some(hash) && given_name(
        directory[0],
    ).is_some() {
        given_name(directory[0])
    } else {
        owner_name(directory.drop_first(), hash)
    }
}

/// The name of an address by the directory. What a peer says of itself goes before
/// what its other services say.
pub open spec fn directory_name(directory: Seq<DirectoryEntry>, hash: Seq<char>) -> Option<
    Seq<char>,
> {
    if peer_name(directory, hash).is_some() {
        peer_name(directory, hash)
    } else {
        owner_name(directory, hash)
    }
}

fn find_peer_name(directory: &Vec<DirectoryEntry>, hash: &str) -> (r: Option<String>)
    ensures
        text_view(r) == peer_name(directory@, hash@),
{
    assert(directory@.skip(0) =~= directory@);
    for i in 0..directory.len()
        invariant
            peer_name(directory@, hash@) == peer_name(directory@.skip(i as int), hash@),
    {
        proof {
            assert(directory@.skip(i as int)[0] == directory@[i as int]);
            assert(directory@.skip(i as int).drop_first() =~= directory@.skip(i + 1));
        }
        let entry = &directory[i];
        if same_text(entry.kind.as_str(), "peer") && same_text(
            entry.destination_hash.as_str(),
            hash,
        ) {
            let name = read_name(&entry.display_name);
            if name.is_some() {
                return name;
            }
        }
    }
    assert(directory@.skip(directory@.len() as int) =~= Seq::empty());
    None
}

fn find_owner_name(directory: &Vec<DirectoryEntry>, hash: &str) -> (r: Option<String>)
    ensures
        text_view(r) == owner_name(directory@, hash@),
{
    assert(directory@.skip(0) =~= directory@);
    for i in 0..directory.len()
        invariant
            owner_name(directory@, hash@) == owner_name(directory@.skip(i as int), hash@),
    {
        proof {
            assert(directory@.skip(i as int)[0] == directory@[i as int]);
            assert(directory@.skip(i as int).drop_first() =~= directory@.skip(i + 1));
        }
        let entry = &directory[i];
        let reached = match &entry.delivery_hash {
            Some(delivery) => same_text(delivery.as_str(), hash),
            None => false,
        };
        if reached {
            let name = read_name(&entry.display_name);
            if name.is_some() {
                return name;
            }
        }
    }
    assert(directory@.skip(directory@.len() as int) =~= Seq::empty());
    None
}

/// The title of a conversation: the name of the contact, else that of the
/// directory, else the address.
pub open spec fn conversation_title(
    conversation: ConversationSummary,
    directory: Seq<DirectoryEntry>,
) -> Seq<char> {
    match search_text(text_view(conversation.display_name)) {
        Some(name) => name,
        None => match directory_name(directory, conversation.destination_hash@) {
            Some(name) => name,
            None => conversation.destination_hash@,
        },
    }
}

/// The label of a conversation: how much of it is unread, its title and its last
/// message.
pub open spec fn conversation_label(conversation: ConversationSummary, title: Seq<char>) -> Seq<
    char,
> {
    (if conversation.unread > 0 {
        seq!['['] + decimal(conversation.unread as nat) + "] "@
    } else {
        Seq::empty()
    }) + title + "  "@ + match conversation.last_message {
        Some(message) => message@,
        None => Seq::empty(),
    }
}

pub open spec fn is_conversation_row(
    row: ConversationRow,
    conversation: ConversationSummary,
    directory: Seq<DirectoryEntry>,
) -> bool {
    &&& row.destination_hash@ == conversation.destination_hash@
    &&& row.title@ == conversation_title(conversation, directory)
    &&& row.label@ == conversation_label(conversation, row.title@)
    &&& row.messages@.len() == 0
}

fn conversation_row(conversation: &ConversationSummary, directory: &Vec<DirectoryEntry>) -> (r:
    ConversationRow)
    ensures
        is_conversation_row(r, *conversation, directory@),
{
    let title = match read_name(&conversation.display_name) {
        Some(name) => name,
        None => match find_peer_name(directory, conversation.destination_hash.as_str()) {
            Some(name) => name,
            None => match find_owner_name(directory, conversation.destination_hash.as_str()) {
                Some(name) => name,
                None => conversation.destination_hash.clone(),
            },
        },
    };
    let mut label = String::new();
    if conversation.unread > 0 {
        label.push('[');
        push_decimal(&mut label, conversation.unread as u64);
        label.append("] ");
    }
    assert(label@ =~= if conversation.unread > 0 {
        seq!['['] + decimal(conversation.unread as nat) + "] "@
    } else {
        Seq::empty()
    });
    label.append(title.as_str());
    label.append("  ");
    match &conversation.last_message {
        Some(message) => label.append(message.as_str()),
        None => {},
    }
    assert(label@ =~= conversation_label(*conversation, title@));
    ConversationRow {
        destination_hash: conversation.destination_hash.clone(),
        title,
        label,
        messages: Vec::new(),
    }
}

/// The rows of the list of conversations, with names from the whole directory.
pub fn rows_with_directory(
    conversations: &Vec<ConversationSummary>,
    directory: &Vec<DirectoryEntry>,
) -> (r: Vec<ConversationRow>)
    ensures
        r@.len() == conversations@.len(),
        forall|i: int|
            0 <= i < r@.len() ==> is_conversation_row(
                #[trigger] r@[i],
                conversations@[i],
                directory@,
            ),
{
    let mut rows: Vec<ConversationRow> = Vec::new();
    for i in 0..conversations.len()
        invariant
            rows@.len() == i,
            forall|j: int|
                0 <= j < i ==> is_conversation_row(
                    #[trigger] rows@[j],
                    conversations@[j],
                    directory@,
                ),
    {
        rows.push(conversation_row(&conversations[i], directory));
    }
    rows
}

} // verus!
