use rsnomadnet_core::db::{stored_message, HistoryRow, NewMessage};
use rsnomadnet_core::models::{DirectoryEntry, MessageView, RrcMessageView};
use rsnomadnet_core::queries::{
    clear_conversation, clear_rrc_messages, conversation_has_pending, conversation_messages,
    conversations, mark_conversation_read, message_hash_exists, recent_destinations,
    recent_messages, rrc_messages, search_messages, unread_count, DIRECTORY_ROWS, PAGE_ROWS,
};
use rsnomadnet_core::retention::{
    is_destination_kept, is_message_kept, is_page_kept, CachedPage, CACHED_BYTES, CACHED_PAGES,
    KNOWN_DESTINATIONS, MESSAGES_PER_PEER,
};
use rsnomadnet_core::service::AppError;
use rsnomadnet_core::table::TextMap;

fn message(id: i64, destination: &str, content: &str, timestamp: i64) -> MessageView {
    stored_message(
        id,
        NewMessage {
            destination_hash: destination.into(),
            source_hash: "bb".into(),
            title: "".into(),
            content: content.into(),
            timestamp,
            outbound: false,
            state: "delivered".into(),
            delivery_method: "incoming".into(),
            attempts: 0,
            next_attempt: 0,
            last_error: None,
            message_hash: Some("01".into()),
        },
    )
}

#[test]
fn stores_and_lists_conversations() {
    let messages = vec![message(1, "aa", "hello", 10)];
    assert_eq!(conversations(&messages, &TextMap::new(), &TextMap::new()).len(), 1);
    let places = conversation_messages(&messages, "aa");
    assert_eq!(messages[places[0]].content, "hello");
    let hashes = vec!["01".to_string()];
    assert!(message_hash_exists(&hashes, "01"));
    assert!(!message_hash_exists(&hashes, "02"));
}

#[test]
fn stores_and_filters_rrc_history() {
    let mut messages = Vec::new();
    let mut rows = Vec::new();
    for (id, room) in ["rust", "bots"].into_iter().enumerate() {
        messages.push(RrcMessageView {
            hub_hash: "aa".into(),
            room: Some(room.into()),
            source_hash: "bb".into(),
            nick: Some("alice".into()),
            body: format!("hello {room}"),
            timestamp_ms: 10,
            kind: "message".into(),
        });
        rows.push(HistoryRow {
            id: id as i64,
            timestamp: 10,
        });
    }
    let rust = Some("rust".to_string());
    let places = rrc_messages(&rows, &messages, "aa", &rust);
    assert_eq!(places.len(), 1);
    assert_eq!(messages[places[0]].body, "hello rust");
    let cleared = clear_rrc_messages(&messages, "aa", "rust");
    assert_eq!(cleared.len(), 1);
    for place in cleared {
        messages.remove(place);
        rows.remove(place);
    }
    assert!(rrc_messages(&rows, &messages, "aa", &rust).is_empty());
    let bots = Some("bots".to_string());
    assert_eq!(rrc_messages(&rows, &messages, "aa", &bots).len(), 1);
    assert_eq!(rrc_messages(&rows, &messages, "aa", &None).len(), 1);
    assert!(rrc_messages(&rows, &messages, "bb", &None).is_empty());
}

#[test]
fn conversations_are_listed_by_their_last_message() {
    let messages = vec![
        message(1, "aa", "old", 10),
        message(2, "bb", "other", 30),
        message(3, "aa", "new", 20),
    ];
    let mut names = TextMap::new();
    names.insert("aa".to_string(), "Alice".to_string());
    let listed = conversations(&messages, &names, &TextMap::new());
    assert_eq!(listed.len(), 2);
    assert_eq!(listed[0].destination_hash, "bb");
    assert_eq!(listed[0].display_name, None);
    assert_eq!(listed[1].last_message.as_deref(), Some("new"));
    assert_eq!(listed[1].last_activity, Some(20));
    assert_eq!(listed[1].display_name.as_deref(), Some("Alice"));
}

#[test]
fn marking_a_conversation_reads_what_it_holds() {
    let mut messages = vec![
        message(1, "aa", "one", 10),
        message(2, "bb", "other", 11),
        message(3, "aa", "two", 12),
    ];
    let mut read = TextMap::new();
    assert_eq!(unread_count(&messages, "aa", &read), 2);
    assert_eq!(mark_conversation_read(&messages, "cc"), None);
    let mark = mark_conversation_read(&messages, "aa");
    assert_eq!(mark, Some(3));
    read.insert("aa".to_string(), mark.unwrap());
    assert_eq!(unread_count(&messages, "aa", &read), 0);
    assert_eq!(unread_count(&messages, "bb", &read), 1);
    messages.push(message(4, "aa", "three", 13));
    let mut reply = message(5, "aa", "reply", 14);
    reply.outbound = true;
    messages.push(reply);
    let listed = conversations(&messages, &TextMap::new(), &read);
    assert_eq!(listed[0].destination_hash, "aa");
    assert_eq!((listed[0].unread, listed[1].unread), (1, 1));
}

#[test]
fn messages_are_read_by_time_and_identifier() {
    let messages = vec![
        message(4, "aa", "c", 20),
        message(2, "aa", "b", 20),
        message(9, "aa", "a", 10),
        message(1, "bb", "x", 5),
    ];
    assert_eq!(conversation_messages(&messages, "aa"), [2, 1, 0]);
    let many: Vec<MessageView> = (0..PAGE_ROWS as i64 + 3)
        .map(|n| message(n, "aa", "m", n))
        .collect();
    let read = conversation_messages(&many, "aa");
    assert_eq!((read.len(), read[0]), (PAGE_ROWS, 0));
}

#[test]
fn chat_histories_end_with_the_newest() {
    let count = PAGE_ROWS + 2;
    let messages: Vec<RrcMessageView> = (0..count)
        .map(|n| RrcMessageView {
            hub_hash: "aa".into(),
            room: None,
            source_hash: "bb".into(),
            nick: None,
            body: n.to_string(),
            timestamp_ms: n as u64,
            kind: "message".into(),
        })
        .collect();
    let rows: Vec<HistoryRow> = (0..count as i64)
        .map(|n| HistoryRow {
            id: n,
            timestamp: n,
        })
        .collect();
    let read = rrc_messages(&rows, &messages, "aa", &None);
    assert_eq!((read.len(), read[0], read[PAGE_ROWS - 1]), (PAGE_ROWS, 2, count - 1));
}

#[test]
fn destinations_heard_of_last_come_first() {
    let entries: Vec<DirectoryEntry> = (0..DIRECTORY_ROWS as i64 + 1)
        .map(|n| DirectoryEntry {
            destination_hash: n.to_string(),
            identity_hash: None,
            delivery_hash: None,
            kind: "peer".into(),
            display_name: None,
            hops: 0,
            last_seen: n,
            active: true,
        })
        .collect();
    let read = recent_destinations(&entries);
    assert_eq!(read.len(), DIRECTORY_ROWS);
    assert_eq!(read[0], DIRECTORY_ROWS);
    assert_eq!(*read.last().unwrap(), 1);
}

#[test]
fn a_conversation_is_cleared_whole_or_not_at_all() {
    let peer = "ab".repeat(16);
    let mut messages = vec![
        message(1, &peer, "one", 10),
        message(2, &"cd".repeat(16), "other", 11),
        message(3, &peer, "two", 12),
    ];
    assert_eq!(clear_conversation(&messages, &peer.to_uppercase()).unwrap(), [0, 2]);
    messages[2].outbound = true;
    for state in ["queued", "retrying", "sending"] {
        messages[2].state = state.into();
        assert!(conversation_has_pending(&messages, &peer));
        assert!(matches!(
            clear_conversation(&messages, &peer),
            Err(AppError::Conflict(text)) if text == "conversation has messages awaiting delivery"
        ));
    }
    assert_eq!(clear_conversation(&messages, &"cd".repeat(16)).unwrap(), [1]);
    messages[2].state = "failed".into();
    assert_eq!(clear_conversation(&messages, &peer).unwrap(), [0, 2]);
    assert!(matches!(
        clear_conversation(&messages, "ab"),
        Err(AppError::Invalid(_))
    ));
}

#[test]
fn the_newest_rows_of_every_list_are_kept() {
    let count = MESSAGES_PER_PEER as i64 + 1;
    let mut messages: Vec<MessageView> = (0..count).map(|id| message(id, "aa", "x", id)).collect();
    assert!(!is_message_kept(&messages, 0));
    assert!(is_message_kept(&messages, 1));
    messages[0].outbound = true;
    messages[0].state = "queued".into();
    assert!(is_message_kept(&messages, 0));

    let rows: Vec<HistoryRow> = (0..=KNOWN_DESTINATIONS as i64)
        .map(|id| HistoryRow { id, timestamp: 7 })
        .collect();
    assert!(!is_destination_kept(&rows, 0));
    assert!(is_destination_kept(&rows, 1));

    let pages = |count: usize, bytes: u64| -> Vec<CachedPage> {
        (0..count as i64)
            .map(|id| CachedPage { row: HistoryRow { id, timestamp: id }, bytes })
            .collect()
    };
    let many = pages(CACHED_PAGES + 1, 1);
    assert!(!is_page_kept(&many, 0) && is_page_kept(&many, 1));
    let large = pages(3, CACHED_BYTES / 2);
    assert!(!is_page_kept(&large, 0) && is_page_kept(&large, 1));
    assert!(!is_page_kept(&pages(1, CACHED_BYTES + 1), 0));
}

#[test]
fn conversations_are_searched_and_read_from_their_end() {
    let mut messages = vec![
        message(1, "aa", "first light", 30),
        message(2, "aa", "second", 10),
        message(3, "bb", "light", 20),
        message(4, "aa", "third", 20),
    ];
    messages[3].title = "moonlight".into();
    assert_eq!(recent_messages(&messages, "aa", 2), [3, 0]);
    assert_eq!(recent_messages(&messages, "aa", 9), [1, 3, 0]);
    assert!(recent_messages(&messages, "aa", 0).is_empty());
    assert_eq!(search_messages(&messages, "aa", "light"), [3, 0]);
    assert_eq!(search_messages(&messages, "bb", "light"), [2]);
    assert!(search_messages(&messages, "aa", "Light").is_empty());
}
