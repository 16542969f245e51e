use rsnomadnet_core::models::{
    ConversationSummary, DirectoryEntry, MessageView, NetworkSnapshot, NetworkState, RrcHubView,
    RrcMessageView, RrcRoomView, RrcUserView, ServerEvent,
};
use rsnomadnet_core::table::TextMap;
use rsnomadnet_core::ui::bridge::{
    Bridge, BridgeAction, EventAction, UiCommand, HISTORY_PAGE, MAX_JOBS,
};
use rsnomadnet_core::ui::rrc::{
    answer_to, message_line, parse, server_message, shortened, source_identity, Action, Answer,
    ServiceReply,
};
use rsnomadnet_core::ui::rooms::{
    button_width, button_widths, strip_shift, ChatCommand, RoomStrip, ServerList,
};
use rsnomadnet_core::ui::rrc_session::{
    history_place, server_hashes, server_rows, wants_connect, RrcSession, RrcState,
};
use rsnomadnet_core::ui::state::UiState;

fn message(room: Option<&str>, body: &str, timestamp_ms: u64) -> RrcMessageView {
    RrcMessageView {
        hub_hash: "hub".into(),
        room: room.map(str::to_string),
        source_hash: "peer".into(),
        nick: None,
        body: body.into(),
        timestamp_ms,
        kind: "message".into(),
    }
}

fn hub(destination_hash: &str, connected: bool) -> RrcHubView {
    RrcHubView {
        destination_hash: destination_hash.into(),
        local_identity: "11".repeat(16),
        name: None,
        nick: None,
        version: None,
        supports_resources: false,
        supports_actions: false,
        supports_direct_notices: false,
        supports_room_state: false,
        supports_user_list: false,
        max_message_bytes: None,
        connected,
        rooms: Vec::new(),
        room_states: Vec::new(),
        detail: if connected {
            "WELCOME"
        } else {
            "Waiting for WELCOME"
        }
        .into(),
    }
}

#[test]
fn ctrl_l_targets_selected_room_without_clearing_draft() {
    let mut local = RrcSession::new("hub".into());
    local.room.insert("hub".into(), "news".into());
    let key = local.draft_key();
    local.drafts.insert(key.clone(), "unfinished".into());
    let request = local.clear_room().unwrap();
    assert_eq!(request.hub, "hub");
    assert_eq!(request.action, Action::Clear("news".into()));
    local.poll(Ok(Answer::Cleared("news".into())));
    assert_eq!(local.drafts.get(&key).unwrap(), "unfinished");
}

#[test]
fn unread_counts_only_new_messages_and_clears_on_open() {
    let mut state = RrcState::new();
    let mut local = RrcSession::new("hub".into());
    local.room.insert("hub".into(), "general".into());
    state.history.insert("hub".into(), vec![]);
    local.observe_messages(&state, true);
    let mut messages = Vec::new();
    for (i, room) in ["general", "news", "news"].iter().enumerate() {
        messages.push(RrcMessageView {
            hub_hash: "hub".into(),
            room: Some((*room).into()),
            source_hash: "peer".into(),
            nick: None,
            body: "Hello".into(),
            timestamp_ms: i as u64,
            kind: "message".into(),
        });
    }
    state.history.insert("hub".into(), messages);
    local.observe_messages(&state, true);
    local.observe_messages(&state, true);
    assert_eq!(local.label("general"), "general");
    assert_eq!(local.label("news"), "news (2)");
    local.room.insert("hub".into(), "news".into());
    local.observe_messages(&state, true);
    assert_eq!(local.label("news"), "news");
}

#[test]
fn server_messages_have_no_address_prefix_but_peer_notices_do() {
    let identity = [9; 16];
    let address = [7; 16];
    let mut message = RrcMessageView {
        hub_hash: hex::encode(address),
        room: None,
        source_hash: hex::encode(identity),
        nick: None,
        body: "Server notice".into(),
        timestamp_ms: 0,
        kind: "notice".into(),
    };
    assert_eq!(source_identity(&message), Some(identity));
    assert!(server_message(&message, &Some(address)));
    assert_eq!(message_line(&message, &Some(address)), "Server notice");
    message.source_hash = hex::encode([8; 16]);
    assert!(message_line(&message, &Some([6; 16])).ends_with(": Server notice"));
}

#[test]
fn history_lines_only_contain_short_sender_and_body() {
    let mut message = RrcMessageView {
        hub_hash: "hub".into(),
        room: Some("general".into()),
        source_hash: "8aecd0211234567890a587".into(),
        nick: None,
        body: "Hello".into(),
        timestamp_ms: 0,
        kind: "message".into(),
    };
    assert_eq!(message_line(&message, &None), "8aecd021...a587: Hello");
    message.nick = Some("Alice".into());
    message.kind = "action".into();
    assert_eq!(message_line(&message, &None), "Alice: Hello");
    message.nick = Some("АлександрАлександрович".into());
    assert_eq!(message_line(&message, &None), "Александ...ович: Hello");
}

#[test]
fn register_uses_current_or_explicit_room() {
    assert_eq!(
        parse("/register", "general").unwrap(),
        Action::Register("general".into())
    );
    assert_eq!(
        parse("/register #Rust", "general").unwrap(),
        Action::Register("rust".into())
    );
    assert!(parse("/register", "").is_err());
    assert!(parse("/register #", "general").is_err());
    assert!(parse("/register one two", "general").is_err());
}

#[test]
fn join_keeps_current_room_until_confirmation_and_retains_failed_command() {
    let mut local = RrcSession::new("hub".into());
    local.room.insert("hub".into(), "old".into());
    let key = local.draft_key();
    local.drafts.insert(key.clone(), "/join new".into());
    let request = local.send(Action::Join("new".into(), None), Some("/join new".into()));
    assert!(request.is_some());
    assert_eq!(local.room.get("hub").unwrap(), "old");
    local.poll(Err("Join timed out".into()));
    assert_eq!(local.room.get("hub").unwrap(), "old");
    assert_eq!(local.drafts.get(&key).unwrap(), "/join new");
    let request = local.send(Action::Join("new".into(), None), Some("/join new".into()));
    assert!(request.is_some());
    local.poll(Ok(Answer::Joined("new".into())));
    assert_eq!(local.room.get("hub").unwrap(), "new");
    assert!(!local.drafts.contains(&key));
}

#[test]
fn room_button_joins_its_own_room() {
    let mut state = RrcState::new();
    let mut local = RrcSession::new("hub-a".into());
    local
        .rooms
        .insert("hub-a".into(), vec!["general".into(), "news".into()]);
    let buttons = local.room_buttons(&state);
    let news = buttons.iter().find(|name| *name == "news").unwrap();
    let request = local.press_room(&state, news).unwrap();
    assert_eq!(request.hub, "hub-a");
    assert_eq!(request.action, Action::Join("news".into(), None));
    assert!(local.room.get("hub-a").is_none());
    local.poll(Ok(Answer::Joined("news".into())));
    assert_eq!(local.room.get("hub-a").unwrap(), "news");
    let mut joined = hub("hub-a", true);
    joined.rooms = vec!["general".into(), "news".into()];
    state.hubs.push(joined);
    local.room.insert("hub-a".into(), "general".into());
    let request = local.press_room(&state, news);
    assert_eq!(local.room.get("hub-a").unwrap(), "news");
    assert!(request.is_none(), "joined room must not send another JOIN");
}

#[test]
fn failed_sends_preserve_draft_and_replies_remain_bound_to_original_hub() {
    let mut local = RrcSession::new("hub-a".into());
    local.room.insert("hub-a".into(), "room".into());
    let key = local.draft_key();
    local.drafts.insert(key.clone(), "hello".into());
    let request = local
        .send(
            Action::Send("room".into(), "hello".into(), false),
            Some("hello".into()),
        )
        .unwrap();
    assert_eq!(request.hub, "hub-a");
    local.hub = "hub-b".into();
    local.poll(Err("offline".into()));
    assert_eq!(local.drafts.get(&key).map(String::as_str), Some("hello"));
    assert!(local.status.get("hub-a").unwrap().contains("offline"));
    assert!(!local.status.contains("hub-b"));
}

#[test]
fn commands_are_explicit_and_text_requires_room() {
    assert_eq!(
        parse("/join #test secret", "").unwrap(),
        Action::Join("test".into(), Some("secret".into()))
    );
    assert_eq!(
        parse("hello", "#test").unwrap(),
        Action::Send("#test".into(), "hello".into(), false)
    );
    assert!(parse("hello", "").is_err());
    assert!(parse("/unknown text", "#test").is_err());
}

#[test]
fn every_command_has_its_action() {
    assert_eq!(parse("/rooms", "").unwrap(), Action::Rooms);
    assert_eq!(parse("/ping", "").unwrap(), Action::Ping);
    assert_eq!(
        parse("/me waves", "r").unwrap(),
        Action::Send("r".into(), "waves".into(), true)
    );
    assert_eq!(parse("/nick bob", "").unwrap(), Action::Nick("bob".into()));
    assert!(parse("/nick", "").is_err());
    assert!(parse("", "r").is_err());
}

#[test]
fn answers_follow_the_replies_of_the_service() {
    assert!(matches!(
        answer_to(Action::Join("a".into(), None), ServiceReply::Done),
        Answer::Joined(room) if room == "a"
    ));
    assert!(matches!(
        answer_to(Action::Disconnect, ServiceReply::Done),
        Answer::Disconnected
    ));
    assert!(matches!(
        answer_to(
            Action::Rooms,
            ServiceReply::Rooms(vec![RrcRoomView { name: "x".into(), topic: None }])
        ),
        Answer::Rooms(rooms) if rooms == ["x"]
    ));
    assert!(matches!(
        answer_to(Action::Ping, ServiceReply::Milliseconds(12)),
        Answer::Status(text) if text.contains("12")
    ));
    assert!(matches!(
        answer_to(
            Action::Users("r".into()),
            ServiceReply::Users(vec![RrcUserView {
                nick: Some("bob".into()),
                identity: "aa".into(),
                operator: false,
                voiced: false,
            }])
        ),
        Answer::Status(text) if text.contains("bob")
    ));
}

#[test]
fn long_names_are_shortened_by_glyphs() {
    let parts: Vec<String> = "abcdefghijklmnopqrst".chars().map(String::from).collect();
    assert_eq!(shortened(&parts), "abcdefgh...qrst");
    assert_eq!(shortened(&parts[..4].to_vec()), "abcd");
}

#[test]
fn only_messages_of_the_room_are_visible() {
    let mut state = RrcState::new();
    let mut local = RrcSession::new("hub".into());
    local.room.insert("hub".into(), "general".into());
    state.history.insert(
        "hub".into(),
        vec![
            message(Some("general"), "Visible room message", 0),
            message(Some("private"), "Hidden other room", 0),
        ],
    );
    assert_eq!(local.visible_messages(&state), [0]);
    local.send(Action::Disconnect, None);
    local.poll(Ok(Answer::Disconnected));
    assert!(local.visible_messages(&state).is_empty());
    assert_eq!(state.history.get("hub").unwrap().len(), 2);
}

#[test]
fn one_request_waits_at_a_time() {
    let mut local = RrcSession::new("hub".into());
    local.room.insert("hub".into(), "r".into());
    let key = local.draft_key();
    local.drafts.insert(key.clone(), "hello".into());
    let request = local.submit().unwrap();
    assert_eq!(
        request.action,
        Action::Send("r".into(), "hello".into(), false)
    );
    assert!(local.submit().is_none());
    assert_eq!(local.current_room(), "r");
    local.send_failed();
    assert_eq!(local.drafts.get(&key).unwrap(), "hello");
    assert!(local.pending.is_none());
}

#[test]
fn servers_are_listed_and_connected_once() {
    let mut state = RrcState::new();
    assert!(wants_connect(&state, "hub"));
    state.hubs.push(hub("hub", true));
    state.hubs.push(hub("other", false));
    assert!(!wants_connect(&state, "hub"));
    state.hubs.push(hub("third", true));
    let hashes = server_hashes(&state, &"other".to_string());
    assert_eq!(hashes, ["hub", "other", "third"]);
    let shared = UiState::new();
    assert_eq!(
        server_rows(&state, &shared, &hashes),
        ["+ hub", "- other", "+ third"]
    );
    let mut local = RrcSession::new("hub".into());
    local.note_connections(&state);
    assert!(!local.status_text(&state, &shared).is_empty());
}

#[test]
fn places_and_widths_of_the_room_strip() {
    assert_eq!(history_place(3, 10, 10, false), 3);
    assert_eq!(history_place(9, 10, 12, false), 11);
    assert_eq!((button_width(1), button_width(4)), (8, 10));
    assert_eq!(strip_shift(2, 8, 20), 0);
    assert_eq!(strip_shift(18, 25, 20), -5);
    assert_eq!(strip_shift(-3, 4, 20), 3);
    assert_eq!(strip_shift(5, 35, 20), -5);
}

#[test]
fn the_room_with_the_focus_is_in_view() {
    let mut local = RrcSession::new("hub".into());
    let mut state = RrcState::new();
    let mut server = hub("hub", true);
    server.rooms = vec!["rust".into(), "bots".into(), "rust".into()];
    state.hubs.push(server);
    let rooms = local.room_buttons(&state);
    assert_eq!(rooms, ["bots", "rust"]);
    assert_eq!(local.current_room(), "rust");
    let mut strip = RoomStrip::new();
    assert!(strip.refresh(&local.hub, rooms.clone()));
    assert!(!strip.refresh(&local.hub, rooms.clone()));
    let widths = button_widths(&local, &strip.rooms);
    assert_eq!(widths, [10, 10]);
    assert_eq!(strip.places(&widths), [(0, 10), (10, 20)]);
    strip.follow(Some((10, 20)), 15);
    assert_eq!(strip.offset, 5);
    assert_eq!(strip.places(&widths), [(-5, 5), (5, 15)]);
    strip.follow(Some((-5, 5)), 15);
    assert_eq!(strip.offset, 0);
    strip.follow(None, 15);
    assert_eq!(strip.offset, 0);
    strip.offset = 7;
    assert!(strip.refresh(&local.hub, vec!["rust".into()]));
    assert_eq!(strip.offset, 0);
}

#[test]
fn the_list_of_hubs_follows_the_open_one() {
    let mut state = RrcState::new();
    state.hubs.push(hub("hub", true));
    let shared = UiState::new();
    let mut list = ServerList::new();
    assert!(list.refresh(&state, &shared, &"other".to_string()));
    assert_eq!(list.rows, ["+ hub", "- other"]);
    assert_eq!(list.selected, 1);
    assert!(!list.refresh(&state, &shared, &"other".to_string()));
    assert!(list.refresh(&state, &shared, &"hub".to_string()));
    assert_eq!((list.rows.len(), list.selected), (1, 0));
    assert_eq!(list.hub_at(0).as_deref(), Some("hub"));
    assert_eq!(list.hub_at(1), None);
}

#[test]
fn commands_of_the_chat_window_are_asked_of_the_open_hub() {
    let mut local = RrcSession::new("hub".into());
    let state = RrcState::new();
    assert!(local.window_event(&state, None, ChatCommand::Other).is_none());
    assert!(local.window_event(&state, None, ChatCommand::Clear).is_none());
    assert_eq!(local.status.get("hub").unwrap(), "Select a room first");
    let request = local
        .window_event(&state, Some("next".into()), ChatCommand::Rooms)
        .unwrap();
    assert_eq!((request.hub.as_str(), request.action), ("next", Action::Rooms));
    assert!(local.window_event(&state, None, ChatCommand::Disconnect).is_none());
    assert_eq!(
        local.status.get("next").unwrap(),
        "Please wait for the current operation"
    );
    local.poll(Ok(Answer::Status("done".into())));
    let request = local
        .window_event(&state, None, ChatCommand::Disconnect)
        .unwrap();
    assert_eq!(request.action, Action::Disconnect);
}

#[test]
fn late_connect_reply_does_not_overwrite_welcome() {
    let destination = "00".repeat(16);
    let mut bridge = Bridge::new(UiState::new());
    let BridgeAction::Connect { version, .. } = bridge.command(UiCommand::ConnectRrc {
        destination_hash: destination.clone(),
    }) else {
        panic!("wrong command")
    };
    bridge.hub_changed(hub(&destination, true), &vec![]);
    let key = format!("rrc:{destination}");
    assert!(bridge
        .state
        .directory_views
        .get(&key)
        .unwrap()
        .contains(&"WELCOME".to_string()));
    bridge.published();
    bridge.connected(
        destination.clone(),
        version,
        Ok(hub(&destination, false)),
        &vec![],
    );
    assert!(bridge
        .state
        .directory_views
        .get(&key)
        .unwrap()
        .contains(&"State: connected".to_string()));
    assert!(
        matches!(
            bridge.command(UiCommand::ConnectRrc {
                destination_hash: destination,
            }),
            BridgeAction::ShowHub { .. }
        ),
        "connected hub must be reused"
    );
}

#[test]
fn work_is_begun_once_and_bounded() {
    let mut bridge = Bridge::new(UiState::new());
    let send = |bridge: &mut Bridge, to: &str| {
        bridge.command(UiCommand::SendMessage {
            destination_hash: to.into(),
            content: "x".into(),
        })
    };
    assert!(matches!(
        send(&mut bridge, "aa"),
        BridgeAction::Send { destination_hash, content }
            if destination_hash == "aa" && content == "x"
    ));
    assert!(matches!(send(&mut bridge, "aa"), BridgeAction::Nothing));
    for i in 1..MAX_JOBS {
        assert!(matches!(
            send(&mut bridge, &format!("{i}")),
            BridgeAction::Send { .. }
        ));
    }
    assert!(matches!(send(&mut bridge, "zz"), BridgeAction::Nothing));
    bridge.sent("aa".into(), "x".into(), Some("offline".into()));
    assert_eq!(
        bridge
            .state
            .send_results
            .get("aa")
            .unwrap()
            .error
            .as_deref(),
        Some("offline")
    );
    assert!(matches!(send(&mut bridge, "zz"), BridgeAction::Send { .. }));
}

#[test]
fn histories_are_shown_as_far_as_they_were_asked_for() {
    let mut bridge = Bridge::new(UiState::new());
    assert!(matches!(
        bridge.command(UiCommand::OpenConversation { destination_hash: "aa".into() }),
        BridgeAction::Open { limit, .. } if limit == HISTORY_PAGE
    ));
    assert_eq!(bridge.shown_limit("aa"), Some(HISTORY_PAGE));
    assert!(matches!(
        bridge.command(UiCommand::LoadOlder { destination_hash: "aa".into() }),
        BridgeAction::LoadHistory { limit, .. } if limit == 2 * HISTORY_PAGE
    ));
    bridge.refresh_conversations(
        &Ok(vec![ConversationSummary {
            destination_hash: "aa".into(),
            display_name: None,
            last_message: None,
            last_activity: None,
            unread: 0,
        }]),
        &vec![],
    );
    bridge.load_history(
        "aa",
        &Ok(vec![MessageView {
            id: 1,
            destination_hash: "aa".into(),
            source_hash: "bb".into(),
            title: "".into(),
            content: "hello".into(),
            timestamp: 1,
            outbound: false,
            state: "delivered".into(),
            delivery_method: "incoming".into(),
            attempts: 0,
            last_error: None,
        }]),
    );
    assert_eq!(bridge.state.conversations[0].messages, ["[<] hello"]);
    bridge.command(UiCommand::CloseConversation {
        destination_hash: "aa".into(),
    });
    assert_eq!(bridge.shown_limit("aa"), None);
}

#[test]
fn screens_follow_the_events_of_the_service() {
    let mut bridge = Bridge::new(UiState::new());
    let mut network = NetworkSnapshot::offline();
    network.state = NetworkState::Online;
    network.detail = "Event while send is pending".into();
    bridge.show_network(&network);
    assert!(bridge
        .state
        .network
        .contains(&"Event while send is pending".to_string()));
    assert!(bridge.dirty);
    bridge.published();
    assert!(!bridge.dirty);
    bridge.show_directory(&Ok(vec![DirectoryEntry {
        destination_hash: "aa".into(),
        identity_hash: None,
        delivery_hash: None,
        kind: "node".into(),
        display_name: None,
        hops: 0,
        last_seen: 1,
        active: true,
    }]));
    assert_eq!(bridge.state.directory.len(), 1);
    bridge.command(UiCommand::FetchNodePage {
        destination_hash: "aa".into(),
    });
    bridge.page_loaded("aa", Ok(vec!["Loaded".into()]));
    assert_eq!(
        bridge.state.directory_views.get("node:aa").unwrap(),
        &["Loaded"]
    );
    assert!(matches!(
        bridge.event(ServerEvent::RrcMessage(message(None, "x", 0))),
        EventAction::Nothing
    ));
    assert!(matches!(
        bridge.event(ServerEvent::RrcHubChanged(hub("hub", true))),
        EventAction::ReadHub(view) if view.destination_hash == "hub"
    ));
    bridge.hub_changed(hub("hub", true), &vec![]);
    assert!(matches!(
        bridge.event(ServerEvent::RrcMessage(message(None, "x", 0))),
        EventAction::ReadHistory { destination_hash } if destination_hash == "hub"
    ));
    assert!(matches!(
        bridge.event(ServerEvent::NetworkChanged(NetworkSnapshot::offline())),
        EventAction::Nothing
    ));
    bridge.mark_read_failed("locked");
    assert_eq!(
        bridge.state.network.last().map(String::as_str),
        Some("Mark read: locked")
    );
    bridge.show_hub("aa", &vec![]);
    bridge.events_lost();
    assert!(!bridge.hubs.get("hub").unwrap().connected);
    bridge.job_failed("panicked");
    assert!(bridge.dirty);
}

#[test]
fn buttons_of_rooms_bear_no_tildes() {
    let mut local = RrcSession::new("hub".into());
    assert_eq!(local.button_text("~ge~neral~"), "general");
    assert_eq!(local.button_text("news"), "news");
    assert!(!local.button_pressed("news"));
    local.room.insert("hub".into(), "news".into());
    assert!(local.button_pressed("news"));
    assert!(!local.button_pressed("general"));
    let mut rooms = TextMap::new();
    rooms.insert("a~b".to_string(), 3);
    local.unread.insert("hub".into(), rooms);
    assert_eq!(local.button_text("a~b"), "ab (3)");
}

#[test]
fn versions_of_hubs_go_round() {
    let destination = "00".repeat(16);
    let mut bridge = Bridge::new(UiState::new());
    bridge.versions.insert(destination.clone(), u64::MAX);
    bridge.hub_changed(hub(&destination, true), &vec![]);
    assert_eq!(bridge.versions.get(&destination), Some(&0));
    bridge.connected(destination.clone(), u64::MAX, Err("late".into()), &vec![]);
    assert!(bridge.hubs.get(&destination).unwrap().connected);
}
