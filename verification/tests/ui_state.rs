use rsnomadnet_core::attachments::FileOffer;
use rsnomadnet_core::models::{
    ConversationSummary, DirectoryEntry, InterfaceSnapshot, NetworkSnapshot, NetworkState,
    RrcHubView, RrcMessageView, RrcRoomStateView,
};
use rsnomadnet_core::ui::app::{
    main_window_rect, opens_at_start, restore_windows, snapshot, AppAction, AppCommand, Composer,
    Desk, MainWindow, RestoredKind,
};
use rsnomadnet_core::ui::conversation::{
    acknowledge, centred_window, clear_history, compose, conversation_window_title, draft_of,
    history_lines, keep_draft, note_cleared, note_sent, ClearReply, ClearStep, ConversationHistory,
};
use rsnomadnet_core::ui::conversations::rows_with_directory;
use rsnomadnet_core::ui::directory::Filters;
use rsnomadnet_core::ui::files::{
    offer_description, review, sending_description, FileReply, FileWindow,
};
use rsnomadnet_core::ui::glyphs::{clip_parts, clipped};
use rsnomadnet_core::ui::layout::{
    browser_window, chat_window, check_size, fit, load, online, valid_key, window_size, Layout,
    LayoutError, Point, Rect, SavedWindow,
};
use rsnomadnet_core::ui::lines::{
    directory_lines, message_line, network_lines, node_index_url, rrc_hub_lines, rrc_message_line,
    single_line, update_network,
};
use rsnomadnet_core::ui::lists::{OpenCommand, Pane, StateList};
use rsnomadnet_core::ui::network::{network_screen, network_text};
use rsnomadnet_core::ui::state::{
    directory_title, selected_destination, target_lines, ConversationRow, DirectoryKind,
    DirectoryRow, SendResult, UiState, MAX_DIRECTORY_ROWS,
};
use rsnomadnet_core::ui::updates::{apply_update, drain_updates, UpdateSlot};
use rsnomadnet_core::ui::windows::WindowRegistry;
use unicode_width::UnicodeWidthStr;

fn rect(ax: i32, ay: i32, bx: i32, by: i32) -> Rect {
    Rect {
        a: Point { x: ax, y: ay },
        b: Point { x: bx, y: by },
    }
}

fn conversation(messages: Vec<String>) -> UiState {
    let mut state = UiState::new();
    state.conversations.push(ConversationRow {
        destination_hash: "aa".into(),
        title: "Alice".into(),
        label: "Alice".into(),
        messages,
    });
    state
}

fn directory_row(hash: &str, title: &str, kind: DirectoryKind) -> DirectoryRow {
    DirectoryRow {
        destination_hash: hash.into(),
        title: title.into(),
        label: title.into(),
        kind,
    }
}

#[test]
fn coalescing_preserves_send_failures_until_consumed() {
    let mut updates = UpdateSlot::new();
    let mut update = UiState::new();
    update.send_results.insert(
        "aa".into(),
        SendResult {
            content: "draft".into(),
            error: Some("offline".into()),
        },
    );
    updates.send(update);
    for _ in 0..1000 {
        updates.send(UiState::new());
    }
    assert_eq!(
        updates
            .try_recv()
            .unwrap()
            .send_results
            .get("aa")
            .unwrap()
            .error
            .as_deref(),
        Some("offline")
    );
    assert!(updates.try_recv().is_err());
}

#[test]
fn send_error_remains_visible_after_network_refresh() {
    let mut state = UiState::new();
    state.pending_sends.insert("aa".into(), "draft".into());
    let mut updates = UpdateSlot::new();
    let mut update = UiState::new();
    update.send_results.insert(
        "aa".into(),
        SendResult {
            content: "draft".into(),
            error: Some("offline".into()),
        },
    );
    updates.send(update);
    state = apply_update(state, drain_updates(&mut updates).unwrap());
    updates.send(UiState::new());
    state = apply_update(state, drain_updates(&mut updates).unwrap());
    assert!(!state.pending_sends.contains("aa"));
    assert_eq!(
        state.send_errors.get("aa").map(String::as_str),
        Some("offline")
    );
}

#[test]
fn queued_resource_result_survives_a_later_periodic_snapshot() {
    let mut updates = UpdateSlot::new();
    let mut result = UiState::new();
    result
        .directory_views
        .insert("node:0011".into(), vec!["Loaded page".into()]);
    updates.send(result);
    updates.send(UiState::new());

    let merged = drain_updates(&mut updates).expect("queued updates");
    assert_eq!(
        merged.directory_views.get("node:0011"),
        Some(&vec!["Loaded page".to_string()])
    );
}

#[test]
fn directory_is_limited_to_recent_terminal_rows() {
    let entries = (0..MAX_DIRECTORY_ROWS + 25)
        .map(|index| DirectoryEntry {
            destination_hash: format!("{index:032x}"),
            identity_hash: None,
            delivery_hash: None,
            kind: "node".into(),
            display_name: Some(format!("Node {index}")),
            hops: 1,
            last_seen: (MAX_DIRECTORY_ROWS + 25 - index) as i64,
            active: true,
        })
        .collect();

    let rows = directory_lines(&entries);
    assert_eq!(rows.len(), MAX_DIRECTORY_ROWS);
    assert_eq!(rows.first().unwrap().title, "Node 0");
    assert_eq!(rows.last().unwrap().title, "Node 199");
}

#[test]
fn messages_are_rendered_as_single_directional_lines() {
    assert_eq!(
        message_line(true, "delivered", "hello\nfrom   TUI"),
        "[>] hello from TUI"
    );
    assert_eq!(message_line(true, "retrying", "hello"), "[~] hello");
    assert_eq!(message_line(true, "failed", "hello"), "[!] hello");
    assert_eq!(message_line(false, "delivered", "reply"), "[<] reply");
}

#[test]
fn rrc_messages_include_room_and_nick() {
    assert_eq!(
        rrc_message_line(&RrcMessageView {
            hub_hash: "0011".into(),
            room: Some("general".into()),
            source_hash: "aabb".into(),
            nick: Some("Alice".into()),
            body: "waves".into(),
            timestamp_ms: 0,
            kind: "action".into(),
        }),
        "[#general * Alice] waves"
    );
}

#[test]
fn lxmf_keeps_reading_position_and_only_follows_at_the_end() {
    let mut state = conversation((0..50).map(|n| format!("Message {n}")).collect());
    let mut history = ConversationHistory::new("aa".into());
    history.refresh(&state);
    assert_eq!(history.selected, 49);
    history.selected = 10;
    history.refresh(&state);
    assert_eq!(history.selected, 10);
    state.conversations[0].messages.push("New message".into());
    history.refresh(&state);
    assert_eq!(history.selected, 10);
    history.selected = 50;
    state.conversations[0]
        .messages
        .push("Another new message".into());
    history.refresh(&state);
    assert_eq!(history.selected, 51);
    history.selected = 0;
    state.conversations[0]
        .messages
        .insert(0, "Older message".into());
    history.refresh(&state);
    assert_eq!(history.selected, 1);
}

#[test]
fn ctrl_l_clears_only_this_peer_and_reports_failure_without_losing_draft() {
    let mut state = UiState::new();
    state.selected_destination_hash = Some("another-peer".into());
    let content = String::from("draft");
    assert_eq!(clear_history(&mut state, "aa", false), ClearStep::Ask);
    assert_eq!(clear_history(&mut state, "aa", true), ClearStep::Ignore);
    note_cleared(
        &mut state,
        "aa",
        ClearReply::Refused("awaiting delivery".into()),
    );
    assert!(state
        .send_errors
        .get("aa")
        .unwrap()
        .contains("awaiting delivery"));
    assert_eq!(content, "draft");
    assert_eq!(clear_history(&mut state, "aa", false), ClearStep::Ask);
    note_cleared(&mut state, "aa", ClearReply::Cleared);
    assert!(!state.send_errors.contains("aa"));
    assert_eq!(content, "draft");
}

#[test]
fn send_acknowledgement_keeps_failed_or_newly_edited_text() {
    let mut state = UiState::new();
    let mut content = String::from("draft");
    for error in [Some("offline".to_string()), None] {
        state.send_results.insert(
            "aa".into(),
            SendResult {
                content: "draft".into(),
                error: error.clone(),
            },
        );
        acknowledge(&mut state, "aa", &mut content);
        assert_eq!(content, if error.is_some() { "draft" } else { "" });
    }
    content = "edited while sending".into();
    state.send_results.insert(
        "aa".into(),
        SendResult {
            content: "draft".into(),
            error: None,
        },
    );
    acknowledge(&mut state, "aa", &mut content);
    assert_eq!(content, "edited while sending");
}

#[test]
fn conversation_and_composer_bind_selected_peer() {
    let destination_hash = "aabbccddeeff00112233445566778899";
    let mut state = UiState::new();
    state.conversations.push(ConversationRow {
        destination_hash: destination_hash.into(),
        title: "Alice".into(),
        label: "Alice".into(),
        messages: vec!["[<] hello".into()],
    });
    state.selected_destination_hash = Some(destination_hash.into());
    assert_eq!(
        selected_destination(&state).as_deref(),
        Some(destination_hash)
    );
    let mut desk = Desk::new(state);
    let AppAction::OpenConversation { destination, key } =
        desk.dispatch(AppCommand::OpenConversation)
    else {
        panic!("expected a conversation");
    };
    assert_eq!(destination, destination_hash);
    assert_eq!(key, format!("lxmf:{destination_hash}"));
    assert!(draft_of(&desk.state, destination_hash).is_empty());
}

fn summary(hash: &str, name: Option<&str>) -> ConversationSummary {
    ConversationSummary {
        destination_hash: hash.into(),
        display_name: name.map(str::to_owned),
        last_message: Some("hello".into()),
        last_activity: Some(1),
        unread: 2,
    }
}

fn announce(hash: &str, name: &str) -> DirectoryEntry {
    DirectoryEntry {
        destination_hash: hash.into(),
        display_name: Some(name.into()),
        identity_hash: None,
        delivery_hash: None,
        kind: "peer".into(),
        hops: 1,
        last_seen: 1,
        active: true,
    }
}

#[test]
fn names_use_full_directory_and_keep_contact_names_and_hash_fallback() {
    let mut directory: Vec<_> = (0..MAX_DIRECTORY_ROWS)
        .map(|n| announce(&format!("{n}"), "Other"))
        .collect();
    directory.push(announce("aa", " Alice "));
    directory.push(announce("bb", "Bob"));
    directory.push(announce("cc", "  "));
    let rows = rows_with_directory(
        &vec![
            summary("aa", None),
            summary("bb", Some("My friend")),
            summary("cc", None),
            summary("dd", None),
        ],
        &directory,
    );
    assert_eq!(rows[0].title, "Alice");
    assert_eq!(rows[0].label, "[2] Alice  hello");
    assert_eq!(rows[0].destination_hash, "aa");
    assert_eq!(rows[1].title, "My friend");
    assert_eq!(rows[2].title, "cc");
    assert_eq!(rows[3].title, "dd");
}

#[test]
fn delivery_address_is_used_only_when_no_peer_name_is_known() {
    let mut node = announce("node", "Node owner");
    node.kind = "node".into();
    node.delivery_hash = Some("aa".into());
    assert_eq!(
        rows_with_directory(&vec![summary("aa", None)], &vec![node.clone()])[0].title,
        "Node owner"
    );
    assert_eq!(
        rows_with_directory(
            &vec![summary("aa", None)],
            &vec![node, announce("aa", "Alice")]
        )[0]
        .title,
        "Alice"
    );
}

#[test]
fn renaming_and_reordering_preserve_selected_chat_identity() {
    let mut state = UiState::new();
    state.conversations =
        rows_with_directory(&vec![summary("aa", None), summary("bb", None)], &vec![]);
    let mut list = StateList::new(Pane::Conversations, None);
    list.refresh(&state);
    list.selected = 1;
    state.conversations = rows_with_directory(
        &vec![summary("bb", None), summary("aa", None)],
        &vec![announce("bb", "Bob")],
    );
    list.refresh(&state);
    assert_eq!(list.focused_destination().as_deref(), Some("bb"));
    assert_eq!(list.selected, 0);
    assert!(list.rows[0].contains("Bob"));
}

#[test]
fn directory_tracks_identity_when_equal_labels_are_reordered() {
    let mut state = UiState::new();
    state.directory = ["aa", "bb"]
        .into_iter()
        .map(|id| directory_row(id, "Same name", DirectoryKind::Peer))
        .collect();
    let mut list = StateList::new(Pane::Directory, None);
    list.refresh(&state);
    list.selected = 1;
    state.directory.reverse();
    list.refresh(&state);
    assert_eq!(list.focused_destination().as_deref(), Some("bb"));
    assert_eq!(list.selected, 0);
}

fn filtered() -> UiState {
    let mut state = UiState::new();
    state.directory = [
        DirectoryKind::Peer,
        DirectoryKind::Propagation,
        DirectoryKind::Rrc,
        DirectoryKind::Node,
    ]
    .into_iter()
    .enumerate()
    .map(|(i, kind)| directory_row(&format!("{i:032x}"), &format!("target-{i}"), kind))
    .collect();
    state
}

#[test]
fn selection_survives_filter_changes_and_updates() {
    let mut state = filtered();
    let mut list = StateList::new(Pane::Directory, Some(Filters::default()));
    list.refresh(&state);
    list.selected = 2;
    list.filters = Some(Filters { mask: 0b1100 });
    list.refresh(&state);
    assert_eq!(list.focused_destination(), Some(format!("{:032x}", 2)));
    assert_eq!(
        list.focused_directory_kind(&state),
        Some(DirectoryKind::Rrc)
    );
    state.directory.reverse();
    list.refresh(&state);
    assert_eq!(list.focused_destination(), Some(format!("{:032x}", 2)));
    list.filters = Some(Filters { mask: 15 });
    list.refresh(&state);
    assert_eq!(list.row_ids.len(), 4);
    assert_eq!(list.focused_destination(), Some(format!("{:032x}", 2)));
}

#[test]
fn letters_switch_one_kind_each() {
    let state = filtered();
    let mut filters = Filters::default();
    for kind in [DirectoryKind::Peer, DirectoryKind::Rrc] {
        assert!(filters.includes(kind));
    }
    for key in ['p', 'o', 'r', 'n'] {
        assert!(filters.toggle(key));
    }
    assert!(!filters.toggle('x'));
    assert_eq!(filters.mask, 0);
    let mut list = StateList::new(Pane::Directory, Some(filters));
    list.refresh(&state);
    assert_eq!(list.focused_destination(), None);
    assert_eq!(list.open_command(&state), None);
    let mut two = Filters::default();
    two.toggle('p');
    two.toggle('o');
    let mut list = StateList::new(Pane::Directory, Some(two));
    list.refresh(&state);
    assert_eq!(list.open_command(&state), Some(OpenCommand::RrcHub));
    assert_eq!(list.focused_destination(), Some(format!("{:032x}", 2)));
}

#[test]
fn focus_is_noted_in_the_state() {
    let mut state = filtered();
    let mut list = StateList::new(Pane::Directory, None);
    list.refresh(&state);
    list.selected = 3;
    list.note_focus(&mut state, true);
    assert_eq!(state.selected_directory_hash, Some(format!("{:032x}", 3)));
    assert_eq!(list.open_command(&state), Some(OpenCommand::NodeBrowser));
    assert_eq!(directory_title(&state, &format!("{:032x}", 3)), "target-3");
    assert_eq!(directory_title(&state, "zz"), "zz");
}

fn offer() -> FileOffer {
    FileOffer {
        id: "message:0".into(),
        sender: "aa".repeat(16),
        name: "report.txt".into(),
        size: 12345,
        verified: true,
    }
}

#[test]
fn accepted_offer_closes_only_after_successful_save() {
    for result in [
        FileReply::Failed("disk full".into()),
        FileReply::Done("Saved".into()),
    ] {
        let mut view = FileWindow::offer(&offer());
        assert_eq!(view.accept().as_deref(), Some("message:0"));
        assert!(view.shown.contains("report.txt"));
        let succeeded = matches!(result, FileReply::Done(_));
        assert_eq!(view.reply(result), succeeded);
        if !succeeded {
            assert!(view.shown.contains("Error: disk full"));
        } else {
            assert_eq!(view.close(), None);
        }
    }
}

#[test]
fn accepting_is_explicit_and_status_is_updated_after_save() {
    let mut view = FileWindow::offer(&offer());
    assert!(!view.waiting);
    assert_eq!(view.accept().as_deref(), Some("message:0"));
    assert_eq!(view.accept(), None);
    view.reply(FileReply::Done("Saved to /tmp/files/report.txt".into()));
    assert!(view.offer.is_none());
    assert!(view.shown.contains("Saved to /tmp/files/report.txt"));
    assert_eq!(view.close(), None);
}

#[test]
fn closing_an_offer_rejects_it_and_failed_save_can_be_retried() {
    let mut view = FileWindow::offer(&offer());
    view.accept();
    view.reply(FileReply::Failed("disk full".into()));
    assert!(view.offer.is_some());
    assert!(!view.waiting);
    assert_eq!(view.close().as_deref(), Some("message:0"));
}

#[test]
fn offers_are_described_and_prompted_for_once() {
    let text = offer_description(&offer());
    assert!(text.contains("report.txt") && text.contains("12345 bytes"));
    assert!(sending_description("a.txt").contains("a.txt"));
    let mut seen = rsnomadnet_core::table::TextMap::new();
    let offers = vec![offer()];
    assert_eq!(review(&mut seen, &offers).len(), 1);
    assert_eq!(review(&mut seen, &offers).len(), 0);
    assert_eq!(review(&mut seen, &vec![]).len(), 0);
    assert_eq!(review(&mut seen, &offers).len(), 1);
    let mut sending = FileWindow::sending("a.txt");
    assert_eq!(sending.accept(), None);
    sending.reply(FileReply::Dropped);
    assert_eq!(sending.close(), None);
}

fn entry(key: &str) -> SavedWindow {
    SavedWindow {
        key: key.into(),
        x: 4,
        y: 3,
        width: 50,
        height: 15,
        url: None,
    }
}

#[test]
fn invalid_targets_and_duplicates_are_ignored() {
    let layout = Layout {
        windows: vec![
            entry("directory"),
            entry("directory"),
            entry("node:invalid"),
            entry("unknown"),
        ],
        ..Default::default()
    };
    let saved = load(layout).unwrap();
    assert_eq!(saved.windows.len(), 1);
    assert_eq!(saved.windows[0].key, "directory");
}

#[test]
fn clamps_geometry_even_for_extreme_values_and_small_terminals() {
    let mut saved = entry("directory");
    saved.x = i32::MAX;
    saved.y = i32::MIN;
    saved.width = i32::MAX;
    saved.height = i32::MIN;
    assert_eq!(
        fit(&saved, rect(0, 1, 30, 9), Point { x: 44, y: 10 }),
        rect(0, 0, 30, 8)
    );
}

#[test]
fn saved_windows_that_fit_stay_where_they_are() {
    assert_eq!(
        fit(&entry("network"), rect(0, 1, 100, 30), Point { x: 16, y: 6 }),
        rect(4, 3, 54, 18)
    );
}

#[test]
fn layouts_are_checked() {
    assert!(valid_key("network"));
    assert!(valid_key(&format!("node:{}", "0a".repeat(16))));
    assert!(!valid_key("node:0a"));
    assert_eq!(check_size(1048577), Err(LayoutError::TooLarge));
    assert!(check_size(1048576).is_ok());
    let future = Layout {
        version: 99,
        ..Default::default()
    };
    assert!(matches!(
        load(future),
        Err(LayoutError::UnsupportedVersion(99))
    ));
    let many = Layout {
        windows: (0..129).map(|_| entry("network")).collect(),
        ..Default::default()
    };
    assert!(matches!(load(many), Err(LayoutError::TooManyWindows)));
}

#[test]
fn windows_are_recorded_focused_and_forgotten() {
    let mut layout = Layout::default();
    layout.record(entry("network"), true);
    layout.record(entry("directory"), false);
    let mut moved = entry("network");
    moved.x = 9;
    layout.record(moved, false);
    assert_eq!(layout.windows.len(), 2);
    assert_eq!(layout.active.as_deref(), Some("network"));
    assert!(layout.focus_existing("directory"));
    assert!(!layout.focus_existing("conversations"));
    assert!(!layout.take_focus("network"));
    assert!(layout.take_focus("directory"));
    layout.forget("network");
    assert_eq!(layout.windows.len(), 1);
    assert_eq!(layout.active, None);
}

#[test]
fn window_registry_keeps_one_of_each() {
    let mut windows = WindowRegistry::new();
    assert!(!windows.focus_existing("lxmf:aa"));
    windows.register("lxmf:aa".into());
    assert!(windows.focus_existing("lxmf:aa"));
    assert!(windows.take_focus("lxmf:aa"));
    assert!(!windows.take_focus("lxmf:aa"));
    assert!(!windows.focus_rrc());
    windows.register("rrc:bb".into());
    assert!(windows.focus_rrc());
    windows.unregister("lxmf:aa");
    assert!(!windows.focus_existing("lxmf:aa"));
}

#[test]
fn main_windows_can_be_reopened_without_duplicates() {
    let mut desk = Desk::new(UiState::new());
    let mut opened = Vec::new();
    for command in [
        AppCommand::OpenConversations,
        AppCommand::OpenConversations,
        AppCommand::OpenNetwork,
        AppCommand::OpenNetwork,
        AppCommand::OpenDirectory,
        AppCommand::OpenDirectory,
    ] {
        if let AppAction::OpenMain { key } = desk.dispatch(command) {
            desk.layout.record(entry(&key), true);
            opened.push(key);
        }
    }
    assert_eq!(opened, ["conversations", "network", "directory"]);
    desk.layout.forget("directory");
    for _ in 0..2 {
        if let AppAction::OpenMain { key } = desk.dispatch(AppCommand::OpenDirectory) {
            desk.layout.record(entry(&key), true);
        }
    }
    assert_eq!(desk.layout.windows.len(), 3);
    for key in ["conversations", "network", "directory"] {
        assert_eq!(
            desk.layout
                .windows
                .iter()
                .filter(|window| window.key == key)
                .count(),
            1
        );
    }
}

#[test]
fn targets_are_opened_once_and_messages_are_handed_over() {
    let mut state = UiState::new();
    state.selected_destination_hash = Some("bb".into());
    let mut desk = Desk::new(state);
    assert!(matches!(
        desk.dispatch(AppCommand::OpenRrcHub),
        AppAction::OpenRrcHub { key, destination } if key == "rrc:bb" && destination == "bb"
    ));
    desk.windows.register("rrc:bb".into());
    assert!(matches!(
        desk.dispatch(AppCommand::OpenRrcHub),
        AppAction::Nothing
    ));
    assert!(matches!(
        desk.dispatch(AppCommand::OpenNodeBrowser),
        AppAction::OpenNodeBrowser { key, .. } if key == "node:bb"
    ));
    desk.composer = Some(Composer {
        destination: "aa".into(),
        content: " hello ".into(),
    });
    assert!(matches!(
        desk.dispatch(AppCommand::SendMessage),
        AppAction::Send { destination, .. } if destination == "aa"
    ));
    assert!(matches!(
        desk.dispatch(AppCommand::Announce),
        AppAction::Announce
    ));
}

#[test]
fn saved_targets_are_restored() {
    let hash = "00112233445566778899aabbccddeeff";
    let mut browser = entry(&format!("node:{hash}"));
    browser.url = Some(format!("{hash}:/page/saved.mu"));
    let saved = Layout {
        windows: vec![
            entry(&format!("lxmf:{hash}")),
            entry(&format!("rrc:{hash}")),
            browser,
            entry("network"),
        ],
        ..Default::default()
    };
    let windows = restore_windows(&saved);
    assert_eq!(windows.len(), 3);
    assert!(matches!(windows[0].kind, RestoredKind::Conversation));
    assert!(matches!(windows[1].kind, RestoredKind::RrcHub));
    assert_eq!(
        windows[2].url.as_deref(),
        Some("00112233445566778899aabbccddeeff:/page/saved.mu")
    );
    let saved = Some(saved);
    assert!(opens_at_start(&saved, "network"));
    assert!(!opens_at_start(&saved, "directory"));
    assert!(opens_at_start(&None, "directory"));
}

#[test]
fn main_windows_share_the_desktop() {
    let bounds = rect(0, 0, 100, 28);
    for window in [
        MainWindow::Conversations,
        MainWindow::Network,
        MainWindow::Directory,
    ] {
        let placed = main_window_rect(bounds, window);
        assert!(placed.a.x >= 0 && placed.a.x < placed.b.x && placed.b.x <= 100);
        assert!(placed.a.y >= 0 && placed.a.y < placed.b.y && placed.b.y <= 28);
    }
}

fn interface(rx_bytes: u64, tx_bytes: u64) -> InterfaceSnapshot {
    InterfaceSnapshot {
        id: 1,
        name: "Local".into(),
        online: true,
        mode: "Full".into(),
        role: "Client".into(),
        bitrate: 1,
        mtu: 500,
        rx_bytes,
        tx_bytes,
        rx_rate: 0,
        tx_rate: 0,
        held_announces: 0,
        tx_drops: 0,
    }
}

#[test]
fn network_lines_tell_the_state() {
    let mut network = NetworkSnapshot::offline();
    network.state = NetworkState::Online;
    network.detail = "Shared".into();
    network.interfaces = vec![interface(1024, 2048)];
    let lines = network_lines(&network);
    assert!(online(&lines));
    assert!(lines.contains(&"Shared".to_string()));
    let mut state = UiState::new();
    update_network(&mut state, network);
    assert_eq!(state.network, lines);
    assert_eq!(state.network_interfaces.len(), 1);
    assert!(!online(&network_lines(&NetworkSnapshot::offline())));
}

#[test]
fn texts_are_clipped_to_whole_glyphs() {
    assert_eq!(clipped("世界", 3), "世");
    assert_eq!(clipped("abc", 2), "ab");
    assert_eq!(clipped("e\u{301}x", 1), "e\u{301}");
    assert_eq!(clipped("abc", 9), "abc");
    let parts = vec!["a".to_string(), "世".to_string(), "b".to_string()];
    assert_eq!(clip_parts(&parts, &vec![1, 2, 1], 2), "a");
    assert_eq!(clip_parts(&parts, &vec![1, 2, 1], 3), "a世");
}

#[test]
fn hub_lines_show_rooms_and_history() {
    let hub = RrcHubView {
        destination_hash: "00".repeat(16),
        local_identity: "11".repeat(16),
        name: Some("Hub".into()),
        nick: None,
        version: None,
        supports_resources: false,
        supports_actions: false,
        supports_direct_notices: false,
        supports_room_state: false,
        supports_user_list: false,
        max_message_bytes: None,
        connected: true,
        rooms: vec!["general".into()],
        room_states: vec![RrcRoomStateView {
            name: "general".into(),
            registered: true,
            modes: "".into(),
            topic: Some("All".into()),
        }],
        detail: "WELCOME".into(),
    };
    let lines = rrc_hub_lines(&hub, &vec![]);
    assert!(lines.contains(&"State: connected".to_string()));
    assert!(lines.contains(&"WELCOME".to_string()));
    assert!(lines.iter().any(|line| line.contains("general")));
}

#[test]
fn words_are_joined_in_one_line() {
    assert_eq!(single_line("  a \n\t b\u{a0}c "), "a b c");
    assert_eq!(single_line(" \n"), "");
    assert_eq!(
        node_index_url("00112233445566778899aabbccddeeff"),
        "00112233445566778899aabbccddeeff:/page/index.mu"
    );
}

#[test]
fn drafts_and_sends_are_kept_by_destination() {
    let mut state = UiState::new();
    keep_draft(&mut state, "aa".into(), "half".into());
    assert_eq!(draft_of(&state, "aa"), "half");
    keep_draft(&mut state, "aa".into(), String::new());
    assert_eq!(draft_of(&state, "aa"), "");
    assert_eq!(compose(&state, "aa", " hi "), Some("hi".to_string()));
    assert_eq!(compose(&state, "aa", "  "), None);
    note_sent(&mut state, "aa".into(), "hi".into(), true);
    assert_eq!(compose(&state, "aa", "again"), None);
    assert_eq!(clear_history(&mut state, "aa", false), ClearStep::Refuse);
    note_sent(&mut state, "bb".into(), "hi".into(), false);
    assert!(state.send_errors.contains("bb"));
    note_cleared(&mut state, "bb", ClearReply::NotSent);
    note_cleared(&mut state, "cc", ClearReply::Dropped);
    assert!(state.send_errors.contains("cc"));
}

#[test]
fn histories_and_targets_say_when_nothing_is_there() {
    let state = conversation(vec!["one".into()]);
    assert_eq!(history_lines(&state, "aa"), ["one"]);
    assert_eq!(history_lines(&state, "bb").len(), 1);
    assert!(conversation_window_title(&state, "aa").contains("Alice"));
    assert_eq!(target_lines(&state, "node:aa").len(), 1);
    let mut history = ConversationHistory::new("aa".into());
    assert!(history.refresh(&state));
    assert!(!history.refresh(&state));
    assert!(history.wants_older());
}

#[test]
fn windows_are_centred_on_the_desktop() {
    let placed = centred_window(
        rect(0, 0, 100, 30),
        Point { x: 80, y: 20 },
        Point { x: 40, y: 10 },
    );
    assert_eq!(placed, rect(10, 5, 90, 25));
    let far = centred_window(
        rect(2000000000, -2147483648, 2000000010, -2147483638),
        Point { x: 80, y: 20 },
        Point { x: 40, y: 0 },
    );
    assert_eq!(far, rect(2000000000, -2147483647, 2000000040, -2147483639));
}

#[test]
fn new_windows_keep_within_their_bounds() {
    let least = Point { x: 50, y: 12 };
    let most = Point { x: 110, y: 30 };
    let size = |x: i32, y: i32| window_size(Point { x, y }, least, most);
    assert_eq!(size(100, 28), Point { x: 98, y: 26 });
    assert_eq!(size(20, 10), least);
    assert_eq!(size(300, 90), most);
    assert_eq!(chat_window(rect(0, 1, 100, 29)), rect(1, 2, 99, 28));
    assert_eq!(chat_window(rect(0, 0, 10, 10)), rect(1, 1, 51, 13));
    assert_eq!(browser_window(rect(0, 0, 300, 90)), rect(1, 1, 101, 33));
    assert_eq!(browser_window(rect(0, 0, 10, 10)), rect(1, 1, 45, 11));
}

#[test]
fn screens_show_what_the_service_knows() {
    let state = snapshot(
        NetworkSnapshot::offline(),
        &vec![summary("aa", Some("Alice"))],
        &vec![announce("bb", "Bob")],
        "me".into(),
    );
    assert_eq!(state.conversations[0].title, "Alice");
    assert_eq!(state.directory[0].destination_hash, "bb");
    assert_eq!(state.announce_name, "me");
    let screen = network_screen(&state, &vec![], 40);
    assert!(!screen.is_empty());
    assert_eq!(network_text(&state, &vec![], 40), screen.join("\n"));
}

#[test]
fn network_counters_align_to_right_edge_after_resize() {
    let interface = |name: &str, rx_bytes, tx_bytes| InterfaceSnapshot {
        id: 1,
        name: name.into(),
        online: true,
        mode: String::new(),
        role: String::new(),
        bitrate: 0,
        mtu: 500,
        rx_bytes,
        tx_bytes,
        rx_rate: 0,
        tx_rate: 0,
        held_announces: 0,
        tx_drops: 0,
    };
    let mut state = UiState::new();
    state.network_interfaces = vec![
        interface("TCP", 1024, 1280),
        interface("Очень длинное имя 界", 1024000, 0),
    ];
    let counters: Vec<(String, String)> = state
        .network_interfaces
        .iter()
        .map(|i| {
            (
                format!("{:.2} KB", i.rx_bytes as f64 / 1024.0),
                format!("{:.2} KB", i.tx_bytes as f64 / 1024.0),
            )
        })
        .collect();
    for width in [38, 60, 100] {
        let text = network_text(&state, &counters, width);
        let lines: Vec<_> = text.lines().collect();
        assert!(lines.iter().all(|line| line.width() == width));
        assert!(lines[0].contains("1.00 KB"));
        assert!(lines[0].ends_with("1.25 KB"));
        assert!(lines[1].contains("1000.00 KB"));
        for marker in ["RX", "TX"] {
            let columns: Vec<_> = lines
                .iter()
                .map(|line| line[..line.find(marker).unwrap()].width())
                .collect();
            assert_eq!(columns[0], columns[1]);
        }
    }
    for width in 0..38 {
        assert!(network_text(&state, &counters, width)
            .lines()
            .all(|line| line.width() <= width));
    }
}

/// Opens what a list has selected, and says what that leads to.
fn enter(list: &mut StateList, desk: &mut Desk) -> Option<AppAction> {
    list.refresh(&desk.state);
    list.note_focus(&mut desk.state, true);
    let command = match list.open_command(&desk.state)? {
        OpenCommand::Conversation => AppCommand::OpenConversation,
        OpenCommand::RrcHub => AppCommand::OpenRrcHub,
        OpenCommand::NodeBrowser => AppCommand::OpenNodeBrowser,
    };
    Some(desk.dispatch(command))
}

/// Hands over what was written to a peer.
fn submit(desk: &mut Desk, destination: String, content: &str) -> (String, String) {
    desk.composer = Some(Composer {
        destination,
        content: content.into(),
    });
    match desk.dispatch(AppCommand::SendMessage) {
        AppAction::Send {
            destination,
            message,
        } => (destination, message),
        other => panic!("submitted the wrong command: {other:?}"),
    }
}

fn peer_row(hash: &str, title: &str) -> ConversationRow {
    ConversationRow {
        destination_hash: hash.into(),
        title: title.into(),
        label: title.into(),
        messages: Vec::new(),
    }
}

#[test]
fn enter_on_rrc_directory_entry_opens_hub_window() {
    let destination_hash = "00112233445566778899aabbccddeeff";
    let mut state = UiState::new();
    state
        .directory
        .push(directory_row(destination_hash, "SPb Hub", DirectoryKind::Rrc));
    let mut desk = Desk::new(state);
    let mut list = StateList::new(Pane::Directory, Some(Filters::default()));
    let Some(AppAction::OpenRrcHub { key, destination }) = enter(&mut list, &mut desk) else {
        panic!("wrong window")
    };
    assert_eq!(destination, destination_hash);
    assert_eq!(key, format!("rrc:{destination_hash}"));
    assert_eq!(directory_title(&desk.state, destination_hash), "SPb Hub");
}

#[test]
fn enter_on_node_directory_entry_opens_browser_window() {
    let destination_hash = "00112233445566778899aabbccddeeff";
    let mut state = UiState::new();
    state
        .directory
        .push(directory_row(destination_hash, "SPb Node", DirectoryKind::Node));
    let mut desk = Desk::new(state);
    let mut list = StateList::new(Pane::Directory, Some(Filters::default()));
    let Some(AppAction::OpenNodeBrowser { destination, .. }) = enter(&mut list, &mut desk) else {
        panic!("wrong window")
    };
    assert_eq!(destination, destination_hash);
    assert_eq!(directory_title(&desk.state, destination_hash), "SPb Node");
    assert_eq!(
        node_index_url(destination_hash),
        "00112233445566778899aabbccddeeff:/page/index.mu"
    );
}

#[test]
fn enter_opens_conversation_and_submits_message() {
    let destination_hash = "aabbccddeeff00112233445566778899";
    let mut state = UiState::new();
    state.conversations.push(peer_row(destination_hash, "Alice"));
    let mut desk = Desk::new(state);
    let mut list = StateList::new(Pane::Conversations, None);
    let Some(AppAction::OpenConversation { destination, .. }) = enter(&mut list, &mut desk) else {
        panic!("wrong window")
    };
    assert_eq!(
        conversation_window_title(&desk.state, &destination),
        "LXMF Conversation \u{2014} Alice"
    );
    assert!(desk.state.conversations[0].messages.is_empty());
    let (actual, content) = submit(&mut desk, destination, "hello from TUI");
    assert_eq!(actual, destination_hash);
    assert_eq!(content, "hello from TUI");
}

#[test]
fn enter_uses_peer_focused_with_arrow_keys() {
    let first = "aabbccddeeff00112233445566778899";
    let second = "00112233445566778899aabbccddeeff";
    let mut state = UiState::new();
    state.conversations.push(peer_row(first, "Alice"));
    state.conversations.push(peer_row(second, "Bob"));
    let mut desk = Desk::new(state);
    let mut list = StateList::new(Pane::Conversations, None);
    list.refresh(&desk.state);
    list.selected += 1;
    let Some(AppAction::OpenConversation { destination, .. }) = enter(&mut list, &mut desk) else {
        panic!("wrong window")
    };
    let (destination_hash, content) = submit(&mut desk, destination, "hello Bob");
    assert_eq!(destination_hash, second);
    assert_eq!(content, "hello Bob");
}

#[test]
fn enter_opens_peer_selected_in_directory() {
    let destination_hash = "00112233445566778899aabbccddeeff";
    let mut state = UiState::new();
    state
        .directory
        .push(directory_row(destination_hash, "Bob", DirectoryKind::Peer));
    let mut desk = Desk::new(state);
    let mut list = StateList::new(Pane::Directory, Some(Filters::default()));
    let Some(AppAction::OpenConversation { destination, .. }) = enter(&mut list, &mut desk) else {
        panic!("wrong window")
    };
    let (actual, content) = submit(&mut desk, destination, "hello directory peer");
    assert_eq!(actual, destination_hash);
    assert_eq!(content, "hello directory peer");
}

#[test]
fn alt_shortcuts_toggle_each_kind_and_empty_list_does_not_open_stale_target() {
    let mut desk = Desk::new(filtered());
    let mut filters = Filters::default();
    for key in ['p', 'o', 'r', 'n'] {
        assert!(filters.toggle(key));
    }
    let mut list = StateList::new(Pane::Directory, Some(filters));
    assert!(enter(&mut list, &mut desk).is_none());
    for i in 0..4 {
        assert!(!list.rows.contains(&format!("target-{i}")));
    }
}

#[test]
fn enter_on_filtered_rrc_uses_its_identity_and_kind() {
    let mut desk = Desk::new(filtered());
    let mut filters = Filters::default();
    for key in ['p', 'o'] {
        assert!(filters.toggle(key));
    }
    let mut list = StateList::new(Pane::Directory, Some(filters));
    assert!(matches!(
        enter(&mut list, &mut desk),
        Some(AppAction::OpenRrcHub { destination, .. }) if destination == format!("{:032x}", 2)
    ));
}

#[test]
fn enter_does_not_accept_an_offer_by_default() {
    let window = FileWindow::offer(&offer());
    assert!(!window.waiting);
    assert_eq!(window.close().as_deref(), Some("message:0"));
}

#[test]
fn halves_of_a_desktop_go_toward_zero() {
    let placed = main_window_rect(rect(10, 9, 5, 2), MainWindow::Network);
    assert_eq!(placed, rect(9, 10, 4, 7));
    let placed = main_window_rect(rect(0, 0, 7, 5), MainWindow::Directory);
    assert_eq!(placed, rect(4, 3, 6, 4));
}

#[test]
fn a_reader_is_at_the_last_line_where_the_lines_got_too_few() {
    let lines = |count: usize| (0..count).map(|i| format!("line {i}")).collect::<Vec<_>>();
    let mut history = ConversationHistory::new("aa".into());
    history.refresh(&conversation(lines(9)));
    history.selected = 5;
    history.refresh(&conversation(lines(7)));
    assert_eq!(history.selected, 5);
    history.refresh(&conversation(lines(3)));
    assert_eq!(history.selected, 2);
}
