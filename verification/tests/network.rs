use rsnomadnet_core::announce::{
    announce_kind, directory_entry, process_announce, sanitise_name, stamp_cost, Announce,
    DirectoryKind,
};
use rsnomadnet_core::browser::{BrowserError, NomadUrl};
use rsnomadnet_core::db::{
    best_propagation_node, cache_entry, is_fresh, is_kept, keep_known, later, load_time,
    next_pending, recover_interrupted, schema_step, store_time, stored_message, upsert_directory,
    HistoryRow, NewMessage, PendingMessage, QueueRow, SavedRrcHub, SchemaStep,
    RRC_HISTORY_PER_ROOM,
};
use rsnomadnet_core::fetch::{
    ask_node, begin_fetch, check_file_url, check_page_size, downloaded_file, encode_form_fields,
    fetch_file, filename_from_resource_metadata, filename_from_value, page_from_cache,
    page_from_node, FetchError, FetchStart, MAX_DOWNLOAD_BYTES, MAX_LINE_BYTES, MAX_PAGE_BYTES,
    MAX_PAGE_LINES,
};
use rsnomadnet_core::lxmf::{signature_matches, source_of};
use rsnomadnet_core::mime::download_content_type;
use rsnomadnet_core::models::{DirectoryEntry, NetworkState};
use rsnomadnet_core::msgpack::MsgValue;
use rsnomadnet_core::network::{
    attempt_outbound, attempt_result, contains_text, deduplicated, failed_snapshot,
    finish_outbound, online_snapshot, opportunistic_body, parse_hash, propagated_body,
    queue_outbound, receive_message, signing_key, starting_snapshot, with_destination,
    AttemptAction, AttemptEvent, NetworkAction, NetworkCommand, NetworkEvent, NetworkLoop,
    QueueError, SendVia,
};
use rsnomadnet_core::rrc::{
    client_call, forward_event, forward_hub, handle_command, hub_view, message_view,
    normalize_room, ping_milliseconds, restore_saved_sessions, send_call, ClientEvent, ClientReply,
    Forwarded, HubInfo, MessageInfo, MessageKind, RrcAnswer, RrcCall, RrcCommand, RrcMemory,
    SendCall, Welcome,
};
use rsnomadnet_core::table::TextMap;

const HASH: &str = "00112233445566778899aabbccddeeff";

fn fields(pairs: &[(&str, &str)]) -> TextMap<String> {
    let mut fields = TextMap::new();
    for (key, value) in pairs {
        fields.insert(key.to_string(), value.to_string());
    }
    fields
}

fn url(path: &str) -> NomadUrl {
    NomadUrl::parse(&format!("{HASH}:{path}")).unwrap()
}

#[test]
fn form_fields_use_python_nomadnet_request_keys() {
    let fields = fields(&[("field_name", "Alice"), ("var_mode", "short")]);
    let encoded = encode_form_fields(&fields).unwrap();
    let value = rmpv::decode::read_value(&mut encoded.as_slice()).unwrap();
    let map = value.as_map().unwrap();
    assert!(map.iter().any(|(key, value)| {
        key.as_str() == Some("field_name") && value.as_str() == Some("Alice")
    }));
    assert!(map.iter().any(|(key, value)| {
        key.as_str() == Some("var_mode") && value.as_str() == Some("short")
    }));
}

#[test]
fn form_fields_reject_unscoped_keys() {
    let fields = fields(&[("name", "Alice")]);
    assert!(encode_form_fields(&fields).is_err());
}

#[test]
fn reads_python_nomadnet_resource_filename_metadata() {
    let mut metadata = Vec::new();
    rmpv::encode::write_value(
        &mut metadata,
        &rmpv::Value::Map(vec![(
            rmpv::Value::String("name".into()),
            rmpv::Value::Binary(b"docs/report.txt".to_vec()),
        )]),
    )
    .unwrap();
    assert_eq!(
        filename_from_resource_metadata(&metadata).as_deref(),
        Some("docs/report.txt")
    );
    assert!(filename_from_resource_metadata(b"not messagepack").is_none());
}

#[test]
fn form_fields_are_bounded() {
    let mut many = TextMap::new();
    for i in 0..257 {
        many.insert(format!("field_{i:03}"), String::new());
    }
    assert_eq!(encode_form_fields(&many), Err(FetchError::TooManyFields));
    many.remove("field_000");
    assert!(encode_form_fields(&many).is_ok());
    let long = format!("var_{}", "x".repeat(131));
    assert_eq!(
        encode_form_fields(&fields(&[(&long, "")])),
        Err(FetchError::InvalidField)
    );
}

#[test]
fn names_in_metadata_may_be_text_or_bytes() {
    let table = |key: MsgValue, value: MsgValue| MsgValue::Table(vec![(key, value)]);
    let text = |text: &str| MsgValue::Text(text.into());
    assert_eq!(
        filename_from_value(&table(MsgValue::Binary(b"name".to_vec()), text("a"))).as_deref(),
        Some("a")
    );
    assert_eq!(
        filename_from_value(&table(text("name"), MsgValue::Binary(vec![0xff]))),
        None
    );
    assert_eq!(filename_from_value(&table(text("other"), text("a"))), None);
    assert_eq!(filename_from_value(&text("name")), None);
}

#[test]
fn pages_come_from_the_cache_or_the_node() {
    let page = url("/page/a.mu");
    let canonical = format!("{HASH}:/page/a.mu");
    let none = fields(&[]);
    let form = fields(&[("field_a", "1")]);
    assert!(matches!(
        begin_fetch(&page, false, &none),
        Ok(FetchStart::ReadCache { url }) if url == canonical
    ));
    assert!(matches!(
        begin_fetch(&page, true, &none),
        Ok(FetchStart::Ask { data: None, .. })
    ));
    assert!(matches!(
        begin_fetch(&page, false, &form),
        Ok(FetchStart::Ask { data: Some(_), .. })
    ));
    assert!(matches!(ask_node(&page, &none), Ok(FetchStart::Ask { url, .. }) if url == canonical));
    assert!(matches!(
        begin_fetch(&url("/file/a"), false, &none),
        Err(FetchError::NotPage)
    ));
    let cached = page_from_cache(&page, b">T").unwrap();
    assert!(cached.from_cache && cached.title.as_deref() == Some("T"));
    let (sent, store) = page_from_node(&page, b">T", &none).unwrap();
    assert!(!sent.from_cache && store && sent.url == canonical);
    assert!(!page_from_node(&page, b">T", &form).unwrap().1);
    assert!(matches!(
        page_from_node(&page, &[0xff], &none),
        Err(FetchError::Page(BrowserError::InvalidEncoding))
    ));
    assert!(matches!(
        page_from_node(&page, &vec![b'a'; MAX_PAGE_BYTES + 1], &none),
        Err(FetchError::PageTooLarge)
    ));
    assert_eq!(
        FetchError::PageTooLarge.message(),
        "page exceeds the 1 MiB client limit"
    );
}

#[test]
fn pages_with_too_many_or_too_long_lines_are_refused_before_they_are_read() {
    let page = url("/page/a.mu");
    let none = fields(&[]);
    let fault = |bytes: &[u8]| page_from_node(&page, bytes, &none).map(|_| ()).unwrap_err();
    let lines = vec![b'\n'; MAX_PAGE_LINES];
    assert_eq!(fault(&lines), FetchError::TooManyLines);
    assert!(page_from_node(&page, &lines[1..], &none).is_ok());
    let mut long = b"a\n".to_vec();
    long.extend(vec![0xff; MAX_LINE_BYTES + 1]);
    assert_eq!(fault(&long), FetchError::LineTooLong);
    assert!(check_page_size(&long[1..]).is_err());
    assert!(check_page_size(&long[3..]).is_ok());
    long.insert(MAX_LINE_BYTES, b'\n');
    assert!(check_page_size(&long).is_ok());
    assert_eq!(
        FetchError::TooManyLines.message(),
        "page has more lines than the client limit"
    );
    assert_eq!(
        FetchError::LineTooLong.message(),
        "page has a line over the client limit"
    );
}

#[test]
fn the_ending_of_a_name_tells_the_type_of_a_file() {
    for (name, expected) in [
        ("a.PNG", "image/png"),
        ("photo.jpeg", "image/jpeg"),
        ("a.tar.gz", "application/gzip"),
        ("index.html", "text/html"),
        ("page.mu", "text/plain"),
        ("song.mp3", "audio/mpeg"),
        ("manual.pdf", "application/pdf"),
        ("png", "application/octet-stream"),
        ("a.", "application/octet-stream"),
        ("", "application/octet-stream"),
    ] {
        assert_eq!(download_content_type(name), expected);
    }
}

#[test]
fn files_are_stored_under_safe_names() {
    assert!(check_file_url(&url("/file/a")).is_ok());
    assert_eq!(check_file_url(&url("/page/a")), Err(FetchError::NotFile));
    let file = downloaded_file(&url("/file/dir/b.txt"), vec![1], &None).unwrap();
    assert_eq!(file.filename, "b.txt");
    assert_eq!(file.content_type, "text/plain");
    let mut metadata = Vec::new();
    rmpv::encode::write_value(
        &mut metadata,
        &rmpv::Value::Map(vec![("name".into(), "../../x.bin".into())]),
    )
    .unwrap();
    let file = fetch_file(&url("/file/b.txt"), vec![2], &Some(metadata)).unwrap();
    assert_eq!(file.filename, "x.bin");
    assert_eq!(file.content_type, "application/octet-stream");
    assert_eq!(file.bytes, [2]);
    assert!(matches!(
        fetch_file(&url("/file/b"), vec![0; MAX_DOWNLOAD_BYTES + 1], &None),
        Err(FetchError::TooLarge)
    ));
    assert!(matches!(
        fetch_file(&url("/page/b"), vec![], &None),
        Err(FetchError::NotFile)
    ));
}

fn directory(hash: &str, hops: u8, active: bool) -> DirectoryEntry {
    DirectoryEntry {
        destination_hash: hash.into(),
        identity_hash: None,
        delivery_hash: None,
        kind: "propagation".into(),
        display_name: None,
        hops,
        last_seen: 10,
        active,
    }
}

#[test]
fn selects_closest_active_propagation_node() {
    let mut entries = Vec::new();
    for (hash, hops, active) in [("aa", 3, true), ("bb", 1, false), ("cc", 2, true)] {
        entries.push(directory(hash, hops, active));
    }
    assert_eq!(best_propagation_node(&entries).as_deref(), Some("cc"));
    let mut newer = directory("dd", 2, true);
    newer.last_seen = 11;
    entries.push(newer);
    assert_eq!(best_propagation_node(&entries).as_deref(), Some("dd"));
    assert_eq!(best_propagation_node(&vec![]), None);
}

#[test]
fn upserts_directory_entries() {
    let mut entry = DirectoryEntry {
        destination_hash: "aa".into(),
        identity_hash: Some("bb".into()),
        delivery_hash: Some("cc".into()),
        kind: "node".into(),
        display_name: Some("Test node".into()),
        hops: 2,
        last_seen: 10,
        active: true,
    };
    let stored = upsert_directory(None, entry.clone(), Some(b"raw".to_vec()));
    entry.hops = 1;
    entry.last_seen = 11;
    let stored = upsert_directory(Some(stored), entry.clone(), Some(b"new".to_vec()));
    assert_eq!(stored.entry.hops, 1);
    assert_eq!(stored.app_data.as_deref(), Some(&b"new"[..]));
    entry.display_name = None;
    let stored = upsert_directory(Some(stored), entry, None);
    assert_eq!(stored.entry.display_name.as_deref(), Some("Test node"));
    assert_eq!(stored.app_data.as_deref(), Some(&b"new"[..]));
}

#[test]
fn browser_cache_honours_expiry() {
    let entry = cache_entry(b">Hello", 60, 100).unwrap();
    assert!(is_fresh(Some(entry.expires_at), 159));
    assert!(!is_fresh(Some(entry.expires_at), 160));
    assert_eq!(entry.stored_at, 100);
    assert_eq!(
        entry.content_hash,
        hex::encode(rns_crypto::sha256::sha256(b">Hello"))
    );
    assert!(cache_entry(b">Hello", 0, 100).is_none());
}

#[test]
fn outbound_queue_survives_state_transitions() {
    let row = |state: &str, next_attempt: i64| QueueRow {
        id: 1,
        outbound: true,
        state: state.into(),
        next_attempt,
        last_error: None,
    };
    assert_eq!(next_pending(&vec![row("queued", 0)], 10), Some(0));
    assert_eq!(next_pending(&vec![row("retrying", 20)], 19), None);
    assert_eq!(next_pending(&vec![row("retrying", 20)], 20), Some(0));
    let recovered = recover_interrupted(row("sending", 200), 25);
    assert_eq!(recovered.next_attempt, 25);
    assert_eq!(
        recovered.last_error.as_deref(),
        Some("delivery interrupted by application restart")
    );
    assert_eq!(next_pending(&vec![recovered], 25), Some(0));
    assert_eq!(next_pending(&vec![row("delivered", 0)], i64::MAX), None);
    let mut incoming = row("queued", 0);
    incoming.outbound = false;
    assert_eq!(next_pending(&vec![incoming], 10), None);
}

#[test]
fn prunes_rrc_history_per_hub_and_room() {
    let rows: Vec<HistoryRow> = (0..RRC_HISTORY_PER_ROOM as i64 + 7)
        .map(|n| HistoryRow {
            id: n,
            timestamp: n,
        })
        .collect();
    let kept: Vec<i64> = rows
        .iter()
        .filter(|row| {
            is_kept(
                &rows,
                HistoryRow {
                    id: row.id,
                    timestamp: row.timestamp,
                },
            )
        })
        .map(|row| row.timestamp)
        .collect();
    assert_eq!(kept.len(), RRC_HISTORY_PER_ROOM);
    assert_eq!(kept[0], 7);
}

#[test]
fn times_and_profiles_are_kept() {
    assert_eq!(load_time(store_time(1234)), 1234);
    assert_eq!(store_time(u64::MAX), i64::MAX);
    assert_eq!(load_time(-5), 0);
    assert_eq!(later(i64::MAX, 1), i64::MAX);
    assert_eq!(later(5, 10), 15);
    assert_eq!(
        keep_known(Some("a".into()), None),
        Some("a".to_string())
    );
    assert_eq!(
        keep_known(Some("a".into()), Some("b".into())),
        Some("b".to_string())
    );
    assert_eq!(schema_step(1), SchemaStep::Upgrade);
    assert_eq!(schema_step(7), SchemaStep::Keep);
    assert_eq!(schema_step(8), SchemaStep::Refuse);
}

fn pending(method: &str, node: Option<&str>) -> PendingMessage {
    PendingMessage {
        id: 7,
        destination_hash: HASH.into(),
        title: "".into(),
        content: "hello".into(),
        delivery_method: method.into(),
        propagation_node: node.map(str::to_string),
        attempts: 0,
        next_attempt: 0,
    }
}

#[test]
fn automatic_delivery_falls_back_to_a_link() {
    let message = pending("automatic", None);
    let AttemptAction::Send {
        via: SendVia::Opportunistic,
        recipient,
        ..
    } = attempt_outbound(&message, AttemptEvent::Begin)
    else {
        panic!("expected a packet");
    };
    assert_eq!(recipient[1], 0x11);
    assert!(matches!(
        attempt_outbound(&message, AttemptEvent::MtuExceeded(SendVia::Opportunistic)),
        AttemptAction::Send {
            via: SendVia::Direct,
            ..
        }
    ));
    assert!(matches!(
        attempt_outbound(&message, AttemptEvent::Sent(SendVia::Direct)),
        AttemptAction::Finish(Ok(SendVia::Direct))
    ));
    assert!(matches!(
        attempt_outbound(&message, AttemptEvent::Failed("no path".into())),
        AttemptAction::Finish(Err(text)) if text == "no path"
    ));
}

#[test]
fn propagated_delivery_needs_a_node() {
    let message = pending("propagated", None);
    assert!(matches!(
        attempt_outbound(&message, AttemptEvent::Begin),
        AttemptAction::ChooseNode
    ));
    assert!(matches!(
        attempt_outbound(&message, AttemptEvent::NodeChosen(Some([4; 16]))),
        AttemptAction::Send { via: SendVia::Propagated, node: Some(node), .. } if node == [4; 16]
    ));
    assert!(matches!(
        attempt_outbound(&message, AttemptEvent::NodeChosen(None)),
        AttemptAction::Finish(Err(_))
    ));
    let named = pending("propagated", Some("ffffffffffffffffffffffffffffffff"));
    assert!(matches!(
        attempt_outbound(&named, AttemptEvent::Begin),
        AttemptAction::Send { node: Some(node), .. } if node == [0xff; 16]
    ));
}

#[test]
fn retries_slow_down_and_end() {
    let attempt = |attempts: u32, error: &str| {
        let mut message = pending("direct", None);
        message.attempts = attempts;
        finish_outbound(attempt_result(message, Err(error.into())), 1000)
    };
    let first = attempt(0, "no path");
    assert_eq!(
        (first.state.as_str(), first.attempts, first.next_attempt),
        ("retrying", 1, 1010)
    );
    assert_eq!(first.last_error.as_deref(), Some("no path"));
    assert_eq!(attempt(3, "no path").next_attempt, 1080);
    assert_eq!(attempt(4, "no path").state, "failed");
    assert_eq!(attempt(0, "message exceeds Reticulum MTU").state, "failed");
    let stored = finish_outbound(
        attempt_result(pending("propagated", None), Ok(SendVia::Propagated)),
        1000,
    );
    assert_eq!(stored.state, "stored_on_node");
    let delivered = finish_outbound(
        attempt_result(pending("automatic", None), Ok(SendVia::Opportunistic)),
        1000,
    );
    assert_eq!(
        (delivered.state.as_str(), delivered.delivery_method.as_str()),
        ("delivered", "opportunistic")
    );
    assert!(contains_text("abc", "bc") && !contains_text("abc", "cb"));
}

#[test]
fn messages_are_queued_by_a_known_method() {
    let queue = |method: &str, node: Option<[u8; 16]>| {
        queue_outbound(
            &[1; 16],
            &[2; 16],
            "t".into(),
            "c".into(),
            method,
            &node,
            50,
        )
    };
    let (message, node) = queue(" Auto ", None).unwrap();
    assert_eq!(message.delivery_method, "automatic");
    assert_eq!(message.state, "queued");
    assert_eq!(message.destination_hash, "01".repeat(16));
    assert_eq!(node, None);
    let view = stored_message(9, message);
    assert_eq!((view.id, view.timestamp, view.outbound), (9, 50, true));
    assert_eq!(queue("pigeon", None).unwrap_err(), QueueError::UnknownMethod);
    assert_eq!(
        queue("direct", Some([3; 16])).unwrap_err(),
        QueueError::NodeNotAllowed
    );
    let (_, node) = queue("propagated", Some([3; 16])).unwrap();
    assert_eq!(node, Some("03".repeat(16)));
    assert_eq!(
        parse_hash("0102").unwrap_err(),
        "destination hash must contain 32 hexadecimal characters"
    );
    for text in ["010", "zz", "\u{e9}"] {
        assert_eq!(
            parse_hash(text).unwrap_err(),
            hex::decode(text).unwrap_err().to_string()
        );
    }
    assert_eq!(parse_hash("010").unwrap_err(), "Odd number of digits");
    assert_eq!(parse_hash(HASH).unwrap()[15], 0xff);
}

#[test]
fn one_message_is_sent_at_a_time() {
    let mut network = NetworkLoop::new();
    assert!(network.may_send());
    let update = network.begin_send(&pending("direct", None), 1000);
    assert_eq!((update.state.as_str(), update.next_attempt), ("sending", 1180));
    assert!(!network.may_send());
    let ended = attempt_result(pending("direct", None), Ok(SendVia::Direct));
    assert!(matches!(
        network.step(NetworkEvent::AttemptEnded(Some(ended)), 1001),
        NetworkAction::Store(update) if update.state == "delivered"
    ));
    assert!(network.may_send());
    assert!(matches!(
        network.step(NetworkEvent::Shutdown, 0),
        NetworkAction::Stop
    ));
    assert!(matches!(
        network.step(NetworkEvent::Packet(Some(vec![1])), 0),
        NetworkAction::Receive(data) if data == [1]
    ));
    assert!(matches!(
        network.step(NetworkEvent::Tick, 0),
        NetworkAction::Poll
    ));
    assert!(matches!(
        network.step(
            NetworkEvent::Command(Some(NetworkCommand::FetchFile { url: url("/file/a") })),
            0
        ),
        NetworkAction::Obey(NetworkCommand::FetchFile { .. })
    ));
}

#[test]
fn downloads_begin_when_a_node_is_known() {
    let mut network = NetworkLoop::new();
    assert!(!network.download_due(None, 1_000_000, true));
    assert_eq!(network.choose_node(Some([5; 16])).select, Some([5; 16]));
    assert_eq!(network.choose_node(Some([5; 16])).select, None);
    assert!(network.download_due(Some([5; 16]), 1_000_000, true));
    assert!(!network.download_due(Some([5; 16]), 1_000_000, false));
    network.download_began(true, 1_000_000);
    assert!(!network.download_due(Some([5; 16]), 1_000_001, true));
}

#[test]
fn addresses_stand_before_messages_once() {
    let own = [9; 16];
    let with = with_destination(vec![1, 2], &own);
    assert_eq!(with.len(), 18);
    assert_eq!(with_destination(with.clone(), &own), with);
    assert_eq!(propagated_body(&with, &own), Some(&[1, 2][..]));
    assert_eq!(propagated_body(&[1, 2], &own), None);
    assert_eq!(opportunistic_body(&[0, 0, 7], 2, &own, &own), Some(&[7][..]));
    assert_eq!(opportunistic_body(&[0, 0], 2, &own, &own), None);
    assert_eq!(opportunistic_body(&[0, 0, 7], 2, &[8; 16], &own), None);
}

fn packed(signer: &rns_crypto::ed25519::Ed25519PrivateKey, content: &[u8]) -> Vec<u8> {
    lxmf_core::message::pack(
        &[1; 16],
        &[2; 16],
        1234.5,
        b"title",
        content,
        Vec::new(),
        None,
        |data| Ok(signer.sign(data)),
    )
    .unwrap()
    .packed
}

#[test]
fn signatures_decide_on_the_state_of_messages() {
    let signer = rns_crypto::ed25519::Ed25519PrivateKey::from_bytes(&[42; 32]);
    let data = packed(&signer, b"hello");
    let mut key = vec![0; 32];
    key.extend(signer.public_key().public_bytes());
    assert_eq!(source_of(&data), Some([2; 16]));
    assert_eq!(source_of(b"short"), None);
    let known = receive_message(&data, &Some(key.clone())).unwrap();
    assert_eq!(known.state, "delivered");
    assert_eq!(known.content, "hello");
    assert_eq!(known.title, "title");
    assert_eq!(known.timestamp, 1234);
    assert_eq!(known.source_hash, "02".repeat(16));
    assert_eq!(
        receive_message(&data, &None).unwrap().state,
        "source_unknown"
    );
    let other = rns_crypto::ed25519::Ed25519PrivateKey::from_bytes(&[7; 32]);
    let mut wrong = vec![0; 32];
    wrong.extend(other.public_key().public_bytes());
    assert_eq!(
        receive_message(&data, &Some(wrong)).unwrap().state,
        "invalid_signature"
    );
    assert!(receive_message(&packed(&signer, &[0xff]), &None).is_none());
    assert_eq!(signing_key(&Some(vec![0; 63])), None);
    let signature = signer.sign(b"text");
    let public = signing_key(&Some(key));
    assert!(signature_matches(&public, &signature, b"text"));
    assert!(!signature_matches(&public, &signature, b"tent"));
    assert!(!signature_matches(&None, &signature, b"text"));
    assert!(deduplicated(known, true).is_none());
}

#[test]
fn announces_become_directory_entries() {
    let announce = |app_data: Option<Vec<u8>>| Announce {
        destination_hash: [1; 16],
        identity_hash: Some([2; 16]),
        delivery_hash: None,
        hops: 3,
        app_data,
    };
    let node = process_announce(
        &announce(Some(b" My\x07 node ".to_vec())),
        DirectoryKind::Node,
        99,
    );
    assert_eq!(node.display_name.as_deref(), Some("My node"));
    assert_eq!((node.kind.as_str(), node.hops, node.last_seen), ("node", 3, 99));
    assert!(node.active);
    let peer = process_announce(
        &announce(Some(vec![0x91, 0xc4, 0x02, b'A', b'l'])),
        DirectoryKind::Peer,
        99,
    );
    assert_eq!(peer.display_name.as_deref(), Some("Al"));
    assert_eq!(peer.identity_hash, Some("02".repeat(16)));
    // [nil, 1, true, 256, 256, [16, 3, 18], {1: "pn"}]
    let terms = vec![
        0x97, 0xc0, 0x01, 0xc3, 0xcd, 0x01, 0x00, 0xcd, 0x01, 0x00, 0x93, 0x10, 0x03, 0x12, 0x81,
        0x01, 0xc4, 0x02, b'p', b'n',
    ];
    let propagation = process_announce(
        &announce(Some(terms.clone())),
        DirectoryKind::Propagation,
        99,
    );
    assert!(propagation.active);
    assert_eq!(propagation.display_name.as_deref(), Some("pn"));
    assert_eq!(stamp_cost(&Some(terms)), 16);
    assert_eq!(stamp_cost(&None), 0);
    let silent = process_announce(&announce(None), DirectoryKind::Propagation, 99);
    assert!(!silent.active);
    let entry = directory_entry(&announce(None), DirectoryKind::Node, None, false, 1);
    assert_eq!(entry.destination_hash, "01".repeat(16));
    assert_eq!(sanitise_name(&"x".repeat(200)).len(), 128);
    assert_eq!(
        announce_kind(&[2], &[1], &[2], &[3], &[4]),
        Some(DirectoryKind::Node)
    );
    assert_eq!(
        announce_kind(&[4], &[1], &[2], &[3], &[4]),
        Some(DirectoryKind::Rrc)
    );
    assert_eq!(announce_kind(&[5], &[1], &[2], &[3], &[4]), None);
    let hub = process_announce(&announce(Some(b"Hub".to_vec())), DirectoryKind::Rrc, 99);
    assert_eq!(hub.kind, "rrc");
    assert_eq!(hub.display_name, None);
    assert!(hub.active);
}

#[test]
fn snapshots_tell_the_state() {
    assert_eq!(starting_snapshot().state, NetworkState::Starting);
    let failed = failed_snapshot("no config".into());
    assert_eq!(failed.state, NetworkState::Failed);
    assert!(failed.detail.contains("no config"));
    let online = online_snapshot("shared", HASH.into(), vec![]);
    assert_eq!(online.state, NetworkState::Online);
    assert_eq!(online.destination_hash.as_deref(), Some(HASH));
}

fn hub_info() -> HubInfo {
    HubInfo {
        destination_hash: [3; 16],
        name: Some("Hub".into()),
        nick: Some("me".into()),
        welcome: Some(Welcome {
            version: Some("1".into()),
            resource_envelope: true,
            action: false,
            direct_notice: true,
            room_state: false,
            user_list: true,
            max_message_bytes: Some(400),
        }),
        connected: true,
        rooms: vec!["r".into()],
        room_states: vec![],
        detail: "up".into(),
    }
}

#[test]
fn hubs_and_messages_are_shown_as_they_are() {
    let view = hub_view(hub_info(), &[4; 16]);
    assert_eq!(view.destination_hash, "03".repeat(16));
    assert_eq!(view.local_identity, "04".repeat(16));
    assert!(view.supports_resources && !view.supports_actions && view.supports_user_list);
    assert_eq!(view.max_message_bytes, Some(400));
    let message = message_view(MessageInfo {
        hub: [3; 16],
        room: None,
        source: None,
        nick: None,
        body: "b".into(),
        timestamp_ms: 5,
        kind: MessageKind::Notice,
    });
    assert_eq!(message.kind, "notice");
    assert_eq!(message.hub_hash, "03".repeat(16));
}

#[test]
fn joining_is_remembered_and_leaving_forgets() {
    let source = [4; 16];
    let join = |room: &str| RrcCommand::Join {
        destination_hash: [3; 16],
        room: room.into(),
        key: Some("secret".into()),
    };
    let (memory, answer) = handle_command(&join("#Rust "), ClientReply::Done, &source);
    assert!(matches!(answer, RrcAnswer::Done));
    let RrcMemory::SaveRoom { room, .. } = memory else {
        panic!("expected a room");
    };
    assert_eq!(room, normalize_room("#Rust "));
    assert_eq!(room, normalize_room("rust"));
    let failed = handle_command(&join("rust"), ClientReply::Failed("no".into()), &source);
    assert!(matches!(failed.0, RrcMemory::Nothing));
    assert!(matches!(failed.1, RrcAnswer::Failed(error) if error == "no"));
    let part = RrcCommand::Part {
        destination_hash: [3; 16],
        room: "rust".into(),
    };
    assert!(matches!(
        handle_command(&part, ClientReply::Done, &source).0,
        RrcMemory::ForgetRoom { room, .. } if room == "rust"
    ));
    let connect = RrcCommand::Connect {
        destination_hash: [3; 16],
        nick: Some("asked".into()),
    };
    let (memory, answer) = handle_command(&connect, ClientReply::Hub(hub_info()), &source);
    assert!(matches!(
        memory,
        RrcMemory::SaveHub { nick, destination_hash, .. }
            if nick.as_deref() == Some("asked") && destination_hash == "03".repeat(16)
    ));
    assert!(matches!(answer, RrcAnswer::Hub(view) if view.connected));
    let nick = RrcCommand::SetNick {
        destination_hash: [3; 16],
        nick: "asked".into(),
    };
    assert!(matches!(
        handle_command(&nick, ClientReply::Hub(hub_info()), &source).0,
        RrcMemory::SaveHub { nick, .. } if nick.as_deref() == Some("me")
    ));
    let leave = RrcCommand::Disconnect {
        destination_hash: [3; 16],
    };
    assert!(matches!(
        handle_command(&leave, ClientReply::Done, &source).0,
        RrcMemory::ForgetHub { .. }
    ));
    let ping = RrcCommand::Ping {
        destination_hash: [3; 16],
    };
    assert!(matches!(
        handle_command(&ping, ClientReply::Elapsed(u128::MAX), &source).1,
        RrcAnswer::Milliseconds(u64::MAX)
    ));
}

#[test]
fn commands_make_their_calls() {
    let send = |room: Option<&str>, body: &str, action: bool| {
        client_call(&RrcCommand::Send {
            destination_hash: [3; 16],
            room: room.map(str::to_string),
            body: body.into(),
            action,
        })
    };
    assert!(matches!(
        send(None, "/topic x", false),
        RrcCall::SendCommand { room: None, body, .. } if body == "/topic x"
    ));
    assert!(matches!(
        send(Some("r"), "/waves", true),
        RrcCall::SendAction { room, body, .. } if room == "r" && body == "/waves"
    ));
    assert!(matches!(
        send(Some("r"), "hello", false),
        RrcCall::SendMessage { destination_hash, .. } if destination_hash == [3; 16]
    ));
    assert!(matches!(send(None, "hello", true), RrcCall::InvalidRoom));
    assert!(matches!(
        client_call(&RrcCommand::Ping { destination_hash: [3; 16] }),
        RrcCall::Ping { seconds: 30, .. }
    ));
    assert!(matches!(
        client_call(&RrcCommand::Join {
            destination_hash: [3; 16],
            room: "#A".into(),
            key: Some("k".into()),
        }),
        RrcCall::Join { room, key, .. } if room == "#A" && key.as_deref() == Some("k")
    ));
}

#[test]
fn forgotten_hubs_go_unseen() {
    let source = [4; 16];
    let gone = || {
        let mut hub = hub_info();
        hub.connected = false;
        ClientEvent::HubChanged(hub)
    };
    assert!(matches!(
        forward_event(gone(), Some(false), &source),
        Forwarded::Nothing
    ));
    assert!(matches!(
        forward_event(gone(), Some(true), &source),
        Forwarded::Hub(view) if !view.connected
    ));
    assert!(matches!(
        forward_event(gone(), None, &source),
        Forwarded::Hub(_)
    ));
    assert!(matches!(
        forward_event(ClientEvent::HubChanged(hub_info()), Some(false), &source),
        Forwarded::Hub(view) if view.connected
    ));
    assert!(matches!(
        forward_event(ClientEvent::Other, None, &source),
        Forwarded::Nothing
    ));
    let message = MessageInfo {
        hub: [3; 16],
        room: Some("r".into()),
        source: Some([5; 16]),
        nick: None,
        body: "b".into(),
        timestamp_ms: 5,
        kind: MessageKind::Action,
    };
    assert!(matches!(
        forward_event(ClientEvent::Message(message), None, &source),
        Forwarded::Message(view) if view.kind == "action" && view.source_hash == "05".repeat(16)
    ));
}

#[test]
fn texts_are_sent_as_commands_actions_or_messages() {
    let room = Some("r".to_string());
    assert_eq!(send_call("/topic x", false, &None), SendCall::Command);
    assert_eq!(send_call("waves", true, &room), SendCall::Action);
    assert_eq!(send_call("hello", false, &room), SendCall::Message);
    assert_eq!(send_call("hello", false, &None), SendCall::InvalidRoom);
    assert_eq!(ping_milliseconds(12), 12);
    assert_eq!(ping_milliseconds(u128::MAX), u64::MAX);
    assert!(forward_hub(true, None));
}

#[test]
fn stores_rrc_reconnect_profile_and_rooms() {
    let saved = vec![
        SavedRrcHub {
            destination_hash: HASH.into(),
            nick: Some("nomad".into()),
            rooms: vec![("rust".into(), None)],
        },
        SavedRrcHub {
            destination_hash: "aa".into(),
            nick: None,
            rooms: vec![],
        },
    ];
    let restored = restore_saved_sessions(saved);
    assert_eq!(restored.len(), 1);
    assert_eq!(restored[0].destination[15], 0xff);
    assert_eq!(restored[0].nick.as_deref(), Some("nomad"));
    assert_eq!(restored[0].rooms, vec![("rust".to_string(), None)]);
}

#[test]
fn messages_keep_what_they_say() {
    let message = NewMessage {
        destination_hash: "aa".into(),
        source_hash: "bb".into(),
        title: "".into(),
        content: "hello".into(),
        timestamp: 10,
        outbound: false,
        state: "delivered".into(),
        delivery_method: "incoming".into(),
        attempts: 0,
        next_attempt: 0,
        last_error: None,
        message_hash: Some("01".into()),
    };
    assert_eq!(deduplicated(message.clone(), false).unwrap().content, "hello");
    assert_eq!(stored_message(1, message).content, "hello");
}
