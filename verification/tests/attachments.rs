use rsnomadnet_core::attachments::{
    attach, check_selected, safe_name, save_step, selected_file, take_files_field, Created,
    Decision, FileMessage, Inbox, InboxError, SaveStep, SelectError, MAX_FILE_BYTES, OFFER_TTL,
};
use rsnomadnet_core::msgpack::MsgValue;

const NOW: u64 = 1_000_000_000;

fn message(name: &str, data: &[u8]) -> FileMessage {
    FileMessage {
        files: Some(attach(name, data.to_vec())),
        hash: Some([7; 32]),
        message_id: None,
        source_hash: [2; 16],
        signature_validated: true,
    }
}

fn signer() -> rns_crypto::ed25519::Ed25519PrivateKey {
    rns_crypto::ed25519::Ed25519PrivateKey::from_bytes(&[42; 32])
}

fn public_key() -> Option<Vec<u8>> {
    let mut key = vec![0; 32];
    key.extend(signer().public_key().public_bytes());
    Some(key)
}

/// A signed message from `[2; 16]` to `[1; 16]` with the given fields.
fn raw(fields: Vec<(rmpv::Value, rmpv::Value)>) -> Vec<u8> {
    let body = rmpv::Value::Array(vec![
        rmpv::Value::F64(1234.5),
        rmpv::Value::Binary(Vec::new()),
        rmpv::Value::Binary(b"File".to_vec()),
        rmpv::Value::Map(fields),
    ]);
    let mut part = vec![1; 16];
    part.extend([2; 16]);
    rmpv::encode::write_value(&mut part, &body).unwrap();
    let mut signed = part.clone();
    signed.extend(rns_crypto::sha256::sha256(&part));
    let mut message = part[..32].to_vec();
    message.extend(signer().sign(&signed));
    message.extend(&part[32..]);
    message
}

fn raw_file(name: &str, data: &[u8]) -> Vec<u8> {
    let files = rmpv::decode::read_value(&mut attach(name, data.to_vec()).as_slice()).unwrap();
    raw(vec![(rmpv::Value::from(5u8), files)])
}

#[test]
fn files_are_found_in_messages_as_they_come_over_the_network() {
    let mut inbox = Inbox::new();
    let message = raw_file("../../note.txt", b"hello");
    let offers = inbox.receive_raw(&message, &public_key(), NOW).unwrap().unwrap();
    assert_eq!(offers.len(), 1);
    assert_eq!(offers[0].name, "note.txt");
    assert_eq!(offers[0].size, 5);
    assert_eq!(offers[0].sender, "02".repeat(16));
    assert!(offers[0].verified);
    let mut part = message[..32].to_vec();
    part.extend(&message[96..]);
    assert_eq!(
        offers[0].id,
        format!("{}:0", hex::encode(rns_crypto::sha256::sha256(&part)))
    );
    assert!(matches!(
        inbox.decide(&offers[0].id, true, NOW),
        Ok(Decision::Save { name, data }) if name == "note.txt" && data == b"hello"
    ));
    let unknown = Inbox::new().receive_raw(&message, &None, NOW).unwrap().unwrap();
    assert!(!unknown[0].verified);
    let other = raw(vec![
        (rmpv::Value::from(7u8), rmpv::Value::from("x")),
        (rmpv::Value::from("5"), rmpv::Value::from("x")),
    ]);
    assert!(inbox.receive_raw(&other, &public_key(), NOW).unwrap().unwrap().is_empty());
    assert!(inbox.receive_raw(&message[..96], &public_key(), NOW).is_none());
    assert!(inbox.receive_raw(b"short", &public_key(), NOW).is_none());
}

#[test]
fn the_first_list_of_files_counts() {
    let list = |name: &str| {
        rmpv::decode::read_value(&mut attach(name, vec![1]).as_slice()).unwrap()
    };
    let message = raw(vec![
        (rmpv::Value::from(-5), rmpv::Value::Nil),
        (rmpv::Value::from(5u64), list("first")),
        (rmpv::Value::from(5u64), list("second")),
    ]);
    let offers = Inbox::new().receive_raw(&message, &None, NOW).unwrap().unwrap();
    assert_eq!(offers.len(), 1);
    assert_eq!(offers[0].name, "first");
    let body = MsgValue::Array(vec![MsgValue::Other, MsgValue::Other, MsgValue::Other]);
    assert!(take_files_field(body).is_none());
}

#[test]
fn refusal_expiry_and_duplicates_do_not_write_files() {
    let mut inbox = Inbox::new();
    let message = raw_file("a.bin", b"data");
    let offers = inbox.receive_raw(&message, &public_key(), NOW).unwrap().unwrap();
    inbox.receive_raw(&message, &public_key(), NOW).unwrap().unwrap();
    assert_eq!(inbox.offers(NOW).len(), 1);
    assert!(matches!(
        inbox.decide(&offers[0].id, false, NOW),
        Ok(Decision::Refused)
    ));
    assert!(inbox.offers(NOW).is_empty());
    inbox.receive_raw(&message, &public_key(), NOW).unwrap().unwrap();
    assert!(inbox
        .decide(&offers[0].id, true, NOW + OFFER_TTL)
        .is_err());
}

#[test]
fn malformed_and_oversized_attachments_are_rejected_without_pending_offers() {
    let mut inbox = Inbox::new();
    let large = raw_file("large", &vec![0; MAX_FILE_BYTES + 1]);
    assert!(inbox.receive_raw(&large, &public_key(), NOW).unwrap().is_err());
    let invalid = raw(vec![(rmpv::Value::from(5u8), rmpv::Value::Nil)]);
    assert!(inbox.receive_raw(&invalid, &public_key(), NOW).unwrap().is_err());
    let mut undecodable = message("test", b"ok");
    undecodable.files = Some(vec![0xc1, 0x92]);
    assert!(inbox.receive(&undecodable, NOW).is_err());
    undecodable.files = Some(Vec::new());
    let error = rmpv::decode::read_value(&mut std::io::Cursor::new([])).unwrap_err();
    assert_eq!(
        inbox.receive(&undecodable, NOW).unwrap_err().message(),
        error.to_string()
    );
    assert!(inbox.offers(NOW).is_empty());
    assert_eq!(safe_name("..\\..\\evil\0.txt"), "evil.txt");
}

#[test]
fn a_received_file_is_offered_under_a_safe_name_and_handed_out_on_acceptance() {
    let mut inbox = Inbox::new();
    let offers = inbox
        .receive(&message("../../note.txt", b"hello"), NOW)
        .unwrap();
    assert_eq!(offers[0].name, "note.txt");
    assert_eq!(offers[0].size, 5);
    assert_eq!(offers[0].id, format!("{}:0", "07".repeat(32)));
    assert_eq!(offers[0].sender, "02".repeat(16));
    assert!(offers[0].verified);
    let Ok(Decision::Save { name, data }) = inbox.decide(&offers[0].id, true, NOW) else {
        panic!("expected the file");
    };
    assert_eq!(name, "note.txt");
    assert_eq!(data, b"hello");
    assert_eq!(inbox.offers(NOW).len(), 1);
    inbox.settle(&offers[0].id);
    assert!(inbox.offers(NOW).is_empty());
    assert!(matches!(
        inbox.decide(&offers[0].id, true, NOW),
        Err(InboxError::Expired)
    ));
}

#[test]
fn names_of_saved_files_never_repeat() {
    let mut tried = vec!["a.txt".to_string()];
    let mut attempt = 0;
    for _ in 0..3 {
        match save_step("a.txt", attempt, Created::Exists) {
            SaveStep::Retry { attempt: next, name } => {
                attempt = next;
                tried.push(name);
            }
            _ => panic!("expected another name"),
        }
    }
    assert_eq!(tried, ["a.txt", "1-a.txt", "2-a.txt", "3-a.txt"]);
    assert!(matches!(
        save_step("a.txt", 3, Created::Written),
        SaveStep::Done
    ));
    assert!(matches!(
        save_step("a.txt", 3, Created::Failed),
        SaveStep::Report
    ));
    assert!(matches!(
        save_step("a.txt", 9999, Created::Exists),
        SaveStep::GiveUp(InboxError::TooManySameName)
    ));
}

#[test]
fn safe_names_stay_in_their_directory() {
    assert_eq!(safe_name("C:\\x\\y.txt"), "y.txt");
    assert_eq!(safe_name("a:b"), "ab");
    assert_eq!(safe_name("  ..hidden "), "hidden");
    assert_eq!(safe_name("dir/"), "attachment.bin");
    assert_eq!(safe_name("..."), "attachment.bin");
    assert_eq!(safe_name(&"é".repeat(130)).chars().count(), 120);
}

#[test]
fn every_fault_of_a_file_list_is_told_apart() {
    let text = |text: &str| MsgValue::Text(text.to_string());
    let list = |pair: Vec<MsgValue>| Ok(MsgValue::Array(vec![MsgValue::Array(pair)]));
    let message = message("a", b"");
    let fault = |value: &Result<MsgValue, String>| {
        Inbox::new()
            .receive_list(&message, value, NOW)
            .unwrap_err()
    };
    assert_eq!(
        fault(&Err("no value".to_string())),
        InboxError::Undecodable("no value".to_string())
    );
    assert_eq!(fault(&Ok(text("x"))), InboxError::NoList);
    assert_eq!(fault(&list(vec![text("x")])), InboxError::BadEntry);
    assert_eq!(
        fault(&list(vec![MsgValue::RawText(vec![0xff]), text("x")])),
        InboxError::BadName
    );
    assert_eq!(
        fault(&list(vec![text("x"), MsgValue::Other])),
        InboxError::BadData
    );
    assert_eq!(
        fault(&list(vec![
            text("x"),
            MsgValue::Binary(vec![0; MAX_FILE_BYTES + 1])
        ])),
        InboxError::FileTooLarge
    );
    let many = (0..33)
        .map(|_| MsgValue::Array(vec![text("x"), MsgValue::Binary(vec![])]))
        .collect();
    assert_eq!(fault(&Ok(MsgValue::Array(many))), InboxError::TooManyFiles);
    let mut nameless = FileMessage {
        files: message.files.clone(),
        hash: None,
        message_id: None,
        source_hash: [2; 16],
        signature_validated: false,
    };
    assert_eq!(
        Inbox::new().receive(&nameless, NOW).unwrap_err(),
        InboxError::MissingHash
    );
    nameless.message_id = Some([9; 32]);
    let offers = Inbox::new().receive(&nameless, NOW).unwrap();
    assert!(offers[0].id.starts_with("0909"));
    assert!(!offers[0].verified);
}

#[test]
fn no_more_waits_than_fits_into_memory() {
    let mut inbox = Inbox::new();
    let full = vec![1; MAX_FILE_BYTES];
    for i in 0..4 {
        let mut message = message("f", &full);
        message.hash = Some([i; 32]);
        assert_eq!(inbox.receive(&message, NOW).unwrap().len(), 1);
    }
    let mut last = message("f", b"x");
    last.hash = Some([9; 32]);
    assert_eq!(
        inbox.receive(&last, NOW).unwrap_err(),
        InboxError::PendingTooLarge
    );
    assert_eq!(inbox.offers(NOW).len(), 4);
    assert_eq!(inbox.receive(&last, NOW + OFFER_TTL).unwrap().len(), 1);
    last.files = Some(vec![0; 67108865]);
    assert_eq!(
        inbox.receive(&last, NOW).unwrap_err(),
        InboxError::MemoryLimit
    );
    last.files = None;
    assert!(inbox.receive(&last, NOW).unwrap().is_empty());
}

#[test]
fn text_may_stand_for_the_bytes_of_a_file() {
    let value = Ok(MsgValue::Array(vec![MsgValue::Array(vec![
        MsgValue::Text("n".to_string()),
        MsgValue::Text("é".to_string()),
    ])]));
    let mut inbox = Inbox::new();
    let offers = inbox
        .receive_list(&message("a", b""), &value, NOW)
        .unwrap();
    assert_eq!(offers[0].size, 2);
}

#[test]
fn only_small_files_are_sent() {
    let most = MAX_FILE_BYTES as u64;
    assert_eq!(check_selected(true, most), Ok(()));
    assert_eq!(check_selected(true, most + 1), Err(SelectError::TooLarge));
    assert_eq!(check_selected(false, 0), Err(SelectError::NotRegular));
    assert_eq!(
        selected_file("data.bin", b"payload".to_vec()),
        Ok(("data.bin".to_string(), b"payload".to_vec()))
    );
    assert_eq!(
        selected_file("data.bin", vec![0; MAX_FILE_BYTES + 1]),
        Err(SelectError::TooLarge)
    );
    assert_eq!(SelectError::NotRegular.message(), "select a regular file");
    assert_eq!(SelectError::TooLarge.message(), "file exceeds 16 MiB limit");
}

#[test]
fn inbox_errors_have_sentences() {
    assert_eq!(
        InboxError::Expired.message(),
        "file offer expired or already handled"
    );
    assert_eq!(
        InboxError::TooManySameName.message(),
        "too many files with the same name"
    );
    assert_eq!(
        InboxError::FileTooLarge.message(),
        "attachment exceeds 16 MiB limit"
    );
}

/// An unsigned message whose list of files is the given value.
fn with_list(list: rmpv::Value) -> Vec<u8> {
    let mut body = vec![0; 96];
    let parts = vec![
        rmpv::Value::F64(1.0),
        rmpv::Value::Binary(Vec::new()),
        rmpv::Value::Binary(Vec::new()),
        rmpv::Value::Map(vec![(rmpv::Value::from(5u8), list)]),
    ];
    rmpv::encode::write_value(&mut body, &rmpv::Value::Array(parts)).unwrap();
    body
}

#[test]
fn a_list_that_is_too_long_as_a_whole_is_refused() {
    let list = rmpv::Value::Array(vec![rmpv::Value::Array(vec![
        rmpv::Value::from("n".repeat(67108864)),
        rmpv::Value::Binary(Vec::new()),
    ])]);
    let received = Inbox::new().receive_raw(&with_list(list), &None, NOW);
    assert_eq!(received.unwrap().unwrap_err(), InboxError::MemoryLimit);
}

#[test]
fn a_long_list_is_refused_however_deep_it_is() {
    let nested = |bytes: usize| {
        let mut list = rmpv::Value::Array(vec![
            rmpv::Value::Binary(vec![0; bytes]),
            rmpv::Value::from(-70000),
            rmpv::Value::F64(1.5),
            rmpv::Value::Boolean(true),
        ]);
        for _ in 0..20 {
            list = rmpv::Value::Array(vec![list]);
        }
        with_list(list)
    };
    // The values beside the long one take 5, 9 and 1 bytes, its head takes 5, and each
    // array takes one.
    let most = 67108864 - 5 - 9 - 1 - 5 - 21;
    let fault = |bytes: usize| {
        Inbox::new().receive_raw(&nested(bytes), &None, NOW).unwrap().unwrap_err()
    };
    assert_eq!(fault(most + 1), InboxError::MemoryLimit);
    assert_eq!(fault(most), InboxError::BadEntry);
}
