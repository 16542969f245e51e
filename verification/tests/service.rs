use rsnomadnet_core::service::{
    announce_name, canonical_hash, check_clear, check_draft, check_fetch, check_message,
    command_answer, identity_settings, identity_step, identity_told, message_query, parse_hash, unix_seconds,
    validate_draft_target, AppError, CommandReply, IdentityStep, SendMessage,
};

const HASH: &str = "AABBCCDDEEFF00112233445566778899";

fn message() -> SendMessage {
    SendMessage {
        destination_hash: HASH.into(),
        title: "t".into(),
        content: "hello".into(),
        delivery_method: " Propagated ".into(),
        propagation_node: Some(format!(" {HASH} ")),
    }
}

#[test]
fn hashes_are_validated_and_canonicalised() {
    assert_eq!(
        canonical_hash("AABBCCDDEEFF00112233445566778899", "hash").unwrap(),
        "aabbccddeeff00112233445566778899"
    );
    assert!(canonical_hash("not-a-hash", "hash").is_err());
}

#[test]
fn draft_targets_are_bounded() {
    assert!(validate_draft_target("lxmf", "peer").is_ok());
    assert!(validate_draft_target("unknown", "peer").is_err());
    assert!(validate_draft_target("rrc", "bad\nroom").is_err());
}

#[test]
fn refused_hashes_name_their_field() {
    let Err(AppError::Invalid(text)) = parse_hash("12", "node hash") else {
        panic!("expected refusal");
    };
    assert_eq!(text, "node hash must contain 32 hexadecimal characters");
    assert_eq!(parse_hash(HASH, "x").unwrap()[15], 0x99);
}

#[test]
fn messages_are_checked_before_they_are_sent() {
    let sent = check_message(message(), true).unwrap();
    assert_eq!(sent.delivery_method, "propagated");
    assert_eq!(sent.propagation_node.unwrap()[0], 0xaa);
    assert_eq!(sent.destination_hash[1], 0xbb);
    let fault = |change: fn(&mut SendMessage), online: bool| {
        let mut changed = message();
        change(&mut changed);
        check_message(changed, online).unwrap_err()
    };
    assert!(matches!(
        fault(|m| m.destination_hash = "x".into(), true),
        AppError::Invalid(text) if text.starts_with("destination hash")
    ));
    assert!(matches!(
        fault(|m| m.content = " \n".into(), true),
        AppError::Invalid(text) if text == "message content cannot be empty"
    ));
    assert!(matches!(
        fault(|m| m.title = "x".repeat(1025), true),
        AppError::TooLarge(_)
    ));
    assert!(matches!(
        fault(|m| m.delivery_method = "pigeon".into(), true),
        AppError::Invalid(text) if text == "unknown LXMF delivery method"
    ));
    assert!(matches!(fault(|_| (), false), AppError::Unavailable(_)));
    assert!(matches!(
        fault(|m| m.propagation_node = Some("x".into()), true),
        AppError::Invalid(text) if text.starts_with("propagation node hash")
    ));
    assert!(matches!(
        fault(|m| m.delivery_method = "direct".into(), true),
        AppError::Invalid(text) if text.starts_with("propagation_node is only valid")
    ));
}

#[test]
fn pages_are_checked_before_they_are_fetched() {
    let page = format!("{HASH}:/page/a.mu");
    assert_eq!(check_fetch(&page, true).unwrap().path, "/page/a.mu");
    assert!(matches!(
        check_fetch(&page, false),
        Err(AppError::Unavailable(_))
    ));
    assert!(matches!(
        check_fetch(&format!("{HASH}:/file/a"), true),
        Err(AppError::Invalid(text)) if text == "page fetch requires a /page/ URL"
    ));
    assert!(matches!(
        check_fetch("x", true),
        Err(AppError::Invalid(text)) if text == "invalid NomadNet URL"
    ));
}

#[test]
fn names_are_cleaned_and_announced_when_online() {
    let name = announce_name(&format!(" a\u{7}b{} ", "c".repeat(200)));
    assert_eq!(name.chars().count(), 127);
    assert!(name.starts_with("abccc"));
    assert!(matches!(
        identity_step(&name, true, false),
        IdentityStep::Answer(Err(AppError::Unavailable(_)))
    ));
    assert!(matches!(
        identity_step(&name, false, false),
        IdentityStep::Answer(Ok(update)) if update.name == name && !update.announced
    ));
    assert!(matches!(
        identity_step(&String::new(), true, true),
        IdentityStep::Tell { name: None, announce_now: true }
    ));
    assert_eq!(identity_settings(None, None, true).name, "rsNomadNet");
    assert_eq!(identity_settings(Some("x".into()), None, true).name, "x");
}

#[test]
fn searches_for_nothing_list_everything() {
    let (hash, query) = message_query(HASH, &Some("  ".into())).unwrap();
    assert_eq!(hash, HASH.to_lowercase());
    assert_eq!(query, None);
    assert_eq!(
        message_query(HASH, &Some(" x ".into())).unwrap().1.as_deref(),
        Some("x")
    );
    assert!(message_query("x", &None).is_err());
}

#[test]
fn drafts_and_conversations_are_guarded() {
    assert!(check_draft("rrc", "room", "text").is_ok());
    assert!(matches!(
        check_draft("rrc", "room", &"x".repeat(1048577)),
        Err(AppError::TooLarge(_))
    ));
    assert!(matches!(
        check_draft("", "room", ""),
        Err(AppError::Invalid(_))
    ));
    assert!(check_clear(false).is_ok());
    assert!(matches!(check_clear(true), Err(AppError::Conflict(_))));
    assert!(validate_draft_target("lxmf", &"x".repeat(257)).is_err());
    assert!(validate_draft_target("lxmf", "").is_err());
}

#[test]
fn replies_of_the_network_become_answers() {
    assert_eq!(command_answer(CommandReply::Answered(3)).unwrap(), 3);
    assert!(matches!(
        command_answer::<u8>(CommandReply::Refused("no".into())),
        Err(AppError::Remote(text)) if text == "no"
    ));
    assert!(matches!(
        command_answer::<u8>(CommandReply::NotSent),
        Err(AppError::Unavailable(text)) if text == "network service is unavailable"
    ));
    assert!(matches!(
        command_answer::<u8>(CommandReply::Dropped),
        Err(AppError::Unavailable(text)) if text == "network service stopped"
    ));
    let told = identity_told("me".into(), true, CommandReply::Answered(())).unwrap();
    assert_eq!((told.name.as_str(), told.announced), ("me", true));
    assert!(matches!(
        identity_told("me".into(), true, CommandReply::Refused("no".into())),
        Err(AppError::Remote(text)) if text == "no"
    ));
    assert_eq!(unix_seconds(5), 5);
    assert_eq!(unix_seconds(u64::MAX), i64::MAX);
}
