use rsnomadnet_core::browser::{
    inline_text, parse_field, parse_inline, parse_page, parse_partial, push_text, valid_colour,
    valid_field_name, Alignment, BrowserError, Inline, MicronBlock, MicronStyle, NomadUrl,
};

fn chars(text: &str) -> Vec<char> {
    text.chars().collect()
}

#[test]
fn parses_nomad_urls_and_default_path() {
    let url = NomadUrl::parse("11111111111111111111111111111111").unwrap();
    assert_eq!(url.path, "/page/index.mu");
    assert_eq!(
        url.canonical(),
        "11111111111111111111111111111111:/page/index.mu"
    );
    let file = NomadUrl::parse("11111111111111111111111111111111:/file/a").unwrap();
    assert!(file.is_file());
}

#[test]
fn addresses_are_read_back_from_their_canonical_form() {
    let hash = "AABBCCDDEEFF00112233445566778899";
    let url = NomadUrl::parse(&format!("  nomadnetwork://{hash}:/page/a b.mu \n")).unwrap();
    assert_eq!(url.destination_hash[0], 0xaa);
    assert_eq!(url.path, "/page/a b.mu");
    assert!(url.is_page() && !url.is_file());
    let canonical = url.canonical();
    assert_eq!(canonical, "aabbccddeeff00112233445566778899:/page/a b.mu");
    assert_eq!(NomadUrl::parse(&canonical).unwrap(), url);
}

#[test]
fn refused_addresses_say_why() {
    let hash = "11111111111111111111111111111111";
    let refuse = |value: &str| NomadUrl::parse(value).unwrap_err();
    assert_eq!(refuse("1111"), BrowserError::InvalidUrl);
    assert_eq!(refuse(""), BrowserError::InvalidUrl);
    assert_eq!(
        refuse(&format!("{hash}:/etc/passwd")),
        BrowserError::UnsupportedPath
    );
    assert_eq!(
        refuse(&format!("{hash}:/page/a\0b")),
        BrowserError::InvalidUrl
    );
    let long = format!("{hash}:/page/{}", "a".repeat(2043));
    assert_eq!(refuse(&long), BrowserError::InvalidUrl);
    let longest = format!("{hash}:/page/{}", "a".repeat(2042));
    assert!(NomadUrl::parse(&longest).is_ok());
    assert_eq!(BrowserError::InvalidUrl.message(), "invalid NomadNet URL");
    assert_eq!(
        BrowserError::UnsupportedPath.message(),
        "only /page/ and /file/ paths are supported"
    );
    assert_eq!(
        BrowserError::InvalidEncoding.message(),
        "page is not valid UTF-8"
    );
}

#[test]
fn parses_safe_micron_subset() {
    let page = parse_page(
        "node:/page/index.mu".into(),
        b"#!c=60\n#!fg=abc\n>Heading\nText `[Next`:/page/next.mu]\n-\n",
        false,
    )
    .unwrap();
    assert_eq!(page.cache_seconds, 60);
    assert_eq!(page.foreground.as_deref(), Some("#aabbcc"));
    assert_eq!(page.title.as_deref(), Some("Heading"));
    assert_eq!(page.blocks.len(), 3);
}

#[test]
fn parses_micron_table() {
    let page = parse_page(
        "node:/page/table.mu".into(),
        b"`t\nName | Value\none | 1\n`t\n",
        false,
    )
    .unwrap();
    let MicronBlock::Table { rows, .. } = &page.blocks[0] else {
        panic!("expected table");
    };
    assert_eq!(rows.len(), 2);
    assert_eq!(rows[0].len(), 2);
}

#[test]
fn parses_form_fields_and_submit_metadata() {
    let page = parse_page(
        "node:/page/form.mu".into(),
        b"Name: `<24|name`Alice>\n`<?|news|yes|*`Subscribe>\n`[Send`:/page/result.mu`name|news]\n",
        false,
    )
    .unwrap();
    let MicronBlock::Paragraph { parts, .. } = &page.blocks[0] else {
        panic!("expected paragraph");
    };
    assert!(matches!(
        &parts[1],
        Inline::Input { name, value, .. } if name == "name" && value == "Alice"
    ));
    let MicronBlock::Paragraph { parts, .. } = &page.blocks[2] else {
        panic!("expected submit paragraph");
    };
    assert!(matches!(
        &parts[0],
        Inline::Link { fields, .. } if fields == &["name", "news"]
    ));
}

#[test]
fn field_after_colour_command_matches_nomadnet_page() {
    let page = parse_page(
        "node:/page/index.mu".into(),
        b"> RNS-Gate Rust node pages\n\nUser name: `B444`<username`Anonymous>`b\n\n`[Submit`:/page/hello.mu`*]\n",
        false,
    )
    .unwrap();
    let MicronBlock::Paragraph { parts, .. } = &page.blocks[1] else {
        panic!("expected field paragraph");
    };
    assert!(matches!(
        &parts[1],
        Inline::Input { name, value, .. } if name == "username" && value == "Anonymous"
    ));
    let MicronBlock::Paragraph { parts, .. } = &page.blocks[2] else {
        panic!("expected submit paragraph");
    };
    assert!(matches!(
        &parts[0],
        Inline::Link { fields, .. } if fields == &["*"]
    ));
}

#[test]
fn preserves_inline_styles_alignment_sections_and_anchors() {
    let page = parse_page(
        "node:/page/style.mu".into(),
        b"`c`Ff00`!Bold`! plain\n>>Nested\n`:note anchored\n<Back\n",
        false,
    )
    .unwrap();
    let MicronBlock::Paragraph {
        alignment, parts, ..
    } = &page.blocks[0]
    else {
        panic!("expected styled paragraph");
    };
    assert_eq!(*alignment, Alignment::Center);
    assert!(matches!(
        &parts[0],
        Inline::Text { text, style }
            if text == "Bold" && style.bold && style.foreground.as_deref() == Some("#ff0000")
    ));
    let MicronBlock::Heading { depth, .. } = &page.blocks[1] else {
        panic!("expected nested heading");
    };
    assert_eq!(*depth, 2);
    let MicronBlock::Paragraph { depth, parts, .. } = &page.blocks[2] else {
        panic!("expected nested anchor");
    };
    assert_eq!(*depth, 2);
    assert!(matches!(&parts[0], Inline::Anchor { name } if name == "note"));
    let MicronBlock::Paragraph { depth, .. } = &page.blocks[3] else {
        panic!("expected reset paragraph");
    };
    assert_eq!(*depth, 0);
}

#[test]
fn parses_table_alignment_and_width() {
    let page = parse_page("node:/page/table.mu".into(), b"`tc30\nA | B\n`t\n", false).unwrap();
    assert!(matches!(
        &page.blocks[0],
        MicronBlock::Table {
            alignment: Alignment::Center,
            max_width: Some(30),
            ..
        }
    ));
}

#[test]
fn parses_refreshing_partial_with_fields() {
    let page = parse_page(
        "node:/page/partial.mu".into(),
        b"`{11111111111111111111111111111111:/page/status.mu`10`pid=32|user_name}\n",
        false,
    )
    .unwrap();
    assert!(matches!(
        &page.blocks[0],
        MicronBlock::Partial {
            target,
            interval_seconds: 10,
            fields,
        } if target.ends_with("/page/status.mu")
            && fields == &["pid=32", "user_name"]
    ));
}

#[test]
fn pages_that_are_no_text_are_refused() {
    let refused = parse_page("u".into(), &[0xff, 0xfe], true);
    assert_eq!(refused.unwrap_err(), BrowserError::InvalidEncoding);
}

#[test]
fn lines_end_with_either_kind_of_line_end() {
    let page = parse_page("u".into(), "one\r\ntwo\nthree\r".as_bytes(), true).unwrap();
    let texts: Vec<String> = page
        .blocks
        .iter()
        .map(|block| match block {
            MicronBlock::Paragraph { parts, .. } => inline_text(parts),
            _ => panic!("expected paragraph"),
        })
        .collect();
    assert_eq!(texts, ["one", "two", "three\r"]);
    assert!(page.from_cache);
    assert_eq!(page.cache_seconds, 43200);
    assert_eq!(page.title, None);
}

#[test]
fn literal_lines_are_kept_as_they_are() {
    let page = parse_page("u".into(), b"`=\n`!bold? >no\n`=\n`!yes", false).unwrap();
    assert_eq!(page.blocks.len(), 2);
    assert!(matches!(
        &page.blocks[0],
        MicronBlock::Preformatted { text } if text == "`!bold? >no"
    ));
    let MicronBlock::Paragraph { parts, .. } = &page.blocks[1] else {
        panic!("expected paragraph");
    };
    assert!(matches!(&parts[0], Inline::Text { text, style } if text == "yes" && style.bold));
}

#[test]
fn dividers_take_the_character_behind_the_dash() {
    let page = parse_page("u".into(), "-\n-=x\n#comment\n".as_bytes(), false).unwrap();
    assert!(matches!(
        page.blocks[0],
        MicronBlock::Divider {
            depth: 0,
            character: '─'
        }
    ));
    assert!(matches!(
        page.blocks[1],
        MicronBlock::Divider {
            depth: 0,
            character: '='
        }
    ));
    assert_eq!(page.blocks.len(), 2);
}

#[test]
fn an_open_table_is_closed_at_the_end_and_an_empty_one_is_dropped() {
    let page = parse_page("u".into(), b"`t\n`t\n`tr9999\n|a|b|", false).unwrap();
    assert_eq!(page.blocks.len(), 1);
    let MicronBlock::Table {
        alignment,
        max_width,
        rows,
    } = &page.blocks[0]
    else {
        panic!("expected table");
    };
    assert_eq!(*alignment, Alignment::Right);
    assert_eq!(*max_width, Some(512));
    assert_eq!(rows[0].len(), 2);
    assert_eq!(inline_text(&rows[0][1]), "b");
}

#[test]
fn escaped_text_is_read_back() {
    let mut style = MicronStyle::default();
    let parts = parse_inline(&chars("a\\`\\\\b"), &mut style);
    assert_eq!(parts.len(), 1);
    assert_eq!(inline_text(&parts), "a`\\b");
    assert_eq!(style, MicronStyle::default());
    let plain = parse_inline(&chars("nothing special"), &mut style);
    assert_eq!(plain.len(), 1);
    assert_eq!(inline_text(&plain), "nothing special");
}

#[test]
fn links_without_a_target_leave_nothing() {
    let mut style = MicronStyle::default();
    assert!(parse_inline(&chars("`[]"), &mut style).is_empty());
    let parts = parse_inline(&chars("`[:/page/x.mu]`[`:/page/y.mu]"), &mut style);
    assert!(matches!(&parts[0], Inline::Link { label, target, .. }
        if label == ":/page/x.mu" && target == label));
    assert!(matches!(&parts[1], Inline::Link { label, target, .. }
        if label == ":/page/y.mu" && target == label));
    let open = parse_inline(&chars("a`[b"), &mut style);
    assert_eq!(inline_text(&open), "ab");
}

#[test]
fn colours_are_written_in_one_way() {
    assert_eq!(valid_colour(&chars("aBc")).as_deref(), Some("#aabbcc"));
    assert_eq!(valid_colour(&chars("12AbCd")).as_deref(), Some("#12abcd"));
    assert_eq!(valid_colour(&chars("12abg0")), None);
    assert_eq!(valid_colour(&chars("1234")), None);
    let mut style = MicronStyle::default();
    parse_inline(&chars("`FT102030`Bxyz`B123"), &mut style);
    assert_eq!(style.foreground.as_deref(), Some("#102030"));
    assert_eq!(style.background.as_deref(), Some("#112233"));
    parse_inline(&chars("`f`b"), &mut style);
    assert_eq!(style.foreground, None);
    assert_eq!(style.background, None);
}

#[test]
fn field_widths_are_bounded() {
    let style = MicronStyle::default();
    let width = |text: &str| match parse_field(&chars(text), &style) {
        Some((Inline::Input { width, masked, .. }, _)) => (width, masked),
        _ => panic!("expected input"),
    };
    assert_eq!(width("<name`x>"), (24, false));
    assert_eq!(width("<!8|name`x>"), (8, true));
    assert_eq!(width("<0|name`x>"), (1, false));
    assert_eq!(width("<9999|name`x>"), (256, false));
    assert_eq!(width("<99999|name`x>"), (24, false));
    assert!(parse_field(&chars("<a b`x>"), &style).is_none());
    assert!(parse_field(&chars("<|`x>"), &style).is_none());
    assert!(parse_field(&chars("<name`x"), &style).is_none());
    let Some((Inline::Radio { value, label, checked, .. }, used)) =
        parse_field(&chars("<^|n|v|*`L>tail"), &style)
    else {
        panic!("expected radio");
    };
    assert_eq!((value.as_str(), label.as_str(), checked), ("v", "L", true));
    assert_eq!(used, 11);
}

#[test]
fn partials_have_a_target_and_a_bounded_interval() {
    assert!(parse_partial(&chars("`{ `5}")).is_none());
    assert!(parse_partial(&chars("`{x")).is_none());
    assert!(matches!(
        parse_partial(&chars("`{ x `999999`a||b}")),
        Some(MicronBlock::Partial { target, interval_seconds: 86400, fields })
            if target == "x" && fields == ["a", "b"]
    ));
    assert!(matches!(
        parse_partial(&chars("`{x`+7}")),
        Some(MicronBlock::Partial { interval_seconds: 7, .. })
    ));
    assert!(matches!(
        parse_partial(&chars("`{x`soon}")),
        Some(MicronBlock::Partial { interval_seconds: 0, .. })
    ));
}

#[test]
fn names_of_fields_are_plain() {
    assert!(valid_field_name(&chars("user_Name-1")));
    assert!(valid_field_name(&[]));
    assert!(!valid_field_name(&chars("user name")));
    assert!(!valid_field_name(&chars("ü")));
}

#[test]
fn text_is_pushed_once() {
    let mut output = Vec::new();
    let mut text = String::from("abc");
    push_text(&mut output, &mut text, &MicronStyle::default());
    push_text(&mut output, &mut text, &MicronStyle::default());
    assert_eq!(output.len(), 1);
    assert!(text.is_empty());
    assert_eq!(inline_text(&output), "abc");
}

#[test]
fn directives_keep_their_last_good_value() {
    let page = parse_page("u".into(), b"#!c= 5 \n#!c=x\n#!bg=zzz\n#!fg=fff\n", false).unwrap();
    assert_eq!(page.cache_seconds, 5);
    assert_eq!(page.background, None);
    assert_eq!(page.foreground.as_deref(), Some("#ffffff"));
    assert!(page.blocks.is_empty());
}

#[test]
fn an_open_table_ends_with_its_page() {
    let read = |source: &str| {
        let page = parse_page("hash:/page/x.mu".into(), source.as_bytes(), false).unwrap();
        (format!("{:?}", page), page.blocks.len())
    };
    for source in ["", "text\n", "`t\n| a | b |\n", "`t\n`t\n`t\n| a |\n", "`=\n`t\n| a |\n"] {
        assert_eq!(read(source), read(&format!("{source}`t\n")));
    }
    assert_eq!(read("`t\n| a | b |\n").1, 1);
    assert_eq!(read("`t\n").1, 0);
}
