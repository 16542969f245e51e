use rsnomadnet_core::browser::{
    inline_text, parse_page, BrowserError, BrowserPage, Inline, MicronBlock,
};
use rsnomadnet_core::table::TextMap;
use rsnomadnet_core::ui::browser::{
    due_after, link_target, page_url, resolve, Control, FetchOutcome, PageLayout, PartialBlock,
    Reply, Request, Session,
};
use rsnomadnet_core::ui::forms::{edit_parts, Edit};
use rsnomadnet_core::ui::page_events::{PageEvent, PageFrame, PageKey, PageOutcome, Wheel};
use rsnomadnet_core::ui::page_text::browser_page_lines;
use rsnomadnet_core::ui::pages::{
    browser_command, clicked, thumb, Activation, BrowserCommand, PageMove, WindowKey,
};

const URL: &str = "00112233445566778899aabbccddeeff:/page/index.mu";

fn page(source: &str) -> BrowserPage {
    parse_page(URL.into(), source.as_bytes(), false).unwrap()
}

fn session(source: &str) -> Session {
    let mut session = Session::new(URL.into());
    session.page = Some(page(source));
    session
}

fn text(page: &Option<BrowserPage>) -> String {
    match &page.as_ref().unwrap().blocks[0] {
        MicronBlock::Paragraph { parts, .. } => inline_text(parts),
        _ => panic!("expected paragraph"),
    }
}

fn form_of(controls: &[(&str, Control)]) -> (PageLayout, TextMap<Control>) {
    let mut layout = PageLayout::new();
    let mut form = TextMap::new();
    for (id, control) in controls {
        layout.controls.push(id.to_string());
        let copy = match control {
            Control::Input {
                name,
                value,
                cursor,
            } => Control::Input {
                name: name.clone(),
                value: value.clone(),
                cursor: *cursor,
            },
            Control::Choice {
                name,
                value,
                checked,
                radio,
            } => Control::Choice {
                name: name.clone(),
                value: value.clone(),
                checked: *checked,
                radio: *radio,
            },
            Control::Link { target, fields } => Control::Link {
                target: target.clone(),
                fields: fields.clone(),
            },
        };
        form.insert(id.to_string(), copy);
    }
    (layout, form)
}

fn input(name: &str, value: &str, cursor: usize) -> Control {
    Control::Input {
        name: name.into(),
        value: value.into(),
        cursor,
    }
}

fn choice(name: &str, value: &str, checked: bool, radio: bool) -> Control {
    Control::Choice {
        name: name.into(),
        value: value.into(),
        checked,
        radio,
    }
}

fn link(target: &str, fields: &[&str]) -> Control {
    Control::Link {
        target: target.into(),
        fields: fields.iter().map(|field| field.to_string()).collect(),
    }
}

#[test]
fn forms_survive_resize_and_submit_scoped_fields() {
    let mut session = session(
        "`<8|name`Alice>\n`<?|news|yes|*`Subscribe>\n`[Send`:/page/result.mu`*|action=send]\n",
    );
    let (layout, form) = form_of(&[
        ("0:0", input("name", "Alice", 5)),
        ("1:0", choice("news", "yes", true, false)),
        ("2:0", link(":/page/result.mu", &["*", "action=send"])),
    ]);
    session.set_layout(layout, form, 60);
    let input = session.layout.controls[0].clone();
    session.focus = Some(input.clone());
    assert!(session.edit(&Edit::Insert("界".into())));
    assert!(session.needs_layout(15));
    assert!(
        matches!(session.form.get(&input), Some(Control::Input {value, ..}) if value == "Alice界")
    );
    let fields = session.fields(&vec!["*".into(), "action=send".into()]);
    assert_eq!(fields.get("field_name").unwrap(), "Alice界");
    assert_eq!(fields.get("field_news").unwrap(), "yes");
    assert_eq!(fields.get("var_action").unwrap(), "send");
    assert!(!session.fields(&vec!["news".into()]).contains("field_name"));
}

#[test]
fn navigation_cancels_old_requests_and_ignores_late_replies() {
    let mut session = session("Initial");
    let first = session.navigate(URL, false, TextMap::new(), true).unwrap();
    let second = session
        .navigate(":/page/next.mu", false, TextMap::new(), true)
        .unwrap();
    assert_ne!(first.generation, session.generation);
    session.poll(
        Reply {
            generation: first.generation,
            fragment: None,
            result: Ok(page("Stale")),
        },
        0,
    );
    assert!(session.loading);
    assert!(second.url.ends_with(":/page/next.mu"));
    let mut next = page("Latest");
    next.url = second.url.clone();
    session.poll(
        Reply {
            generation: second.generation,
            fragment: None,
            result: Ok(next),
        },
        0,
    );
    assert_eq!(text(&session.page), "Latest");
    assert!(!session.loading);
    let back = session.go_history(false).unwrap();
    assert_eq!(back.url, URL);
}

fn partial_layout(target: &str, fields: &[&str], interval_seconds: u64) -> PageLayout {
    let mut layout = PageLayout::new();
    layout.partials.push((
        "0".into(),
        PartialBlock {
            target: target.into(),
            interval_seconds,
            fields: fields.iter().map(|field| field.to_string()).collect(),
        },
    ));
    layout
}

#[test]
fn partials_fetch_once_or_refresh_explicitly_without_duplicate_requests() {
    let mut session = session("`{:/page/status.mu`0`pid=status}\n");
    let layout = partial_layout(":/page/status.mu", &["pid=status"], 0);
    session.set_layout(layout, TextMap::new(), 60);
    let mut requests = session.partials(&None, 0);
    assert_eq!(requests.len(), 1);
    let request = requests.remove(0);
    assert_eq!(request.fields.get("var_pid").unwrap(), "status");
    assert!(session.partials(&None, 0).is_empty());
    session.poll(
        Reply {
            generation: request.generation,
            fragment: request.fragment,
            result: Ok(page("Live status")),
        },
        0,
    );
    assert_eq!(
        text(&session.fragments.at(0).1.page),
        "Live status"
    );
    assert!(session.partials(&None, 0).is_empty());
    assert_eq!(session.partials(&Some("status".into()), 0).len(), 1);
    session.stop();
    assert!(session.partials(&Some("status".into()), 0).is_empty());
}

#[test]
fn refreshing_parts_are_asked_for_when_they_are_due() {
    let mut session = session("`{:/page/status.mu`10}\n");
    session.set_layout(partial_layout(":/page/status.mu", &[], 10), TextMap::new(), 60);
    let request = session.partials(&None, 1000).remove(0);
    session.poll(
        Reply {
            generation: request.generation,
            fragment: request.fragment,
            result: Err("no path".into()),
        },
        1000,
    );
    assert_eq!(
        session.fragments.at(0).1.error.as_deref(),
        Some("no path")
    );
    assert!(session.partials(&None, 10999).is_empty());
    assert_eq!(session.partials(&None, 11000).len(), 1);
    assert_eq!(due_after(1000, 10), 11000);
    assert_eq!(due_after(1000, 0), 2000);
    assert_eq!(due_after(1, u64::MAX), u64::MAX);
}

#[test]
fn addresses_are_resolved_against_the_node_of_the_page() {
    assert_eq!(
        resolve(URL, ":/page/other.mu").unwrap(),
        "00112233445566778899aabbccddeeff:/page/other.mu"
    );
    assert_eq!(
        resolve(URL, "11111111111111111111111111111111").unwrap(),
        "11111111111111111111111111111111:/page/index.mu"
    );
    assert!(matches!(
        resolve(URL, ":/etc/x"),
        Err(BrowserError::UnsupportedPath)
    ));
    assert!(page_url(URL));
    assert!(!page_url("00112233445566778899aabbccddeeff:/file/a"));
    assert!(!page_url("x"));
}

#[test]
fn nested_partials_resolve_links_against_their_own_node() {
    let mut session = session("`{11111111111111111111111111111111:/page/fragment.mu`0}\n");
    let layout = partial_layout("11111111111111111111111111111111:/page/fragment.mu", &[], 0);
    session.set_layout(layout, TextMap::new(), 60);
    let request = session.partials(&None, 0).remove(0);
    let mut fragment = page("`[Other`:/page/other.mu]\n");
    fragment.url = request.url.clone();
    session.poll(
        Reply {
            generation: request.generation,
            fragment: request.fragment,
            result: Ok(fragment),
        },
        0,
    );
    let part = session.fragments.at(0).1.page.as_ref().unwrap();
    let MicronBlock::Paragraph { parts, .. } = &part.blocks[0] else {
        panic!("expected paragraph")
    };
    let Inline::Link { target, .. } = &parts[0] else {
        panic!("expected link")
    };
    let control = link(&link_target(&part.url, target), &[]);
    let mut layout = partial_layout("11111111111111111111111111111111:/page/fragment.mu", &[], 0);
    let (controls, form) = form_of(&[("0/0:0", control)]);
    layout.controls = controls.controls;
    session.set_layout(layout, form, 60);
    assert!(
        matches!(session.form.get(&session.layout.controls[0]), Some(Control::Link {target, ..}) if target == "11111111111111111111111111111111:/page/other.mu")
    );
    assert_eq!(session.fragments.len(), 1);
    assert!(matches!(
        session.activate("0/0:0", 0),
        Activation::Follow(request) if request.url == "11111111111111111111111111111111:/page/other.mu"
    ));
    assert_eq!(link_target(URL, "lxmf@1111"), "lxmf@1111");
}

#[test]
fn a_page_that_is_visited_again_keeps_its_place_in_the_history() {
    let mut session = Session::new(URL.into());
    assert_eq!((session.columns, session.layout.rows, session.layout.width), (0, 0, 0));
    let second = URL.replace("index", "second");
    session.navigate(URL, false, TextMap::new(), true).unwrap();
    session.navigate(&second, false, TextMap::new(), true).unwrap();
    session.go_history(false).unwrap();
    assert_eq!(session.position, 0);
    session.navigate(URL, false, TextMap::new(), true).unwrap();
    assert_eq!(session.position, 0);
    assert_eq!(session.history, [URL.to_string(), second]);
    let third = URL.replace("index", "third");
    session.navigate(&third, false, TextMap::new(), true).unwrap();
    assert_eq!(session.position, 1);
    assert_eq!(session.history, [URL.to_string(), third]);
}

#[test]
fn the_text_of_a_page_has_a_line_for_each_row() {
    let lines = browser_page_lines(&page(
        ">Title\n`!bold`! text\n-\n`=\na\n\nb\n`=\n`t\n| x | y |\n| 1 |\n`t\n`{:/page/p.mu`0}\n",
    ));
    assert_eq!(
        lines,
        ["Title", "bold text", "\u{2500}", "a", "b", "x | y", "1", ":/page/p.mu"]
    );
}

#[test]
fn requests_are_answered_or_dropped() {
    let request = |session: &mut Session| session.navigate(URL, false, TextMap::new(), true).unwrap();
    let mut session = session("Initial");
    let failed: Request = request(&mut session);
    let generation = failed.generation;
    let reply = failed
        .execute(FetchOutcome::Failed("no path".into()))
        .unwrap();
    assert_eq!(reply.generation, generation);
    assert_eq!(reply.result.unwrap_err(), "no path");
    assert!(request(&mut session)
        .execute(FetchOutcome::Cancelled)
        .is_none());
    assert!(request(&mut session)
        .execute(FetchOutcome::TimedOut)
        .unwrap()
        .result
        .is_err());
    assert!(request(&mut session)
        .execute(FetchOutcome::Fetched(page("x")))
        .unwrap()
        .result
        .is_ok());
    assert_eq!(
        request(&mut session).reject("busy").result.unwrap_err(),
        "busy"
    );
}

#[test]
fn edits_move_by_whole_glyphs() {
    let parts = |text: &str| -> Vec<String> { text.chars().map(String::from).collect() };
    let edit = |edit: Edit, cursor: usize| {
        let (parts, cursor) = edit_parts(parts("abc"), cursor, &edit, None);
        (parts.concat(), cursor)
    };
    assert_eq!(edit(Edit::Backspace, 2), ("ac".into(), 1));
    assert_eq!(edit(Edit::Backspace, 0), ("abc".into(), 0));
    assert_eq!(edit(Edit::Delete, 1), ("ac".into(), 1));
    assert_eq!(edit(Edit::Left, 1), ("abc".into(), 0));
    assert_eq!(edit(Edit::Right, 3), ("abc".into(), 3));
    assert_eq!(edit(Edit::Home, 3), ("abc".into(), 0));
    assert_eq!(edit(Edit::End, 0), ("abc".into(), 3));
    let (parts, cursor) = edit_parts(
        parts("ad"),
        1,
        &Edit::Insert("bc".into()),
        Some(vec!["b".into(), "c".into()]),
    );
    assert_eq!((parts.concat().as_str(), cursor), ("abcd", 3));
}

#[test]
fn glyphs_of_several_letters_are_edited_as_one() {
    let mut session = session("x");
    let (layout, form) = form_of(&[("0", input("name", "e\u{301}x", 1))]);
    session.set_layout(layout, form, 60);
    session.focus = Some("0".into());
    assert!(session.edit(&Edit::Backspace));
    assert!(
        matches!(session.form.get("0"), Some(Control::Input { value, cursor: 0, .. }) if value == "x")
    );
    assert!(!session.edit(&Edit::Other));
}

#[test]
fn links_lead_to_pages_peers_and_places() {
    let mut session = session("x");
    let (mut layout, form) = form_of(&[
        ("page", link(":/page/next.mu", &[])),
        ("peer", link("lxmf@00112233445566778899AABBCCDDEEFF", &[])),
        ("place", link("#note", &[])),
        ("one", choice("c", "1", true, true)),
        ("two", choice("c", "2", false, true)),
    ]);
    layout.anchors.insert("note".into(), 7);
    layout.rows = 20;
    session.set_layout(layout, form, 60);
    assert!(matches!(
        session.activate("peer", 0),
        Activation::Converse(hash) if hash == "00112233445566778899aabbccddeeff"
    ));
    assert!(matches!(session.activate("place", 0), Activation::Nothing));
    assert_eq!(session.top, 7);
    session.activate("two", 0);
    assert!(matches!(
        session.form.get("one"),
        Some(Control::Choice { checked: false, .. })
    ));
    assert!(matches!(
        session.form.get("two"),
        Some(Control::Choice { checked: true, .. })
    ));
    assert!(matches!(
        session.activate("page", 0),
        Activation::Follow(request) if request.url.ends_with(":/page/next.mu")
    ));
    assert!(matches!(
        session.activate("absent", 0),
        Activation::Nothing
    ));
}

#[test]
fn pages_are_scrolled_within_their_rows() {
    let mut session = session("x");
    let (mut layout, form) = form_of(&[("a", link(":/page/a.mu", &[])), ("b", link("x", &[]))]);
    layout.rows = 100;
    layout.width = 60;
    session.set_layout(layout, form, 60);
    session.scroll(PageMove::PageDown, 10);
    session.hold(10, 60);
    let paged = session.top;
    assert!(paged > 0 && paged <= 10);
    session.scroll(PageMove::End, 10);
    session.hold(10, 60);
    assert_eq!(session.top, 90);
    session.scroll(PageMove::Down, 10);
    session.hold(10, 60);
    assert_eq!(session.top, 90);
    session.scroll(PageMove::Home, 10);
    assert_eq!(session.top, 0);
    session.scroll(PageMove::Up, 10);
    assert_eq!(session.top, 0);
    assert_eq!(session.next_control(false), Some(0));
    session.focus_control(0, Some(50), 10);
    assert_eq!(session.focus.as_deref(), Some("a"));
    assert!(session.top <= 50 && 50 < session.top + 10);
    assert_eq!(session.next_control(false), Some(1));
    assert_eq!(session.next_control(true), Some(1));
}

#[test]
fn keys_of_the_browser_are_commands() {
    assert_eq!(
        browser_command(WindowKey::Left, false, true),
        Some(BrowserCommand::Back)
    );
    assert_eq!(browser_command(WindowKey::Left, false, false), None);
    assert_eq!(
        browser_command(WindowKey::Letter('r'), true, false),
        Some(BrowserCommand::Reload)
    );
    assert_eq!(
        browser_command(WindowKey::Escape, false, false),
        Some(BrowserCommand::Stop)
    );
    assert_eq!(
        browser_command(WindowKey::Letter('l'), true, false),
        Some(BrowserCommand::Address)
    );
    assert_eq!(browser_command(WindowKey::Letter('l'), false, false), None);
    assert_eq!(browser_command(WindowKey::Other, true, false), None);
    let mut session = session("x");
    let reload = session.command(BrowserCommand::Reload).unwrap();
    assert!(reload.reload);
    assert!(session.command(BrowserCommand::Stop).is_none());
    assert!(session.stopped);
    assert_ne!(reload.generation, session.generation);
    assert!(session.command(BrowserCommand::Back).is_none());
}

#[test]
fn clicks_find_the_control_under_them() {
    let row = vec![
        (None, 2),
        (Some("a".to_string()), 3),
        (Some("b".to_string()), 1),
    ];
    assert_eq!(clicked(&row, 1), None);
    assert_eq!(clicked(&row, 2).as_deref(), Some("a"));
    assert_eq!(clicked(&row, 5).as_deref(), Some("b"));
    assert_eq!(clicked(&row, 6), None);
    assert_eq!(thumb(0, 10, 100), 0);
    assert_eq!(thumb(90, 10, 100), 9);
    assert_eq!(thumb(0, 10, 0), 0);
}

fn key(key: PageKey) -> PageEvent {
    PageEvent::Key { key, shift: false }
}

#[test]
fn events_of_a_page_reach_what_they_are_for() {
    let mut session = session("x");
    let (mut layout, form) = form_of(&[
        ("a", input("name", "Al", 2)),
        ("b", link(":/page/next.mu", &[])),
    ]);
    layout.rows = 40;
    layout.width = 60;
    session.set_layout(layout, form, 60);
    let mut rows: Vec<Vec<(Option<String>, usize)>> = (0..40).map(|_| Vec::new()).collect();
    rows[0] = vec![(None, 2), (Some("a".to_string()), 4)];
    rows[30] = vec![(Some("b".to_string()), 4)];
    let frame = PageFrame {
        columns: 61,
        height: 10,
        focused: true,
    };
    let other = Edit::Other;

    // The Tab key goes round and brings controls into view.
    assert!(matches!(
        session.page_event(key(PageKey::Tab), &other, &rows, frame, 0),
        PageOutcome::Handled
    ));
    assert_eq!(session.focus.as_deref(), Some("a"));
    // A field takes what it can, a space too.
    let typed = Edit::Insert(" ".into());
    assert!(matches!(
        session.page_event(key(PageKey::Space), &typed, &rows, frame, 0),
        PageOutcome::Handled
    ));
    assert!(
        matches!(session.form.get("a"), Some(Control::Input { value, .. }) if value == "Al ")
    );
    session.page_event(key(PageKey::Tab), &other, &rows, frame, 0);
    assert_eq!((session.focus.as_deref(), session.top), (Some("b"), 30));
    let back = PageEvent::Key {
        key: PageKey::Tab,
        shift: true,
    };
    session.page_event(back, &other, &rows, frame, 0);
    assert_eq!((session.focus.as_deref(), session.top), (Some("a"), 0));

    // Wheels count only where the page has the focus.
    session.page_event(PageEvent::Wheel(Wheel::Down), &other, &rows, frame, 0);
    assert_eq!(session.top, 3);
    let away = PageFrame {
        focused: false,
        ..frame
    };
    assert!(matches!(
        session.page_event(PageEvent::Wheel(Wheel::Down), &other, &rows, away, 0),
        PageOutcome::Ignored
    ));
    assert!(matches!(
        session.page_event(PageEvent::Wheel(Wheel::Still), &other, &rows, frame, 0),
        PageOutcome::Ignored
    ));
    assert_eq!(session.top, 3);
    let wide = PageEvent::Key {
        key: PageKey::Right,
        shift: true,
    };
    session.page_event(wide, &other, &rows, frame, 0);
    assert_eq!(session.left, 4);
    session.page_event(key(PageKey::Home), &other, &rows, frame, 0);
    assert_eq!((session.top, session.left), (0, 0));

    // The scroll bar is in the last column.
    let bar = PageEvent::Press { column: 60, row: 5 };
    session.page_event(bar, &other, &rows, frame, 0);
    assert_eq!(session.top, 20);
    let end = PageEvent::Press { column: 60, row: 9 };
    session.page_event(end, &other, &rows, frame, 0);
    assert_eq!(session.top, 30);

    // A press beside every control takes the focus away; one on a link follows it.
    let beside = PageEvent::Press { column: 20, row: 0 };
    assert!(matches!(
        session.page_event(beside, &other, &rows, frame, 0),
        PageOutcome::Handled
    ));
    assert_eq!(session.focus, None);
    let on_link = PageEvent::Press { column: 1, row: 0 };
    let PageOutcome::Acted(Activation::Follow(request)) =
        session.page_event(on_link, &other, &rows, frame, 0)
    else {
        panic!("expected a request")
    };
    assert!(request.url.ends_with(":/page/next.mu"));
    assert!(matches!(
        session.page_event(key(PageKey::Other), &other, &rows, frame, 0),
        PageOutcome::Ignored
    ));
}

#[test]
fn bare_arrows_go_through_the_history() {
    let mut session = session("x");
    let frame = PageFrame {
        columns: 61,
        height: 10,
        focused: true,
    };
    let rows = Vec::new();
    for (target, source) in [(URL, "One"), (":/page/next.mu", "Two")] {
        let request = session.navigate(target, false, TextMap::new(), true).unwrap();
        let mut loaded = page(source);
        loaded.url = request.url.clone();
        let reply = Reply {
            generation: request.generation,
            fragment: None,
            result: Ok(loaded),
        };
        session.poll(reply, 0);
    }
    let PageOutcome::Asked(request) =
        session.page_event(key(PageKey::Left), &Edit::Other, &rows, frame, 0)
    else {
        panic!("expected a request")
    };
    assert_eq!(request.url, URL);
    assert!(matches!(
        session.page_event(key(PageKey::Left), &Edit::Other, &rows, frame, 0),
        PageOutcome::Handled
    ));
}

#[test]
fn answers_to_void_requests_change_nothing() {
    let mut session = session("Initial");
    let first = session.navigate(URL, false, TextMap::new(), true).unwrap();
    let second = URL.replace("index", "second");
    let later = session.navigate(&second, false, TextMap::new(), true).unwrap();
    session.poll(first.execute(FetchOutcome::Fetched(page("Late"))).unwrap(), 0);
    assert!(session.loading);
    assert_eq!(session.url, second);
    assert_eq!(text(&session.page), "Initial");
    session.stop();
    session.poll(later.execute(FetchOutcome::Failed("no path".into())).unwrap(), 0);
    assert_eq!(session.status, "Stopped");
    assert_eq!(text(&session.page), "Initial");
}
