//! The lines that the terminal screens are made of.
use vstd::prelude::*;
use vstd::slice::*;
use vstd::string::*;
use vstd::utf8::encode_utf8;

use crate::browser::text_views;
use crate::models::{DirectoryEntry, NetworkSnapshot, NetworkState, RrcHubView, RrcMessageView};
use crate::text::{chars_of, is_white_space, same_text, skip_while, string_of, views, white_space};
use crate::ui::state::{DirectoryKind, DirectoryRow, UiState, MAX_DIRECTORY_ROWS};

verus! {

/// How many of the leading characters of `s` are no white space.
pub open spec fn word_run(s: Seq<char>) -> nat
    decreases s.len(),
{
    if s.len() > 0 && !is_white_space(s[0]) {
        1 + word_run(s.drop_first())
    } else {
        0
    }
}

proof fn lemma_word_run(s: Seq<char>, n: int)
    requires
        0 <= n <= s.len(),
        forall|i: int| 0 <= i < n ==> !is_white_space(#[trigger] s[i]),
        n < s.len() ==> is_white_space(s[n]),
    ensures
        word_run(s) == n,
    decreases s.len(),
{
    if n > 0 {
        assert(!is_white_space(s[0]));
        lemma_word_run(s.drop_first(), n - 1);
    }
}

proof fn lemma_word_run_fits(s: Seq<char>)
    ensures
        word_run(s) <= s.len(),
    decreases s.len(),
{
    if s.len() > 0 {
        lemma_word_run_fits(s.drop_first());
    }
}

proof fn lemma_skip_white(s: Seq<char>)
    ensures
        skip_while(s, |c: char| is_white_space(c)).len() <= s.len(),
        skip_while(s, |c: char| is_white_space(c)).len() > 0 ==> !is_white_space(
            skip_while(s, |c: char| is_white_space(c))[0],
        ),
    decreases s.len(),
{
    if s.len() > 0 && is_white_space(s[0]) {
        lemma_skip_white(s.drop_first());
    }
}

/// The words of `s`: what stands between white space.
pub open spec fn words(s: Seq<char>) -> Seq<Seq<char>>
    decreases s.len(),
    via words_decreases
{
    let rest = skip_while(s, |c: char| is_white_space(c));
    let n = word_run(rest) as int;
    if rest.len() == 0 {
        Seq::empty()
    } else {
        seq![rest.take(n)] + words(rest.skip(n))
    }
}

#[via_fn]
proof fn words_decreases(s: Seq<char>) {
    lemma_skip_white(s);
    let rest = skip_while(s, |c: char| is_white_space(c));
    lemma_word_run_fits(rest);
    if rest.len() > 0 {
        assert(word_run(rest) >= 1);
    }
}

/// The parts one after the other, with `mark` between them.
pub open spec fn joined(parts: Seq<Seq<char>>, mark: char) -> Seq<char>
    decreases parts.len(),
{
    if parts.len() == 0 {
        Seq::empty()
    } else if parts.len() == 1 {
        parts[0]
    } else {
        joined(parts.drop_last(), mark).push(mark) + parts.last()
    }
}

pub fn words_of(s: &[char]) -> (r: Vec<&[char]>)
    ensures
        views(r@) == words(s@),
{
    let ghost p = |c: char| is_white_space(c);
    let mut out: Vec<&[char]> = Vec::new();
    let mut from: usize = 0;
    proof {
        assert(s@.skip(0) =~= s@);
        assert(views(out@) + words(s@) =~= words(s@));
    }
    loop
        invariant
            p == (|c: char| is_white_space(c)),
            from <= s@.len(),
            views(out@) + words(s@.skip(from as int)) == words(s@),
        decreases s@.len() - from,
    {
        let ghost here = s@.skip(from as int);
        let mut start: usize = from;
        while start < s.len() && white_space(s[start])
            invariant
                p == (|c: char| is_white_space(c)),
                from <= start <= s@.len(),
                here == s@.skip(from as int),
                skip_while(here, p) == skip_while(s@.skip(start as int), p),
            decreases s@.len() - start,
        {
            assert(s@.skip(start as int).drop_first() =~= s@.skip(start + 1));
            start = start + 1;
        }
        let ghost rest = s@.skip(start as int);
        assert(skip_while(here, p) == rest);
        if start == s.len() {
            assert(words(here) =~= Seq::empty());
            assert(views(out@) + words(here) =~= views(out@));
            return out;
        }
        let mut end: usize = start;
        while end < s.len() && !white_space(s[end])
            invariant
                start <= end <= s@.len(),
                rest == s@.skip(start as int),
                forall|i: int| 0 <= i < end - start ==> !is_white_space(#[trigger] rest[i]),
            decreases s@.len() - end,
        {
            assert(rest[end - start] == s@[end as int]);
            end = end + 1;
        }
        let ghost before = views(out@);
        proof {
            if end < s@.len() {
                assert(rest[end - start] == s@[end as int]);
            }
            lemma_word_run(rest, end - start);
            assert(rest.skip(end - start) =~= s@.skip(end as int));
            assert(!is_white_space(rest[0]));
        }
        let word = slice_subrange(s, start, end);
        out.push(word);
        proof {
            assert(word@ =~= rest.take(end - start));
            assert(views(out@) =~= before.push(word@));
            assert(words(here) == seq![word@] + words(s@.skip(end as int)));
            assert(views(out@) + words(s@.skip(end as int)) =~= before + words(here));
        }
        from = end;
    }
}

/// `content` on one line: its words, with a single space between them.
pub open spec fn one_line(content: Seq<char>) -> Seq<char> {
    joined(words(content), ' ')
}

pub fn single_line(content: &str) -> (r: String)
    ensures
        r@ == one_line(content@),
{
    let all = chars_of(content);
    let parts = words_of(&all);
    let ghost texts = words(content@);
    let mut out = String::new();
    assert(out@ =~= joined(texts.take(0), ' '));
    for i in 0..parts.len()
        invariant
            views(parts@) == texts,
            out@ == joined(texts.take(i as int), ' '),
    {
        let ghost before = out@;
        proof {
            assert(views(parts@)[i as int] == parts@[i as int]@);
            assert(texts.take(i + 1).drop_last() =~= texts.take(i as int));
        }
        if i > 0 {
            out.push(' ');
        }
        let word = string_of(parts[i]);
        out.append(word.as_str());
        proof {
            if i == 0 {
                assert(out@ =~= parts@[0]@);
            }
            assert(out@ =~= joined(texts.take(i + 1), ' '));
        }
    }
    assert(texts.take(parts@.len() as int) =~= texts);
    out
}

/// The mark before a message: where it comes from, and how far it got.
pub open spec fn message_mark(outbound: bool, state: Seq<char>) -> char {
    if !outbound {
        '<'
    } else if state == "delivered"@ || state == "stored_on_node"@ {
        '>'
    } else if state == "failed"@ {
        '!'
    } else {
        '~'
    }
}

pub open spec fn message_text(outbound: bool, state: Seq<char>, content: Seq<char>) -> Seq<char> {
    seq!['[', message_mark(outbound, state), ']', ' '] + one_line(content)
}

pub fn message_line(outbound: bool, state: &str, content: &str) -> (r: String)
    ensures
        r@ == message_text(outbound, state@, content@),
{
    let mark = if !outbound {
        '<'
    } else if same_text(state, "delivered") || same_text(state, "stored_on_node") {
        '>'
    } else if same_text(state, "failed") {
        '!'
    } else {
        '~'
    };
    let mut out = String::new();
    out.push('[');
    out.push(mark);
    out.push(']');
    out.push(' ');
    let line = single_line(content);
    out.append(line.as_str());
    assert(out@ =~= message_text(outbound, state@, content@));
    out
}

/// A chat message with its room and the name of who sent it.
pub open spec fn rrc_text(message: RrcMessageView) -> Seq<char> {
    let room = match message.room {
        Some(room) => seq!['#'] + room@ + seq![' '],
        None => Seq::empty(),
    };
    let nick = match message.nick {
        Some(nick) => nick@,
        None => message.source_hash@,
    };
    let action = if message.kind@ == "action"@ {
        "* "@
    } else {
        Seq::empty()
    };
    seq!['['] + room + action + nick + "] "@ + message.body@
}

pub fn rrc_message_line(message: &RrcMessageView) -> (r: String)
    ensures
        r@ == rrc_text(*message),
{
    let mut out = String::new();
    out.push('[');
    if let Some(room) = &message.room {
        out.push('#');
        out.append(room.as_str());
        out.push(' ');
    }
    assert(out@ =~= seq!['['] + match message.room {
        Some(room) => seq!['#'] + room@ + seq![' '],
        None => Seq::empty(),
    });
    let ghost head = out@;
    if same_text(message.kind.as_str(), "action") {
        out.append("* ");
    }
    assert(out@ =~= head + if message.kind@ == "action"@ {
        "* "@
    } else {
        Seq::empty()
    });
    match &message.nick {
        Some(nick) => out.append(nick.as_str()),
        None => out.append(message.source_hash.as_str()),
    }
    out.append("] ");
    out.append(message.body.as_str());
    out
}

/// What the screen of a hub shows.
pub open spec fn hub_texts(hub: RrcHubView, history: Seq<RrcMessageView>) -> Seq<Seq<char>> {
    let head = seq![
        "State: "@ + if hub.connected {
            "connected"@
        } else {
            "offline"@
        },
        "Identity: "@ + hub.local_identity@,
        "Nick: "@ + match hub.nick {
            Some(nick) => nick@,
            None => "-"@,
        },
        hub.detail@,
    ];
    let rooms = if hub.rooms@.len() == 0 {
        seq!["Rooms: none"@]
    } else {
        seq!["Rooms:"@] + hub.rooms@.map_values(|room: String| "  "@ + room@)
    };
    let messages = if history.len() == 0 {
        Seq::empty()
    } else {
        seq![Seq::empty(), "Messages:"@] + history.map_values(
            |message: RrcMessageView| rrc_text(message),
        )
    };
    head + rooms + messages
}

pub(crate) fn labelled(label: &str, value: &str) -> (r: String)
    ensures
        r@ == label@ + value@,
{
    let mut out = label.to_string();
    out.append(value);
    out
}

pub fn rrc_hub_lines(hub: &RrcHubView, history: &Vec<RrcMessageView>) -> (r: Vec<String>)
    ensures
        text_views(r@) == hub_texts(*hub, history@),
{
    let mut lines: Vec<String> = Vec::new();
    lines.push(
        labelled(
            "State: ",
            if hub.connected {
                "connected"
            } else {
                "offline"
            },
        ),
    );
    lines.push(labelled("Identity: ", hub.local_identity.as_str()));
    let nick = match &hub.nick {
        Some(nick) => labelled("Nick: ", nick.as_str()),
        None => labelled("Nick: ", "-"),
    };
    lines.push(nick);
    lines.push(hub.detail.clone());
    let ghost head = text_views(lines@);
    let ghost room_line = |room: String| "  "@ + room@;
    if hub.rooms.len() == 0 {
        lines.push("Rooms: none".to_string());
    } else {
        lines.push("Rooms:".to_string());
        assert(text_views(lines@) =~= head + (seq!["Rooms:"@] + hub.rooms@.take(0).map_values(
            room_line,
        )));
        for i in 0..hub.rooms.len()
            invariant
                room_line == (|room: String| "  "@ + room@),
                text_views(lines@) == head + (seq!["Rooms:"@] + hub.rooms@.take(
                    i as int,
                ).map_values(room_line)),
        {
            let ghost before = text_views(lines@);
            let line = labelled("  ", hub.rooms[i].as_str());
            lines.push(line);
            proof {
                assert(text_views(lines@) =~= before.push(line@));
                assert(hub.rooms@.take(i + 1).map_values(room_line) =~= hub.rooms@.take(
                    i as int,
                ).map_values(room_line).push(line@));
                assert(text_views(lines@) =~= head + (seq!["Rooms:"@] + hub.rooms@.take(
                    i + 1,
                ).map_values(room_line)));
            }
        }
        assert(hub.rooms@.take(hub.rooms@.len() as int) =~= hub.rooms@);
    }
    let ghost middle = text_views(lines@);
    let ghost message_text = |message: RrcMessageView| rrc_text(message);
    proof {
        let rooms = if hub.rooms@.len() == 0 {
            seq!["Rooms: none"@]
        } else {
            seq!["Rooms:"@] + hub.rooms@.map_values(room_line)
        };
        assert(middle =~= head + rooms);
    }
    if history.len() > 0 {
        let blank = String::new();
        assert(blank@ =~= Seq::<char>::empty());
        lines.push(blank);
        lines.push("Messages:".to_string());
        assert(text_views(lines@) =~= middle + (seq![Seq::<char>::empty(), "Messages:"@]
            + history@.take(0).map_values(message_text)));
        for i in 0..history.len()
            invariant
                message_text == (|message: RrcMessageView| rrc_text(message)),
                text_views(lines@) == middle + (seq![Seq::<char>::empty(), "Messages:"@]
                    + history@.take(i as int).map_values(message_text)),
        {
            let ghost before = text_views(lines@);
            let line = rrc_message_line(&history[i]);
            lines.push(line);
            proof {
                assert(text_views(lines@) =~= before.push(line@));
                assert(history@.take(i + 1).map_values(message_text) =~= history@.take(
                    i as int,
                ).map_values(message_text).push(line@));
                assert(text_views(lines@) =~= middle + (seq![Seq::<char>::empty(), "Messages:"@]
                    + history@.take(i + 1).map_values(message_text)));
            }
        }
        assert(history@.take(history@.len() as int) =~= history@);
    }
    assert(text_views(lines@) =~= hub_texts(*hub, history@));
    lines
}

pub open spec fn network_state_text(state: NetworkState) -> Seq<char> {
    match state {
        NetworkState::Offline => "State: Offline"@,
        NetworkState::Starting => "State: Starting"@,
        NetworkState::Online => "State: Online"@,
        NetworkState::Failed => "State: Failed"@,
    }
}

/// What the network screen says first.
pub open spec fn network_texts(network: NetworkSnapshot) -> Seq<Seq<char>> {
    seq![
        network_state_text(network.state),
        network.detail@,
        "Destination: "@ + match network.destination_hash {
            Some(hash) => hash@,
            None => "-"@,
        },
    ]
}

pub fn network_lines(network: &NetworkSnapshot) -> (r: Vec<String>)
    ensures
        text_views(r@) == network_texts(*network),
{
    let mut lines: Vec<String> = Vec::new();
    lines.push(
        match network.state {
            NetworkState::Offline => "State: Offline".to_string(),
            NetworkState::Starting => "State: Starting".to_string(),
            NetworkState::Online => "State: Online".to_string(),
            NetworkState::Failed => "State: Failed".to_string(),
        },
    );
    lines.push(network.detail.clone());
    let destination = match &network.destination_hash {
        Some(hash) => labelled("Destination: ", hash.as_str()),
        None => labelled("Destination: ", "-"),
    };
    lines.push(destination);
    assert(text_views(lines@) =~= network_texts(*network));
    lines
}

/// Shows a new state of the network.
pub fn update_network(state: &mut UiState, network: NetworkSnapshot)
    ensures
        *final(state) == (UiState {
            network: final(state).network,
            network_interfaces: network.interfaces,
            ..*old(state)
        }),
        text_views(final(state).network@) == network_texts(network),
{
    let lines = network_lines(&network);
    state.network_interfaces = network.interfaces;
    state.network = lines;
}

pub open spec fn kind_of(kind: Seq<char>) -> DirectoryKind {
    if kind == "peer"@ {
        DirectoryKind::Peer
    } else if kind == "propagation"@ {
        DirectoryKind::Propagation
    } else if kind == "rrc"@ {
        DirectoryKind::Rrc
    } else if kind == "node"@ {
        DirectoryKind::Node
    } else {
        DirectoryKind::Other
    }
}

fn read_kind(kind: &str) -> (r: DirectoryKind)
    ensures
        r == kind_of(kind@),
{
    if same_text(kind, "peer") {
        DirectoryKind::Peer
    } else if same_text(kind, "propagation") {
        DirectoryKind::Propagation
    } else if same_text(kind, "rrc") {
        DirectoryKind::Rrc
    } else if same_text(kind, "node") {
        DirectoryKind::Node
    } else {
        DirectoryKind::Other
    }
}

pub open spec fn spaces(n: nat) -> Seq<char> {
    Seq::new(n, |i: int| ' ')
}

/// `s` with spaces behind it, up to a width in characters.
pub open spec fn padded_right(s: Seq<char>, width: nat) -> Seq<char> {
    if s.len() < width {
        s + spaces((width - s.len()) as nat)
    } else {
        s
    }
}

/// `s` with spaces before it, up to a width in characters.
pub open spec fn padded_left(s: Seq<char>, width: nat) -> Seq<char> {
    if s.len() < width {
        spaces((width - s.len()) as nat) + s
    } else {
        s
    }
}

pub(crate) fn push_spaces(out: &mut String, n: usize)
    ensures
        final(out)@ == old(out)@ + spaces(n as nat),
{
    assert(out@ =~= out@ + spaces(0));
    for i in 0..n
        invariant
            out@ == old(out)@ + spaces(i as nat),
    {
        out.push(' ');
        assert(out@ =~= old(out)@ + spaces((i + 1) as nat));
    }
}

fn push_padded_right(out: &mut String, s: &str, width: usize)
    ensures
        final(out)@ == old(out)@ + padded_right(s@, width as nat),
{
    let count: usize = chars_of(s).len();
    out.append(s);
    if count < width {
        push_spaces(out, width - count);
    }
    assert(out@ =~= old(out)@ + padded_right(s@, width as nat));
}

pub(crate) fn push_padded_left(out: &mut String, s: &str, width: usize)
    ensures
        final(out)@ == old(out)@ + padded_left(s@, width as nat),
{
    let count: usize = chars_of(s).len();
    if count < width {
        push_spaces(out, width - count);
    }
    out.append(s);
    assert(out@ =~= old(out)@ + padded_left(s@, width as nat));
}

/// The name of a directory entry: the one it announced, or its address.
pub open spec fn entry_title(entry: DirectoryEntry) -> Seq<char> {
    match entry.display_name {
        Some(name) => name@,
        None => entry.destination_hash@,
    }
}

pub open spec fn entry_label(entry: DirectoryEntry) -> Seq<char> {
    (if entry.active {
        "+ "@
    } else {
        "- "@
    }) + padded_right(entry.kind@, 18) + seq![' '] + entry_title(entry)
}

pub open spec fn is_row_of(row: DirectoryRow, entry: DirectoryEntry) -> bool {
    &&& row.destination_hash@ == entry.destination_hash@
    &&& row.title@ == entry_title(entry)
    &&& row.label@ == entry_label(entry)
    &&& row.kind == kind_of(entry.kind@)
}

fn directory_row(entry: &DirectoryEntry) -> (r: DirectoryRow)
    ensures
        is_row_of(r, *entry),
{
    let title = match &entry.display_name {
        Some(name) => name.clone(),
        None => entry.destination_hash.clone(),
    };
    let mut label = if entry.active {
        "+ ".to_string()
    } else {
        "- ".to_string()
    };
    push_padded_right(&mut label, entry.kind.as_str(), 18);
    label.push(' ');
    label.append(title.as_str());
    assert(label@ =~= entry_label(*entry));
    DirectoryRow {
        destination_hash: entry.destination_hash.clone(),
        title,
        label,
        kind: read_kind(entry.kind.as_str()),
    }
}

/// The rows of the directory: the first two hundred entries.
pub fn directory_lines(entries: &Vec<DirectoryEntry>) -> (r: Vec<DirectoryRow>)
    ensures
        r@.len() == if entries@.len() < MAX_DIRECTORY_ROWS {
            entries@.len() as int
        } else {
            MAX_DIRECTORY_ROWS as int
        },
        forall|i: int| 0 <= i < r@.len() ==> is_row_of(#[trigger] r@[i], entries@[i]),
{
    let count: usize = if entries.len() < MAX_DIRECTORY_ROWS {
        entries.len()
    } else {
        MAX_DIRECTORY_ROWS
    };
    let mut rows: Vec<DirectoryRow> = Vec::new();
    for i in 0..count
        invariant
            count <= entries@.len(),
            rows@.len() == i,
            forall|j: int| 0 <= j < i ==> is_row_of(#[trigger] rows@[j], entries@[j]),
    {
        rows.push(directory_row(&entries[i]));
    }
    rows
}

/// The address of a node's first page.
pub fn node_index_url(destination_hash: &str) -> (r: String)
    ensures
        r@ == destination_hash@ + ":/page/index.mu"@,
{
    labelled(destination_hash, ":/page/index.mu")
}

} // verus!
