//! The screen of the network and its interfaces.
use vstd::prelude::*;
use vstd::string::*;
use vstd::utf8::encode_utf8;

use crate::browser::text_views;
use crate::models::InterfaceSnapshot;
use crate::text::byte_len;
use crate::ui::glyphs::{cells_in, cells_of, clipped, clipped_text};
use crate::ui::lines::{joined, padded_left, push_padded_left, push_spaces, spaces};
use crate::ui::state::UiState;

verus! {

/// What an interface received and sent, as texts.
pub type Counters = Seq<(String, String)>;

/// What is left of `a` after `b`.
pub open spec fn less_by(a: int, b: int) -> nat {
    if a > b {
        (a - b) as nat
    } else {
        0
    }
}

/// The longest of the texts of what was received, in bytes.
pub open spec fn widest_received(counters: Counters) -> nat
    decreases counters.len(),
{
    if counters.len() == 0 {
        0
    } else {
        let before = widest_received(counters.drop_last());
        let here = encode_utf8(counters.last().0@).len();
        if here > before {
            here
        } else {
            before
        }
    }
}

/// The longest of the texts of what was sent, in bytes.
pub open spec fn widest_sent(counters: Counters) -> nat
    decreases counters.len(),
{
    if counters.len() == 0 {
        0
    } else {
        let before = widest_sent(counters.drop_last());
        let here = encode_utf8(counters.last().1@).len();
        if here > before {
            here
        } else {
            before
        }
    }
}

/// What an interface received and sent, aligned with the others.
pub open spec fn counts_text(received: Seq<char>, sent: Seq<char>, counters: Counters) -> Seq<char> {
    "RX "@ + padded_left(received, widest_received(counters)) + "  TX "@ + padded_left(
        sent,
        widest_sent(counters),
    )
}

/// The line of an interface: its name on the left, its counts on the right.
pub open spec fn interface_text(
    interface: InterfaceSnapshot,
    counts: Seq<char>,
    width: nat,
) -> Seq<char> {
    let length = encode_utf8(counts).len() as int;
    let mark = if interface.online {
        "+ "@
    } else {
        "- "@
    };
    let name = clipped_text(mark + interface.name@, less_by(width as int, length + 1));
    let padding = less_by(width as int, cells_in(name) + length);
    clipped_text(name + spaces(padding) + counts, width)
}

/// The lines of the network screen.
pub open spec fn screen_texts(state: UiState, counters: Counters, width: nat) -> Seq<Seq<char>> {
    let n = if state.network_interfaces@.len() < counters.len() {
        state.network_interfaces@.len()
    } else {
        counters.len()
    };
    state.network@.map_values(|line: String| clipped_text(line@, width)) + (if state.announce_name@.len()
        > 0 {
        seq![clipped_text("Name: "@ + state.announce_name@, width)]
    } else {
        Seq::empty()
    }) + (if state.announce_status@.len() > 0 {
        seq![clipped_text(state.announce_status@, width)]
    } else {
        Seq::empty()
    }) + Seq::new(
        n,
        |i: int|
            interface_text(
                state.network_interfaces@[i],
                counts_text(counters[i].0@, counters[i].1@, counters),
                width,
            ),
    )
}

fn widest(counters: &Vec<(String, String)>) -> (r: (usize, usize))
    ensures
        r.0 == widest_received(counters@),
        r.1 == widest_sent(counters@),
{
    let mut received: usize = 0;
    let mut sent: usize = 0;
    for i in 0..counters.len()
        invariant
            received == widest_received(counters@.take(i as int)),
            sent == widest_sent(counters@.take(i as int)),
    {
        assert(counters@.take(i + 1).drop_last() =~= counters@.take(i as int));
        let here: usize = byte_len(counters[i].0.as_str());
        if here > received {
            received = here;
        }
        let there: usize = byte_len(counters[i].1.as_str());
        if there > sent {
            sent = there;
        }
    }
    assert(counters@.take(counters@.len() as int) =~= counters@);
    (received, sent)
}

fn minus(a: usize, b: usize) -> (r: usize)
    ensures
        r == less_by(a as int, b as int),
{
    if a > b {
        a - b
    } else {
        0
    }
}

fn interface_line(interface: &InterfaceSnapshot, counts: &str, width: usize) -> (r: String)
    ensures
        r@ == interface_text(*interface, counts@, width as nat),
{
    let length: usize = byte_len(counts);
    let mut name = if interface.online {
        "+ ".to_string()
    } else {
        "- ".to_string()
    };
    name.append(interface.name.as_str());
    let name_width: usize = minus(minus(width, length), 1);
    let shown = clipped(name.as_str(), name_width);
    let padding: usize = minus(minus(width, length), cells_of(shown.as_str()));
    let mut line = shown;
    push_spaces(&mut line, padding);
    line.append(counts);
    clipped(line.as_str(), width)
}

/// The lines of the network screen, given the texts of the counters.
pub fn network_screen(state: &UiState, counters: &Vec<(String, String)>, width: usize) -> (r: Vec<
    String,
>)
    ensures
        text_views(r@) == screen_texts(*state, counters@, width as nat),
{
    let (received_width, sent_width) = widest(counters);
    let mut lines: Vec<String> = Vec::new();
    let ghost clip = |line: String| clipped_text(line@, width as nat);
    assert(text_views(lines@) =~= state.network@.take(0).map_values(clip));
    for i in 0..state.network.len()
        invariant
            clip == (|line: String| clipped_text(line@, width as nat)),
            text_views(lines@) == state.network@.take(i as int).map_values(clip),
    {
        let ghost before = text_views(lines@);
        let line = clipped(state.network[i].as_str(), width);
        lines.push(line);
        proof {
            assert(text_views(lines@) =~= before.push(line@));
            assert(state.network@.take(i + 1).map_values(clip) =~= state.network@.take(
                i as int,
            ).map_values(clip).push(line@));
        }
    }
    assert(state.network@.take(state.network@.len() as int) =~= state.network@);
    let ghost first = text_views(lines@);
    if !state.announce_name.as_str().is_empty() {
        let mut name = "Name: ".to_string();
        name.append(state.announce_name.as_str());
        lines.push(clipped(name.as_str(), width));
    }
    let ghost second = if state.announce_name@.len() > 0 {
        seq![clipped_text("Name: "@ + state.announce_name@, width as nat)]
    } else {
        Seq::empty()
    };
    assert(text_views(lines@) =~= first + second);
    if !state.announce_status.as_str().is_empty() {
        lines.push(clipped(state.announce_status.as_str(), width));
    }
    let ghost third = if state.announce_status@.len() > 0 {
        seq![clipped_text(state.announce_status@, width as nat)]
    } else {
        Seq::empty()
    };
    let ghost head = first + second + third;
    assert(text_views(lines@) =~= head);
    let count: usize = if state.network_interfaces.len() < counters.len() {
        state.network_interfaces.len()
    } else {
        counters.len()
    };
    let ghost line_of = |i: int|
        interface_text(
            state.network_interfaces@[i],
            counts_text(counters@[i].0@, counters@[i].1@, counters@),
            width as nat,
        );
    assert(text_views(lines@) =~= head + Seq::new(0, line_of));
    for i in 0..count
        invariant
            count <= state.network_interfaces@.len(),
            count <= counters@.len(),
            received_width == widest_received(counters@),
            sent_width == widest_sent(counters@),
            line_of == (|i: int|
                interface_text(
                    state.network_interfaces@[i],
                    counts_text(counters@[i].0@, counters@[i].1@, counters@),
                    width as nat,
                )),
            text_views(lines@) == head + Seq::new(i as nat, line_of),
    {
        let ghost before = text_views(lines@);
        let mut counts = "RX ".to_string();
        push_padded_left(&mut counts, counters[i].0.as_str(), received_width);
        counts.append("  TX ");
        push_padded_left(&mut counts, counters[i].1.as_str(), sent_width);
        let line = interface_line(&state.network_interfaces[i], counts.as_str(), width);
        lines.push(line);
        proof {
            assert(counts@ == counts_text(
                counters@[i as int].0@,
                counters@[i as int].1@,
                counters@,
            ));
            assert(text_views(lines@) =~= before.push(line@));
            assert(text_views(lines@) =~= head + Seq::new((i + 1) as nat, line_of));
        }
    }
    assert(text_views(lines@) =~= screen_texts(*state, counters@, width as nat));
    lines
}

/// The network screen as one text.
pub fn network_text(state: &UiState, counters: &Vec<(String, String)>, width: usize) -> (r: String)
    ensures
        r@ == joined(screen_texts(*state, counters@, width as nat), '\n'),
{
    let lines = network_screen(state, counters, width);
    let ghost texts = text_views(lines@);
    let mut out = String::new();
    assert(out@ =~= joined(texts.take(0), '\n'));
    for i in 0..lines.len()
        invariant
            texts == text_views(lines@),
            out@ == joined(texts.take(i as int), '\n'),
    {
        let ghost before = out@;
        proof {
            assert(texts.take(i + 1).drop_last() =~= texts.take(i as int));
            assert(texts.take(i + 1).last() == lines@[i as int]@);
        }
        if i > 0 {
            out.push('\n');
        }
        out.append(lines[i].as_str());
        proof {
            if i == 0 {
                assert(out@ =~= lines@[0]@);
            }
            assert(out@ =~= joined(texts.take(i + 1), '\n'));
        }
    }
    assert(texts.take(lines@.len() as int) =~= texts);
    out
}

} // verus!
