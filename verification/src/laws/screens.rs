//! Laws of a page on the screen: what its controls do, how it is moved, and what the
//! keys are for.
use vstd::prelude::*;

use crate::browser::text_view;
use crate::hexadecimal::is_hash_text;
use crate::text::{lower, lower_char, starts_with};
use crate::ui::browser::{Control, Session};
use crate::ui::page_events::{
    acted_on, bar_place, event_done, key_done, press_done, scrolled, tabbed, went, wheel_move,
    PageEvent, PageFrame, PageKey, PageOutcome, Wheel,
};
use crate::ui::pages::{
    activated, browser_command_of, control_under, first_below, held_at, link_followed, link_kind,
    moved, next_place, top_for, Activation, BrowserCommand, LinkKind, PageMove, WindowKey,
};

verus! {

/// Whether a control is a choice of a name that is ticked or not.
pub open spec fn is_choice(control: Control, group: Seq<char>, is_radio: bool, ticked: bool) -> bool {
    match control {
        Control::Choice { name, checked, radio, .. } => name@ == group && radio == is_radio
            && checked == ticked,
        _ => false,
    }
}

/// Picking a radio button ticks it and takes the tick from every other radio button of
/// its name; what has another name, and every checkbox and field, stays as it is.
#[verifier::rlimit(50)]
pub proof fn law_one_radio_button_is_picked(
    before: Session,
    id: Seq<char>,
    group: Seq<char>,
    was: bool,
    other: Seq<char>,
    ticked: bool,
    now: u64,
    after: Session,
    action: Activation,
)
    requires
        !before.loading,
        before.form@.contains_key(id),
        is_choice(before.form@[id], group, true, was),
        before.form@.contains_key(other),
        other != id,
        activated(before, id, now, after, action),
    ensures
        action is Nothing,
        after.form@.contains_key(id),
        is_choice(after.form@[id], group, true, true),
        is_choice(before.form@[other], group, true, ticked) ==> is_choice(
            after.form@[other],
            group,
            true,
            false,
        ),
        !is_choice(before.form@[other], group, true, true) && !is_choice(
            before.form@[other],
            group,
            true,
            false,
        ) ==> after.form@[other] == before.form@[other],
        after.page == before.page,
{
    assert(after.form@.contains_key(id));
    assert(after.form@.contains_key(other));
}

/// Picking a checkbox switches it, and nothing else; picking it twice leaves it as it
/// was.
#[verifier::rlimit(50)]
pub proof fn law_checkboxes_are_switched(
    before: Session,
    id: Seq<char>,
    group: Seq<char>,
    was: bool,
    other: Seq<char>,
    now: u64,
    after: Session,
    action: Activation,
    again: Session,
    then: Activation,
)
    requires
        !before.loading,
        before.form@.contains_key(id),
        is_choice(before.form@[id], group, false, was),
        before.form@.contains_key(other),
        other != id,
        activated(before, id, now, after, action),
        activated(after, id, now, again, then),
    ensures
        is_choice(after.form@[id], group, false, !was),
        after.form@[other] == before.form@[other],
        again.form@[id] == before.form@[id],
        again.form@[other] == before.form@[other],
{
    assert(after.form@.contains_key(id));
    assert(after.form@.contains_key(other));
    assert(again.form@.contains_key(id));
    assert(again.form@.contains_key(other));
}

/// While a page is loading, and where there is no control, nothing happens; nor does
/// it on a field of input.
pub proof fn law_nothing_is_acted_on_while_loading(
    before: Session,
    id: Seq<char>,
    now: u64,
    after: Session,
    action: Activation,
)
    requires
        before.loading || !before.form@.contains_key(id) || before.form@[id] is Input,
        activated(before, id, now, after, action),
    ensures
        action is Nothing,
        after == before,
{
}

/// A link is what its target says: an address for messages, in capitals or not, a
/// place on the page, a part of it, or another page.
#[verifier::rlimit(50)]
pub proof fn law_links_are_what_they_say(name: Seq<char>, target: Seq<char>)
    ensures
        link_kind(seq!['l', 'x', 'm', 'f', '@'] + name) == LinkKind::Message(name),
        link_kind(seq!['L', 'X', 'M', 'F', '@'] + name) == LinkKind::Message(name),
        link_kind(seq!['#']) == LinkKind::NextHeading,
        name.len() > 0 ==> link_kind(seq!['#'] + name) == LinkKind::Anchor(name),
        link_kind(seq!['p', ':'] + name) == LinkKind::Part(name),
        target.len() > 0 && target[0] != 'l' && target[0] != 'L' && target[0] != '#' && target[0]
            != 'p' ==> link_kind(target) == LinkKind::Page,
{
    reveal_strlit("lxmf@");
    reveal_strlit("p:");
    let small = seq!['l', 'x', 'm', 'f', '@'] + name;
    let large = seq!['L', 'X', 'M', 'F', '@'] + name;
    lemma_capitals();
    assert(lower(small).take(5) =~= "lxmf@"@);
    assert(lower(large).take(5) =~= "lxmf@"@);
    assert(small.skip(5) =~= name);
    assert(large.skip(5) =~= name);
    let anchor = seq!['#'] + name;
    assert(anchor[0] == '#');
    assert(anchor.skip(1) =~= name);
    let part = seq!['p', ':'] + name;
    assert(part[0] == 'p');
    assert(part.take(2) =~= "p:"@);
    assert(part.skip(2) =~= name);
    lemma_not_message(seq!['#']);
    lemma_not_message(anchor);
    lemma_not_message(part);
    if target.len() > 0 && target[0] != 'l' && target[0] != 'L' {
        lemma_not_message(target);
        if target.len() >= 2 {
            assert(target.take(2)[0] == target[0]);
        }
    }
}

proof fn lemma_capitals()
    ensures
        lower_char('L') == 'l',
        lower_char('X') == 'x',
        lower_char('M') == 'm',
        lower_char('F') == 'f',
        lower_char('@') == '@',
{
    assert(((76u32 + 32) as u32) as char == 'l');
    assert(((88u32 + 32) as u32) as char == 'x');
    assert(((77u32 + 32) as u32) as char == 'm');
    assert(((70u32 + 32) as u32) as char == 'f');
}

proof fn lemma_not_message(target: Seq<char>)
    requires
        target.len() > 0,
        target[0] != 'l',
        target[0] != 'L',
    ensures
        !starts_with(lower(target), "lxmf@"@),
{
    reveal_strlit("lxmf@");
    if target.len() >= 5 {
        assert(lower(target).take(5)[0] == lower_char(target[0]));
        lemma_only_l(target[0]);
    }
}

proof fn lemma_only_l(c: char)
    ensures
        lower_char(c) == 'l' ==> c == 'l' || c == 'L',
{
    if 'A' <= c <= 'Z' {
        assert(((c as u32 + 32) as u32) as char == 'l' ==> c as u32 == 76);
    }
}

/// A link to an address for messages opens the conversation with it, and one to an
/// anchor moves the page to it; a wrong address and a missing anchor only say so.
pub proof fn law_links_within_the_page(
    before: Session,
    name: Seq<char>,
    fields: Seq<Seq<char>>,
    now: u64,
    after: Session,
    action: Activation,
)
    requires
        name.len() > 0,
    ensures
        link_followed(
            before,
            seq!['l', 'x', 'm', 'f', '@'] + name,
            fields,
            now,
            after,
            action,
        ) && is_hash_text(name) ==> after == before && action is Converse && action->Converse_0@
            == lower(name),
        link_followed(
            before,
            seq!['l', 'x', 'm', 'f', '@'] + name,
            fields,
            now,
            after,
            action,
        ) && !is_hash_text(name) ==> action is Nothing && after == (Session {
            status: after.status,
            ..before
        }),
        link_followed(before, seq!['#'] + name, fields, now, after, action)
            && before.layout.anchors@.contains_key(name) ==> action is Nothing && after.top
            == before.layout.anchors@[name] && after == (Session { top: after.top, ..before }),
        link_followed(before, seq!['#'] + name, fields, now, after, action)
            && !before.layout.anchors@.contains_key(name) ==> action is Nothing && after == (
        Session { status: after.status, ..before }),
{
    law_links_are_what_they_say(name, Seq::empty());
}

/// The next heading is the first one below the top of the screen.
pub proof fn law_the_next_heading_is_below(rows: Seq<usize>, top: usize, i: int)
    requires
        0 <= i < rows.len(),
        rows[i] > top,
        forall|j: int| 0 <= j < i ==> rows[j] <= top,
    ensures
        first_below(rows, top) == Some(rows[i]),
    decreases rows.len(),
{
    if i > 0 {
        assert(rows[0] <= top);
        assert(rows.drop_first()[i - 1] == rows[i]);
        assert forall|j: int| 0 <= j < i - 1 implies rows.drop_first()[j] <= top by {
            assert(rows.drop_first()[j] == rows[j + 1]);
        }
        law_the_next_heading_is_below(rows.drop_first(), top, i - 1);
    }
}

/// The page moves by a row, by a screen less one row, by three rows of the wheel and by
/// four columns; up and down undo each other, and the ends lead there.
pub proof fn law_moves_undo_each_other(top: int, left: int, rows: int, height: int)
    requires
        0 <= top <= 1000000,
        0 <= left <= 1000000,
        1 <= height <= rows <= 1000000,
    ensures
        moved(top, left, rows, height, PageMove::Down) == (top + 1, left),
        moved(top + 1, left, rows, height, PageMove::Up) == (top, left),
        moved(top, left, rows, height, PageMove::PageDown) == (top + height - 1, left),
        moved(top + height - 1, left, rows, height, PageMove::PageUp) == (top, left),
        moved(top, left, rows, height, PageMove::WheelDown) == (top + 3, left),
        moved(top + 3, left, rows, height, PageMove::WheelUp) == (top, left),
        moved(top, left, rows, height, PageMove::Right) == (top, left + 4),
        moved(top, left + 4, rows, height, PageMove::Left) == (top, left),
        moved(top, left, rows, height, PageMove::Home) == (0int, 0int),
        moved(top, left, rows, height, PageMove::End) == (rows - height, left),
        moved(0, 0, rows, height, PageMove::Up) == (0int, 0int),
        moved(0, 0, rows, height, PageMove::Left) == (0int, 0int),
{
    assert(usize::MAX >= 4294967295);
}

/// The focus goes from one control to the next and round again, and backwards the same
/// way; from nowhere it goes to the first, or the last.
pub proof fn law_the_focus_goes_round(i: int, count: int)
    requires
        0 <= i < count,
    ensures
        i + 1 < count ==> next_place(Some(i), count, false) == i + 1,
        next_place(Some(count - 1), count, false) == 0,
        next_place(Some(next_place(Some(i), count, false)), count, true) == i,
        next_place(Some(next_place(Some(i), count, true)), count, false) == i,
        next_place(None, count, false) == 0,
        next_place(None, count, true) == count - 1,
{
}

/// What is clicked is the control whose columns hold the place.
pub proof fn law_clicks_hit_what_is_there(
    before: Seq<(Option<String>, usize)>,
    id: Option<String>,
    width: usize,
    after: Seq<(Option<String>, usize)>,
    column: int,
    start: int,
)
    requires
        start == total_width(before),
        start <= column < start + width,
    ensures
        control_under(before + seq![(id, width)] + after, column) == text_view(id),
    decreases before.len(),
{
    let row = before + seq![(id, width)] + after;
    if before.len() == 0 {
        assert(row[0] == (id, width));
    } else {
        assert(row[0] == before[0]);
        lemma_width_is_positive(before.drop_first());
        assert(row.drop_first() =~= before.drop_first() + seq![(id, width)] + after);
        law_clicks_hit_what_is_there(
            before.drop_first(),
            id,
            width,
            after,
            column - before[0].1,
            start - before[0].1,
        );
    }
}

/// How many columns pieces of a row take.
pub open spec fn total_width(row: Seq<(Option<String>, usize)>) -> int
    decreases row.len(),
{
    if row.len() == 0 {
        0
    } else {
        row[0].1 + total_width(row.drop_first())
    }
}

proof fn lemma_width_is_positive(row: Seq<(Option<String>, usize)>)
    ensures
        total_width(row) >= 0,
    decreases row.len(),
{
    if row.len() > 0 {
        lemma_width_is_positive(row.drop_first());
    }
}

/// The keys of the browser: back and forward with the arrows, held with Alt, stop with
/// Escape, reload and address with Control and their letters. The arrows and letters
/// alone do nothing.
pub proof fn law_browser_keys(ctrl: bool, alt: bool, letter: char)
    ensures
        browser_command_of(WindowKey::Left, ctrl, true) == Some(BrowserCommand::Back),
        browser_command_of(WindowKey::Right, ctrl, true) == Some(BrowserCommand::Forward),
        browser_command_of(WindowKey::Left, ctrl, false).is_none(),
        browser_command_of(WindowKey::Right, ctrl, false).is_none(),
        browser_command_of(WindowKey::Escape, ctrl, alt) == Some(BrowserCommand::Stop),
        browser_command_of(WindowKey::Letter('r'), true, alt) == Some(BrowserCommand::Reload),
        browser_command_of(WindowKey::Letter('l'), true, alt) == Some(BrowserCommand::Address),
        browser_command_of(WindowKey::Letter(letter), false, alt).is_none(),
        letter != 'r' && letter != 'l' ==> browser_command_of(
            WindowKey::Letter(letter),
            true,
            alt,
        ).is_none(),
        browser_command_of(WindowKey::Other, ctrl, alt).is_none(),
{
}

/// The keys of a page: the arrows left and right go back and forward in the history,
/// and with Shift they move the page; Enter and Space act on the focus; what is no key
/// of a page is left to others.
pub proof fn law_page_keys(
    before: Session,
    shift: bool,
    rows: Seq<Vec<(Option<String>, usize)>>,
    height: usize,
    now: u64,
    after: Session,
    outcome: PageOutcome,
)
    ensures
        key_done(before, PageKey::Left, false, rows, height, now, after, outcome) ==> went(
            before,
            false,
            after,
            outcome,
        ),
        key_done(before, PageKey::Right, false, rows, height, now, after, outcome) ==> went(
            before,
            true,
            after,
            outcome,
        ),
        key_done(before, PageKey::Left, true, rows, height, now, after, outcome) ==> scrolled(
            before,
            PageMove::Left,
            height,
            after,
        ),
        key_done(before, PageKey::Right, true, rows, height, now, after, outcome) ==> scrolled(
            before,
            PageMove::Right,
            height,
            after,
        ),
        key_done(before, PageKey::Enter, shift, rows, height, now, after, outcome) ==> acted_on(
            before,
            text_view(before.focus),
            now,
            after,
            outcome,
        ),
        key_done(before, PageKey::Space, shift, rows, height, now, after, outcome) ==> acted_on(
            before,
            text_view(before.focus),
            now,
            after,
            outcome,
        ),
        key_done(before, PageKey::Other, shift, rows, height, now, after, outcome) ==> outcome
            is Ignored && after == before,
        key_done(before, PageKey::Down, shift, rows, height, now, after, outcome)
            && before.top < 1000000 ==> after.top == before.top + 1 && after.left == before.left,
        key_done(before, PageKey::Up, shift, rows, height, now, after, outcome) && before.top > 0
            ==> after.top == before.top - 1 && after.left == before.left,
        key_done(before, PageKey::Home, shift, rows, height, now, after, outcome) ==> after.top
            == 0 && after.left == 0,
{
    assert(usize::MAX >= 4294967295);
}

/// Going back asks for the page before, and where there is none nothing happens.
pub proof fn law_going_back(
    before: Session,
    forward: bool,
    after: Session,
    outcome: PageOutcome,
)
    requires
        went(before, forward, after, outcome),
    ensures
        outcome is Asked || outcome is Handled,
        before.step(forward).is_none() ==> outcome is Handled && after == before,
        outcome is Asked ==> after.loading && after.history == before.history,
{
}

/// The tab key moves the focus to the next control and changes nothing else but what is
/// seen of the page.
pub proof fn law_tabs_move_the_focus(
    before: Session,
    rows: Seq<Vec<(Option<String>, usize)>>,
    height: usize,
    after: Session,
)
    requires
        before.layout.controls@.len() > 0,
        before.focus.is_none(),
    ensures
        tabbed(before, false, rows, height, after) ==> text_view(after.focus) == Some(
            before.layout.controls@[0]@,
        ),
        tabbed(before, true, rows, height, after) ==> text_view(after.focus) == Some(
            before.layout.controls@[before.layout.controls@.len() - 1]@,
        ),
        tabbed(before, false, rows, height, after) ==> after.form == before.form && after.page
            == before.page && after.left == before.left,
{
}

/// The wheel moves the page the way it is turned.
pub proof fn law_wheels_move_the_page()
    ensures
        wheel_move(Wheel::Up) == Some(PageMove::WheelUp),
        wheel_move(Wheel::Down) == Some(PageMove::WheelDown),
        wheel_move(Wheel::Left) == Some(PageMove::Left),
        wheel_move(Wheel::Right) == Some(PageMove::Right),
        wheel_move(Wheel::Still).is_none(),
{
}

/// A press on the bar at the side moves the page to that part of it, no further than
/// its end, and acts on nothing.
pub proof fn law_the_bar_moves_the_page(
    before: Session,
    row: int,
    rows: Seq<Vec<(Option<String>, usize)>>,
    frame: PageFrame,
    now: u64,
    after: Session,
    outcome: PageOutcome,
)
    requires
        frame.height > 0,
        press_done(before, frame.columns - 1, row, rows, frame, now, after, outcome),
    ensures
        outcome is Handled,
        after == (Session { top: after.top, ..before }),
        row <= 0 ==> bar_place(row, rows.len() as int, frame.height as int) == 0,
        rows.len() <= frame.height ==> bar_place(row, rows.len() as int, frame.height as int) <= 0,
{
    let height = frame.height as int;
    assert(0int * (rows.len() as int) == 0);
    assert(0int / height == 0) by (nonlinear_arith)
        requires
            height > 0,
    ;
    if row > 0 {
        let n = rows.len() as int;
        assert((row * n) / height >= 0) by (nonlinear_arith)
            requires
                row > 0,
                n >= 0,
                height > 0,
        ;
    }
}

/// The page never goes past its end, and stays where it is while it does not.
pub proof fn law_pages_end_at_their_end(place: int, whole: int, shown: int)
    requires
        0 <= place,
        0 <= shown <= whole,
    ensures
        place <= whole - shown ==> held_at(place, whole, shown) == place,
        place > whole - shown ==> held_at(place, whole, shown) == whole - shown,
{
}

/// A control that gets the focus is seen: the page moves to it only where it has to.
pub proof fn law_focused_controls_are_seen(row: int, top: int, height: int)
    requires
        height > 0,
    ensures
        top <= row < top + height ==> top_for(row, top, height) == top,
        row < top || row >= top + height ==> top_for(row, top, height) == row,
        top_for(row, top, height) <= row < top_for(row, top, height) + height,
{
}

/// A press on a control gives it the focus and acts on it; one beside all controls takes
/// the focus away, and one below the page does nothing.
pub proof fn law_presses_act_on_what_they_hit(
    before: Session,
    column: int,
    row: int,
    rows: Seq<Vec<(Option<String>, usize)>>,
    frame: PageFrame,
    now: u64,
    after: Session,
    outcome: PageOutcome,
)
    requires
        0 <= row,
        0 <= column < frame.columns - 1,
        press_done(before, column, row, rows, frame, now, after, outcome),
    ensures
        before.top + row >= rows.len() ==> outcome is Handled && after == before,
        before.top + row < rows.len() && control_under(
            rows[before.top + row]@,
            column + before.left,
        ).is_none() ==> outcome is Handled && after.focus.is_none() && after.form == before.form,
        before.top + row < rows.len() && control_under(
            rows[before.top + row]@,
            column + before.left,
        ).is_some() ==> outcome is Acted,
{
}

/// The wheel moves the page that has the focus, three rows at a time, and no other.
pub proof fn law_wheels_move_the_focused_page(
    before: Session,
    rows: Seq<Vec<(Option<String>, usize)>>,
    frame: PageFrame,
    now: u64,
    after: Session,
    outcome: PageOutcome,
)
    requires
        before.top < 1000000,
    ensures
        event_done(before, PageEvent::Wheel(Wheel::Down), rows, frame, now, after, outcome)
            && frame.focused ==> after.top == before.top + 3 && after.left == before.left,
        event_done(before, PageEvent::Wheel(Wheel::Up), rows, frame, now, after, outcome)
            && frame.focused && before.top >= 3 ==> after.top == before.top - 3,
        event_done(before, PageEvent::Wheel(Wheel::Down), rows, frame, now, after, outcome)
            && !frame.focused ==> outcome is Ignored && after == before,
        event_done(before, PageEvent::Other, rows, frame, now, after, outcome) ==> outcome
            is Ignored && after == before,
{
    assert(usize::MAX >= 4294967295);
}

} // verus!
