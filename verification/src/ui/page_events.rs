//! What an event does to the page of a browser window.
use vstd::prelude::*;

use crate::browser::{text_view, text_views};
use crate::text::same_text;
use crate::ui::browser::{stepped, Request, Session};
use crate::ui::forms::{form_edited, Edit};
use crate::ui::pages::{
    activated, clicked, control_under, moved, next_place, Activation, PageMove,
};

verus! {

#[derive(Debug, Clone, Copy, PartialEq, Eq, Structural)]
pub enum PageKey {
    Tab,
    Enter,
    Space,
    Up,
    Down,
    PageUp,
    PageDown,
    Home,
    End,
    Left,
    Right,
    Other,
}

#[derive(Debug, Clone, Copy, PartialEq, Eq, Structural)]
pub enum Wheel {
    Up,
    Down,
    Left,
    Right,
    Still,
}

#[derive(Debug, Clone, Copy, PartialEq, Eq, Structural)]
pub enum PageEvent {
    Key { key: PageKey, shift: bool },
    Wheel(Wheel),
    /// The left button was pressed, at a place counted from the corner of the page.
    Press { column: i32, row: i32 },
    Other,
}

/// The part of the screen that a page has. The last column holds the scroll bar.
#[derive(Debug, Clone, Copy, PartialEq, Eq, Structural)]
pub struct PageFrame {
    pub columns: i32,
    pub height: usize,
    pub focused: bool,
}

/// What an event leads to.
#[derive(Debug)]
pub enum PageOutcome {
    /// The event is for others.
    Ignored,
    Handled,
    /// Ask for a page of the history.
    Asked(Request),
    /// A control was acted on.
    Acted(Activation),
}

pub open spec fn at_least_zero(n: int) -> int {
    if n > 0 {
        n
    } else {
        0
    }
}

/// Whether a part of a row belongs to a control.
pub open spec fn shows(row: Seq<(Option<String>, usize)>, id: Seq<char>) -> bool {
    exists|i: int| 0 <= i < row.len() && text_view((#[trigger] row[i]).0) == Some(id)
}

/// The first row that shows a control.
pub open spec fn row_of(rows: Seq<Vec<(Option<String>, usize)>>, id: Seq<char>) -> Option<int>
    decreases rows.len(),
{
    if rows.len() == 0 {
        None
    } else if shows(rows[0]@, id) {
        Some(0)
    } else {
        match row_of(rows.drop_first(), id) {
            Some(row) => Some(row + 1),
            None => None,
        }
    }
}

fn row_shows(row: &Vec<(Option<String>, usize)>, id: &str) -> (r: bool)
    ensures
        r == shows(row@, id@),
{
    for i in 0..row.len()
        invariant
            forall|j: int| 0 <= j < i ==> text_view((#[trigger] row@[j]).0) != Some(id@),
    {
        if let Some(control) = &row[i].0 {
            if same_text(control.as_str(), id) {
                assert(text_view(row@[i as int].0) == Some(id@));
                return true;
            }
        }
    }
    false
}

fn find_row_of(rows: &Vec<Vec<(Option<String>, usize)>>, id: &str) -> (r: Option<usize>)
    ensures
        r.is_some() == row_of(rows@, id@).is_some(),
        r.is_some() ==> r.unwrap() == row_of(rows@, id@).unwrap(),
{
    assert(rows@.skip(0) =~= rows@);
    for i in 0..rows.len()
        invariant
            row_of(rows@, id@) == match row_of(rows@.skip(i as int), id@) {
                Some(row) => Some(row + i),
                None => None::<int>,
            },
    {
        proof {
            assert(rows@.skip(i as int)[0] == rows@[i as int]);
            assert(rows@.skip(i as int).drop_first() =~= rows@.skip(i + 1));
        }
        if row_shows(&rows[i], id) {
            return Some(i);
        }
    }
    assert(rows@.skip(rows@.len() as int) =~= Seq::empty());
    None
}

/// What a move through the page does.
pub open spec fn scrolled(before: Session, step: PageMove, height: usize, after: Session) -> bool {
    let place = moved(
        before.top as int,
        before.left as int,
        before.layout.rows as int,
        height as int,
        step,
    );
    after == (Session { top: place.0 as usize, left: place.1 as usize, ..before })
}

/// What the Tab key does: the next control gets the focus, and the first row that
/// shows it comes into view.
pub open spec fn tabbed(
    before: Session,
    backwards: bool,
    rows: Seq<Vec<(Option<String>, usize)>>,
    height: usize,
    after: Session,
) -> bool {
    let count = before.layout.controls@.len() as int;
    if count == 0 {
        after == before
    } else {
        let id = text_views(before.layout.controls@)[next_place(
            before.focus_place(),
            count,
            backwards,
        )];
        &&& text_view(after.focus) == Some(id)
        &&& after == (Session {
            focus: after.focus,
            top: match row_of(rows, id) {
                Some(row) => if row < before.top || row >= before.top + height {
                    row as usize
                } else {
                    before.top
                },
                None => before.top,
            },
            ..before
        })
    }
}

/// What acting on a control, or on none, does.
pub open spec fn acted_on(
    before: Session,
    id: Option<Seq<char>>,
    now: u64,
    after: Session,
    outcome: PageOutcome,
) -> bool {
    match id {
        None => outcome is Handled && after == before,
        Some(id) => outcome matches PageOutcome::Acted(action) && activated(
            before,
            id,
            now,
            after,
            action,
        ),
    }
}

/// What a step through the history leads to.
pub open spec fn went(before: Session, forward: bool, after: Session, outcome: PageOutcome) -> bool {
    match outcome {
        PageOutcome::Asked(request) => stepped(before, forward, after, Some(request)),
        PageOutcome::Handled => stepped(before, forward, after, None),
        _ => false,
    }
}

/// What a key does.
pub open spec fn key_done(
    before: Session,
    key: PageKey,
    shift: bool,
    rows: Seq<Vec<(Option<String>, usize)>>,
    height: usize,
    now: u64,
    after: Session,
    outcome: PageOutcome,
) -> bool {
    match key {
        PageKey::Tab => outcome is Handled && tabbed(before, shift, rows, height, after),
        PageKey::Enter | PageKey::Space => acted_on(
            before,
            text_view(before.focus),
            now,
            after,
            outcome,
        ),
        PageKey::Up => outcome is Handled && scrolled(before, PageMove::Up, height, after),
        PageKey::Down => outcome is Handled && scrolled(before, PageMove::Down, height, after),
        PageKey::PageUp => outcome is Handled && scrolled(before, PageMove::PageUp, height, after),
        PageKey::PageDown => outcome is Handled && scrolled(
            before,
            PageMove::PageDown,
            height,
            after,
        ),
        PageKey::Home => outcome is Handled && scrolled(before, PageMove::Home, height, after),
        PageKey::End => outcome is Handled && scrolled(before, PageMove::End, height, after),
        PageKey::Left => if shift {
            outcome is Handled && scrolled(before, PageMove::Left, height, after)
        } else {
            went(before, false, after, outcome)
        },
        PageKey::Right => if shift {
            outcome is Handled && scrolled(before, PageMove::Right, height, after)
        } else {
            went(before, true, after, outcome)
        },
        PageKey::Other => outcome is Ignored && after == before,
    }
}

pub open spec fn wheel_move(wheel: Wheel) -> Option<PageMove> {
    match wheel {
        Wheel::Up => Some(PageMove::WheelUp),
        Wheel::Down => Some(PageMove::WheelDown),
        Wheel::Left => Some(PageMove::Left),
        Wheel::Right => Some(PageMove::Right),
        Wheel::Still => None,
    }
}

/// The first row that is shown after a press on the scroll bar.
pub open spec fn bar_place(row: int, rows: int, height: int) -> int {
    let wanted = (at_least_zero(row) * rows) / height;
    let last = at_least_zero(rows - height);
    if wanted < last {
        wanted
    } else {
        last
    }
}

/// The control under a place of the page. There is no row below the last.
pub open spec fn control_at(
    rows: Seq<Vec<(Option<String>, usize)>>,
    top: int,
    left: int,
    column: int,
    row: int,
) -> Option<Option<Seq<char>>> {
    let place = top + at_least_zero(row);
    if place < rows.len() {
        Some(control_under(rows[place]@, at_least_zero(column) + left))
    } else {
        None
    }
}

/// Whether the focus went to a control, or away, and nothing else changed.
pub open spec fn took_focus(before: Session, id: Option<Seq<char>>, after: Session) -> bool {
    text_view(after.focus) == id && after == (Session { focus: after.focus, ..before })
}

/// What a press of the mouse does: on the scroll bar it shows another part of the
/// page; elsewhere what is under it gets the focus and is acted on.
pub open spec fn press_done(
    before: Session,
    column: int,
    row: int,
    rows: Seq<Vec<(Option<String>, usize)>>,
    frame: PageFrame,
    now: u64,
    after: Session,
    outcome: PageOutcome,
) -> bool {
    if column == frame.columns - 1 {
        &&& outcome is Handled
        &&& after == (Session {
            top: bar_place(row, rows.len() as int, frame.height as int) as usize,
            ..before
        })
    } else {
        match control_at(rows, before.top as int, before.left as int, column, row) {
            None => outcome is Handled && after == before,
            Some(id) => exists|focused: Session| #[trigger]
                took_focus(before, id, focused) && acted_on(focused, id, now, after, outcome),
        }
    }
}

/// What an event does that no field took.
pub open spec fn event_done(
    before: Session,
    event: PageEvent,
    rows: Seq<Vec<(Option<String>, usize)>>,
    frame: PageFrame,
    now: u64,
    after: Session,
    outcome: PageOutcome,
) -> bool {
    match event {
        PageEvent::Key { key, shift } => key_done(
            before,
            key,
            shift,
            rows,
            frame.height,
            now,
            after,
            outcome,
        ),
        PageEvent::Wheel(wheel) => match wheel_move(wheel) {
            Some(step) => if frame.focused {
                outcome is Handled && scrolled(before, step, frame.height, after)
            } else {
                outcome is Ignored && after == before
            },
            None => outcome is Ignored && after == before,
        },
        PageEvent::Press { column, row } => press_done(
            before,
            column as int,
            row as int,
            rows,
            frame,
            now,
            after,
            outcome,
        ),
        PageEvent::Other => outcome is Ignored && after == before,
    }
}

impl Session {
    fn tab(&mut self, backwards: bool, rows: &Vec<Vec<(Option<String>, usize)>>, height: usize)
        requires
            old(self).wf(),
        ensures
            final(self).wf(),
            tabbed(*old(self), backwards, rows@, height, *final(self)),
    {
        if let Some(place) = self.next_control(backwards) {
            let id = self.layout.controls[place].clone();
            let row = find_row_of(rows, id.as_str());
            assert(text_views(self.layout.controls@)[place as int] == id@);
            self.focus_control(place, row, height);
        }
    }

    fn act(&mut self, id: &Option<String>, now: u64) -> (r: PageOutcome)
        requires
            old(self).wf(),
            old(self).generation < u64::MAX,
        ensures
            final(self).wf(),
            acted_on(*old(self), text_view(*id), now, *final(self), r),
    {
        match id {
            None => PageOutcome::Handled,
            Some(id) => PageOutcome::Acted(self.activate(id.as_str(), now)),
        }
    }

    fn go(&mut self, forward: bool) -> (r: PageOutcome)
        requires
            old(self).wf(),
            old(self).generation < u64::MAX,
        ensures
            final(self).wf(),
            went(*old(self), forward, *final(self), r),
    {
        match self.go_history(forward) {
            Some(request) => PageOutcome::Asked(request),
            None => PageOutcome::Handled,
        }
    }

    fn move_by(&mut self, step: PageMove, height: usize) -> (r: PageOutcome)
        requires
            old(self).wf(),
        ensures
            final(self).wf(),
            r is Handled,
            scrolled(*old(self), step, height, *final(self)),
    {
        self.scroll(step, height);
        PageOutcome::Handled
    }

    fn key(
        &mut self,
        key: PageKey,
        shift: bool,
        rows: &Vec<Vec<(Option<String>, usize)>>,
        height: usize,
        now: u64,
    ) -> (r: PageOutcome)
        requires
            old(self).wf(),
            old(self).generation < u64::MAX,
        ensures
            final(self).wf(),
            key_done(*old(self), key, shift, rows@, height, now, *final(self), r),
    {
        match key {
            PageKey::Tab => {
                self.tab(shift, rows, height);
                PageOutcome::Handled
            },
            PageKey::Enter | PageKey::Space => {
                let id = crate::browser::clone_text(&self.focus);
                self.act(&id, now)
            },
            PageKey::Up => self.move_by(PageMove::Up, height),
            PageKey::Down => self.move_by(PageMove::Down, height),
            PageKey::PageUp => self.move_by(PageMove::PageUp, height),
            PageKey::PageDown => self.move_by(PageMove::PageDown, height),
            PageKey::Home => self.move_by(PageMove::Home, height),
            PageKey::End => self.move_by(PageMove::End, height),
            PageKey::Left => if shift {
                self.move_by(PageMove::Left, height)
            } else {
                self.go(false)
            },
            PageKey::Right => if shift {
                self.move_by(PageMove::Right, height)
            } else {
                self.go(true)
            },
            PageKey::Other => PageOutcome::Ignored,
        }
    }

    fn press(
        &mut self,
        column: i32,
        row: i32,
        rows: &Vec<Vec<(Option<String>, usize)>>,
        frame: PageFrame,
        now: u64,
    ) -> (r: PageOutcome)
        requires
            old(self).wf(),
            old(self).generation < u64::MAX,
            frame.height > 0,
        ensures
            final(self).wf(),
            press_done(
                *old(self),
                column as int,
                row as int,
                rows@,
                frame,
                now,
                *final(self),
                r,
            ),
    {
        let down: u128 = if row > 0 {
            row as u128
        } else {
            0
        };
        if column < i32::MAX && column + 1 == frame.columns {
            let count: usize = rows.len();
            proof {
                assert(down * count <= 0x8000_0000 * 0xffff_ffff_ffff_ffff) by (nonlinear_arith)
                    requires
                        0 <= down <= 0x8000_0000,
                        0 <= count <= 0xffff_ffff_ffff_ffff,
                ;
            }
            let wanted: u128 = (down * count as u128) / frame.height as u128;
            let last: usize = if count > frame.height {
                count - frame.height
            } else {
                0
            };
            self.top = if wanted < last as u128 {
                wanted as usize
            } else {
                last
            };
            return PageOutcome::Handled;
        }
        let place: u128 = self.top as u128 + down;
        if place >= rows.len() as u128 {
            return PageOutcome::Handled;
        }
        let along: u128 = if column > 0 {
            column as u128 + self.left as u128
        } else {
            self.left as u128
        };
        let id = clicked(&rows[place as usize], along);
        let ghost before = *self;
        self.focus = crate::browser::clone_text(&id);
        assert(took_focus(before, text_view(id), *self));
        self.act(&id, now)
    }

    /// Takes an event. `edit` is the event as a field reads it, `rows` are the rows of
    /// the page, each with the widths of its parts and the controls that they belong
    /// to, and `now` is in milliseconds. A field that has the focus takes what it can.
    pub fn page_event(
        &mut self,
        event: PageEvent,
        edit: &Edit,
        rows: &Vec<Vec<(Option<String>, usize)>>,
        frame: PageFrame,
        now: u64,
    ) -> (r: PageOutcome)
        requires
            old(self).wf(),
            old(self).generation < u64::MAX,
            frame.height > 0,
        ensures
            final(self).wf(),
            old(self).focused_input().is_some() && !(edit is Other) ==> r is Handled && form_edited(
                *old(self),
                *edit,
                *final(self),
            ),
            old(self).focused_input().is_none() || edit is Other ==> exists|held: Session| #[trigger]
                form_edited(*old(self), *edit, held) && event_done(
                    held,
                    event,
                    rows@,
                    frame,
                    now,
                    *final(self),
                    r,
                ),
    {
        if self.edit(edit) {
            return PageOutcome::Handled;
        }
        let ghost held = *self;
        assert(form_edited(*old(self), *edit, held));
        match event {
            PageEvent::Key { key, shift } => self.key(key, shift, rows, frame.height, now),
            PageEvent::Wheel(wheel) => {
                let step = match wheel {
                    Wheel::Up => PageMove::WheelUp,
                    Wheel::Down => PageMove::WheelDown,
                    Wheel::Left => PageMove::Left,
                    Wheel::Right => PageMove::Right,
                    Wheel::Still => {
                        return PageOutcome::Ignored;
                    },
                };
                if frame.focused {
                    self.move_by(step, frame.height)
                } else {
                    PageOutcome::Ignored
                }
            },
            PageEvent::Press { column, row } => self.press(column, row, rows, frame, now),
            PageEvent::Other => PageOutcome::Ignored,
        }
    }
}

} // verus!
