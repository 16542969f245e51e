//! What the keys, the mouse and the links of a page do.
use vstd::prelude::*;
use vstd::slice::*;
use vstd::string::*;

use crate::browser::{text_view, text_views};
use crate::hexadecimal::{decode_hash, is_hash_text};
use crate::table::TextMap;
use crate::text::{chars_of, lower, lower_of, same_text, starts_with, string_of, strip_prefix};
use crate::ui::browser::{
    halted, navigated, stepped, Control, PageLayout, PartialBlock, Request, Session,
};
use crate::ui::lines::labelled;
use crate::ui::partials::{fragment_views, partial_run, request_views, PartialState};
use crate::ui::state::{find_text, place_of};

verus! {

/// What acting on a control leads to.
#[derive(Debug)]
pub enum Activation {
    Nothing,
    /// Open the conversation with a destination.
    Converse(String),
    /// Ask for a page.
    Follow(Request),
    /// Ask for parts of the page.
    Fill(Vec<Request>),
}

/// What a link leads to.
pub enum LinkKind {
    /// A conversation with a destination.
    Message(Seq<char>),
    /// The next heading.
    NextHeading,
    /// A named place in the page.
    Anchor(Seq<char>),
    /// Parts of the page.
    Part(Seq<char>),
    /// Another page.
    Page,
}

pub open spec fn link_kind(target: Seq<char>) -> LinkKind {
    if starts_with(lower(target), "lxmf@"@) {
        LinkKind::Message(target.skip(5))
    } else if target.len() == 1 && target[0] == '#' {
        LinkKind::NextHeading
    } else if target.len() > 0 && target[0] == '#' {
        LinkKind::Anchor(target.skip(1))
    } else if starts_with(target, "p:"@) {
        LinkKind::Part(target.skip(2))
    } else {
        LinkKind::Page
    }
}

/// The first of some rows below a row.
pub open spec fn first_below(rows: Seq<usize>, top: usize) -> Option<usize>
    decreases rows.len(),
{
    if rows.len() == 0 {
        None
    } else if rows[0] > top {
        Some(rows[0])
    } else {
        first_below(rows.drop_first(), top)
    }
}

fn next_heading(rows: &Vec<usize>, top: usize) -> (r: Option<usize>)
    ensures
        r == first_below(rows@, top),
{
    assert(rows@.skip(0) =~= rows@);
    for i in 0..rows.len()
        invariant
            first_below(rows@, top) == first_below(rows@.skip(i as int), top),
    {
        proof {
            assert(rows@.skip(i as int)[0] == rows@[i as int]);
            assert(rows@.skip(i as int).drop_first() =~= rows@.skip(i + 1));
        }
        if rows[i] > top {
            return Some(rows[i]);
        }
    }
    assert(rows@.skip(rows@.len() as int) =~= Seq::empty());
    None
}

/// A choice after another was made: one of a group excludes the others.
pub open spec fn chosen(
    key: Seq<char>,
    control: Control,
    id: Seq<char>,
    group: Option<Seq<char>>,
) -> Control {
    match control {
        Control::Choice { name, value, checked, radio } => Control::Choice {
            name,
            value,
            checked: if key == id {
                radio || !checked
            } else if radio && group == Some(name@) {
                false
            } else {
                checked
            },
            radio,
        },
        _ => control,
    }
}

/// A form after a choice was made.
pub open spec fn form_after(
    before: Map<Seq<char>, Control>,
    id: Seq<char>,
    group: Option<Seq<char>>,
    after: Map<Seq<char>, Control>,
) -> bool {
    &&& forall|k: Seq<char>| #[trigger] after.contains_key(k) <==> before.contains_key(k)
    &&& forall|k: Seq<char>| #[trigger]
        after.contains_key(k) ==> after[k] == chosen(k, before[k], id, group)
}

fn choose_control(control: Control, is_it: bool, group: &Option<String>, key: Ghost<Seq<char>>, id: Ghost<Seq<char>>) -> (r:
    Control)
    requires
        is_it == (key@ == id@),
    ensures
        r == chosen(key@, control, id@, text_view(*group)),
{
    match control {
        Control::Choice { name, value, checked, radio } => {
            let same_group = match group {
                Some(group) => same_text(group.as_str(), name.as_str()),
                None => false,
            };
            let checked = if is_it {
                radio || !checked
            } else if radio && same_group {
                false
            } else {
                checked
            };
            Control::Choice { name, value, checked, radio }
        },
        Control::Input { name, value, cursor } => Control::Input { name, value, cursor },
        Control::Link { target, fields } => Control::Link { target, fields },
    }
}

fn make_choice(form: TextMap<Control>, id: &str, group: &Option<String>) -> (r: TextMap<Control>)
    requires
        form.wf(),
    ensures
        r.wf(),
        form_after(form@, id@, text_view(*group), r@),
{
    let ghost start = form@;
    let mut rest = form;
    let mut done: TextMap<Control> = TextMap::new();
    while rest.len() > 0
        invariant
            rest.wf(),
            done.wf(),
            forall|k: Seq<char>| #[trigger]
                rest@.contains_key(k) ==> start.contains_key(k) && rest@[k] == start[k],
            forall|k: Seq<char>| #[trigger]
                done@.contains_key(k) ==> start.contains_key(k) && done@[k] == chosen(
                    k,
                    start[k],
                    id@,
                    text_view(*group),
                ),
            forall|k: Seq<char>| #[trigger]
                start.contains_key(k) ==> rest@.contains_key(k) || done@.contains_key(k),
        decreases rest.list().len(),
    {
        let ghost list = rest.list();
        let ghost before = rest@;
        let last: usize = rest.len() - 1;
        let (key, control) = rest.remove_at(last);
        proof {
            crate::table::lemma_list_map(list);
            crate::table::lemma_list_map_remove(list, last as int);
            assert(before.contains_key(list[last as int].0));
            assert(rest@ == before.remove(key@));
        }
        let is_it = same_text(key.as_str(), id);
        let after = choose_control(control, is_it, group, Ghost(key@), Ghost(id@));
        done.insert(key, after);
    }
    proof {
        assert(rest.list() =~= Seq::empty());
        assert(rest@ =~= Map::empty());
    }
    done
}

/// What acting on a link does.
pub open spec fn link_followed(
    before: Session,
    target: Seq<char>,
    fields: Seq<Seq<char>>,
    now: u64,
    after: Session,
    action: Activation,
) -> bool {
    match link_kind(target) {
        LinkKind::Message(hash) => if is_hash_text(hash) {
            (action matches Activation::Converse(peer) && peer@ == lower(hash)) && after == before
        } else {
            &&& action is Nothing
            &&& after.status@ == "Invalid LXMF address"@
            &&& after == (Session { status: after.status, ..before })
        },
        LinkKind::NextHeading => {
            &&& action is Nothing
            &&& after == (Session {
                top: match first_below(before.layout.headings@, before.top) {
                    Some(row) => row,
                    None => before.top,
                },
                ..before
            })
        },
        LinkKind::Anchor(name) => {
            &&& action is Nothing
            &&& before.layout.anchors@.contains_key(name) ==> after == (Session {
                top: before.layout.anchors@[name],
                ..before
            })
            &&& !before.layout.anchors@.contains_key(name) ==> after.status@
                == "Anchor not found: "@ + name && after == (Session {
                status: after.status,
                ..before
            })
        },
        LinkKind::Part(name) => {
            let run = partial_run(
                before.partial_context(Some(name), now),
                PartialState {
                    fragments: fragment_views(before.fragments@),
                    dirty: before.dirty,
                    requests: Seq::empty(),
                },
                before.layout.partials@,
            );
            if before.stopped {
                (action matches Activation::Fill(requests) && requests@.len() == 0) && after
                    == before
            } else {
                &&& action matches Activation::Fill(requests) && request_views(requests@)
                    == run.requests
                &&& fragment_views(after.fragments@) == run.fragments
                &&& after.dirty == run.dirty
                &&& after == (Session {
                    fragments: after.fragments,
                    dirty: after.dirty,
                    ..before
                })
            }
        },
        LinkKind::Page => match action {
            Activation::Follow(request) => navigated(
                before,
                target,
                false,
                true,
                after,
                Some(request),
            ) && request@.fields == before.sent_fields(fields),
            Activation::Nothing => navigated(before, target, false, true, after, None),
            _ => false,
        },
    }
}

/// What acting on a control does: nothing while a page is loading.
pub open spec fn activated(
    before: Session,
    id: Seq<char>,
    now: u64,
    after: Session,
    action: Activation,
) -> bool {
    if before.loading || !before.form@.contains_key(id) {
        action is Nothing && after == before
    } else {
        match before.form@[id] {
            Control::Link { target, fields } => link_followed(
                before,
                target@,
                text_views(fields@),
                now,
                after,
                action,
            ),
            Control::Choice { name, radio, .. } => {
                &&& action is Nothing
                &&& form_after(
                    before.form@,
                    id,
                    if radio {
                        Some(name@)
                    } else {
                        None
                    },
                    after.form@,
                )
                &&& after == (Session { form: after.form, dirty: true, ..before })
            },
            Control::Input { .. } => action is Nothing && after == before,
        }
    }
}

impl Session {
    /// Follows a link.
    fn follow(&mut self, target: &str, fields: &Vec<String>, now: u64) -> (r: Activation)
        requires
            old(self).wf(),
            old(self).generation < u64::MAX,
            !old(self).loading,
        ensures
            final(self).wf(),
            link_followed(*old(self), target@, text_views(fields@), now, *final(self), r),
    {
        proof {
            reveal_strlit("lxmf@");
            reveal_strlit("p:");
        }
        let letters = chars_of(target);
        let small = lower_of(&letters);
        if strip_prefix(&small, "lxmf@").is_some() {
            let tail = slice_subrange(&letters, 5, letters.len());
            assert(tail@ =~= target@.skip(5));
            let address = string_of(tail);
            if decode_hash(address.as_str()).is_some() {
                let peer = lower_of(tail);
                return Activation::Converse(string_of(&peer));
            }
            self.status = "Invalid LXMF address".to_string();
            return Activation::Nothing;
        }
        if letters.len() > 0 && letters[0] == '#' {
            if letters.len() == 1 {
                if let Some(row) = next_heading(&self.layout.headings, self.top) {
                    self.top = row;
                }
                return Activation::Nothing;
            }
            let tail = slice_subrange(&letters, 1, letters.len());
            assert(tail@ =~= target@.skip(1));
            let name = string_of(tail);
            let found = match self.layout.anchors.get(name.as_str()) {
                Some(row) => Some(*row),
                None => None,
            };
            match found {
                Some(row) => {
                    self.top = row;
                },
                None => {
                    self.status = labelled("Anchor not found: ", name.as_str());
                },
            }
            return Activation::Nothing;
        }
        if let Some(tail) = strip_prefix(&letters, "p:") {
            let name = string_of(tail);
            let requests = self.partials(&Some(name), now);
            return Activation::Fill(requests);
        }
        let sent = self.fields(fields);
        match self.navigate(target, false, sent, true) {
            Some(request) => Activation::Follow(request),
            None => Activation::Nothing,
        }
    }

    /// Acts on a control. `now` is in milliseconds.
    pub fn activate(&mut self, id: &str, now: u64) -> (r: Activation)
        requires
            old(self).wf(),
            old(self).generation < u64::MAX,
        ensures
            final(self).wf(),
            activated(*old(self), id@, now, *final(self), r),
    {
        if self.loading {
            return Activation::Nothing;
        }
        let mut link: Option<(String, Vec<String>)> = None;
        let mut choice: Option<Option<String>> = None;
        match self.form.get(id) {
            Some(control) => match control {
                Control::Link { target, fields } => {
                    link = Some((target.clone(), crate::ui::state::clone_texts(fields)));
                },
                Control::Choice { name, radio, .. } => {
                    choice = Some(
                        if *radio {
                            Some(name.clone())
                        } else {
                            None
                        },
                    );
                },
                Control::Input { .. } => {},
            },
            None => {},
        }
        if let Some((target, fields)) = link {
            return self.follow(target.as_str(), &fields, now);
        }
        if let Some(group) = choice {
            let mut form: TextMap<Control> = TextMap::new();
            std::mem::swap(&mut self.form, &mut form);
            self.form = make_choice(form, id, &group);
            self.dirty = true;
        }
        Activation::Nothing
    }

    /// Takes a new layout and the controls that are in it. What is no longer in the
    /// page is forgotten.
    pub fn set_layout(&mut self, layout: PageLayout, form: TextMap<Control>, columns: usize)
        requires
            old(self).wf(),
            layout.wf(),
            form.wf(),
        ensures
            final(self).wf(),
            forall|k: Seq<char>| #[trigger]
                final(self).form@.contains_key(k) <==> form@.contains_key(k) && text_views(
                    layout.controls@,
                ).contains(k),
            forall|k: Seq<char>| #[trigger]
                final(self).form@.contains_key(k) ==> final(self).form@[k] == form@[k],
            forall|k: Seq<char>| #[trigger]
                final(self).fragments@.contains_key(k) <==> old(self).fragments@.contains_key(k)
                    && partial_keys(layout.partials@).contains(k),
            forall|k: Seq<char>| #[trigger]
                final(self).fragments@.contains_key(k) ==> final(self).fragments@[k] == old(self).fragments@[k],
            *final(self) == (Session {
                layout,
                form: final(self).form,
                fragments: final(self).fragments,
                columns,
                dirty: false,
                ..*old(self)
            }),
    {
        let mut form = form;
        form.retain_keys(&layout.controls);
        let mut keys: Vec<String> = Vec::new();
        for i in 0..layout.partials.len()
            invariant
                keys@.len() == i,
                forall|j: int| 0 <= j < i ==> (#[trigger] keys@[j])@ == layout.partials@[j].0@,
        {
            keys.push(layout.partials[i].0.clone());
        }
        assert(text_views(keys@) =~= partial_keys(layout.partials@));
        self.fragments.retain_keys(&keys);
        self.form = form;
        self.layout = layout;
        self.columns = columns;
        self.dirty = false;
    }

    /// Whether the page is to be laid out anew.
    pub fn needs_layout(&self, columns: usize) -> (r: bool)
        ensures
            r == (self.dirty || self.columns != columns),
    {
        self.dirty || self.columns != columns
    }
}

pub open spec fn partial_keys(partials: Seq<(String, PartialBlock)>) -> Seq<Seq<char>> {
    partials.map_values(|entry: (String, PartialBlock)| entry.0@)
}

/// Keys and wheels that move through a page.
#[derive(Debug, Clone, Copy, PartialEq, Eq, Structural)]
pub enum PageMove {
    Up,
    Down,
    PageUp,
    PageDown,
    Home,
    End,
    Left,
    Right,
    WheelUp,
    WheelDown,
}

pub open spec fn minus(a: int, b: int) -> int {
    if a > b {
        a - b
    } else {
        0
    }
}

pub open spec fn plus(a: int, b: int) -> int {
    if a + b > usize::MAX {
        usize::MAX as int
    } else {
        a + b
    }
}

/// The first row and column that are shown after a move.
pub open spec fn moved(top: int, left: int, rows: int, height: int, step: PageMove) -> (int, int) {
    match step {
        PageMove::Up => (minus(top, 1), left),
        PageMove::Down => (plus(top, 1), left),
        PageMove::PageUp => (minus(top, minus(height, 1)), left),
        PageMove::PageDown => (plus(top, minus(height, 1)), left),
        PageMove::Home => (0, 0),
        PageMove::End => (minus(rows, height), left),
        PageMove::Left => (top, minus(left, 4)),
        PageMove::Right => (top, plus(left, 4)),
        PageMove::WheelUp => (minus(top, 3), left),
        PageMove::WheelDown => (plus(top, 3), left),
    }
}

fn take_from(a: usize, b: usize) -> (r: usize)
    ensures
        r == minus(a as int, b as int),
{
    if a > b {
        a - b
    } else {
        0
    }
}

fn add_to(a: usize, b: usize) -> (r: usize)
    ensures
        r == plus(a as int, b as int),
{
    if a > usize::MAX - b {
        usize::MAX
    } else {
        a + b
    }
}

/// A place that does not reach past the end of what is shown.
pub open spec fn held_at(place: int, whole: int, shown: int) -> int {
    if place > minus(whole, shown) {
        minus(whole, shown)
    } else {
        place
    }
}

/// Where the page is moved to so that a row is seen.
pub open spec fn top_for(row: int, top: int, height: int) -> int {
    if row < top || row >= top + height {
        row
    } else {
        top
    }
}

/// The next of some places, round and round.
pub open spec fn next_place(current: Option<int>, count: int, backwards: bool) -> int {
    match current {
        Some(i) => if backwards {
            if i > 0 {
                i - 1
            } else {
                count - 1
            }
        } else if i + 1 < count {
            i + 1
        } else {
            0
        },
        None => if backwards {
            count - 1
        } else {
            0
        },
    }
}

impl Session {
    /// Moves through the page. `height` is the number of rows that are shown.
    pub fn scroll(&mut self, step: PageMove, height: usize)
        ensures
            ({
                let m = moved(
                    old(self).top as int,
                    old(self).left as int,
                    old(self).layout.rows as int,
                    height as int,
                    step,
                );
                *final(self) == (Session { top: m.0 as usize, left: m.1 as usize, ..*old(self) })
            }),
    {
        match step {
            PageMove::Up => {
                self.top = take_from(self.top, 1);
            },
            PageMove::Down => {
                self.top = add_to(self.top, 1);
            },
            PageMove::PageUp => {
                self.top = take_from(self.top, take_from(height, 1));
            },
            PageMove::PageDown => {
                self.top = add_to(self.top, take_from(height, 1));
            },
            PageMove::Home => {
                self.top = 0;
                self.left = 0;
            },
            PageMove::End => {
                self.top = take_from(self.layout.rows, height);
            },
            PageMove::Left => {
                self.left = take_from(self.left, 4);
            },
            PageMove::Right => {
                self.left = add_to(self.left, 4);
            },
            PageMove::WheelUp => {
                self.top = take_from(self.top, 3);
            },
            PageMove::WheelDown => {
                self.top = add_to(self.top, 3);
            },
        }
    }

    /// Keeps what is shown within the page.
    pub fn hold(&mut self, height: usize, width: usize)
        ensures
            final(self).top == held_at(
                old(self).top as int,
                old(self).layout.rows as int,
                height as int,
            ),
            final(self).left == held_at(
                old(self).left as int,
                old(self).layout.width as int,
                width as int,
            ),
            ({
                let rows = minus(old(self).layout.rows as int, height as int);
                let columns = minus(old(self).layout.width as int, width as int);
                *final(self) == (Session {
                    top: if old(self).top > rows {
                        rows as usize
                    } else {
                        old(self).top
                    },
                    left: if old(self).left > columns {
                        columns as usize
                    } else {
                        old(self).left
                    },
                    ..*old(self)
                })
            }),
    {
        let rows: usize = take_from(self.layout.rows, height);
        let columns: usize = take_from(self.layout.width, width);
        if self.top > rows {
            self.top = rows;
        }
        if self.left > columns {
            self.left = columns;
        }
    }

    /// The place of the control that has the focus.
    pub open spec fn focus_place(&self) -> Option<int> {
        match self.focus {
            Some(id) => {
                let n = place_of(text_views(self.layout.controls@), id@);
                if n < self.layout.controls@.len() {
                    Some(n as int)
                } else {
                    None
                }
            },
            None => None,
        }
    }

    /// The place of the control that the Tab key goes to.
    pub fn next_control(&self, backwards: bool) -> (r: Option<usize>)
        ensures
            r.is_some() == (self.layout.controls@.len() > 0),
            r.is_some() ==> r.unwrap() < self.layout.controls@.len() && r.unwrap() == next_place(
                self.focus_place(),
                self.layout.controls@.len() as int,
                backwards,
            ),
    {
        let count: usize = self.layout.controls.len();
        if count == 0 {
            return None;
        }
        let current: Option<usize> = match &self.focus {
            Some(id) => {
                let n = find_text(&self.layout.controls, id.as_str());
                if n < count {
                    Some(n)
                } else {
                    None
                }
            },
            None => None,
        };
        Some(
            match current {
                Some(i) => if backwards {
                    if i > 0 {
                        i - 1
                    } else {
                        count - 1
                    }
                } else if i + 1 < count {
                    i + 1
                } else {
                    0
                },
                None => if backwards {
                    count - 1
                } else {
                    0
                },
            },
        )
    }

    /// Gives the focus to a control, and shows the row that it is in.
    pub fn focus_control(&mut self, place: usize, row: Option<usize>, height: usize)
        requires
            place < old(self).layout.controls@.len(),
        ensures
            row.is_some() ==> final(self).top == top_for(
                row.unwrap() as int,
                old(self).top as int,
                height as int,
            ),
            row.is_none() ==> final(self).top == old(self).top,
            text_view(final(self).focus) == Some(old(self).layout.controls@[place as int]@),
            *final(self) == (Session {
                focus: final(self).focus,
                top: match row {
                    Some(row) => if row < old(self).top || row >= old(self).top + height {
                        row
                    } else {
                        old(self).top
                    },
                    None => old(self).top,
                },
                ..*old(self)
            }),
    {
        if let Some(row) = row {
            if row < self.top || row - self.top >= height {
                self.top = row;
            }
        }
        self.focus = Some(self.layout.controls[place].clone());
    }

    /// The line at the foot of the window.
    pub fn status_text(&self) -> (r: String)
        requires
            self.wf(),
        ensures
            r@ == match self.focus {
                Some(id) => if !self.loading && self.form@.contains_key(id@) && self.form@[id@]
                    is Link {
                    "Enter: "@ + self.form@[id@]->target@ + " | "@ + self.status@
                } else {
                    self.status@
                },
                None => self.status@,
            },
    {
        if let Some(id) = &self.focus {
            if !self.loading {
                if let Some(Control::Link { target, .. }) = self.form.get(id.as_str()) {
                    let mut text = labelled("Enter: ", target.as_str());
                    text.append(" | ");
                    text.append(self.status.as_str());
                    return text;
                }
            }
        }
        self.status.clone()
    }
}

/// The control under a column of a row, by the widths of its clusters.
pub open spec fn control_under(row: Seq<(Option<String>, usize)>, column: int) -> Option<Seq<char>>
    decreases row.len(),
{
    if row.len() == 0 {
        None
    } else if column < row[0].1 {
        text_view(row[0].0)
    } else {
        control_under(row.drop_first(), column - row[0].1)
    }
}

/// Finds the control under a column of a row.
pub fn clicked(row: &Vec<(Option<String>, usize)>, column: u128) -> (r: Option<String>)
    ensures
        text_view(r) == control_under(row@, column as int),
{
    let mut left: u128 = column;
    let mut i: usize = 0;
    assert(row@.skip(0) =~= row@);
    while i < row.len()
        invariant
            i <= row@.len(),
            control_under(row@, column as int) == control_under(row@.skip(i as int), left as int),
        decreases row@.len() - i,
    {
        proof {
            assert(row@.skip(i as int)[0] == row@[i as int]);
            assert(row@.skip(i as int).drop_first() =~= row@.skip(i + 1));
        }
        if left < row[i].1 as u128 {
            return crate::browser::clone_text(&row[i].0);
        }
        left = left - row[i].1 as u128;
        i = i + 1;
    }
    assert(row@.skip(i as int) =~= Seq::empty());
    None
}

/// Where the mark of the scroll bar is.
pub fn thumb(top: usize, height: usize, rows: usize) -> (r: usize)
    requires
        top <= rows,
    ensures
        r == (top * height) / (if rows > 0 {
            rows as int
        } else {
            1
        }),
{
    let whole: u128 = if rows > 0 {
        rows as u128
    } else {
        1
    };
    proof {
        assert(top * height <= rows * height) by (nonlinear_arith)
            requires
                top <= rows,
        ;
        assert(top * height <= 0xffff_ffff_ffff_ffff * 0xffff_ffff_ffff_ffff) by (nonlinear_arith)
            requires
                0 <= top <= 0xffff_ffff_ffff_ffff,
                0 <= height <= 0xffff_ffff_ffff_ffff,
        ;
        assert((top * height) / (whole as int) <= height) by (nonlinear_arith)
            requires
                top <= whole,
                whole > 0,
                height >= 0,
                top >= 0,
        ;
    }
    ((top as u128 * height as u128) / whole) as usize
}

/// The commands of the browser window.
#[derive(Debug, Clone, Copy, PartialEq, Eq, Structural)]
pub enum BrowserCommand {
    Back,
    Forward,
    Reload,
    Stop,
    /// Go to the address.
    Address,
}

/// The keys that the browser window looks at.
#[derive(Debug, Clone, Copy, PartialEq, Eq, Structural)]
pub enum WindowKey {
    Left,
    Right,
    Escape,
    Letter(char),
    Other,
}

pub open spec fn browser_command_of(key: WindowKey, ctrl: bool, alt: bool) -> Option<
    BrowserCommand,
> {
    match key {
        WindowKey::Left => if alt {
            Some(BrowserCommand::Back)
        } else {
            None
        },
        WindowKey::Right => if alt {
            Some(BrowserCommand::Forward)
        } else {
            None
        },
        WindowKey::Escape => Some(BrowserCommand::Stop),
        WindowKey::Letter(letter) => if ctrl && letter == 'r' {
            Some(BrowserCommand::Reload)
        } else if ctrl && letter == 'l' {
            Some(BrowserCommand::Address)
        } else {
            None
        },
        WindowKey::Other => None,
    }
}

/// The command behind a key that the window gets.
pub fn browser_command(key: WindowKey, ctrl: bool, alt: bool) -> (r: Option<BrowserCommand>)
    ensures
        r == browser_command_of(key, ctrl, alt),
{
    match key {
        WindowKey::Left => if alt {
            Some(BrowserCommand::Back)
        } else {
            None
        },
        WindowKey::Right => if alt {
            Some(BrowserCommand::Forward)
        } else {
            None
        },
        WindowKey::Escape => Some(BrowserCommand::Stop),
        WindowKey::Letter(letter) => if ctrl && letter == 'r' {
            Some(BrowserCommand::Reload)
        } else if ctrl && letter == 'l' {
            Some(BrowserCommand::Address)
        } else {
            None
        },
        WindowKey::Other => None,
    }
}

impl Session {
    /// Carries out a command of the browser window.
    pub fn command(&mut self, command: BrowserCommand) -> (r: Option<Request>)
        requires
            old(self).wf(),
            old(self).generation < u64::MAX,
        ensures
            final(self).wf(),
            match command {
                BrowserCommand::Back => stepped(*old(self), false, *final(self), r),
                BrowserCommand::Forward => stepped(*old(self), true, *final(self), r),
                BrowserCommand::Reload => navigated(
                    *old(self),
                    old(self).url@,
                    true,
                    false,
                    *final(self),
                    r,
                ) && (r.is_some() ==> r.unwrap().fields@ == Map::<Seq<char>, String>::empty()),
                BrowserCommand::Stop => r.is_none() && halted(*old(self), *final(self)),
                BrowserCommand::Address => r.is_none() && *final(self) == *old(self),
            },
    {
        match command {
            BrowserCommand::Back => self.go_history(false),
            BrowserCommand::Forward => self.go_history(true),
            BrowserCommand::Reload => {
                let url = self.url.clone();
                self.navigate(url.as_str(), true, TextMap::new(), false)
            },
            BrowserCommand::Stop => {
                self.stop();
                None
            },
            BrowserCommand::Address => None,
        }
    }
}

} // verus!
