//! The fields of a page's forms: what is sent of them, and how they are edited.
use vstd::prelude::*;
use vstd::slice::*;
use vstd::string::*;
use vstd::utf8::encode_utf8;

use crate::browser::text_views;
use crate::table::TextMap;
use crate::text::{
    byte_len, chars_of, control_char, find_char, find_in, is_control_char, lemma_find_char,
    lemma_utf8_is_not_shorter, string_of,
};
use crate::ui::browser::{Control, Session};
use crate::ui::glyphs::{all_joined, graphemes_in, graphemes_of, lemma_parts_are_few};
use crate::ui::lines::labelled;
use crate::ui::state::{find_text, lemma_place_of};

verus! {

/// The values of a table, as the characters that they hold.
pub open spec fn value_views(values: Map<Seq<char>, String>) -> Map<Seq<char>, Seq<char>> {
    values.map_values(|value: String| value@)
}

pub proof fn lemma_value_views_insert(values: Map<Seq<char>, String>, key: Seq<char>, value: String)
    ensures
        value_views(values.insert(key, value)) == value_views(values).insert(key, value@),
{
    assert(value_views(values.insert(key, value)) =~= value_views(values).insert(key, value@));
}

/// The variables among the names of a link: those with a value behind an equals
/// sign.
pub open spec fn assigned(names: Seq<Seq<char>>) -> Map<Seq<char>, Seq<char>>
    decreases names.len(),
{
    if names.len() == 0 {
        Map::empty()
    } else {
        let before = assigned(names.drop_last());
        let n = find_char(names.last(), '=') as int;
        if 0 < n < names.last().len() {
            before.insert("var_"@ + names.last().take(n), names.last().skip(n + 1))
        } else {
            before
        }
    }
}

/// Whether a link sends a field: by its name, or all of them.
pub open spec fn is_wanted(names: Seq<Seq<char>>, name: Seq<char>) -> bool {
    names.contains("*"@) || names.contains(name)
}

/// What a control adds to what is sent: the key, the value, and whether it goes
/// behind a value that is there already.
pub open spec fn contribution(control: Control, names: Seq<Seq<char>>) -> Option<
    (Seq<char>, Seq<char>, bool),
> {
    match control {
        Control::Input { name, value, .. } => if is_wanted(names, name@) {
            Some(("field_"@ + name@, value@, false))
        } else {
            None
        },
        Control::Choice { name, value, checked, .. } => if checked && is_wanted(names, name@) {
            Some(("field_"@ + name@, value@, true))
        } else {
            None
        },
        Control::Link { .. } => None,
    }
}

pub open spec fn contributed(
    before: Map<Seq<char>, Seq<char>>,
    addition: Option<(Seq<char>, Seq<char>, bool)>,
) -> Map<Seq<char>, Seq<char>> {
    match addition {
        None => before,
        Some((key, value, appends)) => if !before.contains_key(key) {
            before.insert(key, value)
        } else if appends {
            before.insert(key, before[key].push(',') + value)
        } else {
            before
        },
    }
}

/// What is sent once the controls of some places have added theirs.
pub open spec fn gathered(
    names: Seq<Seq<char>>,
    controls: Seq<Seq<char>>,
    form: Map<Seq<char>, Control>,
) -> Map<Seq<char>, Seq<char>>
    decreases controls.len(),
{
    if controls.len() == 0 {
        assigned(names)
    } else {
        let before = gathered(names, controls.drop_last(), form);
        if form.contains_key(controls.last()) {
            contributed(before, contribution(form[controls.last()], names))
        } else {
            before
        }
    }
}

fn wanted(names: &Vec<String>, name: &str) -> (r: bool)
    ensures
        r == is_wanted(text_views(names@), name@),
{
    proof {
        lemma_place_of(text_views(names@), "*"@);
        lemma_place_of(text_views(names@), name@);
    }
    find_text(names, "*") < names.len() || find_text(names, name) < names.len()
}

fn add_field(fields: &mut TextMap<String>, key: String, value: &String, appends: bool)
    requires
        old(fields).wf(),
    ensures
        final(fields).wf(),
        value_views(final(fields)@) == contributed(
            value_views(old(fields)@),
            Some((key@, value@, appends)),
        ),
{
    let ghost before = fields@;
    let found = match fields.get(key.as_str()) {
        Some(present) => Some(present.clone()),
        None => None,
    };
    match found {
        None => {
            proof {
                lemma_value_views_insert(before, key@, *value);
            }
            fields.insert(key, value.clone());
        },
        Some(present) => {
            if appends {
                let mut longer = present;
                longer.push(',');
                longer.append(value.as_str());
                proof {
                    lemma_value_views_insert(before, key@, longer);
                }
                fields.insert(key, longer);
            }
        },
    }
}

fn assigned_fields(names: &Vec<String>) -> (r: TextMap<String>)
    ensures
        r.wf(),
        value_views(r@) == assigned(text_views(names@)),
{
    let mut fields: TextMap<String> = TextMap::new();
    let ghost all = text_views(names@);
    assert(value_views(fields@) =~= assigned(all.take(0)));
    for i in 0..names.len()
        invariant
            all == text_views(names@),
            fields.wf(),
            value_views(fields@) == assigned(all.take(i as int)),
    {
        let assignment = chars_of(names[i].as_str());
        proof {
            assert(all.take(i + 1).drop_last() =~= all.take(i as int));
            assert(all.take(i + 1).last() == assignment@);
            lemma_find_char(assignment@, '=');
        }
        let n: usize = find_in(&assignment, '=');
        if 0 < n && n < assignment.len() {
            let name_chars = slice_subrange(&assignment, 0, n);
            let value_chars = slice_subrange(&assignment, n + 1, assignment.len());
            assert(name_chars@ =~= assignment@.take(n as int));
            assert(value_chars@ =~= assignment@.skip(n + 1));
            let name = string_of(name_chars);
            let key = labelled("var_", name.as_str());
            let value = string_of(value_chars);
            proof {
                lemma_value_views_insert(fields@, key@, value);
            }
            fields.insert(key, value);
        }
    }
    assert(all.take(names@.len() as int) =~= all);
    fields
}

impl Session {
    /// What a link with these names sends.
    pub open spec fn sent_fields(&self, names: Seq<Seq<char>>) -> Map<Seq<char>, Seq<char>> {
        gathered(names, text_views(self.layout.controls@), self.form@)
    }

    pub fn fields(&self, names: &Vec<String>) -> (r: TextMap<String>)
        requires
            self.wf(),
        ensures
            r.wf(),
            value_views(r@) == self.sent_fields(text_views(names@)),
    {
        let mut fields = assigned_fields(names);
        let ghost ids = text_views(self.layout.controls@);
        let ghost wanted_names = text_views(names@);
        assert(ids.take(0) =~= Seq::empty());
        for i in 0..self.layout.controls.len()
            invariant
                self.wf(),
                fields.wf(),
                ids == text_views(self.layout.controls@),
                wanted_names == text_views(names@),
                value_views(fields@) == gathered(wanted_names, ids.take(i as int), self.form@),
        {
            proof {
                assert(ids.take(i + 1).drop_last() =~= ids.take(i as int));
                assert(ids.take(i + 1).last() == self.layout.controls@[i as int]@);
            }
            if let Some(control) = self.form.get(self.layout.controls[i].as_str()) {
                match control {
                    Control::Input { name, value, .. } => {
                        if wanted(names, name.as_str()) {
                            add_field(
                                &mut fields,
                                labelled("field_", name.as_str()),
                                value,
                                false,
                            );
                        }
                    },
                    Control::Choice { name, value, checked, .. } => {
                        if *checked && wanted(names, name.as_str()) {
                            add_field(
                                &mut fields,
                                labelled("field_", name.as_str()),
                                value,
                                true,
                            );
                        }
                    },
                    Control::Link { .. } => {},
                }
            }
        }
        assert(ids.take(self.layout.controls@.len() as int) =~= ids);
        fields
    }
}

/// What the keys do to the field that is edited.
#[derive(Debug)]
pub enum Edit {
    Insert(String),
    Backspace,
    Delete,
    Left,
    Right,
    Home,
    End,
    /// A key that a field does not take.
    Other,
}

pub const MAX_FIELD_BYTES: usize = 16384;

/// The clusters of a field and the place of the cursor among them after an edit.
/// `added` are the clusters of what is to go in, where there is room for it.
pub open spec fn edited(
    parts: Seq<Seq<char>>,
    cursor: int,
    edit: Edit,
    added: Option<Seq<Seq<char>>>,
) -> (Seq<Seq<char>>, int) {
    match edit {
        Edit::Insert(_) => match added {
            Some(added) => (parts.take(cursor) + added + parts.skip(cursor), cursor + added.len()),
            None => (parts, cursor),
        },
        Edit::Backspace => if cursor > 0 {
            (parts.remove(cursor - 1), cursor - 1)
        } else {
            (parts, cursor)
        },
        Edit::Delete => if cursor < parts.len() {
            (parts.remove(cursor), cursor)
        } else {
            (parts, cursor)
        },
        Edit::Left => (parts, if cursor > 0 {
            cursor - 1
        } else {
            0
        }),
        Edit::Right => (parts, if cursor < parts.len() {
            cursor + 1
        } else {
            parts.len() as int
        }),
        Edit::Home => (parts, 0),
        Edit::End => (parts, parts.len() as int),
        Edit::Other => (parts, cursor),
    }
}

pub open spec fn added_views(added: Option<Vec<String>>) -> Option<Seq<Seq<char>>> {
    match added {
        Some(added) => Some(text_views(added@)),
        None => None,
    }
}

/// Edits the clusters of a field.
pub fn edit_parts(parts: Vec<String>, cursor: usize, edit: &Edit, added: Option<Vec<String>>) -> (r:
    (Vec<String>, usize))
    requires
        cursor <= parts@.len(),
        added.is_some() ==> parts@.len() + added.unwrap()@.len() <= usize::MAX,
    ensures
        (text_views(r.0@), r.1 as int) == edited(
            text_views(parts@),
            cursor as int,
            *edit,
            added_views(added),
        ),
        r.1 <= r.0@.len(),
{
    let ghost before = text_views(parts@);
    let mut parts = parts;
    match edit {
        Edit::Insert(_) => {
            match added {
                Some(added) => {
                    let count: usize = added.len();
                    let ghost inserted = text_views(added@);
                    let mut tail = parts.split_off(cursor);
                    let mut middle = added;
                    parts.append(&mut middle);
                    parts.append(&mut tail);
                    assert(text_views(parts@) =~= before.take(cursor as int) + inserted
                        + before.skip(cursor as int));
                    (parts, cursor + count)
                },
                None => (parts, cursor),
            }
        },
        Edit::Backspace => {
            if cursor > 0 {
                let _ = parts.remove(cursor - 1);
                assert(text_views(parts@) =~= before.remove(cursor - 1));
                (parts, cursor - 1)
            } else {
                (parts, cursor)
            }
        },
        Edit::Delete => {
            if cursor < parts.len() {
                let _ = parts.remove(cursor);
                assert(text_views(parts@) =~= before.remove(cursor as int));
            }
            (parts, cursor)
        },
        Edit::Left => if cursor > 0 {
            (parts, cursor - 1)
        } else {
            (parts, 0)
        },
        Edit::Right => if cursor < parts.len() {
            (parts, cursor + 1)
        } else {
            let end: usize = parts.len();
            (parts, end)
        },
        Edit::Home => (parts, 0),
        Edit::End => {
            let end: usize = parts.len();
            (parts, end)
        },
        Edit::Other => (parts, cursor),
    }
}

pub open spec fn without_controls(s: Seq<char>) -> Seq<char> {
    s.filter(|c: char| !is_control_char(c))
}

fn strip_controls(s: &str) -> (r: String)
    ensures
        r@ == without_controls(s@),
{
    let all = chars_of(s);
    let mut kept: Vec<char> = Vec::new();
    let ghost p = |c: char| !is_control_char(c);
    for i in 0..all.len()
        invariant
            p == (|c: char| !is_control_char(c)),
            kept@ == all@.take(i as int).filter(p),
    {
        proof {
            assert(all@.take(i + 1).drop_last() =~= all@.take(i as int));
            reveal(Seq::filter);
        }
        if !control_char(all[i]) {
            kept.push(all[i]);
        }
    }
    assert(all@.take(all@.len() as int) =~= all@);
    string_of(&kept)
}

/// The clusters that an edit puts in: those of the text without its control
/// characters, where the field does not grow past its limit.
pub open spec fn insertion(value: Seq<char>, edit: Edit) -> Option<Seq<Seq<char>>> {
    match edit {
        Edit::Insert(text) => {
            let clean = without_controls(text@);
            if encode_utf8(value).len() + encode_utf8(clean).len() <= MAX_FIELD_BYTES {
                Some(graphemes_in(clean))
            } else {
                None
            }
        },
        _ => None,
    }
}

pub open spec fn held_cursor(cursor: int, parts: Seq<Seq<char>>) -> int {
    if cursor < parts.len() {
        cursor
    } else {
        parts.len() as int
    }
}

/// A field after an edit.
pub open spec fn edited_input(before: Control, edit: Edit, after: Control) -> bool {
    match before {
        Control::Input { name, value, cursor } => {
            let parts = graphemes_in(value@);
            let result = edited(
                parts,
                held_cursor(cursor as int, parts),
                edit,
                insertion(value@, edit),
            );
            match after {
                Control::Input { name: same, value: text, cursor: place } => {
                    &&& same == name
                    &&& place == result.1
                    &&& text@ == if edit is Other {
                        value@
                    } else {
                        all_joined(result.0)
                    }
                },
                _ => false,
            }
        },
        _ => false,
    }
}

/// What an edit does to the field that has the focus. A key that the field does not
/// take only holds the cursor within it.
pub open spec fn form_edited(before: Session, edit: Edit, after: Session) -> bool {
    match before.focused_input() {
        None => after == before,
        Some(id) => {
            &&& after.form@.contains_key(id)
            &&& after.form@ == before.form@.insert(id, after.form@[id])
            &&& edited_input(before.form@[id], edit, after.form@[id])
            &&& after == (Session {
                form: after.form,
                dirty: before.dirty || !(edit is Other),
                ..before
            })
        },
    }
}

impl Session {
    /// The field that has the focus.
    pub open spec fn focused_input(&self) -> Option<Seq<char>> {
        match self.focus {
            Some(id) => if self.form@.contains_key(id@) && self.form@[id@] is Input {
                Some(id@)
            } else {
                None
            },
            None => None,
        }
    }

    /// Edits the field that has the focus. Says whether it took the edit.
    pub fn edit(&mut self, edit: &Edit) -> (r: bool)
        requires
            old(self).wf(),
        ensures
            final(self).wf(),
            r == (old(self).focused_input().is_some() && !(edit is Other)),
            form_edited(*old(self), *edit, *final(self)),
    {
        let id = match &self.focus {
            Some(id) => id.clone(),
            None => {
                return false;
            },
        };
        let is_input = match self.form.get(id.as_str()) {
            Some(Control::Input { .. }) => true,
            _ => false,
        };
        if !is_input {
            return false;
        }
        let ghost before = self.form@;
        let taken = self.form.remove(id.as_str());
        match taken {
            Some(Control::Input { name, value, cursor }) => {
                let parts = graphemes_of(value.as_str());
                let place: usize = if cursor < parts.len() {
                    cursor
                } else {
                    parts.len()
                };
                match edit {
                    Edit::Other => {
                        let control = Control::Input { name, value, cursor: place };
                        self.form.insert(id, control);
                        assert(self.form@ =~= before.insert(id@, control));
                        return false;
                    },
                    _ => {},
                }
                let added = match edit {
                    Edit::Insert(text) => {
                        let clean = strip_controls(text.as_str());
                        let held: usize = byte_len(value.as_str());
                        let more: usize = byte_len(clean.as_str());
                        if held <= MAX_FIELD_BYTES && more <= MAX_FIELD_BYTES - held {
                            Some(graphemes_of(clean.as_str()))
                        } else {
                            None
                        }
                    },
                    _ => None,
                };
                proof {
                    if added.is_some() {
                        let more = added.unwrap();
                        let clean = without_controls(edit->Insert_0@);
                        lemma_parts_are_few(text_views(parts@));
                        lemma_parts_are_few(text_views(more@));
                        lemma_utf8_is_not_shorter(value@);
                        lemma_utf8_is_not_shorter(clean);
                        assert(parts@.len() == text_views(parts@).len());
                        assert(more@.len() == text_views(more@).len());
                    }
                }
                let (new_parts, new_cursor) = edit_parts(parts, place, edit, added);
                let text = joined_parts(&new_parts);
                let control = Control::Input { name, value: text, cursor: new_cursor };
                self.form.insert(id, control);
                assert(self.form@ =~= before.insert(id@, control));
                self.dirty = true;
                true
            },
            _ => false,
        }
    }
}

fn joined_parts(parts: &Vec<String>) -> (r: String)
    ensures
        r@ == all_joined(text_views(parts@)),
{
    let mut out = String::new();
    let ghost texts = text_views(parts@);
    assert(out@ =~= all_joined(texts.take(0)));
    for i in 0..parts.len()
        invariant
            texts == text_views(parts@),
            out@ == all_joined(texts.take(i as int)),
    {
        proof {
            assert(texts.take(i + 1).drop_last() =~= texts.take(i as int));
            assert(texts.take(i + 1).last() == parts@[i as int]@);
        }
        out.append(parts[i].as_str());
    }
    assert(texts.take(parts@.len() as int) =~= texts);
    out
}

} // verus!
