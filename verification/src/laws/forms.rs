//! Laws of forms: what a link sends of the fields of a page.
use vstd::prelude::*;
use vstd::utf8::encode_utf8;

use crate::browser::text_views;
use crate::text::{find_char, is_control_char, lemma_find_char, lemma_find_char_at};
use crate::ui::browser::{Control, Session};
use crate::ui::forms::{
    assigned, edited, edited_input, form_edited, gathered, insertion, without_controls, Edit,
};
use crate::ui::glyphs::{all_joined, graphemes_in};

verus! {

/// Whether a control has something to send under a name: a field of input, or a
/// choice that is ticked.
pub open spec fn has_value(control: Control, name: Seq<char>) -> bool {
    match control {
        Control::Input { name: own, .. } => own@ == name,
        Control::Choice { name: own, checked, .. } => own@ == name && checked,
        Control::Link { .. } => false,
    }
}

/// The value that a control holds.
pub open spec fn held_value(control: Control) -> Seq<char> {
    match control {
        Control::Input { value, .. } => value@,
        Control::Choice { value, .. } => value@,
        Control::Link { target, .. } => target@,
    }
}

/// The key of a field of a name.
pub open spec fn field_key(name: Seq<char>) -> Seq<char> {
    "field_"@ + name
}

/// Whether a control of the page, by its place, has something to send under a name.
pub open spec fn sends(
    controls: Seq<Seq<char>>,
    form: Map<Seq<char>, Control>,
    i: int,
    name: Seq<char>,
) -> bool {
    form.contains_key(controls[i]) && has_value(form[controls[i]], name)
}

/// Whether a link asks for a field: by its name or by a star, which stands for all.
pub open spec fn asks_for(names: Seq<Seq<char>>, name: Seq<char>) -> bool {
    exists|i: int| 0 <= i < names.len() && (#[trigger] names[i] == name || names[i] == "*"@)
}

proof fn lemma_keys(a: Seq<char>, b: Seq<char>)
    ensures
        field_key(a) == field_key(b) ==> a == b,
        field_key(a) != "var_"@ + b,
{
    reveal_strlit("field_");
    reveal_strlit("var_");
    if field_key(a) == field_key(b) {
        assert(field_key(a).skip(6) =~= a);
        assert(field_key(b).skip(6) =~= b);
    }
    assert(field_key(a)[0] == 'f');
    assert(("var_"@ + b)[0] == 'v');
}

proof fn lemma_assigned_has_no_field(names: Seq<Seq<char>>, name: Seq<char>)
    ensures
        !assigned(names).contains_key(field_key(name)),
    decreases names.len(),
{
    if names.len() > 0 {
        lemma_assigned_has_no_field(names.drop_last(), name);
        let n = find_char(names.last(), '=') as int;
        lemma_find_char(names.last(), '=');
        if 0 < n < names.last().len() {
            lemma_keys(name, names.last().take(n));
        }
    }
}

proof fn lemma_nothing_held_nothing_sent(
    names: Seq<Seq<char>>,
    controls: Seq<Seq<char>>,
    form: Map<Seq<char>, Control>,
    name: Seq<char>,
)
    requires
        asks_for(names, name) ==> forall|i: int|
            0 <= i < controls.len() ==> !#[trigger] sends(controls, form, i, name),
    ensures
        !gathered(names, controls, form).contains_key(field_key(name)),
    decreases controls.len(),
{
    if controls.len() == 0 {
        lemma_assigned_has_no_field(names, name);
    } else {
        let before = controls.drop_last();
        if asks_for(names, name) {
            assert forall|i: int| 0 <= i < before.len() implies !#[trigger] sends(
                before,
                form,
                i,
                name,
            ) by {
                assert(before[i] == controls[i]);
                assert(!sends(controls, form, i, name));
            }
        }
        lemma_nothing_held_nothing_sent(names, before, form, name);
        if form.contains_key(controls.last()) {
            let control = form[controls.last()];
            let last = controls.len() - 1;
            lemma_asked(names, name);
            assert(asks_for(names, name) ==> !sends(controls, form, last, name));
            match control {
                Control::Input { name: own, .. } => {
                    lemma_keys(name, own@);
                },
                Control::Choice { name: own, .. } => {
                    lemma_keys(name, own@);
                },
                Control::Link { .. } => {},
            }
        }
    }
}

proof fn lemma_asked(names: Seq<Seq<char>>, name: Seq<char>)
    ensures
        asks_for(names, name) <==> (names.contains("*"@) || names.contains(name)),
{
    if names.contains("*"@) {
        let i = names.index_of("*"@);
        assert(names[i] == "*"@);
    }
    if names.contains(name) {
        let i = names.index_of(name);
        assert(names[i] == name);
    }
    if asks_for(names, name) {
        let i = choose|i: int|
            0 <= i < names.len() && (#[trigger] names[i] == name || names[i] == "*"@);
        assert(names.contains(names[i]));
    }
}

/// Where no control of a name is a field of input or a ticked choice, nothing is
/// sent under that name: a checkbox or radio button that is not ticked adds nothing,
/// whatever the link asks for.
pub proof fn law_unticked_choices_send_nothing(
    session: Session,
    names: Seq<Seq<char>>,
    name: Seq<char>,
)
    requires
        forall|i: int|
            0 <= i < session.layout.controls@.len() ==> !#[trigger] sends(
                text_views(session.layout.controls@),
                session.form@,
                i,
                name,
            ),
    ensures
        !session.sent_fields(names).contains_key("field_"@ + name),
{
    lemma_nothing_held_nothing_sent(
        names,
        text_views(session.layout.controls@),
        session.form@,
        name,
    );
}

/// A field that the link does not ask for is not sent.
pub proof fn law_unasked_fields_are_not_sent(
    session: Session,
    names: Seq<Seq<char>>,
    name: Seq<char>,
)
    requires
        !asks_for(names, name),
    ensures
        !session.sent_fields(names).contains_key("field_"@ + name),
{
    lemma_nothing_held_nothing_sent(
        names,
        text_views(session.layout.controls@),
        session.form@,
        name,
    );
}

proof fn lemma_sole_value(
    names: Seq<Seq<char>>,
    controls: Seq<Seq<char>>,
    form: Map<Seq<char>, Control>,
    name: Seq<char>,
    k: int,
)
    requires
        0 <= k < controls.len(),
        asks_for(names, name),
        sends(controls, form, k, name),
        forall|i: int|
            0 <= i < controls.len() && i != k ==> !#[trigger] sends(controls, form, i, name),
    ensures
        gathered(names, controls, form).contains_key(field_key(name)),
        gathered(names, controls, form)[field_key(name)] == held_value(form[controls[k]]),
    decreases controls.len(),
{
    let before = controls.drop_last();
    let last = controls.len() - 1;
    lemma_asked(names, name);
    assert forall|i: int| 0 <= i < before.len() && i != k implies !#[trigger] sends(
        before,
        form,
        i,
        name,
    ) by {
        assert(before[i] == controls[i]);
        assert(!sends(controls, form, i, name));
    }
    if k == last {
        lemma_nothing_held_nothing_sent(names, before, form, name);
    } else {
        assert(before[k] == controls[k]);
        assert(sends(before, form, k, name));
        lemma_sole_value(names, before, form, name, k);
        assert(!sends(controls, form, last, name));
        if form.contains_key(controls.last()) {
            match form[controls.last()] {
                Control::Input { name: own, .. } => {
                    lemma_keys(name, own@);
                },
                Control::Choice { name: own, .. } => {
                    lemma_keys(name, own@);
                },
                Control::Link { .. } => {},
            }
        }
    }
}

/// A field of input, or a ticked choice, that is the only one of its name is sent
/// with the value that it holds, where the link asks for it.
pub proof fn law_fields_are_sent_with_their_value(
    session: Session,
    names: Seq<Seq<char>>,
    name: Seq<char>,
    k: int,
)
    requires
        0 <= k < session.layout.controls@.len(),
        asks_for(names, name),
        sends(text_views(session.layout.controls@), session.form@, k, name),
        forall|i: int|
            0 <= i < session.layout.controls@.len() && i != k ==> !#[trigger] sends(
                text_views(session.layout.controls@),
                session.form@,
                i,
                name,
            ),
    ensures
        session.sent_fields(names).contains_key("field_"@ + name),
        session.sent_fields(names)["field_"@ + name] == held_value(
            session.form@[session.layout.controls@[k]@],
        ),
{
    lemma_sole_value(names, text_views(session.layout.controls@), session.form@, name, k);
}

/// Choices of one name that are ticked together are sent together: another one that
/// is ticked goes behind what is there, after a comma.
pub proof fn law_ticked_choices_are_joined(
    names: Seq<Seq<char>>,
    controls: Seq<Seq<char>>,
    form: Map<Seq<char>, Control>,
    id: Seq<char>,
    name: Seq<char>,
)
    requires
        asks_for(names, name),
        form.contains_key(id),
        form[id] is Choice,
        has_value(form[id], name),
        gathered(names, controls, form).contains_key("field_"@ + name),
    ensures
        gathered(names, controls.push(id), form) == gathered(names, controls, form).insert(
            "field_"@ + name,
            gathered(names, controls, form)["field_"@ + name] + seq![','] + held_value(form[id]),
        ),
{
    lemma_asked(names, name);
    assert(controls.push(id).drop_last() =~= controls);
    let before = gathered(names, controls, form)["field_"@ + name];
    assert(before.push(',') =~= before + seq![',']);
}

/// A second field of input of one name does not take the place of the first.
pub proof fn law_first_inputs_win(
    names: Seq<Seq<char>>,
    controls: Seq<Seq<char>>,
    form: Map<Seq<char>, Control>,
    id: Seq<char>,
    name: Seq<char>,
)
    requires
        form.contains_key(id),
        form[id] is Input,
        has_value(form[id], name),
        gathered(names, controls, form).contains_key("field_"@ + name),
    ensures
        gathered(names, controls.push(id), form) == gathered(names, controls, form),
{
    assert(controls.push(id).drop_last() =~= controls);
}

/// A name with a value behind an equals sign is sent as a variable with that value,
/// whatever the fields hold.
pub proof fn law_variables_are_sent(
    session: Session,
    names: Seq<Seq<char>>,
    variable: Seq<char>,
    value: Seq<char>,
)
    requires
        variable.len() > 0,
        !variable.contains('='),
    ensures
        session.sent_fields(names.push(variable + seq!['='] + value)).contains_key(
            "var_"@ + variable,
        ),
        session.sent_fields(names.push(variable + seq!['='] + value))["var_"@ + variable]
            == value,
{
    let all = names.push(variable + seq!['='] + value);
    let s = variable + seq!['='] + value;
    assert(all.drop_last() =~= names);
    assert(all.last() == s);
    assert forall|i: int| 0 <= i < variable.len() implies s[i] != '=' by {
        assert(s[i] == variable[i]);
        assert(variable.contains(variable[i]));
    }
    assert(s[variable.len() as int] == '=');
    lemma_find_char_at(s, '=', variable.len() as int);
    assert(s.take(variable.len() as int) =~= variable);
    assert(s.skip(variable.len() as int + 1) =~= value);
    lemma_variables_stay(all, text_views(session.layout.controls@), session.form@, variable);
}

proof fn lemma_variables_stay(
    names: Seq<Seq<char>>,
    controls: Seq<Seq<char>>,
    form: Map<Seq<char>, Control>,
    variable: Seq<char>,
)
    requires
        assigned(names).contains_key("var_"@ + variable),
    ensures
        gathered(names, controls, form).contains_key("var_"@ + variable),
        gathered(names, controls, form)["var_"@ + variable] == assigned(names)["var_"@ + variable],
    decreases controls.len(),
{
    if controls.len() > 0 {
        lemma_variables_stay(names, controls.drop_last(), form, variable);
        if form.contains_key(controls.last()) {
            match form[controls.last()] {
                Control::Input { name, .. } => {
                    lemma_keys(name@, variable);
                },
                Control::Choice { name, .. } => {
                    lemma_keys(name@, variable);
                },
                Control::Link { .. } => {},
            }
        }
    }
}

/// Nothing is sent but fields that are asked for and variables: every key is that of
/// a control with a value or of a name with one.
pub proof fn law_nothing_else_is_sent(session: Session, names: Seq<Seq<char>>, key: Seq<char>)
    requires
        session.sent_fields(names).contains_key(key),
    ensures
        (exists|i: int, name: Seq<char>|
            0 <= i < session.layout.controls@.len() && #[trigger] sends(
                text_views(session.layout.controls@),
                session.form@,
                i,
                name,
            ) && asks_for(names, name) && key == "field_"@ + name) || (exists|variable: Seq<char>|
            variable.len() > 0 && key == #[trigger] ("var_"@ + variable)),
{
    lemma_nothing_else(names, text_views(session.layout.controls@), session.form@, key);
}

proof fn lemma_nothing_else(
    names: Seq<Seq<char>>,
    controls: Seq<Seq<char>>,
    form: Map<Seq<char>, Control>,
    key: Seq<char>,
)
    requires
        gathered(names, controls, form).contains_key(key),
    ensures
        (exists|i: int, name: Seq<char>|
            0 <= i < controls.len() && #[trigger] sends(controls, form, i, name) && asks_for(
                names,
                name,
            ) && key == "field_"@ + name) || (exists|variable: Seq<char>|
            variable.len() > 0 && key == #[trigger] ("var_"@ + variable)),
    decreases controls.len(),
{
    if controls.len() == 0 {
        lemma_variables_only(names, key);
    } else {
        let before = controls.drop_last();
        let last = controls.len() - 1;
        if gathered(names, before, form).contains_key(key) {
            lemma_nothing_else(names, before, form, key);
            if exists|i: int, name: Seq<char>|
                0 <= i < before.len() && #[trigger] sends(before, form, i, name) && asks_for(
                    names,
                    name,
                ) && key == "field_"@ + name {
                let (i, name) = choose|i: int, name: Seq<char>|
                    0 <= i < before.len() && #[trigger] sends(before, form, i, name) && asks_for(
                        names,
                        name,
                    ) && key == "field_"@ + name;
                assert(before[i] == controls[i]);
                assert(sends(controls, form, i, name));
            }
        } else {
            match form[controls.last()] {
                Control::Input { name, .. } => {
                    lemma_asked(names, name@);
                    assert(sends(controls, form, last, name@));
                },
                Control::Choice { name, .. } => {
                    lemma_asked(names, name@);
                    assert(sends(controls, form, last, name@));
                },
                Control::Link { .. } => {},
            }
        }
    }
}

proof fn lemma_variables_only(names: Seq<Seq<char>>, key: Seq<char>)
    requires
        assigned(names).contains_key(key),
    ensures
        exists|variable: Seq<char>| variable.len() > 0 && key == #[trigger] ("var_"@ + variable),
    decreases names.len(),
{
    if names.len() > 0 {
        let n = find_char(names.last(), '=') as int;
        lemma_find_char(names.last(), '=');
        if assigned(names.drop_last()).contains_key(key) {
            lemma_variables_only(names.drop_last(), key);
        } else {
            let variable = names.last().take(n);
            assert(key == "var_"@ + variable);
        }
    }
}

/// What is typed goes in at the cursor, which moves behind it; the keys that delete
/// take away the one cluster before the cursor, or the one behind it.
pub proof fn law_edits_happen_at_the_cursor(
    a: Seq<Seq<char>>,
    b: Seq<Seq<char>>,
    one: Seq<char>,
    added: Seq<Seq<char>>,
    text: String,
)
    ensures
        edited(a + b, a.len() as int, Edit::Insert(text), Some(added)) == (
            a + added + b,
            (a.len() + added.len()) as int,
        ),
        edited(a + b, a.len() as int, Edit::Insert(text), None) == (a + b, a.len() as int),
        edited(a + seq![one] + b, a.len() as int + 1, Edit::Backspace, None) == (
            a + b,
            a.len() as int,
        ),
        edited(a + seq![one] + b, a.len() as int, Edit::Delete, None) == (a + b, a.len() as int),
        edited(a, 0, Edit::Backspace, None) == (a, 0int),
        edited(a, a.len() as int, Edit::Delete, None) == (a, a.len() as int),
{
    assert((a + b).take(a.len() as int) =~= a);
    assert((a + b).skip(a.len() as int) =~= b);
    assert((a + seq![one] + b).remove(a.len() as int) =~= a + b);
}

/// Moving the cursor changes nothing of the text and never leaves it: one step back
/// and forth leads to the same place, and the keys for the ends lead there.
pub proof fn law_moving_keeps_the_text(parts: Seq<Seq<char>>, cursor: int)
    requires
        0 <= cursor <= parts.len(),
    ensures
        edited(parts, cursor, Edit::Home, None) == (parts, 0int),
        edited(parts, cursor, Edit::End, None) == (parts, parts.len() as int),
        edited(parts, cursor, Edit::Other, None) == (parts, cursor),
        cursor > 0 ==> edited(parts, cursor, Edit::Left, None) == (parts, cursor - 1),
        cursor < parts.len() ==> edited(parts, cursor, Edit::Right, None) == (parts, cursor + 1),
        edited(parts, 0, Edit::Left, None) == (parts, 0int),
        edited(parts, parts.len() as int, Edit::Right, None) == (parts, parts.len() as int),
{
}

/// What goes into a field holds no control character, and a field never grows past
/// sixteen kilobytes.
pub proof fn law_fields_stay_small_and_clean(value: Seq<char>, text: String, i: int)
    ensures
        insertion(value, Edit::Insert(text)).is_some() <==> encode_utf8(value).len()
            + encode_utf8(without_controls(text@)).len() <= 16384,
        0 <= i < without_controls(text@).len() ==> !is_control_char(
            without_controls(text@)[i],
        ),
{
    if 0 <= i < without_controls(text@).len() {
        text@.lemma_filter_pred(|c: char| !is_control_char(c), i);
    }
}

/// An edit changes the field that has the focus and no other part of the page.
pub proof fn law_edits_change_one_field(
    before: Session,
    edit: Edit,
    after: Session,
    other: Seq<char>,
)
    requires
        form_edited(before, edit, after),
        before.focus.is_some() ==> before.focus.unwrap()@ != other,
    ensures
        after.form@.contains_key(other) <==> before.form@.contains_key(other),
        before.form@.contains_key(other) ==> after.form@[other] == before.form@[other],
        after.focus == before.focus,
        after.layout == before.layout,
{
}

/// What is typed into a field goes into its value at the cursor, and deleting takes one
/// cluster out of it; its name stays.
pub proof fn law_typing_changes_the_value(
    name: String,
    value: String,
    cursor: usize,
    a: Seq<Seq<char>>,
    one: Seq<char>,
    b: Seq<Seq<char>>,
    text: String,
    after: Control,
)
    requires
        graphemes_in(value@) == a + seq![one] + b,
        cursor == a.len() + 1,
    ensures
        edited_input(
            Control::Input { name, value, cursor },
            Edit::Insert(text),
            after,
        ) && encode_utf8(value@).len() + encode_utf8(without_controls(text@)).len() <= 16384
            ==> after is Input && after->Input_name == name && after->Input_value@ == all_joined(
            a + seq![one] + graphemes_in(without_controls(text@)) + b,
        ),
        edited_input(Control::Input { name, value, cursor }, Edit::Backspace, after) ==> after
            is Input && after->Input_name == name && after->Input_value@ == all_joined(a + b)
            && after->cursor == a.len(),
        edited_input(Control::Input { name, value, cursor }, Edit::Left, after) ==> after is Input
            && after->cursor == a.len() && after->Input_value@ == all_joined(a + seq![one] + b),
        edited_input(Control::Input { name, value, cursor }, Edit::Other, after) ==> after
            is Input && after->Input_value@ == value@,
{
    let parts = a + seq![one] + b;
    let head = a + seq![one];
    let added = graphemes_in(without_controls(text@));
    assert(parts =~= head + b);
    assert(parts.take(cursor as int) =~= head);
    assert(parts.skip(cursor as int) =~= b);
    assert(parts.remove(cursor as int - 1) =~= a + b);
}

} // verus!
