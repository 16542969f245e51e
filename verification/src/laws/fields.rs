//! Laws of the fields within a line of a page: what a field is, by its marks.
use vstd::prelude::*;

use crate::browser::{
    field_parse, field_width, flushed, inline_parse, is_field_name, is_name_char, only_digits,
    InlineModel, StyleModel,
};
use crate::laws::inline::{lemma_joined_lacks, lemma_split_first, lemma_split_one};
use crate::text::{
    all_digits, decimal, is_digit_char, law_decimal_is_read_back, lemma_decimal, lemma_find_char_at,
    split,
};

verus! {

/// A field as it is written: its marks and its name, a backtick, and the text shown
/// or held at first.
pub open spec fn written_field(descriptor: Seq<char>, label: Seq<char>) -> Seq<char> {
    seq!['`', '<'] + descriptor + seq!['`'] + label + seq!['>']
}

#[verifier::rlimit(50)]
proof fn lemma_written(descriptor: Seq<char>, label: Seq<char>, rest: Seq<char>, style: StyleModel)
    requires
        !descriptor.contains('`'),
        !label.contains('>'),
    ensures
        ({
            let s = written_field(descriptor, label) + rest;
            let tick = descriptor.len() as int + 1;
            let f = s.skip(1);
            &&& s.len() > 2 && s[0] == '`' && s[1] == '<'
            &&& crate::text::find_char(f, '`') == tick
            &&& crate::text::find_char(f.skip(tick + 1), '>') == label.len()
            &&& f.subrange(1, tick) == descriptor
            &&& f.subrange(tick + 1, tick + 1 + label.len()) == label
            &&& f.len() > tick + 1 + label.len()
            &&& s.skip(tick + 1 + label.len() + 2) == rest
        }),
{
    let s = written_field(descriptor, label) + rest;
    let tick = descriptor.len() as int + 1;
    let f = s.skip(1);
    assert(f =~= seq!['<'] + descriptor + seq!['`'] + label + seq!['>'] + rest);
    assert forall|i: int| 0 <= i < tick implies f[i] != '`' by {
        if i > 0 {
            assert(f[i] == descriptor[i - 1]);
            assert(descriptor.contains(descriptor[i - 1]));
        }
    }
    assert(f[tick] == '`');
    lemma_find_char_at(f, '`', tick);
    let behind = f.skip(tick + 1);
    assert(behind =~= label + seq!['>'] + rest);
    assert forall|i: int| 0 <= i < label.len() implies behind[i] != '>' by {
        assert(behind[i] == label[i]);
        assert(label.contains(label[i]));
    }
    assert(behind[label.len() as int] == '>');
    lemma_find_char_at(behind, '>', label.len() as int);
    assert(f.subrange(1, tick) =~= descriptor);
    assert(f.subrange(tick + 1, tick + 1 + label.len()) =~= label);
    assert(s.skip(tick + 1 + label.len() + 2) =~= rest);
}

proof fn lemma_name_lacks(name: Seq<char>)
    requires
        is_field_name(name),
    ensures
        !name.contains('`'),
        !name.contains('|'),
{
    if name.contains('`') {
        assert(is_name_char(name[name.index_of('`')]));
    }
    if name.contains('|') {
        assert(is_name_char(name[name.index_of('|')]));
    }
}

proof fn lemma_no_digits(flags: Seq<char>)
    requires
        flags.len() <= 1,
        flags.len() == 1 ==> !is_digit_char(flags[0]),
    ensures
        field_width(flags) == 24,
{
    reveal_with_fuel(Seq::filter, 2);
    if flags.len() == 1 {
        assert(flags.drop_last() =~= Seq::<char>::empty());
    }
    assert(only_digits(flags) =~= Seq::<char>::empty());
}

/// A field without marks is a line of input of 24 places that bears its name, holds
/// its text at first and hides nothing. Reading goes on behind it in the same style.
#[verifier::rlimit(50)]
pub proof fn law_plain_fields_are_inputs(
    name: Seq<char>,
    label: Seq<char>,
    rest: Seq<char>,
    text: Seq<char>,
    style: StyleModel,
)
    requires
        name.len() > 0,
        is_field_name(name),
        !label.contains('>'),
    ensures
        ({
            let follows = inline_parse(rest, Seq::empty(), style);
            let field = InlineModel::Input { name, value: label, width: 24, masked: false, style };
            inline_parse(written_field(name, label) + rest, text, style) == (
                flushed(text, style) + seq![field] + follows.0,
                follows.1,
            )
        }),
{
    lemma_name_lacks(name);
    lemma_written(name, label, rest, style);
    lemma_split_one(name, '|');
    lemma_no_digits(Seq::empty());
    assert(!Seq::<char>::empty().contains('?') && !Seq::<char>::empty().contains('^')
        && !Seq::<char>::empty().contains('!'));
}

proof fn lemma_flags(flags: Seq<char>, name: Seq<char>)
    requires
        is_field_name(name),
        !flags.contains('`'),
        !flags.contains('|'),
    ensures
        split(flags + seq!['|'] + name, '|') == seq![flags, name],
        !(flags + seq!['|'] + name).contains('`'),
{
    lemma_name_lacks(name);
    lemma_split_first(flags, '|', name);
    lemma_split_one(name, '|');
    assert(seq![flags] + seq![name] =~= seq![flags, name]);
    lemma_joined_lacks(flags, '|', name, '`');
}

/// An exclamation mark before its name hides what is typed into a field.
#[verifier::rlimit(50)]
pub proof fn law_masked_fields_are_masked(
    name: Seq<char>,
    label: Seq<char>,
    rest: Seq<char>,
    text: Seq<char>,
    style: StyleModel,
)
    requires
        name.len() > 0,
        is_field_name(name),
        !label.contains('>'),
    ensures
        ({
            let follows = inline_parse(rest, Seq::empty(), style);
            let field = InlineModel::Input { name, value: label, width: 24, masked: true, style };
            inline_parse(
                written_field(seq!['!'] + seq!['|'] + name, label) + rest,
                text,
                style,
            ) == (flushed(text, style) + seq![field] + follows.0, follows.1)
        }),
{
    let flags = seq!['!'];
    lemma_flags(flags, name);
    lemma_written(flags + seq!['|'] + name, label, rest, style);
    lemma_no_digits(flags);
    assert(flags[0] == '!');
    assert(flags.contains('!'));
    assert(!flags.contains('?') && !flags.contains('^'));
}

/// A number before its name is the width of a field, between 1 and 256.
#[verifier::rlimit(50)]
pub proof fn law_widths_are_taken(
    n: nat,
    name: Seq<char>,
    label: Seq<char>,
    rest: Seq<char>,
    text: Seq<char>,
    style: StyleModel,
)
    requires
        1 <= n <= 65535,
        name.len() > 0,
        is_field_name(name),
        !label.contains('>'),
    ensures
        ({
            let follows = inline_parse(rest, Seq::empty(), style);
            let field = InlineModel::Input {
                name,
                value: label,
                width: if n <= 256 {
                    n as u16
                } else {
                    256
                },
                masked: false,
                style,
            };
            inline_parse(
                written_field(decimal(n) + seq!['|'] + name, label) + rest,
                text,
                style,
            ) == (flushed(text, style) + seq![field] + follows.0, follows.1)
        }),
{
    let flags = decimal(n);
    lemma_decimal(n);
    assert forall|c: char| #[trigger] flags.contains(c) implies is_digit_char(c) by {
        assert(is_digit_char(flags[flags.index_of(c)]));
    }
    assert(!flags.contains('`') && !flags.contains('|') && !flags.contains('?') && !flags.contains(
        '^',
    ) && !flags.contains('!'));
    lemma_flags(flags, name);
    lemma_written(flags + seq!['|'] + name, label, rest, style);
    lemma_all_digits_stay(flags);
    law_decimal_is_read_back(n, 65535);
    assert(field_width(flags) == if n <= 256 {
        n as u16
    } else {
        256
    });
}

proof fn lemma_all_digits_stay(s: Seq<char>)
    requires
        all_digits(s),
    ensures
        only_digits(s) == s,
    decreases s.len(),
{
    reveal(Seq::filter);
    if s.len() > 0 {
        assert forall|i: int| 0 <= i < s.drop_last().len() implies is_digit_char(
            #[trigger] s.drop_last()[i],
        ) by {
            assert(s.drop_last()[i] == s[i]);
        }
        lemma_all_digits_stay(s.drop_last());
        assert(is_digit_char(s[s.len() - 1]));
        assert(s.drop_last().push(s.last()) =~= s);
    } else {
        assert(only_digits(s) =~= s);
    }
}

#[verifier::rlimit(50)]
proof fn lemma_choice(flags: Seq<char>, name: Seq<char>, value: Seq<char>)
    requires
        is_field_name(name),
        !flags.contains('`') && !flags.contains('|'),
        !value.contains('`') && !value.contains('|'),
    ensures
        split(flags + seq!['|'] + (name + seq!['|'] + value), '|') == seq![flags, name, value],
        split(
            flags + seq!['|'] + (name + seq!['|'] + (value + seq!['|'] + seq!['*'])),
            '|',
        ) == seq![flags, name, value, seq!['*']],
        !(flags + seq!['|'] + (name + seq!['|'] + value)).contains('`'),
        !(flags + seq!['|'] + (name + seq!['|'] + (value + seq!['|'] + seq!['*']))).contains('`'),
{
    let star = seq!['*'];
    assert(!star.contains('|') && !star.contains('`'));
    lemma_name_lacks(name);
    lemma_split_one(value, '|');
    lemma_split_one(star, '|');
    lemma_split_first(name, '|', value);
    lemma_split_first(value, '|', star);
    lemma_split_first(name, '|', value + seq!['|'] + star);
    lemma_split_first(flags, '|', name + seq!['|'] + value);
    lemma_split_first(flags, '|', name + seq!['|'] + (value + seq!['|'] + star));
    assert(seq![flags] + (seq![name] + seq![value]) =~= seq![flags, name, value]);
    assert(seq![flags] + (seq![name] + (seq![value] + seq![star])) =~= seq![
        flags,
        name,
        value,
        star,
    ]);
    lemma_joined_lacks(name, '|', value, '`');
    lemma_joined_lacks(value, '|', star, '`');
    lemma_joined_lacks(name, '|', value + seq!['|'] + star, '`');
    lemma_joined_lacks(flags, '|', name + seq!['|'] + value, '`');
    lemma_joined_lacks(flags, '|', name + seq!['|'] + (value + seq!['|'] + star), '`');
}

/// A field that is read makes one step.
#[verifier::rlimit(50)]
proof fn lemma_field_step(
    descriptor: Seq<char>,
    label: Seq<char>,
    rest: Seq<char>,
    text: Seq<char>,
    style: StyleModel,
    field: InlineModel,
)
    requires
        !descriptor.contains('`'),
        !label.contains('>'),
        field_parse((written_field(descriptor, label) + rest).skip(1), style) == Some(
            (field, (descriptor.len() + label.len() + 3) as nat),
        ),
    ensures
        inline_parse(written_field(descriptor, label) + rest, text, style) == (
            flushed(text, style) + seq![field] + inline_parse(rest, Seq::empty(), style).0,
            inline_parse(rest, Seq::empty(), style).1,
        ),
{
    let s = written_field(descriptor, label) + rest;
    lemma_written(descriptor, label, rest, style);
    assert(s.skip(descriptor.len() as int + label.len() + 4) == rest);
}

#[verifier::rlimit(50)]
proof fn lemma_unticked(
    flags: Seq<char>,
    name: Seq<char>,
    value: Seq<char>,
    label: Seq<char>,
    rest: Seq<char>,
    style: StyleModel,
)
    requires
        flags.contains('?') || flags.contains('^'),
        !flags.contains('`') && !flags.contains('|'),
        name.len() > 0,
        is_field_name(name),
        !value.contains('`') && !value.contains('|'),
        !label.contains('>'),
    ensures
        ({
            let d = flags + seq!['|'] + (name + seq!['|'] + value);
            &&& !d.contains('`')
            &&& field_parse((written_field(d, label) + rest).skip(1), style) == Some(
                (
                    if flags.contains('?') {
                        InlineModel::Checkbox { name, value, label, checked: false, style }
                    } else {
                        InlineModel::Radio { name, value, label, checked: false, style }
                    },
                    (d.len() + label.len() + 3) as nat,
                ),
            )
        }),
{
    let d = flags + seq!['|'] + (name + seq!['|'] + value);
    lemma_choice(flags, name, value);
    lemma_written(d, label, rest, style);
}

#[verifier::rlimit(50)]
proof fn lemma_ticked(
    flags: Seq<char>,
    name: Seq<char>,
    value: Seq<char>,
    label: Seq<char>,
    rest: Seq<char>,
    style: StyleModel,
)
    requires
        flags.contains('?') || flags.contains('^'),
        !flags.contains('`') && !flags.contains('|'),
        name.len() > 0,
        is_field_name(name),
        !value.contains('`') && !value.contains('|'),
        !label.contains('>'),
    ensures
        ({
            let d = flags + seq!['|'] + (name + seq!['|'] + (value + seq!['|'] + seq!['*']));
            &&& !d.contains('`')
            &&& field_parse((written_field(d, label) + rest).skip(1), style) == Some(
                (
                    if flags.contains('?') {
                        InlineModel::Checkbox { name, value, label, checked: true, style }
                    } else {
                        InlineModel::Radio { name, value, label, checked: true, style }
                    },
                    (d.len() + label.len() + 3) as nat,
                ),
            )
        }),
{
    let d = flags + seq!['|'] + (name + seq!['|'] + (value + seq!['|'] + seq!['*']));
    lemma_choice(flags, name, value);
    lemma_written(d, label, rest, style);
}

/// A question mark among its marks makes a checkbox of a field: it sends its value and shows its
/// label, and is ticked where a star stands behind the value and nowhere else.
#[verifier::rlimit(50)]
pub proof fn law_question_marks_make_checkboxes(
    flags: Seq<char>,
    name: Seq<char>,
    value: Seq<char>,
    label: Seq<char>,
    rest: Seq<char>,
    text: Seq<char>,
    style: StyleModel,
)
    requires
        flags.contains('?'),
        !flags.contains('`') && !flags.contains('|'),
        name.len() > 0,
        is_field_name(name),
        !value.contains('`') && !value.contains('|'),
        !label.contains('>'),
    ensures
        ({
            let follows = inline_parse(rest, Seq::empty(), style);
            let open = InlineModel::Checkbox { name, value, label, checked: false, style };
            let ticked = InlineModel::Checkbox { name, value, label, checked: true, style };
            let plain = flags + seq!['|'] + (name + seq!['|'] + value);
            let starred = flags + seq!['|'] + (name + seq!['|'] + (value + seq!['|'] + seq![
                '*',
            ]));
            &&& inline_parse(written_field(plain, label) + rest, text, style) == (
                flushed(text, style) + seq![open] + follows.0,
                follows.1,
            )
            &&& inline_parse(written_field(starred, label) + rest, text, style) == (
                flushed(text, style) + seq![ticked] + follows.0,
                follows.1,
            )
        }),
{
    let plain = flags + seq!['|'] + (name + seq!['|'] + value);
    let starred = flags + seq!['|'] + (name + seq!['|'] + (value + seq!['|'] + seq!['*']));
    lemma_unticked(flags, name, value, label, rest, style);
    lemma_ticked(flags, name, value, label, rest, style);
    lemma_field_step(
        plain,
        label,
        rest,
        text,
        style,
        InlineModel::Checkbox { name, value, label, checked: false, style },
    );
    lemma_field_step(
        starred,
        label,
        rest,
        text,
        style,
        InlineModel::Checkbox { name, value, label, checked: true, style },
    );
}

/// A caret among its marks makes a radio button of a field, with the same parts.
#[verifier::rlimit(50)]
pub proof fn law_carets_make_radio_buttons(
    flags: Seq<char>,
    name: Seq<char>,
    value: Seq<char>,
    label: Seq<char>,
    rest: Seq<char>,
    text: Seq<char>,
    style: StyleModel,
)
    requires
        flags.contains('^') && !flags.contains('?'),
        !flags.contains('`') && !flags.contains('|'),
        name.len() > 0,
        is_field_name(name),
        !value.contains('`') && !value.contains('|'),
        !label.contains('>'),
    ensures
        ({
            let follows = inline_parse(rest, Seq::empty(), style);
            let open = InlineModel::Radio { name, value, label, checked: false, style };
            let picked = InlineModel::Radio { name, value, label, checked: true, style };
            let plain = flags + seq!['|'] + (name + seq!['|'] + value);
            let starred = flags + seq!['|'] + (name + seq!['|'] + (value + seq!['|'] + seq![
                '*',
            ]));
            &&& inline_parse(written_field(plain, label) + rest, text, style) == (
                flushed(text, style) + seq![open] + follows.0,
                follows.1,
            )
            &&& inline_parse(written_field(starred, label) + rest, text, style) == (
                flushed(text, style) + seq![picked] + follows.0,
                follows.1,
            )
        }),
{
    let plain = flags + seq!['|'] + (name + seq!['|'] + value);
    let starred = flags + seq!['|'] + (name + seq!['|'] + (value + seq!['|'] + seq!['*']));
    lemma_unticked(flags, name, value, label, rest, style);
    lemma_ticked(flags, name, value, label, rest, style);
    lemma_field_step(
        plain,
        label,
        rest,
        text,
        style,
        InlineModel::Radio { name, value, label, checked: false, style },
    );
    lemma_field_step(
        starred,
        label,
        rest,
        text,
        style,
        InlineModel::Radio { name, value, label, checked: true, style },
    );
}

/// A field whose name is empty or holds anything but letters, digits, underscores
/// and hyphens is no field: nothing of it can be sent.
#[verifier::rlimit(50)]
pub proof fn law_badly_named_fields_are_none(
    name: Seq<char>,
    label: Seq<char>,
    rest: Seq<char>,
    style: StyleModel,
)
    requires
        !name.contains('`') && !name.contains('|'),
        !label.contains('>'),
        name.len() == 0 || exists|i: int| 0 <= i < name.len() && !is_name_char(#[trigger] name[i]),
    ensures
        field_parse((written_field(name, label) + rest).skip(1), style).is_none(),
{
    lemma_written(name, label, rest, style);
    lemma_split_one(name, '|');
}

/// A field can be both hidden and of a given width.
#[verifier::rlimit(50)]
pub proof fn law_masked_fields_have_a_width(
    n: nat,
    name: Seq<char>,
    label: Seq<char>,
    rest: Seq<char>,
    text: Seq<char>,
    style: StyleModel,
)
    requires
        1 <= n <= 256,
        name.len() > 0,
        is_field_name(name),
        !label.contains('>'),
    ensures
        ({
            let follows = inline_parse(rest, Seq::empty(), style);
            let field = InlineModel::Input {
                name,
                value: label,
                width: n as u16,
                masked: true,
                style,
            };
            inline_parse(
                written_field(seq!['!'] + decimal(n) + seq!['|'] + name, label) + rest,
                text,
                style,
            ) == (flushed(text, style) + seq![field] + follows.0, follows.1)
        }),
{
    let flags = seq!['!'] + decimal(n);
    lemma_masked_width(n);
    lemma_flags(flags, name);
    lemma_plain_field(flags, name, label, rest, style);
    lemma_field_step(
        flags + seq!['|'] + name,
        label,
        rest,
        text,
        style,
        InlineModel::Input { name, value: label, width: n as u16, masked: true, style },
    );
}

#[verifier::rlimit(50)]
proof fn lemma_plain_field(
    flags: Seq<char>,
    name: Seq<char>,
    label: Seq<char>,
    rest: Seq<char>,
    style: StyleModel,
)
    requires
        name.len() > 0,
        is_field_name(name),
        !flags.contains('`') && !flags.contains('|'),
        !flags.contains('?') && !flags.contains('^'),
        !label.contains('>'),
    ensures
        ({
            let d = flags + seq!['|'] + name;
            field_parse((written_field(d, label) + rest).skip(1), style) == Some(
                (
                    InlineModel::Input {
                        name,
                        value: label,
                        width: field_width(flags),
                        masked: flags.contains('!'),
                        style,
                    },
                    (d.len() + label.len() + 3) as nat,
                ),
            )
        }),
{
    lemma_flags(flags, name);
    lemma_written(flags + seq!['|'] + name, label, rest, style);
}

proof fn lemma_masked_width(n: nat)
    requires
        1 <= n <= 256,
    ensures
        ({
            let flags = seq!['!'] + decimal(n);
            &&& flags.contains('!')
            &&& !flags.contains('`') && !flags.contains('|')
            &&& !flags.contains('?') && !flags.contains('^')
            &&& field_width(flags) == n as u16
        }),
{
    let flags = seq!['!'] + decimal(n);
    lemma_decimal(n);
    assert forall|c: char| #[trigger] flags.contains(c) implies c == '!' || is_digit_char(c) by {
        let i = flags.index_of(c);
        if i > 0 {
            assert(is_digit_char(decimal(n)[i - 1]));
        }
    }
    assert(flags[0] == '!');
    assert(flags.contains('!'));
    assert(!flags.contains('`') && !flags.contains('|') && !flags.contains('?')
        && !flags.contains('^'));
    lemma_digits_behind(decimal(n));
    law_decimal_is_read_back(n, 65535);
}

proof fn lemma_digits_behind(digits: Seq<char>)
    requires
        all_digits(digits),
    ensures
        only_digits(seq!['!'] + digits) == digits,
{
    let p = |c: char| is_digit_char(c);
    Seq::filter_distributes_over_add(seq!['!'], digits, p);
    lemma_all_digits_stay(digits);
    lemma_no_digit();
    assert(Seq::<char>::empty() + digits =~= digits);
}

proof fn lemma_no_digit()
    ensures
        only_digits(seq!['!']) == Seq::<char>::empty(),
{
    reveal_with_fuel(Seq::filter, 2);
    assert(seq!['!'].drop_last() =~= Seq::<char>::empty());
    assert(only_digits(seq!['!']) =~= Seq::<char>::empty());
}

} // verus!
