//! Laws of the marks within a line of a page: what each of them does to the style,
//! and what it shows.
use vstd::prelude::*;

use crate::browser::{
    colour, flushed, inline_parse, is_field_name, is_name_char, law_plain_text_is_kept, link_parts,
    name_run, nonempty, InlineModel, StyleModel,
};
use crate::hexadecimal::is_hex_text;
use crate::text::{is_hex_char, lemma_find_char, lemma_find_char_at, lower, lower_char, split};

verus! {

/// The text of a line, behind what was read before: in the given style, ended by
/// nothing that needs reading.
pub open spec fn is_plain(s: Seq<char>) -> bool {
    !s.contains('\\') && !s.contains('`')
}

proof fn lemma_style_mark(mark: char, rest: Seq<char>)
    ensures
        (seq!['`', mark] + rest).skip(2) == rest,
        (seq!['`', mark] + rest)[0] == '`',
        (seq!['`', mark] + rest)[1] == mark,
        (seq!['`', mark] + rest).len() == rest.len() + 2,
{
    assert((seq!['`', mark] + rest).skip(2) =~= rest);
}

/// Two backticks end every style: whatever the style was, what follows on the line
/// has no colours and is not bold, underlined or italic, until another mark says
/// so. What stands before them keeps its style.
pub proof fn law_reset_ends_every_style(rest: Seq<char>, text: Seq<char>, style: StyleModel)
    ensures
        ({
            let default = StyleModel {
                foreground: None,
                background: None,
                bold: false,
                underline: false,
                italic: false,
            };
            let follows = inline_parse(rest, Seq::empty(), default);
            &&& inline_parse(seq!['`', '`'] + rest, text, style) == (
                flushed(text, style) + follows.0,
                follows.1,
            )
            &&& is_plain(rest) && rest.len() > 0 ==> inline_parse(
                seq!['`', '`'] + rest,
                text,
                style,
            ) == (flushed(text, style).push(InlineModel::Text { text: rest, style: default }), default)
            &&& inline_parse(seq!['`', '`'], Seq::empty(), style) == (
                Seq::<InlineModel>::empty(),
                default,
            )
        }),
{
    let default = StyleModel {
        foreground: None,
        background: None,
        bold: false,
        underline: false,
        italic: false,
    };
    let none = Seq::<InlineModel>::empty();
    lemma_style_mark('`', rest);
    assert(flushed(text, style) + none =~= flushed(text, style));
    if is_plain(rest) && rest.len() > 0 {
        law_plain_text_is_kept(rest, Seq::empty(), default);
        assert(Seq::<char>::empty() + rest =~= rest);
        assert(flushed(text, style) + flushed(rest, default) =~= flushed(text, style).push(
            InlineModel::Text { text: rest, style: default },
        ));
    }
    lemma_style_mark('`', Seq::empty());
    let bare = seq!['`', '`'];
    assert(bare + Seq::<char>::empty() =~= bare);
    assert(none + none + none =~= none);
    assert(inline_parse(Seq::empty(), Seq::empty(), default) == (none, default));
}

/// The marks for bold, underlined and italic text switch that and nothing else.
pub proof fn law_emphasis_marks_switch_one_thing(
    rest: Seq<char>,
    text: Seq<char>,
    style: StyleModel,
)
    ensures
        ({
            let bold = inline_parse(
                rest,
                Seq::empty(),
                StyleModel { bold: !style.bold, ..style },
            );
            let underline = inline_parse(
                rest,
                Seq::empty(),
                StyleModel { underline: !style.underline, ..style },
            );
            let italic = inline_parse(
                rest,
                Seq::empty(),
                StyleModel { italic: !style.italic, ..style },
            );
            &&& inline_parse(seq!['`', '!'] + rest, text, style) == (
                flushed(text, style) + bold.0,
                bold.1,
            )
            &&& inline_parse(seq!['`', '_'] + rest, text, style) == (
                flushed(text, style) + underline.0,
                underline.1,
            )
            &&& inline_parse(seq!['`', '*'] + rest, text, style) == (
                flushed(text, style) + italic.0,
                italic.1,
            )
        }),
{
    let none = Seq::<InlineModel>::empty();
    lemma_style_mark('!', rest);
    lemma_style_mark('_', rest);
    lemma_style_mark('*', rest);
    assert(flushed(text, style) + none =~= flushed(text, style));
}

/// Each of these marks, set twice, undoes itself: text between the two is shown
/// with it, and the style behind them is the one before.
#[verifier::rlimit(50)]
pub proof fn law_emphasis_marks_undo_themselves(mark: char, s: Seq<char>, style: StyleModel)
    requires
        mark == '!' || mark == '_' || mark == '*',
        is_plain(s),
        s.len() > 0,
    ensures
        inline_parse(seq!['`', mark] + (s + seq!['`', mark]), Seq::empty(), style).1 == style,
        inline_parse(seq!['`', mark] + (s + seq!['`', mark]), Seq::empty(), style).0 == seq![
            InlineModel::Text {
                text: s,
                style: StyleModel {
                    bold: style.bold != (mark == '!'),
                    underline: style.underline != (mark == '_'),
                    italic: style.italic != (mark == '*'),
                    ..style
                },
            },
        ],
{
    let inner = StyleModel {
        bold: style.bold != (mark == '!'),
        underline: style.underline != (mark == '_'),
        italic: style.italic != (mark == '*'),
        ..style
    };
    let none = Seq::<InlineModel>::empty();
    law_emphasis_marks_switch_one_thing(s + seq!['`', mark], Seq::empty(), style);
    lemma_plain_before(s, seq!['`', mark], Seq::empty(), inner);
    law_emphasis_marks_switch_one_thing(Seq::empty(), s, inner);
    assert(seq!['`', mark] + Seq::<char>::empty() =~= seq!['`', mark]);
    assert(Seq::<char>::empty() + s =~= s);
    assert(inline_parse(Seq::empty(), Seq::empty(), style) == (none, style));
    assert(none + (flushed(s, inner) + none) =~= flushed(s, inner));
}

/// Plain text before anything is gathered up and changes nothing else.
proof fn lemma_plain_before(s: Seq<char>, rest: Seq<char>, text: Seq<char>, style: StyleModel)
    requires
        is_plain(s),
    ensures
        inline_parse(s + rest, text, style) == inline_parse(rest, text + s, style),
    decreases s.len(),
{
    if s.len() == 0 {
        assert(s + rest =~= rest);
        assert(text + s =~= text);
    } else {
        assert(s[0] != '\\' && s[0] != '`') by {
            assert(s.contains(s[0]));
        }
        assert((s + rest)[0] == s[0]);
        assert((s + rest).skip(1) =~= s.skip(1) + rest);
        assert forall|c: char| s.skip(1).contains(c) implies s.contains(c) by {
            let i = s.skip(1).index_of(c);
            assert(s[i + 1] == c);
        }
        lemma_plain_before(s.skip(1), rest, text.push(s[0]), style);
        assert(text.push(s[0]) + s.skip(1) =~= text + s);
    }
}

/// Text before a mark is shown in the style that holds there.
pub proof fn law_text_before_a_mark_keeps_its_style(
    s: Seq<char>,
    rest: Seq<char>,
    style: StyleModel,
)
    requires
        is_plain(s),
    ensures
        inline_parse(s + rest, Seq::empty(), style) == inline_parse(rest, s, style),
{
    lemma_plain_before(s, rest, Seq::empty(), style);
    assert(Seq::<char>::empty() + s =~= s);
}

/// The marks that end a colour end that colour and nothing else.
pub proof fn law_colours_end_one_by_one(rest: Seq<char>, text: Seq<char>, style: StyleModel)
    ensures
        ({
            let fore = inline_parse(rest, Seq::empty(), StyleModel { foreground: None, ..style });
            let back = inline_parse(rest, Seq::empty(), StyleModel { background: None, ..style });
            &&& inline_parse(seq!['`', 'f'] + rest, text, style) == (
                flushed(text, style) + fore.0,
                fore.1,
            )
            &&& inline_parse(seq!['`', 'b'] + rest, text, style) == (
                flushed(text, style) + back.0,
                back.1,
            )
        }),
{
    let none = Seq::<InlineModel>::empty();
    lemma_style_mark('f', rest);
    lemma_style_mark('b', rest);
    assert(flushed(text, style) + none =~= flushed(text, style));
}

/// Three hexadecimal digits behind the mark for a colour stand for six, each of them
/// twice, in lower case: the foreground or the background takes that colour, and
/// nothing else changes.
#[verifier::rlimit(50)]
pub proof fn law_short_colours_are_set(
    r: char,
    g: char,
    b: char,
    rest: Seq<char>,
    text: Seq<char>,
    style: StyleModel,
)
    requires
        is_hex_char(r),
        is_hex_char(g),
        is_hex_char(b),
    ensures
        ({
            let colour = Some(
                seq![
                    '#',
                    lower_char(r),
                    lower_char(r),
                    lower_char(g),
                    lower_char(g),
                    lower_char(b),
                    lower_char(b),
                ],
            );
            let fore = inline_parse(
                rest,
                Seq::empty(),
                StyleModel { foreground: colour, ..style },
            );
            let back = inline_parse(
                rest,
                Seq::empty(),
                StyleModel { background: colour, ..style },
            );
            &&& inline_parse(seq!['`', 'F', r, g, b] + rest, text, style) == (
                flushed(text, style) + fore.0,
                fore.1,
            )
            &&& inline_parse(seq!['`', 'B', r, g, b] + rest, text, style) == (
                flushed(text, style) + back.0,
                back.1,
            )
        }),
{
    let none = Seq::<InlineModel>::empty();
    let digits = seq![r, g, b];
    assert(flushed(text, style) + none =~= flushed(text, style));
    assert(is_hex_text(digits));
    assert(lower(digits)[0] == lower_char(r) && lower(digits)[1] == lower_char(g)
        && lower(digits)[2] == lower_char(b));
    assert(r != 'T');
    let fore = seq!['`', 'F', r, g, b] + rest;
    assert(fore.subrange(2, 5) =~= digits);
    assert(fore.skip(5) =~= rest);
    assert(fore[0] == '`' && fore[1] == 'F' && fore[2] == r);
    let back = seq!['`', 'B', r, g, b] + rest;
    assert(back.subrange(2, 5) =~= digits);
    assert(back.skip(5) =~= rest);
    assert(back[0] == '`' && back[1] == 'B' && back[2] == r);
}

/// A colour of six digits, behind a T, is taken as it is, in lower case.
#[verifier::rlimit(50)]
pub proof fn law_full_colours_are_set(
    digits: Seq<char>,
    rest: Seq<char>,
    text: Seq<char>,
    style: StyleModel,
)
    requires
        digits.len() == 6,
        is_hex_text(digits),
    ensures
        ({
            let colour = Some(seq!['#'] + lower(digits));
            let fore = inline_parse(
                rest,
                Seq::empty(),
                StyleModel { foreground: colour, ..style },
            );
            let back = inline_parse(
                rest,
                Seq::empty(),
                StyleModel { background: colour, ..style },
            );
            &&& inline_parse(seq!['`', 'F', 'T'] + digits + rest, text, style) == (
                flushed(text, style) + fore.0,
                fore.1,
            )
            &&& inline_parse(seq!['`', 'B', 'T'] + digits + rest, text, style) == (
                flushed(text, style) + back.0,
                back.1,
            )
        }),
{
    let none = Seq::<InlineModel>::empty();
    assert(flushed(text, style) + none =~= flushed(text, style));
    let fore = seq!['`', 'F', 'T'] + digits + rest;
    assert(fore.subrange(3, 9) =~= digits);
    assert(fore.skip(9) =~= rest);
    assert(fore[0] == '`' && fore[1] == 'F' && fore[2] == 'T');
    let back = seq!['`', 'B', 'T'] + digits + rest;
    assert(back.subrange(3, 9) =~= digits);
    assert(back.skip(9) =~= rest);
    assert(back[0] == '`' && back[1] == 'B' && back[2] == 'T');
}

/// A colour is three or six hexadecimal digits, and nothing else is one.
pub proof fn law_only_digits_make_a_colour(s: Seq<char>)
    ensures
        colour(s).is_some() <==> (s.len() == 3 || s.len() == 6) && is_hex_text(s),
{
}

/// A colour mark with anything else behind it shows nothing and changes nothing:
/// what stands behind it is read on.
#[verifier::rlimit(50)]
pub proof fn law_bad_colours_are_passed_over(
    mark: char,
    rest: Seq<char>,
    text: Seq<char>,
    style: StyleModel,
)
    requires
        mark == 'F' || mark == 'B',
        rest.len() > 0 && rest[0] == 'T' ==> rest.len() < 7 || !is_hex_text(rest.subrange(1, 7)),
        rest.len() == 0 || rest[0] != 'T' ==> rest.len() < 3 || !is_hex_text(rest.take(3)),
    ensures
        inline_parse(seq!['`', mark] + rest, text, style) == (
            flushed(text, style) + inline_parse(rest, Seq::empty(), style).0,
            inline_parse(rest, Seq::empty(), style).1,
        ),
{
    let none = Seq::<InlineModel>::empty();
    let s = seq!['`', mark] + rest;
    lemma_style_mark(mark, rest);
    assert(flushed(text, style) + none =~= flushed(text, style));
    if rest.len() > 0 {
        assert(s[2] == rest[0]);
    }
    if s.len() >= 5 {
        assert(s.subrange(2, 5) =~= rest.take(3));
    }
    if s.len() >= 9 {
        assert(s.subrange(3, 9) =~= rest.subrange(1, 7));
    }
}

pub proof fn lemma_split_one(s: Seq<char>, mark: char)
    requires
        !s.contains(mark),
    ensures
        split(s, mark) == seq![s],
{
    lemma_find_char(s, mark);
}

pub proof fn lemma_split_first(a: Seq<char>, mark: char, b: Seq<char>)
    requires
        !a.contains(mark),
    ensures
        split(a + seq![mark] + b, mark) == seq![a] + split(b, mark),
{
    let s = a + seq![mark] + b;
    assert forall|i: int| 0 <= i < a.len() implies s[i] != mark by {
        assert(a.contains(a[i]));
    }
    assert(s[a.len() as int] == mark);
    lemma_find_char_at(s, mark, a.len() as int);
    assert(s.take(a.len() as int) =~= a);
    assert(s.skip(a.len() as int + 1) =~= b);
}

/// What stands between brackets, behind a backtick, makes one step.
#[verifier::rlimit(50)]
proof fn lemma_link(value: Seq<char>, rest: Seq<char>, text: Seq<char>, style: StyleModel)
    requires
        !value.contains(']'),
    ensures
        inline_parse(seq!['`', '['] + value + seq![']'] + rest, text, style) == (
            flushed(text, style) + link_parts(value, style) + inline_parse(
                rest,
                Seq::empty(),
                style,
            ).0,
            inline_parse(rest, Seq::empty(), style).1,
        ),
{
    let s = seq!['`', '['] + value + seq![']'] + rest;
    assert(s[0] == '`' && s[1] == '[');
    let behind = s.skip(2);
    assert(behind =~= value + seq![']'] + rest);
    assert forall|i: int| 0 <= i < value.len() implies behind[i] != ']' by {
        assert(value.contains(value[i]));
        assert(behind[i] == value[i]);
    }
    assert(behind[value.len() as int] == ']');
    lemma_find_char_at(behind, ']', value.len() as int);
    assert(s.subrange(2, 2 + value.len() as int) =~= value);
    assert(s.skip(value.len() as int + 3) =~= rest);
}

/// A link shows its label and leads to its target, in the style that holds there;
/// what stands behind it is read on in that style.
#[verifier::rlimit(50)]
pub proof fn law_links_lead_to_their_target(
    label: Seq<char>,
    target: Seq<char>,
    rest: Seq<char>,
    text: Seq<char>,
    style: StyleModel,
)
    requires
        !label.contains('`') && !label.contains(']'),
        !target.contains('`') && !target.contains(']'),
        target.len() > 0,
    ensures
        ({
            let follows = inline_parse(rest, Seq::empty(), style);
            let link = InlineModel::Link {
                label: if label.len() > 0 {
                    label
                } else {
                    target
                },
                target,
                fields: Seq::empty(),
                style,
            };
            inline_parse(
                seq!['`', '['] + (label + seq!['`'] + target) + seq![']'] + rest,
                text,
                style,
            ) == (flushed(text, style) + seq![link] + follows.0, follows.1)
        }),
{
    let value = label + seq!['`'] + target;
    assert(!value.contains(']')) by {
        if value.contains(']') {
            let i = value.index_of(']');
            if i < label.len() {
                assert(label[i] == ']');
                assert(label.contains(']'));
            } else if i > label.len() {
                assert(target[i - label.len() - 1] == ']');
                assert(target.contains(']'));
            }
        }
    }
    lemma_link(value, rest, text, style);
    lemma_split_first(label, '`', target);
    lemma_split_one(target, '`');
    assert(split(value, '`') =~= seq![label, target]);
}

/// A link without a label shows its target.
pub proof fn law_bare_links_show_their_target(
    target: Seq<char>,
    rest: Seq<char>,
    text: Seq<char>,
    style: StyleModel,
)
    requires
        !target.contains('`') && !target.contains(']'),
        target.len() > 0,
    ensures
        ({
            let follows = inline_parse(rest, Seq::empty(), style);
            let link = InlineModel::Link {
                label: target,
                target,
                fields: Seq::empty(),
                style,
            };
            inline_parse(seq!['`', '['] + target + seq![']'] + rest, text, style) == (
                flushed(text, style) + seq![link] + follows.0,
                follows.1,
            )
        }),
{
    lemma_link(target, rest, text, style);
    lemma_split_one(target, '`');
}

/// A link that names a field sends that field.
#[verifier::rlimit(50)]
pub proof fn law_links_name_their_fields(
    label: Seq<char>,
    target: Seq<char>,
    a: Seq<char>,
    b: Seq<char>,
    rest: Seq<char>,
    text: Seq<char>,
    style: StyleModel,
)
    requires
        !label.contains('`') && !label.contains(']'),
        !target.contains('`') && !target.contains(']'),
        !a.contains('`') && !a.contains(']') && !a.contains('|'),
        !b.contains('`') && !b.contains(']') && !b.contains('|'),
        label.len() > 0,
        target.len() > 0,
        a.len() > 0,
        b.len() > 0,
    ensures
        ({
            let follows = inline_parse(rest, Seq::empty(), style);
            let link = InlineModel::Link { label, target, fields: seq![a, b], style };
            let value = label + seq!['`'] + (target + seq!['`'] + (a + seq!['|'] + b));
            inline_parse(seq!['`', '['] + value + seq![']'] + rest, text, style) == (
                flushed(text, style) + seq![link] + follows.0,
                follows.1,
            )
        }),
{
    let fields = a + seq!['|'] + b;
    let value = label + seq!['`'] + (target + seq!['`'] + fields);
    lemma_joined_lacks(a, '|', b, '`');
    lemma_joined_lacks(a, '|', b, ']');
    lemma_joined_lacks(target, '`', fields, ']');
    lemma_joined_lacks(label, '`', target + seq!['`'] + fields, ']');
    lemma_three_parts(label, target, fields);
    lemma_two_parts(a, b);
    lemma_link(value, rest, text, style);
}

pub proof fn lemma_three_parts(a: Seq<char>, b: Seq<char>, c: Seq<char>)
    requires
        !a.contains('`'),
        !b.contains('`'),
        !c.contains('`'),
    ensures
        split(a + seq!['`'] + (b + seq!['`'] + c), '`') == seq![a, b, c],
{
    lemma_split_first(a, '`', b + seq!['`'] + c);
    lemma_split_first(b, '`', c);
    lemma_split_one(c, '`');
    assert(seq![a] + (seq![b] + seq![c]) =~= seq![a, b, c]);
}

proof fn lemma_two_parts(a: Seq<char>, b: Seq<char>)
    requires
        !a.contains('|'),
        !b.contains('|'),
        a.len() > 0,
        b.len() > 0,
    ensures
        nonempty(split(a + seq!['|'] + b, '|')) == seq![a, b],
{
    lemma_split_first(a, '|', b);
    lemma_split_one(b, '|');
    assert(seq![a] + seq![b] =~= seq![a, b]);
    lemma_two_nonempty(a, b);
}

pub proof fn lemma_joined_lacks(a: Seq<char>, mark: char, b: Seq<char>, c: char)
    requires
        !a.contains(c),
        !b.contains(c),
        mark != c,
    ensures
        !(a + seq![mark] + b).contains(c),
{
    let s = a + seq![mark] + b;
    if s.contains(c) {
        let i = s.index_of(c);
        if i < a.len() {
            assert(a[i] == c);
            assert(a.contains(c));
        } else if i > a.len() {
            assert(b[i - a.len() - 1] == c);
            assert(b.contains(c));
        }
    }
}

proof fn lemma_two_nonempty(a: Seq<char>, b: Seq<char>)
    requires
        a.len() > 0,
        b.len() > 0,
    ensures
        nonempty(seq![a, b]) == seq![a, b],
{
    let s = seq![a, b];
    reveal_with_fuel(Seq::filter, 3);
    assert(s.drop_last() =~= seq![a]);
    assert(s.drop_last().drop_last() =~= Seq::<Seq<char>>::empty());
    assert(nonempty(s) =~= s);
}

/// An anchor bears the name behind its mark, as far as it is made of letters, digits,
/// underscores and hyphens, and shows nothing.
#[verifier::rlimit(50)]
pub proof fn law_anchors_bear_their_name(
    name: Seq<char>,
    rest: Seq<char>,
    text: Seq<char>,
    style: StyleModel,
)
    requires
        name.len() > 0,
        is_field_name(name),
        rest.len() > 0 ==> !is_name_char(rest[0]),
    ensures
        ({
            let follows = inline_parse(rest, Seq::empty(), style);
            inline_parse(seq!['`', ':'] + name + rest, text, style) == (
                flushed(text, style) + seq![InlineModel::Anchor { name }] + follows.0,
                follows.1,
            )
        }),
{
    let s = seq!['`', ':'] + name + rest;
    assert(s[0] == '`' && s[1] == ':');
    assert(s.skip(2) =~= name + rest);
    lemma_name_ends(name, rest);
    assert(s.subrange(2, 2 + name.len() as int) =~= name);
    assert(s.skip(2 + name.len() as int) =~= rest);
}

proof fn lemma_name_ends(name: Seq<char>, rest: Seq<char>)
    requires
        is_field_name(name),
        rest.len() > 0 ==> !is_name_char(rest[0]),
    ensures
        name_run(name + rest) == name.len(),
    decreases name.len(),
{
    let s = name + rest;
    if name.len() > 0 {
        assert(s[0] == name[0]);
        assert(is_name_char(name[0]));
        assert(s.drop_first() =~= name.drop_first() + rest);
        assert forall|i: int| 0 <= i < name.drop_first().len() implies is_name_char(
            #[trigger] name.drop_first()[i],
        ) by {
            assert(name.drop_first()[i] == name[i + 1]);
        }
        lemma_name_ends(name.drop_first(), rest);
    } else {
        assert(s =~= rest);
    }
}

/// A backslash takes away the meaning of what follows it.
pub proof fn law_backslashes_escape(c: char, rest: Seq<char>, text: Seq<char>, style: StyleModel)
    ensures
        inline_parse(seq!['\\', c] + rest, text, style) == inline_parse(
            rest,
            text.push(c),
            style,
        ),
{
    let s = seq!['\\', c] + rest;
    assert(s[0] == '\\' && s[1] == c);
    assert(s.skip(2) =~= rest);
}

/// A mark that means nothing shows nothing and changes nothing: reading goes on behind
/// it.
pub proof fn law_other_marks_mean_nothing(
    mark: char,
    rest: Seq<char>,
    text: Seq<char>,
    style: StyleModel,
)
    requires
        mark != '[' && mark != '<' && mark != '!' && mark != '_' && mark != '*' && mark != 'f'
            && mark != 'b' && mark != '`' && mark != 'F' && mark != 'B' && mark != ':',
    ensures
        inline_parse(seq!['`', mark] + rest, text, style) == (
            flushed(text, style) + inline_parse(rest, Seq::empty(), style).0,
            inline_parse(rest, Seq::empty(), style).1,
        ),
{
    let none = Seq::<InlineModel>::empty();
    lemma_style_mark(mark, rest);
    assert(flushed(text, style) + none =~= flushed(text, style));
}

/// A backtick or a backslash at the very end of a line is text.
pub proof fn law_lone_marks_are_text(text: Seq<char>, style: StyleModel)
    ensures
        inline_parse(seq!['`'], text, style) == (
            seq![InlineModel::Text { text: text.push('`'), style }],
            style,
        ),
        inline_parse(seq!['\\'], text, style) == (
            seq![InlineModel::Text { text: text.push('\\'), style }],
            style,
        ),
{
    let tick = seq!['`'];
    let slash = seq!['\\'];
    assert(tick.skip(1) =~= Seq::<char>::empty());
    assert(slash.skip(1) =~= Seq::<char>::empty());
    assert(inline_parse(Seq::empty(), text.push('`'), style) == (
        flushed(text.push('`'), style),
        style,
    ));
    assert(inline_parse(Seq::empty(), text.push('\\'), style) == (
        flushed(text.push('\\'), style),
        style,
    ));
}

/// A link that leads nowhere is none: nothing of it is shown. Brackets that do not close
/// are no link, and what stands in them is read on.
#[verifier::rlimit(50)]
pub proof fn law_links_without_a_target_are_none(
    label: Seq<char>,
    rest: Seq<char>,
    text: Seq<char>,
    style: StyleModel,
    tail: Seq<char>,
)
    requires
        !label.contains('`') && !label.contains(']'),
        !tail.contains(']'),
    ensures
        inline_parse(seq!['`', '['] + (label + seq!['`']) + seq![']'] + rest, text, style) == (
            flushed(text, style) + inline_parse(rest, Seq::empty(), style).0,
            inline_parse(rest, Seq::empty(), style).1,
        ),
        inline_parse(seq!['`', '['] + tail, text, style) == (
            flushed(text, style) + inline_parse(tail, Seq::empty(), style).0,
            inline_parse(tail, Seq::empty(), style).1,
        ),
{
    let none = Seq::<InlineModel>::empty();
    let value = label + seq!['`'];
    assert(value =~= label + seq!['`'] + Seq::<char>::empty());
    lemma_joined_lacks(label, '`', Seq::empty(), ']');
    lemma_link(value, rest, text, style);
    lemma_split_first(label, '`', Seq::empty());
    lemma_split_one(Seq::empty(), '`');
    assert(split(value, '`') =~= seq![label, Seq::<char>::empty()]);
    assert(link_parts(value, style) =~= none);
    assert(flushed(text, style) + none =~= flushed(text, style));
    let s = seq!['`', '['] + tail;
    lemma_style_mark('[', tail);
    lemma_find_char(tail, ']');
}

} // verus!
