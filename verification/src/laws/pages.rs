//! Laws of pages, line by line: what a line adds to its page and what it leaves as
//! it was. Every line is read behind any others.
use vstd::prelude::*;

use crate::browser::{
    colour, first_heading, inline_parse, law_plain_text_is_kept, mark_run, nonempty, page_line,
    page_lines, page_parse, partial_parse, row_parse, shown_text, shown_texts, Alignment,
    BlockModel, InlineModel, PageState, StyleModel,
};
use crate::laws::inline::{is_plain, lemma_split_first, lemma_split_one, lemma_three_parts};
use crate::laws::words::is_trimmed;
use crate::text::{
    decimal, equals, is_digit_char, is_hex_char, law_decimal_is_read_back, law_trim_keeps_trimmed,
    lemma_decimal, lines, number_in, skip_back_while, skip_while, split, starts_with, trim,
    trim_mark,
};

verus! {

/// The page after one line more.
pub open spec fn page_with(before: Seq<Seq<char>>, line: Seq<char>) -> PageState {
    page_lines(before.push(line))
}

/// Whether a page is where text is read: not in a table and not between the marks of
/// preformatted text.
pub open spec fn reads_text(state: PageState) -> bool {
    !state.literal && state.table.is_none()
}

proof fn lemma_page_with(before: Seq<Seq<char>>, line: Seq<char>)
    ensures
        page_with(before, line) == page_line(page_lines(before), line),
{
    assert(before.push(line).drop_last() =~= before);
}

proof fn lemma_prefixes()
    ensures
        "#!c="@ == seq!['#', '!', 'c', '='],
        "#!fg="@ == seq!['#', '!', 'f', 'g', '='],
        "#!bg="@ == seq!['#', '!', 'b', 'g', '='],
        "`="@ == seq!['`', '='],
        "`t"@ == seq!['`', 't'],
        "`{"@ == seq!['`', '{'],
{
    reveal_strlit("#!c=");
    reveal_strlit("#!fg=");
    reveal_strlit("#!bg=");
    reveal_strlit("`=");
    reveal_strlit("`t");
    reveal_strlit("`{");
    assert("#!c="@ =~= seq!['#', '!', 'c', '=']);
    assert("#!fg="@ =~= seq!['#', '!', 'f', 'g', '=']);
    assert("#!bg="@ =~= seq!['#', '!', 'b', 'g', '=']);
    assert("`="@ =~= seq!['`', '=']);
    assert("`t"@ =~= seq!['`', 't']);
    assert("`{"@ =~= seq!['`', '{']);
}

/// What does not begin with a number sign or a backtick is no instruction.
proof fn lemma_no_instruction(line: Seq<char>)
    requires
        line.len() > 0 ==> line[0] != '#' && line[0] != '`',
    ensures
        !starts_with(line, "#!c="@),
        !starts_with(line, "#!fg="@),
        !starts_with(line, "#!bg="@),
        line != "`="@,
        partial_parse(line).is_none(),
        !starts_with(line, "`t"@),
{
    lemma_prefixes();
    if line.len() >= 4 {
        assert(line.take(4)[0] == line[0]);
    }
    if line.len() >= 5 {
        assert(line.take(5)[0] == line[0]);
    }
    if line.len() >= 2 {
        assert(line.take(2)[0] == line[0]);
    }
}

/// Whether a line is text through and through.
pub open spec fn is_text_line(line: Seq<char>) -> bool {
    line.len() > 0 && line[0] != '#' && line[0] != '-' && line[0] != '>' && line[0] != '<'
        && is_plain(line)
}

proof fn lemma_plain_start(line: Seq<char>)
    requires
        is_plain(line),
        line.len() > 0,
    ensures
        line[0] != '`' && line[0] != '\\',
{
    assert(line.contains(line[0]));
}

proof fn lemma_plain_tail(line: Seq<char>, n: int)
    requires
        is_plain(line),
        0 <= n <= line.len(),
    ensures
        is_plain(line.skip(n)),
{
    assert forall|c: char| line.skip(n).contains(c) implies line.contains(c) by {
        let i = line.skip(n).index_of(c);
        assert(line[i + n] == c);
    }
}

/// A line of plain text becomes a paragraph that shows it as it stands, at the depth,
/// with the alignment and in the style that hold there, and changes nothing else.
pub proof fn law_text_becomes_a_paragraph(before: Seq<Seq<char>>, line: Seq<char>)
    requires
        reads_text(page_lines(before)),
        is_text_line(line),
    ensures
        page_with(before, line) == (PageState {
            blocks: page_lines(before).blocks.push(
                BlockModel::Paragraph {
                    depth: page_lines(before).depth,
                    alignment: page_lines(before).alignment,
                    parts: seq![
                        InlineModel::Text { text: line, style: page_lines(before).style },
                    ],
                },
            ),
            ..page_lines(before)
        }),
{
    lemma_page_with(before, line);
    lemma_plain_start(line);
    lemma_no_instruction(line);
    law_plain_text_is_kept(line, Seq::empty(), page_lines(before).style);
    assert(Seq::<char>::empty() + line =~= line);
}

/// A line of angle brackets and text becomes a heading, as deep as there are
/// brackets, and what follows is at that depth.
#[verifier::rlimit(50)]
pub proof fn law_brackets_make_headings(before: Seq<Seq<char>>, n: nat, content: Seq<char>)
    requires
        reads_text(page_lines(before)),
        1 <= n <= 255,
        content.len() > 0,
        content[0] != '>',
        is_plain(content),
    ensures
        page_with(before, Seq::new(n, |i: int| '>') + content) == (PageState {
            depth: n as u8,
            blocks: page_lines(before).blocks.push(
                BlockModel::Heading {
                    depth: n as u8,
                    alignment: page_lines(before).alignment,
                    parts: seq![
                        InlineModel::Text { text: content, style: page_lines(before).style },
                    ],
                },
            ),
            ..page_lines(before)
        }),
{
    let marks = Seq::new(n, |i: int| '>');
    let line = marks + content;
    lemma_page_with(before, line);
    assert(line[0] == '>');
    lemma_no_instruction(line);
    lemma_marks(n, content);
    assert(line.skip(n as int) =~= content);
    law_plain_text_is_kept(content, Seq::empty(), page_lines(before).style);
    assert(Seq::<char>::empty() + content =~= content);
}

proof fn lemma_marks(n: nat, content: Seq<char>)
    requires
        content.len() > 0 ==> content[0] != '>',
    ensures
        mark_run(Seq::new(n, |i: int| '>') + content, '>') == n,
    decreases n,
{
    let s = Seq::new(n, |i: int| '>') + content;
    if n > 0 {
        assert(s[0] == '>');
        assert(s.drop_first() =~= Seq::new((n - 1) as nat, |i: int| '>') + content);
        lemma_marks((n - 1) as nat, content);
    } else {
        assert(s =~= content);
    }
}

/// The other bracket leads back to the top level: what follows it, and the lines
/// behind it, are at no depth.
#[verifier::rlimit(50)]
pub proof fn law_closing_brackets_end_the_depth(before: Seq<Seq<char>>, content: Seq<char>)
    requires
        reads_text(page_lines(before)),
        content.len() > 0 ==> is_plain(content),
    ensures
        content.len() > 0 ==> page_with(before, seq!['<'] + content) == (PageState {
            depth: 0,
            blocks: page_lines(before).blocks.push(
                BlockModel::Paragraph {
                    depth: 0,
                    alignment: page_lines(before).alignment,
                    parts: seq![
                        InlineModel::Text { text: content, style: page_lines(before).style },
                    ],
                },
            ),
            ..page_lines(before)
        }),
        page_with(before, seq!['<']) == (PageState { depth: 0, ..page_lines(before) }),
{
    let line = seq!['<'] + content;
    lemma_page_with(before, line);
    assert(line[0] == '<');
    lemma_no_instruction(line);
    assert(line.skip(1) =~= content);
    if content.len() > 0 {
        lemma_plain_start(content);
        law_plain_text_is_kept(content, Seq::empty(), page_lines(before).style);
        assert(Seq::<char>::empty() + content =~= content);
    }
    lemma_page_with(before, seq!['<']);
    lemma_no_instruction(seq!['<']);
    assert(seq!['<'].skip(1) =~= Seq::<char>::empty());
}

proof fn lemma_alignment_line(mark: char, content: Seq<char>)
    requires
        mark != '=',
        mark != 't',
        mark != '{',
    ensures
        ({
            let line = seq!['`', mark] + content;
            &&& !starts_with(line, "#!c="@)
            &&& !starts_with(line, "#!fg="@)
            &&& !starts_with(line, "#!bg="@)
            &&& line != "`="@
            &&& partial_parse(line).is_none()
            &&& !starts_with(line, "`t"@)
            &&& line[0] == '`'
            &&& line[1] == mark
            &&& line.skip(2) == content
        }),
{
    let line = seq!['`', mark] + content;
    lemma_prefixes();
    if line.len() >= 4 {
        assert(line.take(4)[0] == line[0]);
    }
    if line.len() >= 5 {
        assert(line.take(5)[0] == line[0]);
    }
    assert(line.take(2)[1] == line[1]);
    assert(line.skip(2) =~= content);
}

/// The marks for the middle, the right and the left place the line that they begin,
/// and all that follow it.
#[verifier::rlimit(50)]
pub proof fn law_alignment_marks_place_text(
    before: Seq<Seq<char>>,
    mark: char,
    content: Seq<char>,
)
    requires
        reads_text(page_lines(before)),
        mark == 'c' || mark == 'r' || mark == 'l' || mark == 'a',
        content.len() > 0,
        is_plain(content),
    ensures
        ({
            let alignment = if mark == 'c' {
                Alignment::Center
            } else if mark == 'r' {
                Alignment::Right
            } else {
                Alignment::Left
            };
            page_with(before, seq!['`', mark] + content) == (PageState {
                alignment,
                blocks: page_lines(before).blocks.push(
                    BlockModel::Paragraph {
                        depth: page_lines(before).depth,
                        alignment,
                        parts: seq![
                            InlineModel::Text { text: content, style: page_lines(before).style },
                        ],
                    },
                ),
                ..page_lines(before)
            })
        }),
{
    let line = seq!['`', mark] + content;
    lemma_page_with(before, line);
    lemma_alignment_line(mark, content);
    assert(mark_run(line, '>') == 0);
    law_plain_text_is_kept(content, Seq::empty(), page_lines(before).style);
    assert(Seq::<char>::empty() + content =~= content);
}

/// A hyphen draws a line across the page, made of the character behind it, or of the
/// usual one where there is none.
#[verifier::rlimit(50)]
pub proof fn law_hyphens_draw_lines(before: Seq<Seq<char>>, c: char, rest: Seq<char>)
    requires
        reads_text(page_lines(before)),
    ensures
        page_with(before, seq!['-', c] + rest) == (PageState {
            blocks: page_lines(before).blocks.push(
                BlockModel::Divider { depth: page_lines(before).depth, character: c },
            ),
            ..page_lines(before)
        }),
        page_with(before, seq!['-']) == (PageState {
            blocks: page_lines(before).blocks.push(
                BlockModel::Divider { depth: page_lines(before).depth, character: '\u{2500}' },
            ),
            ..page_lines(before)
        }),
{
    let line = seq!['-', c] + rest;
    lemma_page_with(before, line);
    assert(line[0] == '-' && line[1] == c);
    lemma_no_instruction(line);
    lemma_page_with(before, seq!['-']);
    lemma_no_instruction(seq!['-']);
}

/// A line that begins with a number sign, and is no instruction, is a remark: the
/// page is as if it were not there.
pub proof fn law_remarks_leave_no_trace(before: Seq<Seq<char>>, rest: Seq<char>)
    requires
        reads_text(page_lines(before)),
        rest.len() > 0 ==> rest[0] != '!',
    ensures
        page_with(before, seq!['#'] + rest) == page_lines(before),
{
    let line = seq!['#'] + rest;
    lemma_page_with(before, line);
    lemma_prefixes();
    assert(line[0] == '#');
    if line.len() >= 2 {
        assert(line[1] == rest[0]);
        assert(line.take(2)[0] == '#');
    }
    if line.len() >= 4 {
        assert(line.take(4)[1] == line[1]);
    }
    if line.len() >= 5 {
        assert(line.take(5)[1] == line[1]);
    }
}

/// An empty line adds nothing.
pub proof fn law_empty_lines_add_nothing(before: Seq<Seq<char>>)
    requires
        reads_text(page_lines(before)),
    ensures
        page_with(before, Seq::empty()) == page_lines(before),
{
    lemma_page_with(before, Seq::empty());
    lemma_no_instruction(Seq::empty());
}

/// The page says for how many seconds it may be kept, and nothing else of it changes
/// by saying so.
#[verifier::rlimit(50)]
pub proof fn law_pages_say_how_long_they_last(before: Seq<Seq<char>>, seconds: u64)
    ensures
        page_with(before, seq!['#', '!', 'c', '='] + decimal(seconds as nat)) == (PageState {
            cache_seconds: seconds,
            ..page_lines(before)
        }),
{
    let line = seq!['#', '!', 'c', '='] + decimal(seconds as nat);
    lemma_page_with(before, line);
    lemma_prefixes();
    assert(line.take(4) =~= "#!c="@);
    assert(line.skip(4) =~= decimal(seconds as nat));
    lemma_decimal_is_trimmed(seconds as nat);
    law_decimal_is_read_back(seconds as nat, u64::MAX as nat);
}

proof fn lemma_decimal_is_trimmed(n: nat)
    ensures
        trim(decimal(n)) == decimal(n),
        is_trimmed(decimal(n)),
{
    lemma_decimal(n);
    let s = decimal(n);
    assert(is_digit_char(s[0]) && is_digit_char(s[s.len() - 1]));
    law_trim_keeps_trimmed(s);
}

/// Where no line says for how long a page may be kept, it is half a day.
pub proof fn law_pages_last_half_a_day(all: Seq<Seq<char>>)
    requires
        forall|i: int|
            0 <= i < all.len() ==> !starts_with(#[trigger] all[i], seq!['#', '!', 'c', '=']),
    ensures
        page_lines(all).cache_seconds == 43200,
    decreases all.len(),
{
    if all.len() > 0 {
        assert forall|i: int| 0 <= i < all.drop_last().len() implies !starts_with(
            #[trigger] all.drop_last()[i],
            seq!['#', '!', 'c', '='],
        ) by {
            assert(all.drop_last()[i] == all[i]);
        }
        law_pages_last_half_a_day(all.drop_last());
        lemma_prefixes();
        assert(!starts_with(all[all.len() - 1], "#!c="@));
    }
}

/// The colours of a page are those that it names for its foreground and its
/// background, each by its own instruction, and each changes nothing else.
#[verifier::rlimit(50)]
pub proof fn law_pages_name_their_colours(before: Seq<Seq<char>>, digits: Seq<char>)
    requires
        digits.len() == 3 || digits.len() == 6,
        forall|i: int| 0 <= i < digits.len() ==> is_hex_char(#[trigger] digits[i]),
    ensures
        colour(digits).is_some(),
        page_with(before, seq!['#', '!', 'f', 'g', '='] + digits) == (PageState {
            foreground: colour(digits),
            ..page_lines(before)
        }),
        page_with(before, seq!['#', '!', 'b', 'g', '='] + digits) == (PageState {
            background: colour(digits),
            ..page_lines(before)
        }),
{
    lemma_prefixes();
    assert(is_hex_char(digits[0]) && is_hex_char(digits[digits.len() - 1]));
    law_trim_keeps_trimmed(digits);
    let fore = seq!['#', '!', 'f', 'g', '='] + digits;
    lemma_page_with(before, fore);
    assert(fore.take(5) =~= "#!fg="@);
    assert(fore.take(4)[2] == 'f');
    assert(fore.skip(5) =~= digits);
    let back = seq!['#', '!', 'b', 'g', '='] + digits;
    lemma_page_with(before, back);
    assert(back.take(5) =~= "#!bg="@);
    assert(back.take(5)[2] == 'b');
    assert(back.take(4)[2] == 'b');
    assert(back.skip(5) =~= digits);
}

/// A page that names no colour has none of its own.
pub proof fn law_pages_have_no_colours_of_their_own(all: Seq<Seq<char>>)
    requires
        forall|i: int|
            0 <= i < all.len() ==> !starts_with(
                #[trigger] all[i],
                seq!['#', '!', 'f', 'g', '='],
            ) && !starts_with(all[i], seq!['#', '!', 'b', 'g', '=']),
    ensures
        page_lines(all).foreground.is_none(),
        page_lines(all).background.is_none(),
    decreases all.len(),
{
    if all.len() > 0 {
        assert forall|i: int| 0 <= i < all.drop_last().len() implies !starts_with(
            #[trigger] all.drop_last()[i],
            seq!['#', '!', 'f', 'g', '='],
        ) && !starts_with(all.drop_last()[i], seq!['#', '!', 'b', 'g', '=']) by {
            assert(all.drop_last()[i] == all[i]);
        }
        law_pages_have_no_colours_of_their_own(all.drop_last());
        lemma_prefixes();
        assert(!starts_with(all[all.len() - 1], "#!fg="@));
    }
}

/// The mark for preformatted text switches it on and off and shows nothing.
pub proof fn law_literal_marks_switch(before: Seq<Seq<char>>)
    ensures
        page_with(before, seq!['`', '=']) == (PageState {
            literal: !page_lines(before).literal,
            ..page_lines(before)
        }),
{
    lemma_page_with(before, seq!['`', '=']);
    lemma_prefixes();
    let line = seq!['`', '='];
    assert(line[0] == '`');
}

/// Between those marks a line is shown as it stands, whatever marks are in it, and
/// nothing of the page's style changes.
pub proof fn law_literal_lines_are_shown_as_they_stand(before: Seq<Seq<char>>, line: Seq<char>)
    requires
        page_lines(before).literal,
        page_lines(before).table.is_none(),
        line.len() > 0 ==> line[0] != '#',
        line != seq!['`', '='],
        line.len() >= 2 ==> !(line[0] == '`' && line[1] == 't'),
    ensures
        page_with(before, line) == (PageState {
            blocks: page_lines(before).blocks.push(BlockModel::Preformatted { text: line }),
            ..page_lines(before)
        }),
{
    lemma_page_with(before, line);
    lemma_prefixes();
    if line.len() >= 2 {
        assert(line.take(2)[0] == line[0] && line.take(2)[1] == line[1]);
    }
    if line.len() >= 4 {
        assert(line.take(4)[0] == line[0]);
    }
    if line.len() >= 5 {
        assert(line.take(5)[0] == line[0]);
    }
}

/// A part that another page fills stands where it is written and asks for its
/// target, once.
#[verifier::rlimit(50)]
pub proof fn law_partials_ask_for_their_target(before: Seq<Seq<char>>, target: Seq<char>)
    requires
        !page_lines(before).literal,
        is_trimmed(target),
        !target.contains('`'),
    ensures
        page_with(before, seq!['`', '{'] + target + seq!['}']) == (PageState {
            blocks: page_lines(before).blocks.push(
                BlockModel::Partial { target, interval_seconds: 0, fields: Seq::empty() },
            ),
            ..page_lines(before)
        }),
{
    lemma_partial_alone(target);
    lemma_partial(
        before,
        seq!['`', '{'] + target + seq!['}'],
        BlockModel::Partial { target, interval_seconds: 0, fields: Seq::empty() },
    );
}

/// With an interval behind its target it is asked for anew after that many seconds,
/// a day at most.
#[verifier::rlimit(50)]
pub proof fn law_partials_are_renewed(
    before: Seq<Seq<char>>,
    target: Seq<char>,
    interval: nat,
)
    requires
        !page_lines(before).literal,
        is_trimmed(target),
        !target.contains('`'),
        interval <= u64::MAX,
    ensures
        page_with(
            before,
            seq!['`', '{'] + (target + seq!['`'] + decimal(interval)) + seq!['}'],
        ) == (PageState {
            blocks: page_lines(before).blocks.push(
                BlockModel::Partial {
                    target,
                    interval_seconds: if interval <= 86400 {
                        interval as u64
                    } else {
                        86400
                    },
                    fields: Seq::empty(),
                },
            ),
            ..page_lines(before)
        }),
{
    lemma_partial_timed(target, interval);
    lemma_partial(
        before,
        seq!['`', '{'] + (target + seq!['`'] + decimal(interval)) + seq!['}'],
        BlockModel::Partial {
            target,
            interval_seconds: if interval <= 86400 {
                interval as u64
            } else {
                86400
            },
            fields: Seq::empty(),
        },
    );
}

#[verifier::rlimit(50)]
proof fn lemma_partial_alone(target: Seq<char>)
    requires
        is_trimmed(target),
        !target.contains('`'),
    ensures
        partial_parse(seq!['`', '{'] + target + seq!['}']) == Some(
            BlockModel::Partial { target, interval_seconds: 0, fields: Seq::empty() },
        ),
{
    lemma_partial_line(target);
    lemma_split_one(target, '`');
    law_trim_keeps_trimmed(target);
}

#[verifier::rlimit(50)]
proof fn lemma_partial_timed(target: Seq<char>, interval: nat)
    requires
        is_trimmed(target),
        !target.contains('`'),
        interval <= u64::MAX,
    ensures
        partial_parse(
            seq!['`', '{'] + (target + seq!['`'] + decimal(interval)) + seq!['}'],
        ) == Some(
            BlockModel::Partial {
                target,
                interval_seconds: if interval <= 86400 {
                    interval as u64
                } else {
                    86400
                },
                fields: Seq::empty(),
            },
        ),
{
    let value = target + seq!['`'] + decimal(interval);
    lemma_partial_line(value);
    law_trim_keeps_trimmed(target);
    lemma_decimal(interval);
    assert(!decimal(interval).contains('`')) by {
        if decimal(interval).contains('`') {
            assert(is_digit_char(decimal(interval)[decimal(interval).index_of('`')]));
        }
    }
    lemma_split_first(target, '`', decimal(interval));
    lemma_split_one(decimal(interval), '`');
    assert(seq![target] + seq![decimal(interval)] =~= seq![target, decimal(interval)]);
    assert(split(value, '`') == seq![target, decimal(interval)]);
    law_decimal_is_read_back(interval, u64::MAX as nat);
}

proof fn lemma_partial_line(value: Seq<char>)
    ensures
        ({
            let line = seq!['`', '{'] + value + seq!['}'];
            &&& starts_with(line, "`{"@)
            &&& line.len() >= 3
            &&& line.last() == '}'
            &&& line.subrange(2, line.len() - 1) == value
        }),
{
    let line = seq!['`', '{'] + value + seq!['}'];
    lemma_prefixes();
    assert(line.take(2) =~= "`{"@);
    assert(line.last() == '}');
    assert(line.subrange(2, line.len() - 1) =~= value);
}

#[verifier::rlimit(50)]
proof fn lemma_partial(before: Seq<Seq<char>>, line: Seq<char>, block: BlockModel)
    requires
        !page_lines(before).literal,
        partial_parse(line) == Some(block),
        line.len() >= 2 && line[0] == '`' && line[1] == '{',
    ensures
        page_with(before, line) == (PageState {
            blocks: page_lines(before).blocks.push(block),
            ..page_lines(before)
        }),
{
    lemma_page_with(before, line);
    lemma_prefixes();
    if line.len() >= 4 {
        assert(line.take(4)[0] == line[0]);
    }
    if line.len() >= 5 {
        assert(line.take(5)[0] == line[0]);
    }
}

/// A table opens with its mark, takes the alignment and the greatest width that
/// stand behind it, and shows nothing before it is closed.
#[verifier::rlimit(50)]
pub proof fn law_tables_open_with_their_mark(before: Seq<Seq<char>>, mark: char, width: nat)
    requires
        page_lines(before).table.is_none(),
        mark == 'c' || mark == 'r' || mark == 'l',
        1 <= width <= 512,
    ensures
        page_with(before, seq!['`', 't', mark] + decimal(width)) == (PageState {
            table: Some(Seq::empty()),
            table_alignment: if mark == 'c' {
                Alignment::Center
            } else if mark == 'r' {
                Alignment::Right
            } else {
                Alignment::Left
            },
            table_max_width: Some(width as u16),
            ..page_lines(before)
        }),
        page_with(before, seq!['`', 't']) == (PageState {
            table: Some(Seq::empty()),
            table_alignment: page_lines(before).alignment,
            table_max_width: None,
            ..page_lines(before)
        }),
{
    let line = seq!['`', 't', mark] + decimal(width);
    lemma_page_with(before, line);
    lemma_prefixes();
    lemma_table_mark(line);
    let options = seq![mark] + decimal(width);
    assert(line.skip(2) =~= options);
    lemma_decimal_is_trimmed(width);
    assert(options.last() == decimal(width).last());
    law_trim_keeps_trimmed(options);
    assert(options.skip(1) =~= decimal(width));
    law_decimal_is_read_back(width, 65535);
    lemma_page_with(before, seq!['`', 't']);
    lemma_table_mark(seq!['`', 't']);
    assert(seq!['`', 't'].skip(2) =~= Seq::<char>::empty());
    assert(trim(Seq::<char>::empty()) == Seq::<char>::empty());
}

proof fn lemma_table_mark(line: Seq<char>)
    requires
        line.len() >= 2,
        line[0] == '`',
        line[1] == 't',
    ensures
        !starts_with(line, "#!c="@),
        !starts_with(line, "#!fg="@),
        !starts_with(line, "#!bg="@),
        line != "`="@,
        partial_parse(line).is_none(),
        starts_with(line, "`t"@),
{
    lemma_prefixes();
    assert(line.take(2) =~= seq!['`', 't']);
    assert(line.take(2)[1] == 't');
    if line.len() >= 4 {
        assert(line.take(4)[0] == line[0]);
    }
    if line.len() >= 5 {
        assert(line.take(5)[0] == line[0]);
    }
}

/// A line of an open table is a row of it: two cells of plain text, between bars,
/// are two cells that show that text.
#[verifier::rlimit(50)]
pub proof fn law_rows_hold_their_cells(
    before: Seq<Seq<char>>,
    a: Seq<char>,
    b: Seq<char>,
)
    requires
        page_lines(before).table.is_some(),
        is_trimmed(a),
        is_trimmed(b),
        is_plain(a) && !a.contains('|'),
        is_plain(b) && !b.contains('|'),
        a[0] != '#',
    ensures
        ({
            let style = page_lines(before).style;
            let row = seq![
                seq![InlineModel::Text { text: a, style }],
                seq![InlineModel::Text { text: b, style }],
            ];
            let after = PageState {
                table: Some(page_lines(before).table.unwrap().push(row)),
                ..page_lines(before)
            };
            &&& page_with(before, a + seq!['|'] + b) == after
            &&& page_with(before, seq!['|'] + (a + seq!['|'] + b) + seq!['|']) == after
        }),
{
    let style = page_lines(before).style;
    let line = a + seq!['|'] + b;
    let barred = seq!['|'] + line + seq!['|'];
    lemma_plain_start(a);
    assert(a.contains(a[0]) && b.contains(b[b.len() - 1]));
    lemma_page_with(before, line);
    assert(line[0] == a[0] && line.last() == b.last());
    lemma_no_instruction(line);
    law_trim_keeps_trimmed(line);
    lemma_page_with(before, barred);
    assert(barred[0] == '|' && barred.last() == '|');
    lemma_no_instruction(barred);
    law_trim_keeps_trimmed(barred);
    lemma_bars(line);
    lemma_split_first(a, '|', b);
    lemma_split_one(b, '|');
    assert(seq![a] + seq![b] =~= seq![a, b]);
    lemma_two_cells(a, b, style);
}

proof fn lemma_bars(line: Seq<char>)
    requires
        line.len() > 0,
        line[0] != '|',
        line.last() != '|',
    ensures
        trim_mark(line, '|') == line,
        trim_mark(seq!['|'] + line + seq!['|'], '|') == line,
{
    let p = equals('|');
    let barred = seq!['|'] + line + seq!['|'];
    assert(skip_while(line, p) == line);
    assert(skip_back_while(line, p) == line);
    assert(barred.drop_first() =~= line + seq!['|']);
    assert((line + seq!['|'])[0] == line[0]);
    assert(skip_while(line + seq!['|'], p) == line + seq!['|']);
    assert(skip_while(barred, p) == skip_while(barred.drop_first(), p));
    assert((line + seq!['|']).last() == '|');
    assert((line + seq!['|']).drop_last() =~= line);
    assert(skip_back_while(line + seq!['|'], p) == skip_back_while(line, p));
}

proof fn lemma_two_cells(a: Seq<char>, b: Seq<char>, style: StyleModel)
    requires
        is_trimmed(a),
        is_trimmed(b),
        is_plain(a),
        is_plain(b),
    ensures
        row_parse(seq![a, b], style) == (
            seq![
                seq![InlineModel::Text { text: a, style }],
                seq![InlineModel::Text { text: b, style }],
            ],
            style,
        ),
{
    reveal_with_fuel(row_parse, 3);
    let cells = seq![a, b];
    assert(cells.drop_last() =~= seq![a]);
    assert(seq![a].drop_last() =~= Seq::<Seq<char>>::empty());
    law_trim_keeps_trimmed(a);
    law_trim_keeps_trimmed(b);
    law_plain_text_is_kept(a, Seq::empty(), style);
    law_plain_text_is_kept(b, Seq::empty(), style);
    assert(Seq::<char>::empty() + a =~= a);
    assert(Seq::<char>::empty() + b =~= b);
    let rows = row_parse(cells, style).0;
    assert(rows =~= seq![
        seq![InlineModel::Text { text: a, style }],
        seq![InlineModel::Text { text: b, style }],
    ]);
}

/// The mark that closes a table shows the rows that it holds, in their order and with
/// its alignment and width; a table without rows leaves nothing.
#[verifier::rlimit(50)]
pub proof fn law_closed_tables_are_shown(before: Seq<Seq<char>>, rest: Seq<char>)
    requires
        page_lines(before).table.is_some(),
    ensures
        ({
            let state = page_lines(before);
            let rows = state.table.unwrap();
            page_with(before, seq!['`', 't'] + rest) == (PageState {
                table: None,
                blocks: if rows.len() > 0 {
                    state.blocks.push(
                        BlockModel::Table {
                            alignment: state.table_alignment,
                            max_width: state.table_max_width,
                            rows,
                        },
                    )
                } else {
                    state.blocks
                },
                ..state
            })
        }),
{
    let line = seq!['`', 't'] + rest;
    lemma_page_with(before, line);
    assert(line[0] == '`' && line[1] == 't');
    lemma_table_mark(line);
}

/// The title of a page is the text of its first heading: what stands before it has no
/// heading, and what stands behind it does not matter.
pub proof fn law_first_heading_is_the_title(
    before: Seq<BlockModel>,
    depth: u8,
    alignment: Alignment,
    parts: Seq<InlineModel>,
    after: Seq<BlockModel>,
)
    requires
        forall|i: int| 0 <= i < before.len() ==> !(#[trigger] before[i] is Heading),
    ensures
        first_heading(before).is_none(),
        first_heading(before + seq![BlockModel::Heading { depth, alignment, parts }] + after)
            == Some(shown_texts(parts)),
    decreases before.len(),
{
    let heading = BlockModel::Heading { depth, alignment, parts };
    let all = before + seq![heading] + after;
    if before.len() == 0 {
        assert(all[0] == heading);
    } else {
        assert(all[0] == before[0]);
        assert(!(before[0] is Heading));
        assert forall|i: int| 0 <= i < before.drop_first().len() implies !(
        #[trigger] before.drop_first()[i] is Heading) by {
            assert(before.drop_first()[i] == before[i + 1]);
        }
        assert(all.drop_first() =~= before.drop_first() + seq![heading] + after);
        law_first_heading_is_the_title(before.drop_first(), depth, alignment, parts, after);
    }
}

/// What is shown of parts is shown one after the other, and what each part shows is
/// its text, its label or what it holds; an anchor shows nothing.
pub proof fn law_parts_are_shown_in_order(
    parts: Seq<InlineModel>,
    text: Seq<char>,
    name: Seq<char>,
    value: Seq<char>,
    style: StyleModel,
)
    ensures
        shown_texts(parts.push(InlineModel::Text { text, style })) == shown_texts(parts) + text,
        shown_texts(
            parts.push(
                InlineModel::Link { label: text, target: value, fields: Seq::empty(), style },
            ),
        ) == shown_texts(parts) + text,
        shown_texts(
            parts.push(InlineModel::Input { name, value: text, width: 24, masked: false, style }),
        ) == shown_texts(parts) + text,
        shown_texts(
            parts.push(
                InlineModel::Checkbox { name, value, label: text, checked: false, style },
            ),
        ) == shown_texts(parts) + text,
        shown_texts(
            parts.push(InlineModel::Radio { name, value, label: text, checked: false, style }),
        ) == shown_texts(parts) + text,
        shown_texts(parts.push(InlineModel::Anchor { name })) == shown_texts(parts),
{
    let items = seq![
        InlineModel::Text { text, style },
        InlineModel::Link { label: text, target: value, fields: Seq::empty(), style },
        InlineModel::Input { name, value: text, width: 24, masked: false, style },
        InlineModel::Checkbox { name, value, label: text, checked: false, style },
        InlineModel::Radio { name, value, label: text, checked: false, style },
        InlineModel::Anchor { name },
    ];
    assert forall|i: int| 0 <= i < 6 implies shown_texts(parts.push(#[trigger] items[i]))
        == shown_texts(parts) + shown_text(items[i]) by {
        assert(parts.push(items[i]).drop_last() =~= parts);
    }
    assert(shown_texts(parts.push(items[0])) == shown_texts(parts) + text);
    assert(shown_texts(parts.push(items[1])) == shown_texts(parts) + text);
    assert(shown_texts(parts.push(items[2])) == shown_texts(parts) + text);
    assert(shown_texts(parts.push(items[3])) == shown_texts(parts) + text);
    assert(shown_texts(parts.push(items[4])) == shown_texts(parts) + text);
    assert(shown_texts(parts) + Seq::<char>::empty() =~= shown_texts(parts));
    assert(shown_texts(parts.push(items[5])) == shown_texts(parts) + Seq::<char>::empty());
}

/// A page keeps its address and whether it came from the cache, and what it shows
/// does not depend on either.
pub proof fn law_pages_keep_their_address(
    url: Seq<char>,
    other: Seq<char>,
    source: Seq<char>,
    from_cache: bool,
)
    ensures
        page_parse(url, source, from_cache).url == url,
        page_parse(url, source, from_cache).from_cache == from_cache,
        page_parse(url, source, from_cache).blocks == page_parse(other, source, !from_cache).blocks,
        page_parse(url, source, from_cache).title == first_heading(
            page_parse(url, source, from_cache).blocks,
        ),
        page_parse(url, source, from_cache).cache_seconds == page_lines(
            lines(source),
        ).cache_seconds,
        page_parse(url, source, from_cache).foreground == page_lines(lines(source)).foreground,
        page_parse(url, source, from_cache).background == page_lines(lines(source)).background,
{
}

/// A page of plain text begins at no depth, on the left and without a style, and shows a
/// paragraph for each line.
pub proof fn law_pages_begin_plain(all: Seq<Seq<char>>)
    requires
        forall|i: int| 0 <= i < all.len() ==> is_text_line(#[trigger] all[i]),
    ensures
        page_lines(all).depth == 0,
        page_lines(all).alignment == Alignment::Left,
        page_lines(all).style == (StyleModel {
            foreground: None,
            background: None,
            bold: false,
            underline: false,
            italic: false,
        }),
        reads_text(page_lines(all)),
        page_lines(all).blocks.len() == all.len(),
    decreases all.len(),
{
    if all.len() > 0 {
        let before = all.drop_last();
        assert forall|i: int| 0 <= i < before.len() implies is_text_line(#[trigger] before[i]) by {
            assert(before[i] == all[i]);
        }
        law_pages_begin_plain(before);
        assert(is_text_line(all[all.len() - 1]));
        law_text_becomes_a_paragraph(before, all.last());
        assert(before.push(all.last()) =~= all);
    }
}

/// A part sends the fields that it names.
#[verifier::rlimit(50)]
pub proof fn law_partials_name_their_fields(
    before: Seq<Seq<char>>,
    target: Seq<char>,
    field: Seq<char>,
)
    requires
        !page_lines(before).literal,
        is_trimmed(target),
        !target.contains('`'),
        field.len() > 0,
        !field.contains('`') && !field.contains('|'),
    ensures
        page_with(
            before,
            seq!['`', '{'] + (target + seq!['`'] + (decimal(0) + seq!['`'] + field)) + seq!['}'],
        ) == (PageState {
            blocks: page_lines(before).blocks.push(
                BlockModel::Partial { target, interval_seconds: 0, fields: seq![field] },
            ),
            ..page_lines(before)
        }),
{
    lemma_partial_fields(target, field);
    lemma_partial(
        before,
        seq!['`', '{'] + (target + seq!['`'] + (decimal(0) + seq!['`'] + field)) + seq!['}'],
        BlockModel::Partial { target, interval_seconds: 0, fields: seq![field] },
    );
}

#[verifier::rlimit(50)]
proof fn lemma_partial_fields(target: Seq<char>, field: Seq<char>)
    requires
        is_trimmed(target),
        !target.contains('`'),
        field.len() > 0,
        !field.contains('`') && !field.contains('|'),
    ensures
        partial_parse(
            seq!['`', '{'] + (target + seq!['`'] + (decimal(0) + seq!['`'] + field)) + seq!['}'],
        ) == Some(BlockModel::Partial { target, interval_seconds: 0, fields: seq![field] }),
{
    let value = target + seq!['`'] + (decimal(0) + seq!['`'] + field);
    lemma_partial_line(value);
    law_trim_keeps_trimmed(target);
    lemma_decimal(0);
    assert(!decimal(0).contains('`')) by {
        if decimal(0).contains('`') {
            assert(is_digit_char(decimal(0)[decimal(0).index_of('`')]));
        }
    }
    lemma_three_parts(target, decimal(0), field);
    law_decimal_is_read_back(0, u64::MAX as nat);
    lemma_split_one(field, '|');
    lemma_one_nonempty(field);
}

proof fn lemma_one_nonempty(field: Seq<char>)
    requires
        field.len() > 0,
    ensures
        nonempty(seq![field]) == seq![field],
{
    reveal_with_fuel(Seq::filter, 2);
    assert(seq![field].drop_last() =~= Seq::<Seq<char>>::empty());
    assert(nonempty(seq![field]) =~= seq![field]);
}

/// A line of text with marks in it becomes a paragraph of what they say, and the style
/// that they leave holds on the lines that follow.
#[verifier::rlimit(50)]
pub proof fn law_styles_hold_on_following_lines(before: Seq<Seq<char>>, line: Seq<char>)
    requires
        reads_text(page_lines(before)),
        line.len() > 0,
        line[0] != '#' && line[0] != '-' && line[0] != '>' && line[0] != '<' && line[0] != '`',
    ensures
        ({
            let read = inline_parse(line, Seq::empty(), page_lines(before).style);
            page_with(before, line) == (PageState {
                style: read.1,
                blocks: page_lines(before).blocks.push(
                    BlockModel::Paragraph {
                        depth: page_lines(before).depth,
                        alignment: page_lines(before).alignment,
                        parts: read.0,
                    },
                ),
                ..page_lines(before)
            })
        }),
{
    lemma_page_with(before, line);
    lemma_no_instruction(line);
}

/// So it is with a heading, which is never deeper than 255.
#[verifier::rlimit(50)]
pub proof fn law_headings_have_styles(before: Seq<Seq<char>>, n: nat, content: Seq<char>)
    requires
        reads_text(page_lines(before)),
        1 <= n,
        content.len() > 0,
        content[0] != '>',
    ensures
        ({
            let read = inline_parse(content, Seq::empty(), page_lines(before).style);
            let depth: u8 = if n <= 255 {
                n as u8
            } else {
                255
            };
            page_with(before, Seq::new(n, |i: int| '>') + content) == (PageState {
                depth,
                style: read.1,
                blocks: page_lines(before).blocks.push(
                    BlockModel::Heading {
                        depth,
                        alignment: page_lines(before).alignment,
                        parts: read.0,
                    },
                ),
                ..page_lines(before)
            })
        }),
{
    let line = Seq::new(n, |i: int| '>') + content;
    lemma_page_with(before, line);
    assert(line[0] == '>');
    lemma_no_instruction(line);
    lemma_marks(n, content);
    assert(line.skip(n as int) =~= content);
}

/// A time that is no number changes nothing.
#[verifier::rlimit(50)]
pub proof fn law_bad_times_change_nothing(before: Seq<Seq<char>>, word: Seq<char>)
    requires
        is_trimmed(word),
        word[0] != '+' && !is_digit_char(word[0]),
    ensures
        page_with(before, seq!['#', '!', 'c', '='] + word) == page_lines(before),
{
    lemma_prefixes();
    law_trim_keeps_trimmed(word);
    let time = seq!['#', '!', 'c', '='] + word;
    lemma_page_with(before, time);
    assert(time.take(4) =~= "#!c="@);
    assert(time.skip(4) =~= word);
    assert(number_in(word, u64::MAX as nat).is_none());
}

/// A colour that is none takes the colour of the page away.
pub proof fn law_bad_colours_take_the_colour_away(before: Seq<Seq<char>>, word: Seq<char>)
    requires
        is_trimmed(word),
        !is_hex_char(word[0]),
    ensures
        page_with(before, seq!['#', '!', 'f', 'g', '='] + word) == (PageState {
            foreground: None,
            ..page_lines(before)
        }),
        page_with(before, seq!['#', '!', 'b', 'g', '='] + word) == (PageState {
            background: None,
            ..page_lines(before)
        }),
{
    lemma_no_colour(word);
    lemma_page_colour(before, 'f', word);
    lemma_page_colour(before, 'b', word);
}

proof fn lemma_no_colour(word: Seq<char>)
    requires
        word.len() > 0,
        !is_hex_char(word[0]),
    ensures
        colour(word).is_none(),
{
}

#[verifier::rlimit(50)]
proof fn lemma_page_colour(before: Seq<Seq<char>>, which: char, word: Seq<char>)
    requires
        which == 'f' || which == 'b',
        is_trimmed(word),
        colour(word).is_none(),
    ensures
        page_with(before, seq!['#', '!', which, 'g', '='] + word) == if which == 'f' {
            PageState { foreground: None, ..page_lines(before) }
        } else {
            PageState { background: None, ..page_lines(before) }
        },
{
    let line = seq!['#', '!', which, 'g', '='] + word;
    lemma_prefixes();
    law_trim_keeps_trimmed(word);
    lemma_page_with(before, line);
    assert(line.take(5) =~= seq!['#', '!', which, 'g', '=']);
    assert(line.take(5)[2] == which);
    assert(line.take(4)[2] == which);
    assert(line.skip(5) =~= word);
}

} // verus!
