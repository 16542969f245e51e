//! Laws of texts: the kinds of characters, white space, lines, parts and numbers.
use vstd::prelude::*;

use crate::hexadecimal::is_hash_text;
use crate::table::text_less;
use crate::text::{
    all_digits, clean_name, decimal, digit_of, digit_value, digits_value, first_chars,
    is_alphanumeric_char, is_control_char, is_digit_char, is_hex_char, is_white_space,
    law_trim_keeps_trimmed, lemma_find_char, lemma_find_char_at, lines, lower, lower_char,
    number_in, skip_back_while, skip_while, split, starts_with, trim, without_return,
};

verus! {

/// Whether a text is made of white space alone.
pub open spec fn is_blank(s: Seq<char>) -> bool {
    forall|i: int| 0 <= i < s.len() ==> is_white_space(#[trigger] s[i])
}

/// Whether a text is not empty and has no white space at its ends.
pub open spec fn is_trimmed(s: Seq<char>) -> bool {
    s.len() > 0 && !is_white_space(s[0]) && !is_white_space(s.last())
}

pub proof fn lemma_skip_blank(a: Seq<char>, s: Seq<char>)
    requires
        is_blank(a),
    ensures
        skip_while(a + s, |c: char| is_white_space(c)) == skip_while(
            s,
            |c: char| is_white_space(c),
        ),
    decreases a.len(),
{
    if a.len() == 0 {
        assert(a + s =~= s);
    } else {
        assert((a + s)[0] == a[0]);
        assert((a + s).drop_first() =~= a.drop_first() + s);
        assert forall|i: int| 0 <= i < a.drop_first().len() implies is_white_space(
            #[trigger] a.drop_first()[i],
        ) by {
            assert(a.drop_first()[i] == a[i + 1]);
        }
        lemma_skip_blank(a.drop_first(), s);
    }
}

proof fn lemma_skip_back_blank(s: Seq<char>, b: Seq<char>)
    requires
        is_blank(b),
    ensures
        skip_back_while(s + b, |c: char| is_white_space(c)) == skip_back_while(
            s,
            |c: char| is_white_space(c),
        ),
    decreases b.len(),
{
    if b.len() == 0 {
        assert(s + b =~= s);
    } else {
        assert((s + b).last() == b.last());
        assert(b.last() == b[b.len() - 1]);
        assert((s + b).drop_last() =~= s + b.drop_last());
        assert forall|i: int| 0 <= i < b.drop_last().len() implies is_white_space(
            #[trigger] b.drop_last()[i],
        ) by {
            assert(b.drop_last()[i] == b[i]);
        }
        lemma_skip_back_blank(s, b.drop_last());
    }
}

/// White space around a text is dropped, and nothing else is.
pub proof fn law_trim_drops_white_space(a: Seq<char>, s: Seq<char>, b: Seq<char>)
    requires
        is_blank(a),
        is_blank(b),
        is_trimmed(s),
    ensures
        trim(a + s + b) == s,
{
    let p = |c: char| is_white_space(c);
    assert(a + s + b =~= a + (s + b));
    lemma_skip_blank(a, s + b);
    assert((s + b)[0] == s[0]);
    lemma_skip_back_blank(s, b);
    law_trim_keeps_trimmed(s);
    assert(skip_while(s, p) == s);
}

/// Of white space alone nothing is left.
pub proof fn law_blank_is_trimmed_away(a: Seq<char>)
    requires
        is_blank(a),
    ensures
        trim(a) == Seq::<char>::empty(),
{
    lemma_skip_blank(a, Seq::empty());
    assert(a + Seq::<char>::empty() =~= a);
}

/// White space is the space, the tab, the ends of lines and the like, and never a
/// letter, a digit or a mark of punctuation.
pub proof fn law_white_space_is_no_letter(c: char)
    ensures
        c == ' ' || c == '\t' || c == '\n' || c == '\r' ==> is_white_space(c),
        '!' <= c <= '~' ==> !is_white_space(c),
        is_control_char(c) <==> (c <= '\u{1f}' || '\u{7f}' <= c <= '\u{9f}'),
{
}

/// Letters and digits are those of ASCII; of them the digits and the letters up to F, of
/// either case, are hexadecimal.
pub proof fn law_letters_and_digits(c: char)
    ensures
        is_digit_char(c) <==> '0' <= c <= '9',
        is_alphanumeric_char(c) <==> '0' <= c <= '9' || 'a' <= c <= 'z' || 'A' <= c <= 'Z',
        is_hex_char(c) <==> '0' <= c <= '9' || 'a' <= c <= 'f' || 'A' <= c <= 'F',
{
}

/// In lower case a capital letter is the small one, and every other character is what it
/// was.
pub proof fn law_capitals_become_small(c: char, s: Seq<char>, i: int)
    ensures
        'A' <= c <= 'Z' ==> lower_char(c) as int == c as int + 32,
        !('A' <= c <= 'Z') ==> lower_char(c) == c,
        lower(s).len() == s.len(),
        0 <= i < s.len() ==> lower(s)[i] == lower_char(s[i]),
{
    if 'A' <= c <= 'Z' {
        let n = c as u32;
        assert(65 <= n <= 90);
        assert(((n + 32) as u32) as char as u32 == n + 32);
    }
}

/// An address is 32 hexadecimal digits, and nothing else is one.
pub proof fn law_addresses_are_hexadecimal(s: Seq<char>, i: int)
    ensures
        is_hash_text(s) ==> s.len() == 32,
        s.len() == 32 && (forall|j: int| 0 <= j < s.len() ==> is_hex_char(#[trigger] s[j]))
            ==> is_hash_text(s),
        0 <= i < s.len() && !is_hex_char(s[i]) ==> !is_hash_text(s),
{
}

/// A text is cut into lines at the ends of lines, of either kind, and an end of line at
/// its very end opens no further line.
pub proof fn law_texts_are_cut_into_lines(line: Seq<char>, rest: Seq<char>)
    requires
        !line.contains('\n'),
    ensures
        lines(line + seq!['\n'] + rest) == seq![without_return(line)] + lines(rest),
        line.len() > 0 ==> lines(line) == seq![line],
        lines(Seq::empty()) == Seq::<Seq<char>>::empty(),
        without_return(line + seq!['\r']) == line,
        line.len() > 0 && line.last() != '\r' ==> without_return(line) == line,
{
    let s = line + seq!['\n'] + rest;
    assert forall|i: int| 0 <= i < line.len() implies s[i] != '\n' by {
        assert(s[i] == line[i]);
        assert(line.contains(line[i]));
    }
    assert(s[line.len() as int] == '\n');
    lemma_find_char_at(s, '\n', line.len() as int);
    assert(s.take(line.len() as int) =~= line);
    assert(s.skip(line.len() as int + 1) =~= rest);
    lemma_find_char(line, '\n');
    assert((line + seq!['\r']).drop_last() =~= line);
}

/// A text is cut into parts at every mark, empty ones among them.
pub proof fn law_texts_are_cut_at_marks(part: Seq<char>, mark: char, rest: Seq<char>)
    requires
        !part.contains(mark),
    ensures
        split(part, mark) == seq![part],
        split(part + seq![mark] + rest, mark) == seq![part] + split(rest, mark),
{
    let s = part + seq![mark] + rest;
    assert forall|i: int| 0 <= i < part.len() implies s[i] != mark by {
        assert(s[i] == part[i]);
        assert(part.contains(part[i]));
    }
    assert(s[part.len() as int] == mark);
    lemma_find_char_at(s, mark, part.len() as int);
    assert(s.take(part.len() as int) =~= part);
    assert(s.skip(part.len() as int + 1) =~= rest);
    lemma_find_char(part, mark);
}

/// Numbers are written and read in tens.
pub proof fn law_numbers_are_in_tens(n: nat, d: nat, s: Seq<char>, c: char)
    requires
        d < 10,
    ensures
        n > 0 ==> decimal(10 * n + d) == decimal(n).push(digit_of(d)),
        decimal(d) == seq![digit_of(d)],
        digit_of(d) as int == '0' as int + d,
        digits_value(s.push(c)) == 10 * digits_value(s) + digit_value(c),
        is_digit_char(c) ==> digit_value(c) == c as int - '0' as int,
        digits_value(Seq::empty()) == 0,
{
    if n > 0 {
        assert((10 * n + d) / 10 == n);
        assert((10 * n + d) % 10 == d);
        assert(digit_of(10 * n + d) == digit_of(d));
    }
    assert(s.push(c).drop_last() =~= s);
    assert(((d + 48) as u8) as char as int == 48 + d);
}

/// A number may have a plus before it; anything but digits, nothing at all, and a number
/// that is too large, is none.
pub proof fn law_only_digits_are_numbers(s: Seq<char>, max: nat, i: int)
    ensures
        s.len() > 0 && all_digits(s) && digits_value(s) <= max ==> number_in(s, max) == Some(
            digits_value(s),
        ) && number_in(seq!['+'] + s, max) == Some(digits_value(s)),
        s.len() > 0 && all_digits(s) && digits_value(s) > max ==> number_in(s, max).is_none(),
        0 < i < s.len() && !is_digit_char(s[i]) ==> number_in(s, max).is_none(),
        number_in(Seq::empty(), max).is_none(),
{
    if s.len() > 0 && all_digits(s) {
        assert(is_digit_char(s[0]));
        assert((seq!['+'] + s).drop_first() =~= s);
    }
    if 0 < i < s.len() && !is_digit_char(s[i]) {
        assert(s.drop_first()[i - 1] == s[i]);
    }
}

/// A name is shown without control characters and without white space at its ends, and
/// no longer than it may be.
pub proof fn law_names_are_cleaned(s: Seq<char>, n: nat)
    ensures
        is_trimmed(s) && s.len() <= n && (forall|i: int|
            0 <= i < s.len() ==> !is_control_char(#[trigger] s[i])) ==> clean_name(s, n) == s,
        first_chars(s, n).len() <= n,
        s.len() <= n ==> first_chars(s, n) == s,
        s.len() > n ==> first_chars(s, n) == s.take(n as int),
{
    if is_trimmed(s) && s.len() <= n && (forall|i: int|
        0 <= i < s.len() ==> !is_control_char(#[trigger] s[i])) {
        lemma_all_stay(s);
        law_trim_keeps_trimmed(s);
    }
}

proof fn lemma_all_stay(s: Seq<char>)
    requires
        forall|i: int| 0 <= i < s.len() ==> !is_control_char(#[trigger] s[i]),
    ensures
        s.filter(|c: char| !is_control_char(c)) == s,
    decreases s.len(),
{
    let p = |c: char| !is_control_char(c);
    reveal(Seq::filter);
    if s.len() > 0 {
        assert forall|i: int| 0 <= i < s.drop_last().len() implies !is_control_char(
            #[trigger] s.drop_last()[i],
        ) by {
            assert(s.drop_last()[i] == s[i]);
        }
        lemma_all_stay(s.drop_last());
        assert(p(s[s.len() - 1]));
        assert(s.drop_last().push(s.last()) =~= s);
    } else {
        assert(s.filter(p) =~= s);
    }
}

/// The control characters of a name go, wherever they stand.
pub proof fn law_control_characters_go(a: Seq<char>, c: char, n: nat)
    requires
        is_control_char(c),
    ensures
        clean_name(a.push(c), n) == clean_name(a, n),
{
    reveal(Seq::filter);
    assert(a.push(c).drop_last() =~= a);
}

/// A text begins with what stands at its beginning.
pub proof fn law_beginnings(a: Seq<char>, b: Seq<char>)
    ensures
        starts_with(a + b, a),
        b.len() < a.len() ==> !starts_with(b, a),
{
    assert((a + b).take(a.len() as int) =~= a);
}

/// Texts are ordered by the first character in which they differ, and a beginning comes
/// before what goes on.
pub proof fn law_texts_are_ordered(s: Seq<char>, x: char, a: Seq<char>, y: char, b: Seq<char>)
    ensures
        text_less(s + seq![x] + a, s + seq![y] + b) <==> x < y || (x == y && text_less(a, b)),
        text_less(s, s + seq![x]),
    decreases s.len(),
{
    let p = s + seq![x] + a;
    let q = s + seq![y] + b;
    if s.len() == 0 {
        assert(p[0] == x && q[0] == y);
        assert(p.drop_first() =~= a);
        assert(q.drop_first() =~= b);
    } else {
        assert(p[0] == s[0] && q[0] == s[0]);
        assert(p.drop_first() =~= s.drop_first() + seq![x] + a);
        assert(q.drop_first() =~= s.drop_first() + seq![y] + b);
        assert((s + seq![x]).drop_first() =~= s.drop_first() + seq![x]);
        law_texts_are_ordered(s.drop_first(), x, a, y, b);
    }
}

} // verus!
