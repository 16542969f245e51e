//! Character sequences: trimming, splitting, number reading and writing.
//!
//! Executable functions work on `&[char]` and `&str`; the specification
//! functions of the same module speak of `Seq<char>`.
use vstd::prelude::*;
use vstd::slice::*;
use vstd::string::*;
use vstd::utf8::*;

verus! {

/// `String::push` appends one character at the end.
pub assume_specification[ String::push ](s: &mut String, c: char)
    ensures
        final(s)@ == old(s)@.push(c),
;

/// `std::str::from_utf8` accepts exactly the byte sequences that are valid
/// UTF-8, and gives the text that they encode.
#[verifier::external_body]
pub(crate) fn text_from_utf8(bytes: &[u8]) -> (r: Option<&str>)
    ensures
        r.is_some() == valid_utf8(bytes@),
        r.is_some() ==> r.unwrap()@ == decode_utf8(bytes@),
{
    std::str::from_utf8(bytes).ok()
}

/// Characters with the Unicode property `White_Space`.
pub open spec fn is_white_space(c: char) -> bool {
    ||| '\u{9}' <= c <= '\u{d}'
    ||| c == ' '
    ||| c == '\u{85}'
    ||| c == '\u{a0}'
    ||| c == '\u{1680}'
    ||| '\u{2000}' <= c <= '\u{200a}'
    ||| c == '\u{2028}'
    ||| c == '\u{2029}'
    ||| c == '\u{202f}'
    ||| c == '\u{205f}'
    ||| c == '\u{3000}'
}

/// Characters of the Unicode general category `Cc`.
pub open spec fn is_control_char(c: char) -> bool {
    c <= '\u{1f}' || '\u{7f}' <= c <= '\u{9f}'
}

pub open spec fn is_digit_char(c: char) -> bool {
    '0' <= c <= '9'
}

pub open spec fn is_hex_char(c: char) -> bool {
    is_digit_char(c) || 'a' <= c <= 'f' || 'A' <= c <= 'F'
}

pub open spec fn is_alphanumeric_char(c: char) -> bool {
    is_digit_char(c) || 'a' <= c <= 'z' || 'A' <= c <= 'Z'
}

/// The ASCII lower case of one character; other characters stay.
pub open spec fn lower_char(c: char) -> char {
    if 'A' <= c <= 'Z' {
        ((c as u32 + 32) as u32) as char
    } else {
        c
    }
}

pub open spec fn lower(s: Seq<char>) -> Seq<char> {
    s.map_values(|c: char| lower_char(c))
}

pub fn white_space(c: char) -> (r: bool)
    ensures
        r == is_white_space(c),
{
    ('\u{9}' <= c && c <= '\u{d}') || c == ' ' || c == '\u{85}' || c == '\u{a0}' || c == '\u{1680}'
        || ('\u{2000}' <= c && c <= '\u{200a}') || c == '\u{2028}' || c == '\u{2029}'
        || c == '\u{202f}' || c == '\u{205f}' || c == '\u{3000}'
}

pub fn control_char(c: char) -> (r: bool)
    ensures
        r == is_control_char(c),
{
    c <= '\u{1f}' || ('\u{7f}' <= c && c <= '\u{9f}')
}

pub fn digit_char(c: char) -> (r: bool)
    ensures
        r == is_digit_char(c),
{
    '0' <= c && c <= '9'
}

pub fn hex_char(c: char) -> (r: bool)
    ensures
        r == is_hex_char(c),
{
    digit_char(c) || ('a' <= c && c <= 'f') || ('A' <= c && c <= 'F')
}

pub fn alphanumeric_char(c: char) -> (r: bool)
    ensures
        r == is_alphanumeric_char(c),
{
    digit_char(c) || ('a' <= c && c <= 'z') || ('A' <= c && c <= 'Z')
}

pub fn ascii_lower(c: char) -> (r: char)
    ensures
        r == lower_char(c),
{
    if 'A' <= c && c <= 'Z' {
        (c as u8 + 32) as char
    } else {
        c
    }
}

/// The characters of a string, in order.
pub fn chars_of(s: &str) -> (r: Vec<char>)
    ensures
        r@ == s@,
{
    let mut out: Vec<char> = Vec::new();
    for c in it: s.chars()
        invariant
            out@ == it.seq().take(it.index()),
            it.seq() == s@,
    {
        out.push(c);
        assert(it.seq().take(it.index()).push(c) =~= it.seq().take(it.index() + 1));
    }
    assert(out@ =~= s@);
    out
}

/// The number of bytes of a text in UTF-8.
pub fn byte_len(s: &str) -> (r: usize)
    ensures
        r == encode_utf8(s@).len(),
{
    s.as_bytes().len()
}

/// A text has no more characters than bytes.
pub proof fn lemma_utf8_is_not_shorter(s: Seq<char>)
    ensures
        s.len() <= encode_utf8(s).len(),
    decreases s.len(),
{
    if s.len() > 0 {
        lemma_utf8_is_not_shorter(s.drop_first());
        assert(encode_scalar(s[0] as u32).len() >= 1);
    }
}

/// The string made of the given characters.
pub fn string_of(chars: &[char]) -> (r: String)
    ensures
        r@ == chars@,
{
    let mut out = String::new();
    for i in 0..chars.len()
        invariant
            out@ == chars@.take(i as int),
    {
        out.push(chars[i]);
        assert(chars@.take(i as int).push(chars@[i as int]) =~= chars@.take(i + 1));
    }
    assert(out@ =~= chars@);
    out
}

/// What is left of `s` once the leading characters that satisfy `p` are gone.
pub open spec fn skip_while(s: Seq<char>, p: spec_fn(char) -> bool) -> Seq<char>
    decreases s.len(),
{
    if s.len() > 0 && p(s[0]) {
        skip_while(s.drop_first(), p)
    } else {
        s
    }
}

/// What is left of `s` once the trailing characters that satisfy `p` are gone.
pub open spec fn skip_back_while(s: Seq<char>, p: spec_fn(char) -> bool) -> Seq<char>
    decreases s.len(),
{
    if s.len() > 0 && p(s.last()) {
        skip_back_while(s.drop_last(), p)
    } else {
        s
    }
}

pub open spec fn trim_where(s: Seq<char>, p: spec_fn(char) -> bool) -> Seq<char> {
    skip_back_while(skip_while(s, p), p)
}

/// `s` without leading and trailing white space.
pub open spec fn trim(s: Seq<char>) -> Seq<char> {
    trim_where(s, |c: char| is_white_space(c))
}

/// `s` without leading and trailing occurrences of `mark`.
pub open spec fn trim_mark(s: Seq<char>, mark: char) -> Seq<char> {
    trim_where(s, equals(mark))
}

pub open spec fn equals(mark: char) -> spec_fn(char) -> bool {
    |c: char| c == mark
}

pub proof fn lemma_trim_ends(s: Seq<char>)
    ensures
        trim(s).len() > 0 ==> !is_white_space(trim(s)[0]) && !is_white_space(trim(s).last()),
{
    let p = |c: char| is_white_space(c);
    lemma_skip_while(s, p);
    lemma_skip_back_while(skip_while(s, p), p);
}

proof fn lemma_skip_while(s: Seq<char>, p: spec_fn(char) -> bool)
    ensures
        skip_while(s, p).len() > 0 ==> !p(skip_while(s, p)[0]),
    decreases s.len(),
{
    if s.len() > 0 && p(s[0]) {
        lemma_skip_while(s.drop_first(), p);
    }
}

proof fn lemma_skip_back_while(s: Seq<char>, p: spec_fn(char) -> bool)
    ensures
        skip_back_while(s, p).len() > 0 ==> !p(skip_back_while(s, p).last()) && skip_back_while(
            s,
            p,
        )[0] == s[0],
    decreases s.len(),
{
    if s.len() > 0 && p(s.last()) {
        lemma_skip_back_while(s.drop_last(), p);
    }
}

/// A text without white space at its ends stays as it is.
pub proof fn law_trim_keeps_trimmed(s: Seq<char>)
    requires
        s.len() > 0 ==> !is_white_space(s[0]) && !is_white_space(s.last()),
    ensures
        trim(s) == s,
{
}

/// Trimming twice is trimming once.
pub proof fn law_trim_is_idempotent(s: Seq<char>)
    ensures
        trim(trim(s)) == trim(s),
{
    lemma_trim_ends(s);
    law_trim_keeps_trimmed(trim(s));
}

pub fn trim_chars(s: &[char]) -> (r: &[char])
    ensures
        r@ == trim(s@),
        r@.len() <= s@.len(),
{
    let ghost p = |c: char| is_white_space(c);
    let mut from: usize = 0;
    assert(s@.skip(0) =~= s@);
    while from < s.len() && white_space(s[from])
        invariant
            from <= s@.len(),
            skip_while(s@, p) == skip_while(s@.skip(from as int), p),
            p == (|c: char| is_white_space(c)),
        decreases s@.len() - from,
    {
        assert(s@.skip(from as int).drop_first() =~= s@.skip(from + 1));
        from = from + 1;
    }
    let ghost rest = s@.skip(from as int);
    assert(skip_while(s@, p) == rest);
    let mut to: usize = s.len();
    assert(s@.subrange(from as int, to as int) =~= rest);
    while to > from && white_space(s[to - 1])
        invariant
            from <= to <= s@.len(),
            skip_back_while(rest, p) == skip_back_while(s@.subrange(from as int, to as int), p),
            p == (|c: char| is_white_space(c)),
        decreases to,
    {
        assert(s@.subrange(from as int, to as int).drop_last() =~= s@.subrange(
            from as int,
            to - 1,
        ));
        to = to - 1;
    }
    slice_subrange(s, from, to)
}

pub fn trim_mark_chars(s: &[char], mark: char) -> (r: &[char])
    ensures
        r@ == trim_mark(s@, mark),
        r@.len() <= s@.len(),
{
    let ghost p = equals(mark);
    let mut from: usize = 0;
    assert(s@.skip(0) =~= s@);
    while from < s.len() && s[from] == mark
        invariant
            from <= s@.len(),
            skip_while(s@, p) == skip_while(s@.skip(from as int), p),
            p == equals(mark),
        decreases s@.len() - from,
    {
        assert(s@.skip(from as int).drop_first() =~= s@.skip(from + 1));
        from = from + 1;
    }
    let ghost rest = s@.skip(from as int);
    assert(skip_while(s@, p) == rest);
    let mut to: usize = s.len();
    assert(s@.subrange(from as int, to as int) =~= rest);
    while to > from && s[to - 1] == mark
        invariant
            from <= to <= s@.len(),
            skip_back_while(rest, p) == skip_back_while(s@.subrange(from as int, to as int), p),
            p == equals(mark),
        decreases to,
    {
        assert(s@.subrange(from as int, to as int).drop_last() =~= s@.subrange(
            from as int,
            to - 1,
        ));
        to = to - 1;
    }
    slice_subrange(s, from, to)
}

/// The position of the first `c` in `s`, or the length of `s` without one.
pub open spec fn find_char(s: Seq<char>, c: char) -> nat
    decreases s.len(),
{
    if s.len() == 0 || s[0] == c {
        0
    } else {
        1 + find_char(s.drop_first(), c)
    }
}

pub proof fn lemma_find_char(s: Seq<char>, c: char)
    ensures
        find_char(s, c) <= s.len(),
        find_char(s, c) < s.len() ==> s[find_char(s, c) as int] == c,
        find_char(s, c) < s.len() <==> s.contains(c),
        forall|i: int| 0 <= i < find_char(s, c) ==> s[i] != c,
    decreases s.len(),
{
    if s.len() > 0 && s[0] != c {
        lemma_find_char(s.drop_first(), c);
        assert forall|i: int| 0 <= i < find_char(s, c) implies s[i] != c by {
            if i > 0 {
                assert(s[i] == s.drop_first()[i - 1]);
            }
        }
        assert(s.contains(c) == s.drop_first().contains(c)) by {
            if s.contains(c) {
                let i = choose|i: int| 0 <= i < s.len() && s[i] == c;
                assert(s.drop_first()[i - 1] == c);
            }
            if s.drop_first().contains(c) {
                let i = choose|i: int| 0 <= i < s.drop_first().len() && s.drop_first()[i] == c;
                assert(s[i + 1] == c);
            }
        }
    }
}

/// The position found is the only one with `c` in it and no `c` before it.
pub proof fn lemma_find_char_at(s: Seq<char>, c: char, n: int)
    requires
        0 <= n <= s.len(),
        forall|i: int| 0 <= i < n ==> s[i] != c,
        n < s.len() ==> s[n] == c,
    ensures
        find_char(s, c) == n,
    decreases s.len(),
{
    if n > 0 {
        assert(s[0] != c);
        lemma_find_char_at(s.drop_first(), c, n - 1);
    }
}

pub fn find_in(s: &[char], c: char) -> (r: usize)
    ensures
        r == find_char(s@, c),
        r <= s@.len(),
{
    let mut i: usize = 0;
    while i < s.len() && s[i] != c
        invariant
            i <= s@.len(),
            forall|j: int| 0 <= j < i ==> s@[j] != c,
        decreases s@.len() - i,
    {
        i = i + 1;
    }
    proof {
        lemma_find_char_at(s@, c, i as int);
    }
    i
}

pub fn has_char(s: &[char], c: char) -> (r: bool)
    ensures
        r == s@.contains(c),
{
    proof {
        lemma_find_char(s@, c);
    }
    find_in(s, c) < s.len()
}

/// The views of a sequence of slices.
pub open spec fn views(parts: Seq<&[char]>) -> Seq<Seq<char>> {
    parts.map_values(|part: &[char]| part@)
}

/// The parts of `s` between the occurrences of `mark`; there is always one.
pub open spec fn split(s: Seq<char>, mark: char) -> Seq<Seq<char>>
    decreases s.len(),
{
    let n = find_char(s, mark) as int;
    if n < s.len() {
        seq![s.take(n)] + split(s.skip(n + 1), mark)
    } else {
        seq![s]
    }
}

pub fn split_at_mark(s: &[char], mark: char) -> (r: Vec<&[char]>)
    ensures
        views(r@) == split(s@, mark),
        r@.len() >= 1,
        forall|i: int| 0 <= i < r@.len() ==> #[trigger] r@[i]@.len() <= s@.len(),
{
    let mut out: Vec<&[char]> = Vec::new();
    let mut from: usize = 0;
    let mut n: usize = find_in(s, mark);
    proof {
        assert(s@.skip(0) =~= s@);
        assert(views(out@) + split(s@.skip(0), mark) =~= split(s@, mark));
    }
    while n < s.len() - from
        invariant
            from <= s@.len(),
            n == find_char(s@.skip(from as int), mark),
            n <= s@.len() - from,
            views(out@) + split(s@.skip(from as int), mark) == split(s@, mark),
            forall|i: int| 0 <= i < out@.len() ==> #[trigger] out@[i]@.len() <= s@.len(),
        decreases s@.len() - from,
    {
        let ghost before = out@;
        let part = slice_subrange(s, from, from + n);
        out.push(part);
        proof {
            assert(part@ =~= s@.skip(from as int).take(n as int));
            assert(s@.skip(from as int).skip(n + 1) =~= s@.skip(from + n + 1));
            assert(views(out@) =~= views(before).push(part@));
            assert(views(out@) + split(s@.skip(from + n + 1), mark) =~= views(before) + split(
                s@.skip(from as int),
                mark,
            ));
        }
        from = from + n + 1;
        n = find_in(slice_subrange(s, from, s.len()), mark);
        assert(s@.subrange(from as int, s@.len() as int) =~= s@.skip(from as int));
    }
    let ghost before = out@;
    let part = slice_subrange(s, from, s.len());
    out.push(part);
    proof {
        assert(part@ =~= s@.skip(from as int));
        assert(views(out@) =~= views(before) + split(s@.skip(from as int), mark));
    }
    out
}

/// A line without the carriage return that stands before its line feed.
pub open spec fn without_return(s: Seq<char>) -> Seq<char> {
    if s.len() > 0 && s.last() == '\r' {
        s.drop_last()
    } else {
        s
    }
}

/// The lines of `s`. A line ends with a line feed, or with a carriage return
/// and a line feed; the last one may end without either.
pub open spec fn lines(s: Seq<char>) -> Seq<Seq<char>>
    decreases s.len(),
{
    let n = find_char(s, '\n') as int;
    if s.len() == 0 {
        Seq::empty()
    } else if n < s.len() {
        seq![without_return(s.take(n))] + lines(s.skip(n + 1))
    } else {
        seq![s]
    }
}

pub fn lines_of(s: &[char]) -> (r: Vec<&[char]>)
    ensures
        views(r@) == lines(s@),
{
    let mut out: Vec<&[char]> = Vec::new();
    let mut from: usize = 0;
    proof {
        assert(s@.skip(0) =~= s@);
        assert(views(out@) + lines(s@) =~= lines(s@));
    }
    while from < s.len()
        invariant
            from <= s@.len(),
            views(out@) + lines(s@.skip(from as int)) == lines(s@),
        decreases s@.len() - from,
    {
        let rest = slice_subrange(s, from, s.len());
        assert(rest@ =~= s@.skip(from as int));
        let n: usize = find_in(rest, '\n');
        let ghost before = out@;
        if n < rest.len() {
            let part = if n > 0 && rest[n - 1] == '\r' {
                slice_subrange(rest, 0, n - 1)
            } else {
                slice_subrange(rest, 0, n)
            };
            out.push(part);
            proof {
                assert(part@ =~= without_return(rest@.take(n as int)));
                assert(rest@.skip(n + 1) =~= s@.skip(from + n + 1));
                assert(views(out@) =~= views(before).push(part@));
                assert(views(out@) + lines(s@.skip(from + n + 1)) =~= views(before) + lines(
                    rest@,
                ));
            }
            from = from + n + 1;
        } else {
            out.push(rest);
            proof {
                assert(s@.skip(s@.len() as int) =~= Seq::empty());
                assert(views(out@) + lines(Seq::empty()) =~= views(before) + lines(rest@));
            }
            from = s.len();
        }
    }
    proof {
        assert(s@.skip(from as int) =~= Seq::empty());
        assert(views(out@) + lines(Seq::empty()) =~= views(out@));
    }
    out
}

pub fn lower_of(s: &[char]) -> (r: Vec<char>)
    ensures
        r@ == lower(s@),
{
    let mut out: Vec<char> = Vec::new();
    for i in 0..s.len()
        invariant
            out@ == lower(s@.take(i as int)),
    {
        out.push(ascii_lower(s[i]));
        assert(out@ =~= lower(s@.take(i + 1)));
    }
    assert(s@.take(s@.len() as int) =~= s@);
    out
}

pub fn same_chars(a: &[char], b: &[char]) -> (r: bool)
    ensures
        r == (a@ == b@),
{
    if a.len() != b.len() {
        return false;
    }
    for i in 0..a.len()
        invariant
            a@.len() == b@.len(),
            forall|j: int| 0 <= j < i ==> a@[j] == b@[j],
    {
        if a[i] != b[i] {
            return false;
        }
    }
    assert(a@ =~= b@);
    true
}

pub fn same_text(a: &str, b: &str) -> (r: bool)
    ensures
        r == (a@ == b@),
{
    let left = chars_of(a);
    let right = chars_of(b);
    same_chars(&left, &right)
}

/// Whether `s` begins with `prefix`.
pub open spec fn starts_with(s: Seq<char>, prefix: Seq<char>) -> bool {
    prefix.len() <= s.len() && s.take(prefix.len() as int) == prefix
}

/// `s` without `prefix`, where it begins with it.
pub fn strip_prefix<'a>(s: &'a [char], prefix: &str) -> (r: Option<&'a [char]>)
    ensures
        r.is_some() == starts_with(s@, prefix@),
        r.is_some() ==> r.unwrap()@ == s@.skip(prefix@.len() as int),
{
    let head = chars_of(prefix);
    if s.len() < head.len() {
        return None;
    }
    let start = slice_subrange(s, 0, head.len());
    assert(start@ =~= s@.take(prefix@.len() as int));
    if same_chars(start, &head) {
        let rest = slice_subrange(s, head.len(), s.len());
        assert(rest@ =~= s@.skip(prefix@.len() as int));
        Some(rest)
    } else {
        None
    }
}

pub open spec fn digit_value(c: char) -> nat {
    if is_digit_char(c) {
        (c as nat - '0' as nat) as nat
    } else {
        0
    }
}

pub open spec fn all_digits(s: Seq<char>) -> bool {
    forall|i: int| 0 <= i < s.len() ==> is_digit_char(#[trigger] s[i])
}

/// The number that a sequence of decimal digits writes.
pub open spec fn digits_value(s: Seq<char>) -> nat
    decreases s.len(),
{
    if s.len() == 0 {
        0
    } else {
        digits_value(s.drop_last()) * 10 + digit_value(s.last())
    }
}

/// The unsigned number that `s` writes, if it is one and at most `max`: an
/// optional plus sign, then one decimal digit or more.
pub open spec fn number_in(s: Seq<char>, max: nat) -> Option<nat> {
    let digits = if s.len() > 0 && s[0] == '+' {
        s.drop_first()
    } else {
        s
    };
    if digits.len() > 0 && all_digits(digits) && digits_value(digits) <= max {
        Some(digits_value(digits))
    } else {
        None
    }
}

proof fn lemma_digits_value_grows(s: Seq<char>, n: int)
    requires
        0 <= n <= s.len(),
    ensures
        digits_value(s.take(n)) <= digits_value(s),
    decreases s.len() - n,
{
    if n == s.len() {
        assert(s.take(n) =~= s);
    } else {
        lemma_digits_value_grows(s, n + 1);
        assert(s.take(n + 1).drop_last() =~= s.take(n));
    }
}

pub fn read_number(s: &[char], max: u64) -> (r: Option<u64>)
    ensures
        r.is_some() == number_in(s@, max as nat).is_some(),
        r.is_some() ==> r.unwrap() == number_in(s@, max as nat).unwrap(),
{
    let signed = s.len() > 0 && s[0] == '+';
    let digits = if signed {
        slice_subrange(s, 1, s.len())
    } else {
        s
    };
    assert(signed ==> digits@ =~= s@.drop_first());
    if digits.len() == 0 {
        return None;
    }
    let mut value: u64 = 0;
    for i in 0..digits.len()
        invariant
            digits@.len() > 0,
            digits@ == if s@.len() > 0 && s@[0] == '+' {
                s@.drop_first()
            } else {
                s@
            },
            value == digits_value(digits@.take(i as int)),
            value <= max,
            forall|j: int| 0 <= j < i ==> is_digit_char(#[trigger] digits@[j]),
    {
        let c = digits[i];
        if !digit_char(c) {
            return None;
        }
        let d: u64 = (c as u32 - '0' as u32) as u64;
        proof {
            assert(digits@.take(i + 1).drop_last() =~= digits@.take(i as int));
            assert(digits_value(digits@.take(i + 1)) == value * 10 + d);
            lemma_digits_value_grows(digits@, i + 1);
        }
        if value > max / 10 || d > max - value * 10 {
            return None;
        }
        value = value * 10 + d;
    }
    assert(digits@.take(digits@.len() as int) =~= digits@);
    Some(value)
}

/// The decimal digit for a number under ten.
pub open spec fn digit_of(n: nat) -> char {
    ((n % 10 + 48) as u8) as char
}

/// `n` written in decimal digits, without leading zeros.
pub open spec fn decimal(n: nat) -> Seq<char>
    decreases n,
{
    if n < 10 {
        seq![digit_of(n)]
    } else {
        decimal(n / 10).push(digit_of(n))
    }
}

pub fn push_decimal(out: &mut String, n: u64)
    ensures
        final(out)@ == old(out)@ + decimal(n as nat),
    decreases n,
{
    if n >= 10 {
        push_decimal(out, n / 10);
    }
    out.push(((n % 10) as u8 + 48) as char);
    assert(out@ =~= old(out)@ + decimal(n as nat));
}

pub fn decimal_text(n: u64) -> (r: String)
    ensures
        r@ == decimal(n as nat),
{
    let mut out = String::new();
    push_decimal(&mut out, n);
    assert(out@ =~= decimal(n as nat));
    out
}

/// What is written in decimal digits is read back.
pub proof fn law_decimal_is_read_back(n: nat, max: nat)
    requires
        n <= max,
    ensures
        number_in(decimal(n), max) == Some(n),
{
    lemma_decimal(n);
}

pub proof fn lemma_decimal(n: nat)
    ensures
        decimal(n).len() > 0,
        all_digits(decimal(n)),
        digits_value(decimal(n)) == n,
        decimal(n)[0] != '+',
    decreases n,
{
    assert(digit_value(digit_of(n)) == n % 10);
    if n >= 10 {
        lemma_decimal(n / 10);
        assert(decimal(n).drop_last() =~= decimal(n / 10));
    } else {
        assert(decimal(n).drop_last() =~= Seq::empty());
        assert(digits_value(Seq::empty()) == 0);
        reveal_with_fuel(digits_value, 2);
    }
}

/// The first `n` characters of `s`, or all of them.
pub open spec fn first_chars(s: Seq<char>, n: nat) -> Seq<char> {
    if s.len() > n {
        s.take(n as int)
    } else {
        s
    }
}

/// `s` without control characters, cut after `n` characters, without
/// surrounding space.
pub open spec fn clean_name(s: Seq<char>, n: nat) -> Seq<char> {
    trim(first_chars(s.filter(|c: char| !is_control_char(c)), n))
}

pub fn clean_name_of(s: &str, n: usize) -> (r: String)
    ensures
        r@ == clean_name(s@, n as nat),
{
    let all = chars_of(s);
    let mut kept: Vec<char> = Vec::new();
    let ghost p = |c: char| !is_control_char(c);
    for i in 0..all.len()
        invariant
            p == (|c: char| !is_control_char(c)),
            kept@ == all@.take(i as int).filter(p),
    {
        proof {
            assert(all@.take(i + 1).drop_last() =~= all@.take(i as int));
            reveal(Seq::filter);
        }
        if !control_char(all[i]) {
            kept.push(all[i]);
        }
    }
    assert(all@.take(all@.len() as int) =~= all@);
    if kept.len() > n {
        kept.truncate(n);
    }
    assert(kept@ =~= first_chars(s@.filter(p), n as nat));
    string_of(trim_chars(&kept))
}

pub fn trim_text(s: &str) -> (r: String)
    ensures
        r@ == trim(s@),
{
    let all = chars_of(s);
    string_of(trim_chars(&all))
}

pub fn lower_text(s: &str) -> (r: String)
    ensures
        r@ == lower(s@),
{
    let all = chars_of(s);
    let small = lower_of(&all);
    string_of(&small)
}

/// Whether some character of `s` is a control character.
pub open spec fn has_control(s: Seq<char>) -> bool {
    exists|i: int| 0 <= i < s.len() && is_control_char(#[trigger] s[i])
}

pub fn text_has_control(s: &str) -> (r: bool)
    ensures
        r == has_control(s@),
{
    let all = chars_of(s);
    for i in 0..all.len()
        invariant
            all@ == s@,
            forall|j: int| 0 <= j < i ==> !is_control_char(#[trigger] all@[j]),
    {
        if control_char(all[i]) {
            assert(is_control_char(s@[i as int]));
            return true;
        }
    }
    false
}

} // verus!
