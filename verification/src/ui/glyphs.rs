//! Texts as the terminal shows them: in clusters of characters, each some cells
//! wide.
use vstd::prelude::*;
use vstd::string::*;

use unicode_segmentation::UnicodeSegmentation;
use unicode_width::UnicodeWidthStr;

use crate::browser::text_views;

verus! {

/// The parts one after the other.
pub open spec fn all_joined(parts: Seq<Seq<char>>) -> Seq<char>
    decreases parts.len(),
{
    if parts.len() == 0 {
        Seq::empty()
    } else {
        all_joined(parts.drop_last()) + parts.last()
    }
}

/// The extended grapheme clusters of a text, as
/// `unicode_segmentation::UnicodeSegmentation::graphemes` finds them.
pub uninterp spec fn graphemes_in(text: Seq<char>) -> Seq<Seq<char>>;

/// The number of terminal cells of a text, as
/// `unicode_width::UnicodeWidthStr::width` counts them.
pub uninterp spec fn cells_in(text: Seq<char>) -> usize;

/// `unicode_segmentation::UnicodeSegmentation::graphemes` with extended clusters:
/// the clusters depend on the text alone, none is empty, and they make up the text.
/// Where they begin is left unsaid.
#[verifier::external_body]
pub(crate) fn graphemes_of(text: &str) -> (r: Vec<String>)
    ensures
        text_views(r@) == graphemes_in(text@),
        all_joined(text_views(r@)) == text@,
        forall|i: int| 0 <= i < r@.len() ==> (#[trigger] r@[i])@.len() > 0,
{
    text.graphemes(true).map(|cluster| cluster.to_string()).collect()
}

/// `unicode_width::UnicodeWidthStr::width`: the number of cells depends on the text
/// alone. How many cells each character takes is left unsaid.
#[verifier::external_body]
pub(crate) fn cells_of(text: &str) -> (r: usize)
    ensures
        r == cells_in(text@),
{
    text.width()
}

/// There are no more parts than characters, where none is empty.
pub proof fn lemma_parts_are_few(parts: Seq<Seq<char>>)
    requires
        forall|i: int| 0 <= i < parts.len() ==> (#[trigger] parts[i]).len() > 0,
    ensures
        parts.len() <= all_joined(parts).len(),
    decreases parts.len(),
{
    if parts.len() > 0 {
        assert forall|i: int| 0 <= i < parts.drop_last().len() implies (
        #[trigger] parts.drop_last()[i]).len() > 0 by {
            assert(parts.drop_last()[i] == parts[i]);
        }
        lemma_parts_are_few(parts.drop_last());
        assert(parts[parts.len() - 1].len() > 0);
    }
}

/// How many of the leading parts fit into a number of cells.
pub open spec fn fitting(widths: Seq<usize>, cells: nat) -> nat
    decreases widths.len(),
{
    if widths.len() == 0 || widths[0] > cells {
        0
    } else {
        1 + fitting(widths.drop_first(), (cells - widths[0]) as nat)
    }
}

pub proof fn lemma_fitting(widths: Seq<usize>, cells: nat)
    ensures
        fitting(widths, cells) <= widths.len(),
    decreases widths.len(),
{
    if widths.len() > 0 && widths[0] <= cells {
        lemma_fitting(widths.drop_first(), (cells - widths[0]) as nat);
    }
}

/// The leading parts that fit into a number of cells, by the widths of the parts.
pub fn clip_parts(parts: &Vec<String>, widths: &Vec<usize>, cells: usize) -> (r: String)
    requires
        parts@.len() == widths@.len(),
    ensures
        r@ == all_joined(text_views(parts@).take(fitting(widths@, cells as nat) as int)),
{
    let mut out = String::new();
    let mut left: usize = cells;
    let ghost texts = text_views(parts@);
    let ghost total = fitting(widths@, cells as nat);
    let mut i: usize = 0;
    proof {
        lemma_fitting(widths@, cells as nat);
        assert(widths@.skip(0) =~= widths@);
        assert(out@ =~= all_joined(texts.take(0)));
    }
    while i < parts.len() && widths[i] <= left
        invariant
            parts@.len() == widths@.len(),
            texts == text_views(parts@),
            i <= parts@.len(),
            total == i + fitting(widths@.skip(i as int), left as nat),
            out@ == all_joined(texts.take(i as int)),
        decreases parts@.len() - i,
    {
        proof {
            assert(widths@.skip(i as int)[0] == widths@[i as int]);
            assert(widths@.skip(i as int).drop_first() =~= widths@.skip(i + 1));
            assert(texts.take(i + 1).drop_last() =~= texts.take(i as int));
            assert(texts.take(i + 1).last() == parts@[i as int]@);
        }
        out.append(parts[i].as_str());
        left = left - widths[i];
        i = i + 1;
    }
    proof {
        if i < widths@.len() {
            assert(widths@.skip(i as int)[0] == widths@[i as int]);
        }
        assert(total == i);
    }
    out
}

pub open spec fn part_widths(parts: Seq<Seq<char>>) -> Seq<usize> {
    parts.map_values(|part: Seq<char>| cells_in(part))
}

/// The leading clusters of a text that fit into a number of cells.
pub open spec fn clipped_text(text: Seq<char>, cells: nat) -> Seq<char> {
    let parts = graphemes_in(text);
    all_joined(parts.take(fitting(part_widths(parts), cells) as int))
}

pub fn clipped(text: &str, cells: usize) -> (r: String)
    ensures
        r@ == clipped_text(text@, cells as nat),
{
    let parts = graphemes_of(text);
    let mut widths: Vec<usize> = Vec::new();
    for i in 0..parts.len()
        invariant
            widths@.len() == i,
            forall|j: int| 0 <= j < i ==> #[trigger] widths@[j] == cells_in(parts@[j]@),
    {
        widths.push(cells_of(parts[i].as_str()));
    }
    assert(widths@ =~= part_widths(text_views(parts@)));
    clip_parts(&parts, &widths, cells)
}

/// What is left of a text after some of its parts.
proof fn lemma_joined_prefix(parts: Seq<Seq<char>>, n: int)
    requires
        0 <= n <= parts.len(),
    ensures
        all_joined(parts.take(n)).len() <= all_joined(parts).len(),
        all_joined(parts).take(all_joined(parts.take(n)).len() as int) == all_joined(parts.take(n)),
    decreases parts.len() - n,
{
    if n == parts.len() {
        assert(parts.take(n) =~= parts);
        assert(all_joined(parts).take(all_joined(parts).len() as int) =~= all_joined(parts));
    } else {
        lemma_joined_prefix(parts, n + 1);
        let shorter = all_joined(parts.take(n));
        let longer = all_joined(parts.take(n + 1));
        assert(parts.take(n + 1).drop_last() =~= parts.take(n));
        assert(longer == shorter + parts[n]);
        assert(longer.take(shorter.len() as int) =~= shorter);
        assert(all_joined(parts).take(shorter.len() as int) =~= all_joined(parts).take(
            longer.len() as int,
        ).take(shorter.len() as int));
    }
}

/// What fits is a beginning of the text, where its clusters make it up.
pub proof fn law_clipping_keeps_a_beginning(text: Seq<char>, cells: nat)
    requires
        all_joined(graphemes_in(text)) == text,
    ensures
        clipped_text(text, cells).len() <= text.len(),
        text.take(clipped_text(text, cells).len() as int) == clipped_text(text, cells),
{
    let parts = graphemes_in(text);
    lemma_fitting(part_widths(parts), cells);
    lemma_joined_prefix(parts, fitting(part_widths(parts), cells) as int);
}

pub open spec fn sum_of(widths: Seq<usize>) -> nat
    decreases widths.len(),
{
    if widths.len() == 0 {
        0
    } else {
        widths[0] as nat + sum_of(widths.drop_first())
    }
}

/// The clusters that are kept take no more cells than there are.
pub proof fn law_clipped_parts_fit(widths: Seq<usize>, cells: nat)
    ensures
        sum_of(widths.take(fitting(widths, cells) as int)) <= cells,
    decreases widths.len(),
{
    lemma_fitting(widths, cells);
    let n = fitting(widths, cells) as int;
    if n > 0 {
        let rest = widths.drop_first();
        law_clipped_parts_fit(rest, (cells - widths[0]) as nat);
        assert(widths.take(n).drop_first() =~= rest.take(n - 1));
    } else {
        assert(widths.take(0) =~= Seq::empty());
    }
}

} // verus!
