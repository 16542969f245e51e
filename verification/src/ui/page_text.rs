//! The plain text of a page, for where it is not drawn.
use vstd::prelude::*;
use vstd::string::*;

use crate::browser::{
    block_views, inline_text, inline_views, row_views, shown_texts, table_views, text_views,
    BlockModel, BrowserPage, Inline, InlineModel, MicronBlock,
};
use crate::text::{chars_of, lines, lines_of, string_of, views};

verus! {

/// The text of a row of a table: its cells, with bars between them.
pub open spec fn row_text(cells: Seq<Seq<InlineModel>>) -> Seq<char>
    decreases cells.len(),
{
    if cells.len() == 0 {
        Seq::empty()
    } else if cells.len() == 1 {
        shown_texts(cells[0])
    } else {
        row_text(cells.drop_last()) + " | "@ + shown_texts(cells.last())
    }
}

/// The lines of a block.
pub open spec fn block_texts(block: BlockModel) -> Seq<Seq<char>> {
    match block {
        BlockModel::Heading { parts, .. } => seq![shown_texts(parts)],
        BlockModel::Paragraph { parts, .. } => seq![shown_texts(parts)],
        BlockModel::Divider { character, .. } => seq![seq![character]],
        BlockModel::Preformatted { text } => lines(text),
        BlockModel::Table { rows, .. } => rows.map_values(
            |row: Seq<Seq<InlineModel>>| row_text(row),
        ),
        BlockModel::Partial { target, .. } => seq![target],
    }
}

/// The lines of a page, block by block.
pub open spec fn page_texts(blocks: Seq<BlockModel>) -> Seq<Seq<char>>
    decreases blocks.len(),
{
    if blocks.len() == 0 {
        Seq::empty()
    } else {
        page_texts(blocks.drop_last()) + block_texts(blocks.last())
    }
}

fn row_line(cells: &Vec<Vec<Inline>>) -> (r: String)
    ensures
        r@ == row_text(row_views(cells@)),
{
    let ghost all = row_views(cells@);
    let mut out = String::new();
    assert(out@ =~= Seq::empty());
    for i in 0..cells.len()
        invariant
            all == row_views(cells@),
            out@ == row_text(all.take(i as int)),
    {
        assert(all.take(i + 1).drop_last() =~= all.take(i as int));
        assert(all.take(i + 1).last() == inline_views(cells@[i as int]@));
        let text = inline_text(&cells[i]);
        if i > 0 {
            out.append(" | ");
        }
        let ghost before = out@;
        out.append(text.as_str());
        proof {
            if i == 0 {
                assert(all.take(1)[0] == inline_views(cells@[0]@));
                assert(before =~= Seq::empty());
                assert(out@ =~= text@);
            }
        }
    }
    assert(all.take(cells@.len() as int) =~= all);
    out
}

/// Puts the lines of a block to those before it.
fn push_block(out: &mut Vec<String>, block: &MicronBlock)
    ensures
        text_views(final(out)@) == text_views(old(out)@) + block_texts(block@),
{
    let ghost before = text_views(out@);
    match block {
        MicronBlock::Preformatted { text } => {
            let all = chars_of(text.as_str());
            let pieces = lines_of(&all);
            let ghost texts = lines(text@);
            for i in 0..pieces.len()
                invariant
                    views(pieces@) == texts,
                    text_views(out@) == before + texts.take(i as int),
            {
                let ghost so_far = out@;
                assert(views(pieces@)[i as int] == pieces@[i as int]@);
                out.push(string_of(pieces[i]));
                assert(text_views(out@) =~= text_views(so_far).push(texts[i as int]));
                assert(text_views(out@) =~= before + texts.take(i + 1));
            }
            assert(texts.take(pieces@.len() as int) =~= texts);
        },
        MicronBlock::Table { rows, .. } => {
            let ghost texts = block_texts(block@);
            for i in 0..rows.len()
                invariant
                    texts == table_views(rows@).map_values(
                        |row: Seq<Seq<InlineModel>>| row_text(row),
                    ),
                    text_views(out@) == before + texts.take(i as int),
            {
                let ghost so_far = out@;
                assert(table_views(rows@)[i as int] == row_views(rows@[i as int]@));
                out.push(row_line(&rows[i]));
                assert(text_views(out@) =~= text_views(so_far).push(texts[i as int]));
                assert(text_views(out@) =~= before + texts.take(i + 1));
            }
            assert(texts.take(rows@.len() as int) =~= texts);
        },
        MicronBlock::Heading { parts, .. } => {
            out.push(inline_text(parts));
            assert(text_views(out@) =~= before + block_texts(block@));
        },
        MicronBlock::Paragraph { parts, .. } => {
            out.push(inline_text(parts));
            assert(text_views(out@) =~= before + block_texts(block@));
        },
        MicronBlock::Divider { character, .. } => {
            let mut line = String::new();
            line.push(*character);
            assert(line@ =~= seq![*character]);
            out.push(line);
            assert(text_views(out@) =~= before + block_texts(block@));
        },
        MicronBlock::Partial { target, .. } => {
            out.push(target.clone());
            assert(text_views(out@) =~= before + block_texts(block@));
        },
    }
}

/// The lines of a page.
pub fn browser_page_lines(page: &BrowserPage) -> (r: Vec<String>)
    ensures
        text_views(r@) == page_texts(block_views(page.blocks@)),
{
    let ghost all = block_views(page.blocks@);
    let mut out: Vec<String> = Vec::new();
    assert(text_views(out@) =~= Seq::empty());
    for i in 0..page.blocks.len()
        invariant
            all == block_views(page.blocks@),
            text_views(out@) == page_texts(all.take(i as int)),
    {
        assert(all.take(i + 1).drop_last() =~= all.take(i as int));
        assert(all.take(i + 1).last() == page.blocks@[i as int]@);
        push_block(&mut out, &page.blocks[i]);
    }
    assert(all.take(page.blocks@.len() as int) =~= all);
    out
}

} // verus!
