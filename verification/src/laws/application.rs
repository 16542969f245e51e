//! Laws of the application: what its commands lead to, which windows come back, and how
//! pages and names are put into plain text.
use vstd::prelude::*;

use crate::attachments::offer_views;
use crate::browser::{shown_texts, text_view, BlockModel, InlineModel};
use crate::text::{find_char, lemma_find_char_at, lines, trim};
use crate::ui::app::{
    dispatched, half, is_restored, restored_kind, restorable, AppAction, AppCommand, Desk,
    RestoredKind, RestoredWindow,
};
use crate::ui::files::unseen;
use crate::ui::glyphs::{all_joined, fitting, lemma_fitting, sum_of};
use crate::ui::layout::{window_keys, SavedWindow};
use crate::ui::page_text::{block_texts, page_texts, row_text};
use crate::ui::state::selected_in;

verus! {

/// The lists are opened by the commands that are named for them, or brought to the front
/// where they are open.
pub proof fn law_lists_are_opened(before: Desk, after: Desk, action: AppAction)
    ensures
        dispatched(before, AppCommand::OpenConversations, after, action) && !window_keys(
            before.layout.windows@,
        ).contains("conversations"@) ==> action is OpenMain && action->OpenMain_key@
            == "conversations"@ && after == before,
        dispatched(before, AppCommand::OpenNetwork, after, action) && !window_keys(
            before.layout.windows@,
        ).contains("network"@) ==> action is OpenMain && action->OpenMain_key@ == "network"@,
        dispatched(before, AppCommand::OpenDirectory, after, action) && !window_keys(
            before.layout.windows@,
        ).contains("directory"@) ==> action is OpenMain && action->OpenMain_key@ == "directory"@,
        dispatched(before, AppCommand::OpenDirectory, after, action) && window_keys(
            before.layout.windows@,
        ).contains("directory"@) ==> action is Nothing && text_view(
            after.layout.requested_focus,
        ) == Some("directory"@),
{
}

/// A message of the conversation that is open is sent to its destination, without white
/// space around it; where no conversation is open nothing is sent.
pub proof fn law_the_open_conversation_is_sent_to(
    before: Desk,
    after: Desk,
    action: AppAction,
)
    requires
        dispatched(before, AppCommand::SendMessage, after, action),
    ensures
        after == before,
        before.composer.is_none() ==> action is Nothing,
        before.composer.is_some() && trim(before.composer.unwrap().content@).len() > 0
            && !before.state.pending_sends@.contains_key(before.composer.unwrap().destination@)
            ==> action is Send && action->Send_destination@
            == before.composer.unwrap().destination@ && action->message@ == trim(
            before.composer.unwrap().content@,
        ),
        before.composer.is_some() && trim(before.composer.unwrap().content@).len() == 0
            ==> action is Nothing,
        before.composer.is_some() && before.state.pending_sends@.contains_key(
            before.composer.unwrap().destination@,
        ) ==> action is Nothing,
{
}

/// Files are picked for the conversation that is open, older messages are those of it,
/// files that arrived are asked about once, and a new name begins with the old one.
pub proof fn law_commands_lead_where_they_say(before: Desk, after: Desk, action: AppAction)
    ensures
        dispatched(before, AppCommand::SendFile, after, action) && before.composer.is_some()
            ==> action is PickFile && action->PickFile_destination@
            == before.composer.unwrap().destination@,
        dispatched(before, AppCommand::SendFile, after, action) && before.composer.is_none()
            ==> action is Nothing,
        dispatched(before, AppCommand::LoadOlder, after, action) && before.composer.is_some()
            ==> action is LoadOlder && action->LoadOlder_destination@
            == before.composer.unwrap().destination@,
        dispatched(before, AppCommand::Rename, after, action) ==> action is AskName
            && action->initial@ == before.state.announce_name@ && after == before,
        dispatched(before, AppCommand::Announce, after, action) ==> action is Announce,
        dispatched(before, AppCommand::ReviewFiles, after, action) ==> action is Prompt
            && offer_views(action->Prompt_0@) == unseen(
            offer_views(before.state.file_offers@),
            before.prompted@.dom(),
        ) && after.state == before.state,
{
}

/// What is selected is opened, as what was asked for: a conversation, a hub or a node,
/// under a key of its kind; where nothing is selected there is nothing to open.
pub proof fn law_the_selection_is_opened(
    before: Desk,
    hash: Seq<char>,
    after: Desk,
    action: AppAction,
)
    requires
        selected_in(before.state) == Some(hash),
    ensures
        dispatched(before, AppCommand::OpenConversation, after, action)
            && !before.windows.keys@.contains_key("lxmf:"@ + hash) ==> action is OpenConversation
            && action->OpenConversation_destination@ == hash && action->OpenConversation_key@
            == "lxmf:"@ + hash,
        dispatched(before, AppCommand::OpenRrcHub, after, action)
            && !before.windows.keys@.contains_key("rrc:"@ + hash) ==> action is OpenRrcHub
            && action->OpenRrcHub_destination@ == hash && action->OpenRrcHub_key@ == "rrc:"@
            + hash,
        dispatched(before, AppCommand::OpenNodeBrowser, after, action)
            && !before.windows.keys@.contains_key("node:"@ + hash) ==> action is OpenNodeBrowser
            && action->OpenNodeBrowser_destination@ == hash && action->OpenNodeBrowser_key@
            == "node:"@ + hash,
        dispatched(before, AppCommand::OpenConversation, after, action)
            && before.windows.keys@.contains_key("lxmf:"@ + hash) ==> action is Nothing
            && text_view(after.windows.focus) == Some("lxmf:"@ + hash),
{
}

/// Without a selection a conversation asks for a peer, and the others do nothing.
pub proof fn law_nothing_selected_nothing_opened(before: Desk, after: Desk, action: AppAction)
    requires
        selected_in(before.state).is_none(),
    ensures
        dispatched(before, AppCommand::OpenConversation, after, action) ==> action is NoPeer
            && after == before,
        dispatched(before, AppCommand::OpenRrcHub, after, action) ==> action is Nothing && after
            == before,
        dispatched(before, AppCommand::OpenNodeBrowser, after, action) ==> action is Nothing
            && after == before,
{
}

/// What is selected is what the user chose, and else the first conversation.
pub proof fn law_the_first_conversation_is_selected(state: crate::ui::state::UiState, hash: String)
    ensures
        state.selected_destination_hash == Some(hash) ==> selected_in(state) == Some(hash@),
        state.selected_destination_hash.is_none() && state.conversations@.len() > 0
            ==> selected_in(state) == Some(state.conversations@[0].destination_hash@),
        state.selected_destination_hash.is_none() && state.conversations@.len() == 0
            ==> selected_in(state).is_none(),
{
}

proof fn lemma_kind(kind: Seq<char>, destination: Seq<char>)
    requires
        forall|i: int| 0 <= i < kind.len() ==> #[trigger] kind[i] != ':',
    ensures
        ({
            let key = kind + seq![':'] + destination;
            &&& find_char(key, ':') == kind.len()
            &&& key.take(kind.len() as int) == kind
            &&& key.skip(kind.len() as int + 1) == destination
            &&& key.len() > kind.len()
        }),
{
    let key = kind + seq![':'] + destination;
    assert forall|i: int| 0 <= i < kind.len() implies key[i] != ':' by {
        assert(key[i] == kind[i]);
    }
    assert(key[kind.len() as int] == ':');
    lemma_find_char_at(key, ':', kind.len() as int);
    assert(key.take(kind.len() as int) =~= kind);
    assert(key.skip(kind.len() as int + 1) =~= destination);
}

/// The windows of conversations, nodes and hubs come back as what they were, at their
/// destination and with their page; no other window does.
pub proof fn law_windows_come_back(
    window: SavedWindow,
    restored: RestoredWindow,
    destination: Seq<char>,
)
    requires
        is_restored(window, restored),
    ensures
        window.key@ == seq!['l', 'x', 'm', 'f', ':'] + destination ==> restored.kind
            == RestoredKind::Conversation && restored.destination@ == destination,
        window.key@ == seq!['n', 'o', 'd', 'e', ':'] + destination ==> restored.kind
            == RestoredKind::Browser && restored.destination@ == destination,
        window.key@ == seq!['r', 'r', 'c', ':'] + destination ==> restored.kind
            == RestoredKind::RrcHub && restored.destination@ == destination,
        restored.key@ == window.key@,
        text_view(restored.url) == text_view(window.url),
        !window.key@.contains(':') ==> restored_kind(window.key@).is_none(),
{
    reveal_strlit("lxmf");
    reveal_strlit("node");
    reveal_strlit("rrc");
    assert("lxmf"@[0] == 'l' && "node"@[0] == 'n' && "rrc"@[0] == 'r');
    lemma_kind("lxmf"@, destination);
    lemma_kind("node"@, destination);
    lemma_kind("rrc"@, destination);
    assert(seq!['l', 'x', 'm', 'f', ':'] + destination =~= "lxmf"@ + seq![':'] + destination);
    assert(seq!['n', 'o', 'd', 'e', ':'] + destination =~= "node"@ + seq![':'] + destination);
    assert(seq!['r', 'r', 'c', ':'] + destination =~= "rrc"@ + seq![':'] + destination);
    crate::text::lemma_find_char(window.key@, ':');
}

/// Windows come back in their order.
pub proof fn law_windows_come_back_in_order(windows: Seq<SavedWindow>, window: SavedWindow)
    ensures
        restored_kind(window.key@).is_some() ==> restorable(windows.push(window)) == restorable(
            windows,
        ).push(window),
        restored_kind(window.key@).is_none() ==> restorable(windows.push(window)) == restorable(
            windows,
        ),
{
    reveal(Seq::filter);
    assert(windows.push(window).drop_last() =~= windows);
}

/// Half of a length is half of it, rounded towards nothing.
pub proof fn law_halves_are_halves(n: int)
    ensures
        n >= 0 ==> n - 1 <= 2 * half(n) <= n,
        n < 0 ==> n <= 2 * half(n) <= n + 1,
        half(-n) == -half(n),
{
}

/// The text of a page is that of its blocks, one after the other: a heading and a
/// paragraph are a line each, preformatted text is its lines, a table its rows and a
/// part what it asks for.
pub proof fn law_pages_are_put_into_text(
    blocks: Seq<BlockModel>,
    block: BlockModel,
)
    ensures
        page_texts(blocks.push(block)) == page_texts(blocks) + block_texts(block),
        block is Heading ==> block_texts(block) == seq![shown_texts(block->Heading_parts)],
        block is Paragraph ==> block_texts(block) == seq![shown_texts(block->Paragraph_parts)],
        block is Preformatted ==> block_texts(block) == lines(block->Preformatted_text),
        block is Divider ==> block_texts(block) == seq![seq![block->character]],
        block is Partial ==> block_texts(block) == seq![block->Partial_target],
        block is Table ==> block_texts(block).len() == block->rows.len(),
{
    assert(blocks.push(block).drop_last() =~= blocks);
}

/// The cells of a row are put side by side, with bars between them.
pub proof fn law_rows_are_put_into_text(
    cells: Seq<Seq<InlineModel>>,
    cell: Seq<InlineModel>,
    rows: Seq<Seq<Seq<InlineModel>>>,
    i: int,
    table: BlockModel,
)
    requires
        cells.len() > 0,
        table is Table,
        table->rows == rows,
        0 <= i < rows.len(),
    ensures
        row_text(seq![cell]) == shown_texts(cell),
        row_text(cells.push(cell)) == row_text(cells) + " | "@ + shown_texts(cell),
        block_texts(table)[i] == row_text(rows[i]),
{
    assert(cells.push(cell).drop_last() =~= cells);
}

/// A text is clipped no more than it has to be: what fits is kept in full, and of what
/// does not the next piece would have been too much.
pub proof fn law_clipping_keeps_what_fits(widths: Seq<usize>, cells: nat)
    ensures
        sum_of(widths) <= cells ==> fitting(widths, cells) == widths.len(),
        fitting(widths, cells) < widths.len() ==> sum_of(
            widths.take(fitting(widths, cells) as int + 1),
        ) > cells,
    decreases widths.len(),
{
    lemma_fitting(widths, cells);
    if widths.len() > 0 {
        let n = fitting(widths, cells) as int;
        if widths[0] <= cells {
            let rest = widths.drop_first();
            law_clipping_keeps_what_fits(rest, (cells - widths[0]) as nat);
            lemma_fitting(rest, (cells - widths[0]) as nat);
            if n < widths.len() {
                let some = widths.take(n + 1);
                assert(some[0] == widths[0]);
                assert(some.drop_first() =~= rest.take(n));
            }
        } else {
            let some = widths.take(1);
            assert(some[0] == widths[0]);
            assert(n == 0);
        }
    }
}

/// Pieces are joined in their order, and nothing comes between them.
pub proof fn law_pieces_are_joined(parts: Seq<Seq<char>>, part: Seq<char>)
    ensures
        all_joined(parts.push(part)) == all_joined(parts) + part,
        all_joined(Seq::empty()) == Seq::<char>::empty(),
{
    assert(parts.push(part).drop_last() =~= parts);
}

} // verus!
