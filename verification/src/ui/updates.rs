//! Updates of the shared state: how they are gathered until the screens take
//! them, and how they are merged with what the screens hold.
use vstd::prelude::*;

use crate::browser::text_view;
use crate::table::{has_key, lemma_list_map, TextMap};
use crate::ui::state::{
    find_row, lemma_place_of, place_of, row_hashes, DirectoryRow, SendResult, UiState,
    MAX_DIRECTORY_ROWS,
};

verus! {

/// A place for one update. Only the newest state is kept; the results of
/// commands are gathered until they are taken.
#[derive(Debug)]
pub struct UpdateSlot {
    pub slot: Option<UiState>,
}

/// An update that takes the place of one that was not yet taken: its own values,
/// with the results of both.
pub open spec fn coalesced(previous: UiState, update: UiState, merged: UiState) -> bool {
    &&& merged.wf()
    &&& merged.directory_views@ == previous.directory_views@.union_prefer_right(
        update.directory_views@,
    )
    &&& merged.send_results@ == previous.send_results@.union_prefer_right(update.send_results@)
    &&& merged == (UiState {
        directory_views: merged.directory_views,
        send_results: merged.send_results,
        ..update
    })
}

impl UpdateSlot {
    pub open spec fn wf(&self) -> bool {
        self.slot.is_some() ==> self.slot.unwrap().wf()
    }

    pub fn new() -> (r: Self)
        ensures
            r.wf(),
            r.slot.is_none(),
    {
        UpdateSlot { slot: None }
    }

    /// Leaves an update for the screens.
    pub fn send(&mut self, update: UiState)
        requires
            old(self).wf(),
            update.wf(),
        ensures
            final(self).wf(),
            final(self).slot.is_some(),
            old(self).slot.is_none() ==> final(self).slot == Some(update),
            old(self).slot.is_some() ==> coalesced(
                old(self).slot.unwrap(),
                update,
                final(self).slot.unwrap(),
            ),
    {
        let mut update = update;
        let taken = self.slot.take();
        if let Some(previous) = taken {
            let mut views = previous.directory_views;
            views.extend(update.directory_views);
            update.directory_views = views;
            let mut results = previous.send_results;
            results.extend(update.send_results);
            update.send_results = results;
        }
        self.slot = Some(update);
    }

    /// Takes the update that was left, if there is one.
    pub fn try_recv(&mut self) -> (r: Result<UiState, ()>)
        requires
            old(self).wf(),
        ensures
            final(self).wf(),
            final(self).slot.is_none(),
            r is Ok == old(self).slot.is_some(),
            r is Ok ==> r->Ok_0 == old(self).slot.unwrap() && r->Ok_0.wf(),
    {
        let taken = self.slot.take();
        match taken {
            Some(update) => Ok(update),
            None => Err(()),
        }
    }
}

/// Takes the update that was left, if there is one.
pub fn drain_updates(updates: &mut UpdateSlot) -> (r: Option<UiState>)
    requires
        old(updates).wf(),
    ensures
        final(updates).wf(),
        final(updates).slot.is_none(),
        r == old(updates).slot,
{
    match updates.try_recv() {
        Ok(update) => Some(update),
        Err(_) => None,
    }
}

/// The first rows, up to a number of them.
pub open spec fn first_rows(rows: Seq<DirectoryRow>, n: nat) -> Seq<DirectoryRow> {
    if rows.len() > n {
        rows.take(n as int)
    } else {
        rows
    }
}

/// The directory after an update. A selected entry that is no longer in it stays
/// at its end.
pub open spec fn merged_directory(
    current: Seq<DirectoryRow>,
    update: Seq<DirectoryRow>,
    selected: Option<Seq<char>>,
) -> Seq<DirectoryRow> {
    match selected {
        None => update,
        Some(hash) => {
            let n = place_of(row_hashes(current), hash) as int;
            if row_hashes(update).contains(hash) || n >= current.len() {
                update
            } else {
                first_rows(update, (MAX_DIRECTORY_ROWS - 1) as nat).push(current[n])
            }
        },
    }
}

/// The error that is shown for a destination after an update: that of the newest
/// result, or the one shown before.
pub open spec fn error_after(
    errors: Map<Seq<char>, String>,
    results: Map<Seq<char>, SendResult>,
    key: Seq<char>,
) -> Option<String> {
    if results.contains_key(key) {
        results[key].error
    } else if errors.contains_key(key) {
        Some(errors[key])
    } else {
        None
    }
}

/// The errors that are shown after an update.
pub open spec fn errors_follow(
    errors: Map<Seq<char>, String>,
    results: Map<Seq<char>, SendResult>,
    after: Map<Seq<char>, String>,
) -> bool {
    forall|key: Seq<char>|
        (#[trigger] after.contains_key(key) == error_after(errors, results, key).is_some()) && (
        after.contains_key(key) ==> after[key] == error_after(errors, results, key).unwrap())
}

/// What the screens hold after an update: what it brings, with the selection, the
/// drafts and the results that were not yet seen kept.
pub open spec fn applied(current: UiState, update: UiState, after: UiState) -> bool {
    &&& after.wf()
    &&& after.directory@ == merged_directory(
        current.directory@,
        update.directory@,
        text_view(current.selected_directory_hash),
    )
    &&& after.directory_views@ == current.directory_views@.union_prefer_right(
        update.directory_views@,
    )
    &&& after.send_results@ == current.send_results@.union_prefer_right(update.send_results@)
    &&& after.pending_sends@ == current.pending_sends@.remove_keys(update.send_results@.dom())
    &&& errors_follow(current.send_errors@, update.send_results@, after.send_errors@)
    &&& after == (UiState {
        directory: after.directory,
        directory_views: after.directory_views,
        send_results: after.send_results,
        pending_sends: after.pending_sends,
        send_errors: after.send_errors,
        selected_destination_hash: current.selected_destination_hash,
        selected_directory_hash: current.selected_directory_hash,
        drafts: current.drafts,
        ..update
    })
}

/// Merges an update into what the screens hold.
pub fn apply_update(current: UiState, update: UiState) -> (r: UiState)
    requires
        current.wf(),
        update.wf(),
    ensures
        applied(current, update, r),
{
    let mut update = update;
    let mut current = current;
    let ghost before = current;
    let ghost brought = update;
    if let Some(selected) = &current.selected_directory_hash {
        proof {
            lemma_place_of(row_hashes(update.directory@), selected@);
            lemma_place_of(row_hashes(current.directory@), selected@);
        }
        if find_row(&update.directory, selected.as_str()) >= update.directory.len() {
            let i = find_row(&current.directory, selected.as_str());
            if i < current.directory.len() {
                let row = current.directory[i].clone();
                if update.directory.len() > MAX_DIRECTORY_ROWS - 1 {
                    update.directory.truncate(MAX_DIRECTORY_ROWS - 1);
                }
                update.directory.push(row);
            }
        }
    }
    assert(update.directory@ =~= merged_directory(
        before.directory@,
        brought.directory@,
        text_view(before.selected_directory_hash),
    ));
    let mut pending = current.pending_sends;
    let mut errors = current.send_errors;
    settle_results(&mut pending, &mut errors, &update.send_results);
    let mut views = current.directory_views;
    views.extend(update.directory_views);
    let mut results = current.send_results;
    results.extend(update.send_results);
    UiState {
        announce_name: update.announce_name,
        announce_status: update.announce_status,
        file_offers: update.file_offers,
        network: update.network,
        network_interfaces: update.network_interfaces,
        conversations: update.conversations,
        directory: update.directory,
        directory_views: views,
        selected_destination_hash: current.selected_destination_hash,
        send_results: results,
        pending_sends: pending,
        send_errors: errors,
        drafts: current.drafts,
        selected_directory_hash: current.selected_directory_hash,
    }
}

/// Notes the results of messages that were handed over.
fn settle_results(
    pending: &mut TextMap<String>,
    errors: &mut TextMap<String>,
    results: &TextMap<SendResult>,
)
    requires
        old(pending).wf(),
        old(errors).wf(),
        results.wf(),
    ensures
        final(pending).wf(),
        final(errors).wf(),
        final(pending)@ == old(pending)@.remove_keys(results@.dom()),
        errors_follow(old(errors)@, results@, final(errors)@),
{
    let count = results.len();
    let ghost list = results.list();
    let ghost waiting = pending@;
    let ghost shown = errors@;
    proof {
        lemma_list_map(list);
    }
    for i in 0..count
        invariant
            count == list.len(),
            list == results.list(),
            results.wf(),
            pending.wf(),
            errors.wf(),
            forall|k: Seq<char>|
                #[trigger] pending@.contains_key(k) <==> waiting.contains_key(k) && !has_key(
                    list.take(i as int),
                    k,
                ),
            forall|k: Seq<char>|
                #[trigger] pending@.contains_key(k) ==> pending@[k] == waiting[k],
            forall|k: Seq<char>|
                !has_key(list.take(i as int), k) ==> (#[trigger] errors@.contains_key(k)
                    == shown.contains_key(k)) && (shown.contains_key(k) ==> errors@[k] == shown[k]),
            forall|j: int|
                0 <= j < i ==> errors@.contains_key((#[trigger] list[j]).0)
                    == list[j].1.error.is_some() && (list[j].1.error.is_some()
                    ==> errors@[list[j].0] == list[j].1.error.unwrap()),
    {
        let (destination, result) = results.at(i);
        let ghost done = list.take(i as int);
        let ghost next = list.take(i + 1);
        proof {
            assert forall|k: Seq<char>| #[trigger] has_key(next, k) == (has_key(done, k) || k
                == list[i as int].0) by {
                if has_key(next, k) {
                    let j = choose|j: int| 0 <= j < next.len() && (#[trigger] next[j]).0 == k;
                    if j < i {
                        assert(done[j].0 == k);
                    }
                }
                if has_key(done, k) {
                    let j = choose|j: int| 0 <= j < done.len() && (#[trigger] done[j]).0 == k;
                    assert(next[j].0 == k);
                }
                assert(next[i as int].0 == list[i as int].0);
            }
            assert forall|j: int| 0 <= j < i implies (#[trigger] list[j]).0 != list[i as int].0 by {
                crate::table::lemma_text_less_irreflexive(list[j].0);
                assert(crate::table::text_less(list[j].0, list[i as int].0));
            }
        }
        let _ = pending.remove(destination.as_str());
        match &result.error {
            Some(error) => errors.insert(destination.clone(), error.clone()),
            None => {
                let _ = errors.remove(destination.as_str());
            },
        }
    }
    proof {
        assert(list.take(count as int) =~= list);
        assert(pending@ =~= waiting.remove_keys(results@.dom()));
        assert forall|key: Seq<char>|
            (#[trigger] errors@.contains_key(key) == error_after(shown, results@, key).is_some())
                && (errors@.contains_key(key) ==> errors@[key] == error_after(
                shown,
                results@,
                key,
            ).unwrap()) by {
            if results@.contains_key(key) {
                assert(has_key(list, key));
                let j = choose|j: int| 0 <= j < list.len() && (#[trigger] list[j]).0 == key;
                assert(results@[list[j].0] == list[j].1);
            } else {
                assert(!has_key(list, key));
            }
        }
    }
}

/// However many updates come, no result is lost before it is taken.
pub proof fn law_results_survive_coalescing(previous: UiState, update: UiState, merged: UiState)
    requires
        coalesced(previous, update, merged),
    ensures
        forall|key: Seq<char>|
            previous.send_results@.contains_key(key) || update.send_results@.contains_key(key)
                ==> #[trigger] merged.send_results@.contains_key(key),
        forall|key: Seq<char>|
            previous.send_results@.contains_key(key) && !update.send_results@.contains_key(key)
                ==> #[trigger] merged.send_results@[key] == previous.send_results@[key],
        forall|key: Seq<char>|
            previous.directory_views@.contains_key(key) || update.directory_views@.contains_key(key)
                ==> #[trigger] merged.directory_views@.contains_key(key),
{
}

/// An error stays on the screen until a message to that destination is accepted,
/// and the drafts and the selection stay with every update.
pub proof fn law_errors_stay_visible(current: UiState, update: UiState, after: UiState)
    requires
        applied(current, update, after),
    ensures
        forall|key: Seq<char>|
            current.send_errors@.contains_key(key) && !update.send_results@.contains_key(key)
                ==> #[trigger] after.send_errors@.contains_key(key) && after.send_errors@[key]
                == current.send_errors@[key],
        forall|key: Seq<char>|
            update.send_results@.contains_key(key) ==> !(
            #[trigger] after.pending_sends@.contains_key(key)),
        after.drafts == current.drafts,
        after.selected_destination_hash == current.selected_destination_hash,
        after.selected_directory_hash == current.selected_directory_hash,
{
    assert forall|key: Seq<char>|
        current.send_errors@.contains_key(key) && !update.send_results@.contains_key(
            key,
        ) implies #[trigger] after.send_errors@.contains_key(key) && after.send_errors@[key]
        == current.send_errors@[key] by {
        let shown = error_after(current.send_errors@, update.send_results@, key);
        assert(shown == Some(current.send_errors@[key]));
        assert(after.send_errors@.contains_key(key) == shown.is_some());
    }
}

/// The selected entry never leaves the directory by an update, and the directory
/// never grows past its limit.
pub proof fn law_selection_stays_in_directory(
    current: Seq<DirectoryRow>,
    update: Seq<DirectoryRow>,
    selected: Seq<char>,
)
    requires
        row_hashes(current).contains(selected),
        update.len() <= MAX_DIRECTORY_ROWS,
    ensures
        row_hashes(merged_directory(current, update, Some(selected))).contains(selected),
        merged_directory(current, update, Some(selected)).len() <= MAX_DIRECTORY_ROWS,
{
    lemma_place_of(row_hashes(current), selected);
    let merged = merged_directory(current, update, Some(selected));
    if !row_hashes(update).contains(selected) {
        assert(row_hashes(merged)[merged.len() - 1] == selected);
    }
}

} // verus!
