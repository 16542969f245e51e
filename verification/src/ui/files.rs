//! Prompts for files that arrive and notices of files that are sent.
use vstd::prelude::*;
use vstd::string::*;

use crate::attachments::{offer_views, FileOffer, OfferModel};
use crate::browser::text_view;
use crate::table::{has_key, lemma_list_map, TextMap};
use crate::text::{decimal, push_decimal, same_text};
use crate::ui::lines::labelled;

verus! {

pub open spec fn offer_text(offer: OfferModel) -> Seq<char> {
    "Incoming file: "@ + offer.name + "\nSize: "@ + decimal(offer.size as nat) + " bytes\nFrom: "@
        + offer.sender + "\n"@ + (if offer.verified {
        "Signature verified"@
    } else {
        "WARNING: sender signature could not be verified"@
    })
        + "\nAccept to save in the files directory.\nOffers expire after 10 minutes."@
}

pub fn offer_description(offer: &FileOffer) -> (r: String)
    ensures
        r@ == offer_text(offer@),
{
    let mut out = "Incoming file: ".to_string();
    out.append(offer.name.as_str());
    out.append("\nSize: ");
    push_decimal(&mut out, offer.size as u64);
    out.append(" bytes\nFrom: ");
    out.append(offer.sender.as_str());
    out.append("\n");
    if offer.verified {
        out.append("Signature verified");
    } else {
        out.append("WARNING: sender signature could not be verified");
    }
    out.append("\nAccept to save in the files directory.\nOffers expire after 10 minutes.");
    out
}

pub fn sending_description(name: &str) -> (r: String)
    ensures
        r@ == "Sending file: "@ + name@
            + "\nDirect LXMF delivery.\nClosing this window does not cancel the transfer."@,
{
    let mut out = labelled("Sending file: ", name);
    out.append("\nDirect LXMF delivery.\nClosing this window does not cancel the transfer.");
    out
}

/// A window about a file. `offer` is the offer that is still to be decided,
/// `waiting` says whether an answer is awaited.
#[derive(Debug)]
pub struct FileWindow {
    pub description: String,
    pub shown: String,
    pub offer: Option<String>,
    pub waiting: bool,
}

/// An answer about a file.
#[derive(Debug)]
pub enum FileReply {
    Done(String),
    Failed(String),
    /// Nobody answered.
    Dropped,
}

pub open spec fn reply_text(reply: FileReply) -> Seq<char> {
    match reply {
        FileReply::Done(status) => status@,
        FileReply::Failed(error) => "Error: "@ + error@,
        FileReply::Dropped => "Error: Transfer worker stopped"@,
    }
}

/// What a window asks for once its file is accepted: its offer, and nothing while an
/// answer is waited for.
pub open spec fn accepted_by(window: FileWindow) -> Option<Seq<char>> {
    if window.waiting {
        None
    } else {
        text_view(window.offer)
    }
}

/// What is left of a window's offer once it is known what came of it.
pub open spec fn left_of(offer: Option<String>, reply: FileReply) -> Option<String> {
    match reply {
        FileReply::Done(_) => None,
        _ => offer,
    }
}

impl FileWindow {
    /// The window for an offer.
    pub fn offer(offer: &FileOffer) -> (r: Self)
        ensures
            r.description@ == offer_text(offer@),
            r.shown@ == r.description@,
            text_view(r.offer) == Some(offer.id@),
            !r.waiting,
    {
        let description = offer_description(offer);
        FileWindow {
            shown: description.clone(),
            description,
            offer: Some(offer.id.clone()),
            waiting: false,
        }
    }

    /// The window for a file that is sent.
    pub fn sending(name: &str) -> (r: Self)
        ensures
            r.description@ == "Sending file: "@ + name@
                + "\nDirect LXMF delivery.\nClosing this window does not cancel the transfer."@,
            r.shown@ == r.description@,
            r.offer.is_none(),
            r.waiting,
    {
        let description = sending_description(name);
        FileWindow { shown: description.clone(), description, offer: None, waiting: true }
    }

    /// Accepts the offer. Gives its identifier, where it is not accepted already.
    pub fn accept(&mut self) -> (r: Option<String>)
        ensures
            text_view(r) == accepted_by(*old(self)),
            text_view(r) == if old(self).waiting {
                None
            } else {
                text_view(old(self).offer)
            },
            *final(self) == (FileWindow {
                waiting: old(self).waiting || old(self).offer.is_some(),
                ..*old(self)
            }),
    {
        if self.waiting {
            return None;
        }
        match &self.offer {
            Some(id) => {
                let id = id.clone();
                self.waiting = true;
                Some(id)
            },
            None => None,
        }
    }

    /// Takes an answer. Says whether the window is to be closed: only that of an
    /// offer, and only once its file is stored.
    pub fn reply(&mut self, reply: FileReply) -> (r: bool)
        requires
            old(self).waiting,
        ensures
            final(self).offer == left_of(old(self).offer, reply),
            r == (reply is Done && old(self).offer.is_some()),
            !final(self).waiting,
            final(self).description == old(self).description,
            final(self).shown@ == reply_text(reply) + "\n\n"@ + old(self).description@,
            final(self).offer == if reply is Done {
                None
            } else {
                old(self).offer
            },
    {
        self.waiting = false;
        let mut close = false;
        let status = match reply {
            FileReply::Done(status) => {
                let taken = self.offer.take();
                close = taken.is_some();
                status
            },
            FileReply::Failed(error) => labelled("Error: ", error.as_str()),
            FileReply::Dropped => "Error: Transfer worker stopped".to_string(),
        };
        let mut shown = status;
        shown.append("\n\n");
        shown.append(self.description.as_str());
        self.shown = shown;
        close
    }

    /// Closes the window. Gives the offer that is thereby declined, if any.
    pub fn close(self) -> (r: Option<String>)
        ensures
            r == self.offer,
    {
        self.offer
    }
}

/// Whether an offer of that identifier is among them.
pub open spec fn is_offered(offers: Seq<OfferModel>, id: Seq<char>) -> bool {
    exists|i: int| 0 <= i < offers.len() && (#[trigger] offers[i]).id == id
}

fn offered(offers: &Vec<FileOffer>, id: &str) -> (r: bool)
    ensures
        r == is_offered(offer_views(offers@), id@),
{
    for i in 0..offers.len()
        invariant
            forall|j: int| 0 <= j < i ==> (#[trigger] offer_views(offers@)[j]).id != id@,
    {
        if same_text(offers[i].id.as_str(), id) {
            assert(offer_views(offers@)[i as int].id == id@);
            return true;
        }
    }
    false
}

/// The offers for which a prompt is to be opened: those that were not prompted for
/// yet, each once. `seen` holds the identifiers prompted for.
pub open spec fn unseen(offers: Seq<OfferModel>, seen: Set<Seq<char>>) -> Seq<OfferModel>
    decreases offers.len(),
{
    if offers.len() == 0 {
        Seq::empty()
    } else {
        let before = unseen(offers.drop_last(), seen);
        let last = offers.last();
        if seen.contains(last.id) || is_offered(offers.drop_last(), last.id) {
            before
        } else {
            before.push(last)
        }
    }
}

/// Looks through the offers that stand. Gives those to prompt for, and forgets
/// those that are gone.
pub fn review(seen: &mut TextMap<()>, offers: &Vec<FileOffer>) -> (r: Vec<FileOffer>)
    requires
        old(seen).wf(),
    ensures
        final(seen).wf(),
        offer_views(r@) == unseen(offer_views(offers@), old(seen)@.dom()),
        forall|id: Seq<char>| #[trigger]
            final(seen)@.contains_key(id) <==> is_offered(offer_views(offers@), id),
{
    forget_gone(seen, offers);
    let ghost kept = seen@;
    let ghost first = old(seen)@;
    let ghost all = offer_views(offers@);
    let mut fresh: Vec<FileOffer> = Vec::new();
    assert(offer_views(fresh@) =~= unseen(all.take(0), first.dom()));
    for i in 0..offers.len()
        invariant
            seen.wf(),
            all == offer_views(offers@),
            offer_views(fresh@) == unseen(all.take(i as int), first.dom()),
            forall|id: Seq<char>| #[trigger]
                kept.contains_key(id) <==> first.contains_key(id) && is_offered(all, id),
            forall|id: Seq<char>| #[trigger]
                seen@.contains_key(id) <==> kept.contains_key(id) || is_offered(
                    all.take(i as int),
                    id,
                ),
    {
        let ghost before = all.take(i as int);
        let ghost offer = all[i as int];
        proof {
            assert(all.take(i + 1).drop_last() =~= before);
            assert(is_offered(all, offer.id));
            assert forall|id: Seq<char>| #[trigger]
                is_offered(all.take(i + 1), id) == (is_offered(before, id) || id == offer.id) by {
                let next = all.take(i + 1);
                if is_offered(next, id) {
                    let j = choose|j: int| 0 <= j < next.len() && (#[trigger] next[j]).id == id;
                    if j < i {
                        assert(before[j].id == id);
                    }
                }
                if is_offered(before, id) {
                    let j = choose|j: int| 0 <= j < before.len() && (#[trigger] before[j]).id == id;
                    assert(next[j].id == id);
                }
                assert(next[i as int].id == offer.id);
            }
        }
        let id = offers[i].id.clone();
        if !seen.contains(id.as_str()) {
            let ghost shown = fresh@;
            fresh.push(offers[i].clone());
            assert(offer_views(fresh@) =~= offer_views(shown).push(offer));
            seen.insert(id, ());
        }
    }
    assert(all.take(offers@.len() as int) =~= all);
    fresh
}

/// Forgets the identifiers of offers that are gone.
fn forget_gone(seen: &mut TextMap<()>, offers: &Vec<FileOffer>)
    requires
        old(seen).wf(),
    ensures
        final(seen).wf(),
        forall|id: Seq<char>| #[trigger]
            final(seen)@.contains_key(id) <==> old(seen)@.contains_key(id) && is_offered(
                offer_views(offers@),
                id,
            ),
{
    let ghost first = seen@;
    let mut i: usize = 0;
    while i < seen.len()
        invariant
            seen.wf(),
            i <= seen.list().len(),
            forall|id: Seq<char>| #[trigger]
                seen@.contains_key(id) ==> first.contains_key(id),
            forall|id: Seq<char>| #[trigger]
                first.contains_key(id) && is_offered(offer_views(offers@), id)
                    ==> seen@.contains_key(id),
            forall|j: int|
                0 <= j < i ==> is_offered(offer_views(offers@), (#[trigger] seen.list()[j]).0),
        decreases seen.list().len() - i,
    {
        let ghost list = seen.list();
        let ghost before = seen@;
        let stands = offered(offers, seen.at(i).0.as_str());
        if stands {
            i = i + 1;
        } else {
            let gone = seen.remove_at(i);
            proof {
                crate::table::lemma_list_map_remove(list, i as int);
                assert(seen@ == before.remove(list[i as int].0));
                assert forall|j: int| 0 <= j < i implies is_offered(
                    offer_views(offers@),
                    (#[trigger] seen.list()[j]).0,
                ) by {
                    assert(seen.list()[j] == list[j]);
                }
            }
        }
    }
    proof {
        lemma_list_map(seen.list());
        assert forall|id: Seq<char>| #[trigger] seen@.contains_key(id) implies is_offered(
            offer_views(offers@),
            id,
        ) by {
            assert(has_key(seen.list(), id));
            let j = choose|j: int|
                0 <= j < seen.list().len() && (#[trigger] seen.list()[j]).0 == id;
        }
    }
}

} // verus!
