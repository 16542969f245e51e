//! Which windows are open, and which of them is to come to the front.
use vstd::prelude::*;

use crate::browser::text_view;
use crate::table::TextMap;
use crate::text::{chars_of, same_text, starts_with, string_of, strip_prefix};

verus! {

/// The keys of the open windows and the one that is to get the focus.
#[derive(Debug)]
pub struct WindowRegistry {
    pub keys: TextMap<()>,
    pub focus: Option<String>,
}

/// The first of the keys, in order, that names the window of a chat hub.
pub open spec fn first_rrc(list: Seq<(Seq<char>, ())>) -> Option<Seq<char>>
    decreases list.len(),
{
    if list.len() == 0 {
        None
    } else if starts_with(list[0].0, "rrc:"@) {
        Some(list[0].0)
    } else {
        first_rrc(list.drop_first())
    }
}

impl WindowRegistry {
    pub open spec fn wf(&self) -> bool {
        self.keys.wf()
    }

    pub fn new() -> (r: Self)
        ensures
            r.wf(),
            r.keys@ == Map::<Seq<char>, ()>::empty(),
            r.focus.is_none(),
    {
        WindowRegistry { keys: TextMap::new(), focus: None }
    }

    /// Notes a window that was opened.
    pub fn register(&mut self, key: String)
        requires
            old(self).wf(),
        ensures
            final(self).wf(),
            final(self).keys@ == old(self).keys@.insert(key@, ()),
            final(self).focus == old(self).focus,
    {
        self.keys.insert(key, ());
    }

    /// Notes a window that was closed. Gives the peer whose conversation it was.
    pub fn unregister(&mut self, key: &str) -> (r: Option<String>)
        requires
            old(self).wf(),
        ensures
            final(self).wf(),
            final(self).keys@ == old(self).keys@.remove(key@),
            final(self).focus == old(self).focus,
            text_view(r) == if starts_with(key@, "lxmf:"@) {
                Some(key@.skip(5))
            } else {
                None
            },
    {
        proof {
            reveal_strlit("lxmf:");
        }
        let _ = self.keys.remove(key);
        let letters = chars_of(key);
        match strip_prefix(&letters, "lxmf:") {
            Some(hash) => Some(string_of(hash)),
            None => None,
        }
    }

    /// Brings an open chat hub to the front. Says whether there is one.
    pub fn focus_rrc(&mut self) -> (r: bool)
        requires
            old(self).wf(),
        ensures
            final(self).wf(),
            final(self).keys == old(self).keys,
            r == first_rrc(old(self).keys.list()).is_some(),
            r ==> text_view(final(self).focus) == first_rrc(old(self).keys.list()),
            !r ==> final(self).focus == old(self).focus,
    {
        let ghost list = self.keys.list();
        let count = self.keys.len();
        assert(list.skip(0) =~= list);
        for i in 0..count
            invariant
                count == list.len(),
                list == self.keys.list(),
                self.wf(),
                self.keys == old(self).keys,
                self.focus == old(self).focus,
                first_rrc(list) == first_rrc(list.skip(i as int)),
        {
            proof {
                assert(list.skip(i as int)[0] == list[i as int]);
                assert(list.skip(i as int).drop_first() =~= list.skip(i + 1));
            }
            let key = self.keys.at(i).0.clone();
            let letters = chars_of(key.as_str());
            if strip_prefix(&letters, "rrc:").is_some() {
                self.focus = Some(key);
                return true;
            }
        }
        assert(list.skip(count as int) =~= Seq::empty());
        false
    }

    /// Brings an open window to the front. Says whether it is open.
    pub fn focus_existing(&mut self, key: &str) -> (r: bool)
        requires
            old(self).wf(),
        ensures
            final(self).wf(),
            final(self).keys == old(self).keys,
            r == old(self).keys@.contains_key(key@),
            r ==> text_view(final(self).focus) == Some(key@),
            !r ==> final(self).focus == old(self).focus,
    {
        if self.keys.contains(key) {
            self.focus = Some(key.to_string());
            true
        } else {
            false
        }
    }

    /// Whether a window is the one to come to the front; if so it is no longer.
    pub fn take_focus(&mut self, key: &str) -> (r: bool)
        ensures
            final(self).keys == old(self).keys,
            r == (text_view(old(self).focus) == Some(key@)),
            final(self).focus == if r {
                None
            } else {
                old(self).focus
            },
    {
        let wanted = match &self.focus {
            Some(focus) => same_text(focus.as_str(), key),
            None => false,
        };
        if wanted {
            self.focus = None;
        }
        wanted
    }
}

} // verus!
