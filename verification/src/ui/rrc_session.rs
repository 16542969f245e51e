//! The chat window: which hub and room are open, what is unread, what is awaited.
use vstd::prelude::*;
use vstd::string::*;

use crate::browser::{text_view, text_views};
use crate::models::{RrcHubView, RrcMessageView};
use crate::table::{has_key, lemma_list_map, lemma_list_map_remove, text_less, TextMap};
use crate::text::{chars_of, decimal, push_decimal, same_text};
use crate::ui::lines::labelled;
use crate::ui::lists::{place_within, within};
use crate::ui::rrc::{parse, parsed, Action, ActionModel, Answer};
use crate::ui::state::{find_text, lemma_place_of, place_of, title_of, UiState};

verus! {

/// What the chat windows share.
#[derive(Debug)]
pub struct RrcState {
    pub history: TextMap<Vec<RrcMessageView>>,
    pub hubs: Vec<RrcHubView>,
}

impl RrcState {
    pub open spec fn wf(&self) -> bool {
        self.history.wf()
    }

    pub fn new() -> (r: Self)
        ensures
            r.wf(),
            r.history@ == Map::<Seq<char>, Vec<RrcMessageView>>::empty(),
            r.hubs@.len() == 0,
    {
        RrcState { history: TextMap::new(), hubs: Vec::new() }
    }
}

/// What tells one message from another.
#[derive(Debug)]
pub struct MessageKey {
    pub room: String,
    pub timestamp_ms: u64,
    pub source: String,
    pub body: String,
}

pub type KeyModel = (Seq<char>, u64, Seq<char>, Seq<char>);

pub open spec fn key_view(key: MessageKey) -> KeyModel {
    (key.room@, key.timestamp_ms, key.source@, key.body@)
}

pub open spec fn key_views(keys: Seq<MessageKey>) -> Seq<KeyModel> {
    keys.map_values(|key: MessageKey| key_view(key))
}

pub open spec fn key_of(message: RrcMessageView) -> KeyModel {
    (
        match message.room {
            Some(room) => room@,
            None => Seq::empty(),
        },
        message.timestamp_ms,
        message.source_hash@,
        message.body@,
    )
}

pub open spec fn keys_of(messages: Seq<RrcMessageView>) -> Seq<KeyModel> {
    messages.map_values(|message: RrcMessageView| key_of(message))
}

/// Whether a message counts as unread in a room: it is new, it was said in the room,
/// and by someone else.
pub open spec fn counts(
    messages: Seq<RrcMessageView>,
    previous: Seq<KeyModel>,
    own: Option<Seq<char>>,
    room: Seq<char>,
    i: int,
) -> bool {
    let key = key_of(messages[i]);
    &&& !previous.contains(key)
    &&& !keys_of(messages.take(i)).contains(key)
    &&& key.0 == room
    &&& room.len() > 0
    &&& own != Some(key.2)
}

/// How many messages count as unread in a room.
pub open spec fn counted(
    messages: Seq<RrcMessageView>,
    previous: Seq<KeyModel>,
    own: Option<Seq<char>>,
    room: Seq<char>,
    n: int,
) -> nat
    decreases n,
{
    if n <= 0 {
        0
    } else {
        counted(messages, previous, own, room, n - 1) + if counts(
            messages,
            previous,
            own,
            room,
            n - 1,
        ) {
            1nat
        } else {
            0nat
        }
    }
}

pub type Unread = Map<Seq<char>, TextMap<usize>>;

/// How much is unread in a room of a hub.
pub open spec fn unread_in(unread: Unread, hub: Seq<char>, room: Seq<char>) -> int {
    if unread.contains_key(hub) && unread[hub]@.contains_key(room) {
        unread[hub]@[room] as int
    } else {
        0
    }
}

pub open spec fn bounded(n: int) -> int {
    if n > usize::MAX {
        usize::MAX as int
    } else {
        n
    }
}

/// Something that is awaited.
#[derive(Debug)]
pub struct PendingAnswer {
    pub hub: String,
    pub draft_key: String,
    pub draft: Option<String>,
}

/// A request to a hub.
#[derive(Debug)]
pub struct RrcRequest {
    pub hub: String,
    pub action: Action,
}

#[derive(Debug)]
pub struct RrcSession {
    pub unread: TextMap<TextMap<usize>>,
    pub seen: TextMap<Vec<MessageKey>>,
    pub disconnected: TextMap<bool>,
    pub hub: String,
    pub room: TextMap<String>,
    pub drafts: TextMap<String>,
    pub rooms: TextMap<Vec<String>>,
    pub status: TextMap<String>,
    pub pending: Option<PendingAnswer>,
}

fn read_key(message: &RrcMessageView) -> (r: MessageKey)
    ensures
        key_view(r) == key_of(*message),
{
    let room = match &message.room {
        Some(room) => room.clone(),
        None => {
            let none = String::new();
            assert(none@ =~= Seq::<char>::empty());
            none
        },
    };
    MessageKey {
        room,
        timestamp_ms: message.timestamp_ms,
        source: message.source_hash.clone(),
        body: message.body.clone(),
    }
}

fn same_key(a: &MessageKey, b: &MessageKey) -> (r: bool)
    ensures
        r == (key_view(*a) == key_view(*b)),
{
    a.timestamp_ms == b.timestamp_ms && same_text(a.room.as_str(), b.room.as_str()) && same_text(
        a.source.as_str(),
        b.source.as_str(),
    ) && same_text(a.body.as_str(), b.body.as_str())
}

fn holds_key(keys: &Vec<MessageKey>, key: &MessageKey) -> (r: bool)
    ensures
        r == key_views(keys@).contains(key_view(*key)),
{
    for i in 0..keys.len()
        invariant
            forall|j: int| 0 <= j < i ==> #[trigger] key_views(keys@)[j] != key_view(*key),
    {
        if same_key(&keys[i], key) {
            assert(key_views(keys@)[i as int] == key_view(*key));
            return true;
        }
    }
    false
}

impl RrcSession {
    pub open spec fn wf(&self) -> bool {
        &&& self.unread.wf()
        &&& forall|hub: Seq<char>| #[trigger]
            self.unread@.contains_key(hub) ==> self.unread@[hub].wf()
        &&& self.seen.wf()
        &&& self.disconnected.wf()
        &&& self.room.wf()
        &&& self.drafts.wf()
        &&& self.rooms.wf()
        &&& self.status.wf()
    }

    pub fn new(hub: String) -> (r: Self)
        ensures
            r.wf(),
            r.hub == hub,
            r.unread@ == Map::<Seq<char>, TextMap<usize>>::empty(),
            r.seen@ == Map::<Seq<char>, Vec<MessageKey>>::empty(),
            r.disconnected@ == Map::<Seq<char>, bool>::empty(),
            r.room@ == Map::<Seq<char>, String>::empty(),
            r.drafts@ == Map::<Seq<char>, String>::empty(),
            r.rooms@ == Map::<Seq<char>, Vec<String>>::empty(),
            r.status@ == Map::<Seq<char>, String>::empty(),
            r.pending.is_none(),
    {
        RrcSession {
            unread: TextMap::new(),
            seen: TextMap::new(),
            disconnected: TextMap::new(),
            hub,
            room: TextMap::new(),
            drafts: TextMap::new(),
            rooms: TextMap::new(),
            status: TextMap::new(),
            pending: None,
        }
    }

    pub open spec fn unread_of(&self, hub: Seq<char>, room: Seq<char>) -> int {
        unread_in(self.unread@, hub, room)
    }

    fn unread_count(&self, hub: &str, room: &str) -> (r: usize)
        requires
            self.wf(),
        ensures
            r == self.unread_of(hub@, room@),
    {
        match self.unread.get(hub) {
            Some(rooms) => match rooms.get(room) {
                Some(count) => *count,
                None => 0,
            },
            None => 0,
        }
    }

    /// The label of a room: its name, and how much is unread in it.
    pub open spec fn room_label(&self, room: Seq<char>) -> Seq<char> {
        if self.unread_of(self.hub@, room) == 0 {
            room
        } else {
            room + " ("@ + decimal(self.unread_of(self.hub@, room) as nat) + ")"@
        }
    }

    pub fn label(&self, room: &str) -> (r: String)
        requires
            self.wf(),
        ensures
            r@ == self.room_label(room@),
    {
        let count = self.unread_count(self.hub.as_str(), room);
        if count == 0 {
            return room.to_string();
        }
        let mut text = labelled(room, " (");
        push_decimal(&mut text, count as u64);
        text.append(")");
        text
    }

    /// The text on the button of a room: its label without tildes, which would mark a
    /// key.
    pub fn button_text(&self, room: &str) -> (r: String)
        requires
            self.wf(),
        ensures
            r@ == self.room_label(room@).filter(|c: char| c != '~'),
    {
        let label = chars_of(self.label(room).as_str());
        let ghost p = |c: char| c != '~';
        let mut text = String::new();
        proof {
            reveal(Seq::filter);
            assert(text@ =~= label@.take(0).filter(p));
        }
        for i in 0..label.len()
            invariant
                p == (|c: char| c != '~'),
                text@ == label@.take(i as int).filter(p),
        {
            proof {
                reveal(Seq::filter);
                assert(label@.take(i + 1).drop_last() =~= label@.take(i as int));
            }
            if label[i] != '~' {
                text.push(label[i]);
            }
        }
        assert(label@.take(label@.len() as int) =~= label@);
        text
    }

    /// Whether the button of a room is pressed: that of the room that is open.
    pub fn button_pressed(&self, room: &str) -> (r: bool)
        requires
            self.wf(),
        ensures
            r == (self.room@.contains_key(self.hub@) && self.room@[self.hub@]@ == room@),
    {
        match self.room.get(self.hub.as_str()) {
            Some(open) => same_text(open.as_str(), room),
            None => false,
        }
    }

    /// One message more is unread in a room.
    fn add_unread(&mut self, hub: &String, room: &String)
        requires
            old(self).wf(),
        ensures
            final(self).wf(),
            forall|h: Seq<char>, r: Seq<char>|
                #[trigger] unread_in(final(self).unread@, h, r) == if h == hub@ && r == room@ {
                    bounded(unread_in(old(self).unread@, h, r) + 1)
                } else {
                    unread_in(old(self).unread@, h, r)
                },
            *final(self) == (RrcSession { unread: final(self).unread, ..*old(self) }),
    {
        let mut rooms: TextMap<usize> = match self.unread.remove(hub.as_str()) {
            Some(rooms) => rooms,
            None => TextMap::new(),
        };
        let count: usize = match rooms.get(room.as_str()) {
            Some(count) => *count,
            None => 0,
        };
        rooms.insert(
            room.clone(),
            if count == usize::MAX {
                count
            } else {
                count + 1
            },
        );
        self.unread.insert(hub.clone(), rooms);
    }

    /// A room was read.
    fn drop_unread(&mut self, hub: &str, room: &str)
        requires
            old(self).wf(),
        ensures
            final(self).wf(),
            forall|h: Seq<char>, r: Seq<char>|
                #[trigger] unread_in(final(self).unread@, h, r) == if h == hub@ && r == room@ {
                    0
                } else {
                    unread_in(old(self).unread@, h, r)
                },
            *final(self) == (RrcSession { unread: final(self).unread, ..*old(self) }),
    {
        if let Some(mut rooms) = self.unread.remove(hub) {
            let _ = rooms.remove(room);
            self.unread.insert(hub.to_string(), rooms);
        }
    }

    /// Looks through the messages of a hub.
    fn observe_hub(&mut self, hub: &String, messages: &Vec<RrcMessageView>, own: &Option<String>)
        requires
            old(self).wf(),
        ensures
            final(self).wf(),
            final(self).seen@.contains_key(hub@),
            key_views(final(self).seen@[hub@]@) == keys_of(messages@),
            final(self).seen@ == old(self).seen@.insert(hub@, final(self).seen@[hub@]),
            forall|h: Seq<char>, r: Seq<char>|
                #[trigger] unread_in(final(self).unread@, h, r) == if h == hub@ && old(self).seen@.contains_key(hub@) && !old(self).disconnected@.contains_key(hub@) {
                    bounded(
                        unread_in(old(self).unread@, h, r) + counted(
                            messages@,
                            key_views(old(self).seen@[hub@]@),
                            text_view(*own),
                            r,
                            messages@.len() as int,
                        ),
                    )
                } else {
                    unread_in(old(self).unread@, h, r)
                },
            *final(self) == (RrcSession {
                unread: final(self).unread,
                seen: final(self).seen,
                ..*old(self)
            }),
    {
        let ghost start = self.unread@;
        let previous = self.seen.remove(hub.as_str());
        let counting = previous.is_some() && !self.disconnected.contains(hub.as_str());
        let before: Vec<MessageKey> = match previous {
            Some(keys) => keys,
            None => Vec::new(),
        };
        let mut current: Vec<MessageKey> = Vec::new();
        let ghost known = key_views(before@);
        let ghost mine = text_view(*own);
        assert(key_views(current@) =~= keys_of(messages@.take(0)));
        for i in 0..messages.len()
            invariant
                self.wf(),
                known == key_views(before@),
                mine == text_view(*own),
                key_views(current@) == keys_of(messages@.take(i as int)),
                self.seen@ == old(self).seen@.remove(hub@),
                counting == (old(self).seen@.contains_key(hub@) && !old(self).disconnected@.contains_key(hub@)),
                forall|h: Seq<char>, r: Seq<char>|
                    #[trigger] unread_in(self.unread@, h, r) == if h == hub@ && counting {
                        bounded(
                            unread_in(start, h, r) + counted(messages@, known, mine, r, i as int),
                        )
                    } else {
                        unread_in(start, h, r)
                    },
                start == old(self).unread@,
                *self == (RrcSession { unread: self.unread, seen: self.seen, ..*old(self) }),
        {
            let key = read_key(&messages[i]);
            let ghost model = key_of(messages@[i as int]);
            let ghost read = self.unread@;
            let ghost earlier = current@;
            let is_own = match own {
                Some(own) => same_text(own.as_str(), key.source.as_str()),
                None => false,
            };
            let fresh = !holds_key(&before, &key) && !holds_key(&current, &key);
            if counting && fresh && !key.room.as_str().is_empty() && !is_own {
                self.add_unread(hub, &key.room);
            }
            proof {
                assert forall|h: Seq<char>, r: Seq<char>|
                    #[trigger] unread_in(self.unread@, h, r) == if h == hub@ && counting {
                        bounded(
                            unread_in(start, h, r) + counted(messages@, known, mine, r, i + 1),
                        )
                    } else {
                        unread_in(start, h, r)
                    } by {
                    assert(unread_in(read, h, r) == if h == hub@ && counting {
                        bounded(
                            unread_in(start, h, r) + counted(messages@, known, mine, r, i as int),
                        )
                    } else {
                        unread_in(start, h, r)
                    });
                }
            }
            current.push(key);
            proof {
                assert(key_views(current@) =~= key_views(earlier).push(model));
                assert(keys_of(messages@.take(i + 1)) =~= keys_of(messages@.take(i as int)).push(
                    model,
                ));
            }
        }
        assert(messages@.take(messages@.len() as int) =~= messages@);
        self.seen.insert(hub.clone(), current);
        assert(self.seen@ =~= old(self).seen@.insert(hub@, current));
    }
}

pub open spec fn hub_hashes(hubs: Seq<RrcHubView>) -> Seq<Seq<char>> {
    hubs.map_values(|hub: RrcHubView| hub.destination_hash@)
}

/// The place of a hub, or the number of them.
fn find_hub(hubs: &Vec<RrcHubView>, hash: &str) -> (r: usize)
    ensures
        r == place_of(hub_hashes(hubs@), hash@),
        r <= hubs@.len(),
{
    let mut i: usize = 0;
    while i < hubs.len() && !same_text(hubs[i].destination_hash.as_str(), hash)
        invariant
            i <= hubs@.len(),
            forall|j: int| 0 <= j < i ==> #[trigger] hub_hashes(hubs@)[j] != hash@,
        decreases hubs@.len() - i,
    {
        i = i + 1;
    }
    proof {
        crate::ui::state::lemma_place_at(hub_hashes(hubs@), hash@, i as int);
    }
    i
}

/// Who the user is on a hub.
pub open spec fn own_identity(hubs: Seq<RrcHubView>, hash: Seq<char>) -> Option<Seq<char>> {
    let n = place_of(hub_hashes(hubs), hash) as int;
    if n < hubs.len() {
        Some(hubs[n].local_identity@)
    } else {
        None
    }
}

/// Whether some hub of that address is connected.
pub open spec fn is_connected(hubs: Seq<RrcHubView>, hash: Seq<char>) -> bool {
    exists|i: int| 0 <= i < hubs.len() && (#[trigger] hubs[i]).destination_hash@ == hash && hubs[i].connected
}

fn hub_connected(hubs: &Vec<RrcHubView>, hash: &str) -> (r: bool)
    ensures
        r == is_connected(hubs@, hash@),
{
    for i in 0..hubs.len()
        invariant
            forall|j: int|
                0 <= j < i ==> !((#[trigger] hubs@[j]).destination_hash@ == hash@
                    && hubs@[j].connected),
    {
        if hubs[i].connected && same_text(hubs[i].destination_hash.as_str(), hash) {
            assert(hubs@[i as int].connected);
            return true;
        }
    }
    false
}

impl RrcSession {
    /// How many messages of a room are new and unread.
    pub open spec fn new_unread(&self, state: RrcState, hub: Seq<char>, room: Seq<char>) -> int {
        if state.history@.contains_key(hub) && self.seen@.contains_key(hub)
            && !self.disconnected@.contains_key(hub) {
            counted(
                state.history@[hub]@,
                key_views(self.seen@[hub]@),
                own_identity(state.hubs@, hub),
                room,
                state.history@[hub]@.len() as int,
            ) as int
        } else {
            0
        }
    }

    /// How many lines of a room are unread once a session has looked at the hubs: none
    /// of the room that is looked at, and of another those from before and the new ones.
    pub open spec fn unread_then(
        &self,
        state: RrcState,
        active: bool,
        hub: Seq<char>,
        room: Seq<char>,
    ) -> int {
        if active && hub == self.hub@ && self.room@.contains_key(hub) && room == self.room@[hub]@ {
            0
        } else {
            bounded(self.unread_of(hub, room) + self.new_unread(state, hub, room))
        }
    }

    /// The room that is open on a hub.
    pub open spec fn open_room(&self, hub: Seq<char>) -> Seq<char> {
        if self.room@.contains_key(hub) {
            self.room@[hub]@
        } else {
            Seq::empty()
        }
    }

    /// Looks through the messages of all hubs. Where the window is active, the open
    /// room counts as read.
    pub fn observe_messages(&mut self, state: &RrcState, active: bool)
        requires
            old(self).wf(),
            state.wf(),
        ensures
            forall|h: Seq<char>, r: Seq<char>|
                #[trigger] unread_in(final(self).unread@, h, r) == old(self).unread_then(
                    *state,
                    active,
                    h,
                    r,
                ),
            final(self).wf(),
            forall|h: Seq<char>, r: Seq<char>|
                #[trigger] unread_in(final(self).unread@, h, r) == if active && h == old(self).hub@
                    && old(self).room@.contains_key(h) && r == old(self).room@[h]@ {
                    0
                } else {
                    bounded(unread_in(old(self).unread@, h, r) + old(self).new_unread(*state, h, r))
                },
            forall|h: Seq<char>| #[trigger]
                final(self).seen@.contains_key(h) <==> old(self).seen@.contains_key(h)
                    || state.history@.contains_key(h),
            forall|h: Seq<char>| #[trigger]
                state.history@.contains_key(h) ==> key_views(final(self).seen@[h]@) == keys_of(
                    state.history@[h]@,
                ),
            forall|h: Seq<char>|
                old(self).seen@.contains_key(h) && !state.history@.contains_key(h)
                    ==> #[trigger] final(self).seen@[h] == old(self).seen@[h],
            *final(self) == (RrcSession {
                unread: final(self).unread,
                seen: final(self).seen,
                ..*old(self)
            }),
    {
        let ghost list = state.history.list();
        let ghost start = *self;
        let count = state.history.len();
        proof {
            lemma_list_map(list);
        }
        for i in 0..count
            invariant
                count == list.len(),
                list == state.history.list(),
                state.wf(),
                self.wf(),
                start == *old(self),
                forall|k: int|
                    0 <= k < list.len() ==> state.history@.contains_key((#[trigger] list[k]).0)
                        && state.history@[list[k].0] == list[k].1,
                forall|h: Seq<char>, r: Seq<char>|
                    #[trigger] unread_in(self.unread@, h, r) == if has_key(
                        list.take(i as int),
                        h,
                    ) {
                        bounded(unread_in(start.unread@, h, r) + start.new_unread(*state, h, r))
                    } else {
                        unread_in(start.unread@, h, r)
                    },
                forall|h: Seq<char>| #[trigger]
                    self.seen@.contains_key(h) <==> start.seen@.contains_key(h) || has_key(
                        list.take(i as int),
                        h,
                    ),
                forall|h: Seq<char>|
                    has_key(list.take(i as int), h) ==> key_views(#[trigger] self.seen@[h]@)
                        == keys_of(state.history@[h]@),
                forall|h: Seq<char>|
                    start.seen@.contains_key(h) && !has_key(list.take(i as int), h)
                        ==> #[trigger] self.seen@[h] == start.seen@[h],
                *self == (RrcSession { unread: self.unread, seen: self.seen, ..start }),
        {
            let ghost done = list.take(i as int);
            let ghost next = list.take(i + 1);
            let ghost here = list[i as int].0;
            let ghost middle = *self;
            proof {
                assert forall|k: Seq<char>| #[trigger] has_key(next, k) == (has_key(done, k) || k
                    == here) by {
                    if has_key(next, k) {
                        let j = choose|j: int| 0 <= j < next.len() && (#[trigger] next[j]).0 == k;
                        if j < i {
                            assert(done[j].0 == k);
                        }
                    }
                    if has_key(done, k) {
                        let j = choose|j: int| 0 <= j < done.len() && (#[trigger] done[j]).0 == k;
                        assert(next[j].0 == k);
                    }
                    assert(next[i as int].0 == here);
                }
                if has_key(done, here) {
                    let j = choose|j: int| 0 <= j < done.len() && (#[trigger] done[j]).0 == here;
                    crate::table::lemma_text_less_irreflexive(here);
                    assert(text_less(list[j].0, list[i as int].0));
                }
                assert(!has_key(done, here));
            }
            let (hub, messages) = state.history.at(i);
            let n = find_hub(&state.hubs, hub.as_str());
            let own = if n < state.hubs.len() {
                Some(state.hubs[n].local_identity.clone())
            } else {
                None
            };
            assert(text_view(own) == own_identity(state.hubs@, here));
            self.observe_hub(hub, messages, &own);
            proof {
                assert forall|h: Seq<char>, r: Seq<char>|
                    #[trigger] unread_in(self.unread@, h, r) == if has_key(next, h) {
                        bounded(unread_in(start.unread@, h, r) + start.new_unread(*state, h, r))
                    } else {
                        unread_in(start.unread@, h, r)
                    } by {
                    assert(unread_in(middle.unread@, h, r) == if has_key(done, h) {
                        bounded(unread_in(start.unread@, h, r) + start.new_unread(*state, h, r))
                    } else {
                        unread_in(start.unread@, h, r)
                    });
                }
            }
        }
        proof {
            assert(list.take(count as int) =~= list);
        }
        let ghost middle = *self;
        if active {
            let room = match self.room.get(self.hub.as_str()) {
                Some(room) => Some(room.clone()),
                None => None,
            };
            if let Some(room) = room {
                let hub = self.hub.clone();
                self.drop_unread(hub.as_str(), room.as_str());
            }
        }
        proof {
            assert forall|h: Seq<char>, r: Seq<char>|
                #[trigger] unread_in(self.unread@, h, r) == if active && h == start.hub@
                    && start.room@.contains_key(h) && r == start.room@[h]@ {
                    0
                } else {
                    bounded(unread_in(start.unread@, h, r) + start.new_unread(*state, h, r))
                } by {
                assert(unread_in(middle.unread@, h, r) == if has_key(list, h) {
                    bounded(unread_in(start.unread@, h, r) + start.new_unread(*state, h, r))
                } else {
                    unread_in(start.unread@, h, r)
                });
            }
        }
    }

    /// Under which name the draft of the open room is kept.
    pub open spec fn draft_name(&self) -> Seq<char> {
        self.hub@.push(':') + self.open_room(self.hub@)
    }

    pub fn draft_key(&self) -> (r: String)
        requires
            self.wf(),
        ensures
            r@ == self.draft_name(),
    {
        let mut key = self.hub.clone();
        key.push(':');
        match self.room.get(self.hub.as_str()) {
            Some(room) => key.append(room.as_str()),
            None => {
                assert(key@ + Seq::<char>::empty() =~= key@);
            },
        }
        key
    }

    fn say(&mut self, hub: String, text: String)
        requires
            old(self).wf(),
        ensures
            final(self).wf(),
            final(self).status@ == old(self).status@.insert(hub@, text),
            *final(self) == (RrcSession { status: final(self).status, ..*old(self) }),
    {
        self.status.insert(hub, text);
    }

    /// Asks a hub for something. Only one request is made at a time.
    pub fn send(&mut self, action: Action, draft: Option<String>) -> (r: Option<RrcRequest>)
        requires
            old(self).wf(),
        ensures
            final(self).wf(),
            asked(*old(self), action@, text_view(draft), *final(self), r),
    {
        let hub = self.hub.clone();
        if self.pending.is_some() {
            self.say(hub, "Please wait for the current operation".to_string());
            return None;
        }
        let draft_key = self.draft_key();
        self.say(hub.clone(), "Working\u{2026}".to_string());
        self.pending = Some(PendingAnswer { hub: hub.clone(), draft_key, draft });
        Some(RrcRequest { hub, action })
    }

    /// Notes that a request could not be handed over.
    pub fn send_failed(&mut self)
        requires
            old(self).wf(),
        ensures
            final(self).wf(),
            says(
                old(self).status@,
                final(self).status@,
                old(self).hub@,
                "RRC service stopped"@,
            ),
            *final(self) == (RrcSession {
                status: final(self).status,
                pending: None,
                ..*old(self)
            }),
    {
        let hub = self.hub.clone();
        self.pending = None;
        self.say(hub, "RRC service stopped".to_string());
    }
}

/// The status lines after something was said of a hub.
pub open spec fn says(
    before: Map<Seq<char>, String>,
    after: Map<Seq<char>, String>,
    hub: Seq<char>,
    text: Seq<char>,
) -> bool {
    &&& after.contains_key(hub)
    &&& after[hub]@ == text
    &&& after == before.insert(hub, after[hub])
}

/// What is known of hubs that were left: one that was seen to be gone and is
/// connected anew counts as left no more.
pub open spec fn connections_noted(
    before: RrcSession,
    hubs: Seq<RrcHubView>,
    after: RrcSession,
) -> bool {
    &&& forall|h: Seq<char>| #[trigger]
        after.disconnected@.contains_key(h) <==> before.disconnected@.contains_key(h) && !(
        before.disconnected@[h] && is_connected(hubs, h))
    &&& forall|h: Seq<char>| #[trigger]
        after.disconnected@.contains_key(h) ==> after.disconnected@[h] == (before.disconnected@[h]
            || !is_connected(hubs, h))
    &&& after == (RrcSession { disconnected: after.disconnected, ..before })
}

/// What asking a hub does: one request is made at a time, and the screen says
/// whether this one is.
pub open spec fn asked(
    before: RrcSession,
    action: ActionModel,
    draft: Option<Seq<char>>,
    after: RrcSession,
    request: Option<RrcRequest>,
) -> bool {
    &&& request.is_some() == before.pending.is_none()
    &&& says(
        before.status@,
        after.status@,
        before.hub@,
        if before.pending.is_some() {
            "Please wait for the current operation"@
        } else {
            "Working\u{2026}"@
        },
    )
    &&& request.is_none() ==> after == (RrcSession { status: after.status, ..before })
    &&& request.is_some() ==> {
        &&& request.unwrap().hub@ == before.hub@
        &&& request.unwrap().action@ == action
        &&& after.pending.is_some()
        &&& after.pending.unwrap().hub@ == before.hub@
        &&& after.pending.unwrap().draft_key@ == before.draft_name()
        &&& text_view(after.pending.unwrap().draft) == draft
        &&& after == (RrcSession { status: after.status, pending: after.pending, ..before })
    }
}

/// What asking for the open room to be cleared does.
pub open spec fn clearing_asked(
    before: RrcSession,
    after: RrcSession,
    request: Option<RrcRequest>,
) -> bool {
    let room = before.open_room(before.hub@);
    if room.len() == 0 {
        &&& request.is_none()
        &&& says(before.status@, after.status@, before.hub@, "Select a room first"@)
        &&& after == (RrcSession { status: after.status, ..before })
    } else {
        asked(before, ActionModel::Clear(room), None, after, request)
    }
}

/// The texts in order, each once.
pub open spec fn in_order(sorted: Seq<Seq<char>>, texts: Seq<Seq<char>>) -> bool {
    &&& forall|i: int, j: int| 0 <= i < j < sorted.len() ==> text_less(sorted[i], sorted[j])
    &&& forall|text: Seq<char>| #[trigger] sorted.contains(text) <==> texts.contains(text)
}

fn sort_unique(texts: Vec<String>) -> (r: Vec<String>)
    ensures
        in_order(text_views(r@), text_views(texts@)),
{
    let ghost all = text_views(texts@);
    let ghost given = texts@;
    let mut set: TextMap<()> = TextMap::new();
    let mut rest = texts;
    let ghost mut done: int = 0;
    while rest.len() > 0
        invariant
            0 <= done <= all.len(),
            all == text_views(given),
            rest@ == given.skip(done),
            set.wf(),
            forall|t: Seq<char>| #[trigger]
                set@.contains_key(t) <==> all.take(done).contains(t),
        decreases rest@.len(),
    {
        let ghost before = all.take(done);
        let text = rest.remove(0);
        proof {
            assert(text@ == all[done]);
            assert(rest@ =~= given.skip(done + 1));
            let next = all.take(done + 1);
            assert forall|t: Seq<char>| #[trigger]
                next.contains(t) == (before.contains(t) || t == text@) by {
                if next.contains(t) {
                    let i = choose|i: int| 0 <= i < next.len() && next[i] == t;
                    if i < done {
                        assert(before[i] == t);
                    }
                }
                if before.contains(t) {
                    let i = choose|i: int| 0 <= i < before.len() && before[i] == t;
                    assert(next[i] == t);
                }
                assert(next[done] == text@);
            }
        }
        set.insert(text, ());
        proof {
            done = done + 1;
        }
    }
    assert(all.take(done) =~= all);
    let ghost list = set.list();
    proof {
        lemma_list_map(list);
    }
    let count = set.len();
    let mut out: Vec<String> = Vec::new();
    for i in 0..count
        invariant
            count == list.len(),
            list == set.list(),
            out@.len() == i,
            forall|j: int| 0 <= j < i ==> (#[trigger] out@[j])@ == list[j].0,
    {
        out.push(set.at(i).0.clone());
    }
    proof {
        let sorted = text_views(out@);
        assert forall|i: int, j: int| 0 <= i < j < sorted.len() implies text_less(
            sorted[i],
            sorted[j],
        ) by {
            assert(sorted[i] == list[i].0 && sorted[j] == list[j].0);
        }
        assert forall|t: Seq<char>| #[trigger] sorted.contains(t) <==> all.contains(t) by {
            if sorted.contains(t) {
                let i = choose|i: int| 0 <= i < sorted.len() && sorted[i] == t;
                assert(list[i].0 == t);
                assert(set@.contains_key(t));
            }
            if all.contains(t) {
                assert(set@.contains_key(t));
                assert(has_key(list, t));
                let i = choose|i: int| 0 <= i < list.len() && (#[trigger] list[i]).0 == t;
                assert(sorted[i] == t);
            }
        }
    }
    out
}

/// What is said of an answer.
pub open spec fn answer_text(answer: Answer) -> Seq<char> {
    match answer {
        Answer::Cleared(_) => "History cleared"@,
        Answer::Disconnected => "Disconnected"@,
        Answer::Rooms(_) => "Rooms updated"@,
        Answer::Joined(_) => "Joined"@,
        Answer::Status(status) => status@,
    }
}

/// The drafts after a request succeeded: what was sent goes, unless it was changed
/// since.
pub open spec fn drafts_after(
    before: Map<Seq<char>, String>,
    pending: PendingAnswer,
    after: Map<Seq<char>, String>,
) -> bool {
    let key = pending.draft_key@;
    if pending.draft.is_some() && before.contains_key(key) && before[key]@
        == pending.draft.unwrap()@ {
        after == before.remove(key)
    } else {
        after == before
    }
}

/// What an answer changes on the hub that it came from.
pub open spec fn answer_taken(
    before: RrcSession,
    hub: Seq<char>,
    answer: Answer,
    after: RrcSession,
) -> bool {
    match answer {
        Answer::Cleared(room) => {
            &&& forall|h: Seq<char>, r: Seq<char>|
                #[trigger] unread_in(after.unread@, h, r) == if h == hub && r == room@ {
                    0
                } else {
                    unread_in(before.unread@, h, r)
                }
            &&& after == (RrcSession {
                unread: after.unread,
                drafts: after.drafts,
                status: after.status,
                pending: None,
                ..before
            })
        },
        Answer::Disconnected => {
            &&& forall|h: Seq<char>, r: Seq<char>|
                #[trigger] unread_in(after.unread@, h, r) == if h == hub {
                    0
                } else {
                    unread_in(before.unread@, h, r)
                }
            &&& after.room@ == before.room@.remove(hub)
            &&& after.rooms@ == before.rooms@.remove(hub)
            &&& after.disconnected@ == before.disconnected@.insert(hub, false)
            &&& after == (RrcSession {
                unread: after.unread,
                room: after.room,
                rooms: after.rooms,
                disconnected: after.disconnected,
                drafts: after.drafts,
                status: after.status,
                pending: None,
                ..before
            })
        },
        Answer::Rooms(rooms) => {
            &&& after.rooms@.contains_key(hub)
            &&& in_order(text_views(after.rooms@[hub]@), text_views(rooms@))
            &&& after.rooms@ == before.rooms@.insert(hub, after.rooms@[hub])
            &&& after == (RrcSession {
                rooms: after.rooms,
                drafts: after.drafts,
                status: after.status,
                pending: None,
                ..before
            })
        },
        Answer::Joined(room) => {
            &&& after.room@ == before.room@.insert(hub, room)
            &&& after == (RrcSession {
                room: after.room,
                drafts: after.drafts,
                status: after.status,
                pending: None,
                ..before
            })
        },
        Answer::Status(_) => after == (RrcSession {
            drafts: after.drafts,
            status: after.status,
            pending: None,
            ..before
        }),
    }
}

impl RrcSession {
    /// Takes the answer that is awaited. It counts for the hub that was asked,
    /// whichever is open now.
    pub fn poll(&mut self, result: Result<Answer, String>)
        requires
            old(self).wf(),
            old(self).pending.is_some(),
        ensures
            final(self).wf(),
            final(self).pending.is_none(),
            says(
                old(self).status@,
                final(self).status@,
                old(self).pending.unwrap().hub@,
                match result {
                    Ok(answer) => answer_text(answer),
                    Err(error) => "Error: "@ + error@,
                },
            ),
            result is Err ==> *final(self) == (RrcSession {
                status: final(self).status,
                pending: None,
                ..*old(self)
            }),
            result is Ok ==> drafts_after(
                old(self).drafts@,
                old(self).pending.unwrap(),
                final(self).drafts@,
            ) && answer_taken(
                *old(self),
                old(self).pending.unwrap().hub@,
                result->Ok_0,
                *final(self),
            ),
    {
        let taken = self.pending.take();
        if let Some(pending) = taken {
            match result {
                Ok(answer) => {
                    let sent = match &pending.draft {
                        Some(draft) => match self.drafts.get(pending.draft_key.as_str()) {
                            Some(kept) => same_text(kept.as_str(), draft.as_str()),
                            None => false,
                        },
                        None => false,
                    };
                    if sent {
                        let _ = self.drafts.remove(pending.draft_key.as_str());
                    }
                    let text = match answer {
                        Answer::Cleared(room) => {
                            self.drop_unread(pending.hub.as_str(), room.as_str());
                            "History cleared".to_string()
                        },
                        Answer::Disconnected => {
                            let _ = self.unread.remove(pending.hub.as_str());
                            let _ = self.room.remove(pending.hub.as_str());
                            let _ = self.rooms.remove(pending.hub.as_str());
                            self.disconnected.insert(pending.hub.clone(), false);
                            "Disconnected".to_string()
                        },
                        Answer::Rooms(rooms) => {
                            let sorted = sort_unique(rooms);
                            self.rooms.insert(pending.hub.clone(), sorted);
                            "Rooms updated".to_string()
                        },
                        Answer::Joined(room) => {
                            self.room.insert(pending.hub.clone(), room);
                            "Joined".to_string()
                        },
                        Answer::Status(status) => status,
                    };
                    self.say(pending.hub, text);
                },
                Err(error) => {
                    let text = labelled("Error: ", error.as_str());
                    self.say(pending.hub, text);
                },
            }
        }
    }

    /// Sends what is written for the open room, or says why it cannot be.
    pub fn submit(&mut self) -> (r: Option<RrcRequest>)
        requires
            old(self).wf(),
        ensures
            submitted(*old(self), *final(self), r),
            final(self).wf(),
            ({
                let draft = if old(self).drafts@.contains_key(old(self).draft_name()) {
                    old(self).drafts@[old(self).draft_name()]@
                } else {
                    Seq::empty()
                };
                let room = old(self).open_room(old(self).hub@);
                match parsed(draft, room) {
                    Err(text) => r.is_none() && says(
                        old(self).status@,
                        final(self).status@,
                        old(self).hub@,
                        text,
                    ) && *final(self) == (RrcSession {
                        status: final(self).status,
                        ..*old(self)
                    }),
                    Ok(action) => asked(*old(self), action, Some(draft), *final(self), r),
                }
            }),
    {
        let key = self.draft_key();
        let draft = match self.drafts.get(key.as_str()) {
            Some(draft) => draft.clone(),
            None => {
                let none = String::new();
                assert(none@ =~= Seq::<char>::empty());
                none
            },
        };
        let room = self.current_room();
        match parse(draft.as_str(), room.as_str()) {
            Ok(action) => self.send(action, Some(draft)),
            Err(error) => {
                let hub = self.hub.clone();
                self.say(hub, error);
                None
            },
        }
    }

    /// The room that is open on the open hub.
    pub fn current_room(&self) -> (r: String)
        requires
            self.wf(),
        ensures
            r@ == self.open_room(self.hub@),
    {
        match self.room.get(self.hub.as_str()) {
            Some(room) => room.clone(),
            None => {
                let none = String::new();
                assert(none@ =~= Seq::<char>::empty());
                none
            },
        }
    }

    /// Asks for the history of the open room to be cleared.
    pub fn clear_room(&mut self) -> (r: Option<RrcRequest>)
        requires
            old(self).wf(),
        ensures
            final(self).wf(),
            clearing_asked(*old(self), *final(self), r),
    {
        let room = self.current_room();
        if room.as_str().is_empty() {
            let hub = self.hub.clone();
            self.say(hub, "Select a room first".to_string());
            return None;
        }
        self.send(Action::Clear(room), None)
    }

    /// Presses the button of a room. A room that was joined is opened at once, any
    /// other is asked for.
    pub fn press_room(&mut self, state: &RrcState, room: &String) -> (r: Option<RrcRequest>)
        requires
            old(self).wf(),
        ensures
            room_pressed(*old(self), state.hubs@, room@, *final(self), r),
            final(self).wf(),
            ({
                let hub = old(self).hub@;
                let joined = !old(self).disconnected@.contains_key(hub) && is_joined(
                    state.hubs@,
                    hub,
                    room@,
                );
                if joined {
                    &&& r.is_none()
                    &&& final(self).room@ == old(self).room@.insert(hub, *room)
                    &&& forall|h: Seq<char>, q: Seq<char>|
                        #[trigger] unread_in(final(self).unread@, h, q) == if h == hub && q
                            == room@ {
                            0
                        } else {
                            unread_in(old(self).unread@, h, q)
                        }
                    &&& *final(self) == (RrcSession {
                        room: final(self).room,
                        unread: final(self).unread,
                        ..*old(self)
                    })
                } else {
                    asked(*old(self), ActionModel::Join(room@, None), None, *final(self), r)
                }
            }),
    {
        let hub = self.hub.clone();
        let joined = !self.disconnected.contains(hub.as_str()) && room_joined(
            &state.hubs,
            hub.as_str(),
            room.as_str(),
        );
        if joined {
            self.room.insert(hub.clone(), room.clone());
            self.drop_unread(hub.as_str(), room.as_str());
            return None;
        }
        self.send(Action::Join(room.clone(), None), None)
    }

    /// The rooms that have a button: those the hub listed and those that were joined,
    /// in order. The first joined room is opened where none is.
    pub fn room_buttons(&mut self, state: &RrcState) -> (r: Vec<String>)
        requires
            old(self).wf(),
        ensures
            final(self).wf(),
            ({
                let hub = old(self).hub@;
                let n = place_of(hub_hashes(state.hubs@), hub) as int;
                let here = n < state.hubs@.len() && !old(self).disconnected@.contains_key(hub);
                let listed = if old(self).rooms@.contains_key(hub) {
                    text_views(old(self).rooms@[hub]@)
                } else {
                    Seq::empty()
                };
                let joined = if here {
                    text_views(state.hubs@[n].rooms@)
                } else {
                    Seq::empty()
                };
                &&& old(self).disconnected@.contains_key(hub) ==> r@.len() == 0
                &&& !old(self).disconnected@.contains_key(hub) ==> in_order(
                    text_views(r@),
                    listed + joined,
                )
                &&& here && joined.len() > 0 && !old(self).room@.contains_key(hub) ==> {
                    &&& final(self).room@.contains_key(hub)
                    &&& final(self).room@[hub]@ == joined[0]
                    &&& final(self).room@ == old(self).room@.insert(hub, final(self).room@[hub])
                    &&& *final(self) == (RrcSession { room: final(self).room, ..*old(self) })
                }
                &&& !(here && joined.len() > 0 && !old(self).room@.contains_key(hub))
                    ==> *final(self) == *old(self)
            }),
    {
        let hub = self.hub.clone();
        if self.disconnected.contains(hub.as_str()) {
            return Vec::new();
        }
        let mut all: Vec<String> = match self.rooms.get(hub.as_str()) {
            Some(rooms) => crate::ui::state::clone_texts(rooms),
            None => Vec::new(),
        };
        let ghost listed = text_views(all@);
        let n = find_hub(&state.hubs, hub.as_str());
        if n < state.hubs.len() {
            let mut joined = crate::ui::state::clone_texts(&state.hubs[n].rooms);
            if joined.len() > 0 && !self.room.contains(hub.as_str()) {
                self.room.insert(hub, joined[0].clone());
            }
            let ghost more = text_views(joined@);
            all.append(&mut joined);
            assert(text_views(all@) =~= listed + more);
        } else {
            assert(listed =~= listed + Seq::<Seq<char>>::empty());
        }
        proof {
            assert(old(self).rooms@.contains_key(old(self).hub@) || listed
                =~= Seq::<Seq<char>>::empty());
        }
        sort_unique(all)
    }

    /// Lets go of the marks of hubs that were left and are connected anew.
    pub fn note_connections(&mut self, state: &RrcState)
        requires
            old(self).wf(),
        ensures
            final(self).wf(),
            connections_noted(*old(self), state.hubs@, *final(self)),
    {
        let ghost start = self.disconnected@;
        let mut rest: TextMap<bool> = TextMap::new();
        std::mem::swap(&mut self.disconnected, &mut rest);
        let mut kept: TextMap<bool> = TextMap::new();
        while rest.len() > 0
            invariant
                rest.wf(),
                kept.wf(),
                forall|h: Seq<char>| #[trigger]
                    rest@.contains_key(h) ==> start.contains_key(h) && rest@[h] == start[h],
                forall|h: Seq<char>| #[trigger]
                    kept@.contains_key(h) ==> start.contains_key(h) && !rest@.contains_key(h) && !(
                    start[h] && is_connected(state.hubs@, h)) && kept@[h] == (start[h]
                        || !is_connected(state.hubs@, h)),
                forall|h: Seq<char>| #[trigger]
                    start.contains_key(h) ==> rest@.contains_key(h) || kept@.contains_key(h) || (
                    start[h] && is_connected(state.hubs@, h)),
            decreases rest.list().len(),
        {
            let ghost list = rest.list();
            let ghost before = rest@;
            let last: usize = rest.len() - 1;
            let (key, saw_offline) = rest.remove_at(last);
            proof {
                lemma_list_map(list);
                lemma_list_map_remove(list, last as int);
                assert(before.contains_key(list[last as int].0));
                assert(rest@ == before.remove(key@));
            }
            let online = hub_connected(&state.hubs, key.as_str());
            if !(saw_offline && online) {
                kept.insert(key, saw_offline || !online);
            }
        }
        proof {
            assert(rest.list() =~= Seq::empty());
            assert(rest@ =~= Map::empty());
        }
        self.disconnected = kept;
    }
}

/// What pressing a room does: one that is joined is opened and read, and any other is
/// asked for.
pub open spec fn room_pressed(
    before: RrcSession,
    hubs: Seq<RrcHubView>,
    room: Seq<char>,
    after: RrcSession,
    request: Option<RrcRequest>,
) -> bool {
    let hub = before.hub@;
    if !before.disconnected@.contains_key(hub) && is_joined(hubs, hub, room) {
        &&& request.is_none()
        &&& after.open_room(hub) == room
        &&& forall|h: Seq<char>| h != hub ==> #[trigger] after.open_room(h) == before.open_room(h)
        &&& after.unread_of(hub, room) == 0
        &&& after.drafts == before.drafts
    } else {
        asked(before, ActionModel::Join(room, None), None, after, request)
    }
}

/// What is typed for the room that is open.
pub open spec fn typed(session: RrcSession) -> Seq<char> {
    if session.drafts@.contains_key(session.draft_name()) {
        session.drafts@[session.draft_name()]@
    } else {
        Seq::empty()
    }
}

/// What submitting does: what is typed is read as a line of the room that is open, and
/// asked for, or refused with the reason.
pub open spec fn submitted(
    before: RrcSession,
    after: RrcSession,
    request: Option<RrcRequest>,
) -> bool {
    match parsed(typed(before), before.open_room(before.hub@)) {
        Err(text) => {
            &&& request.is_none()
            &&& says(before.status@, after.status@, before.hub@, text)
            &&& after.drafts == before.drafts
            &&& after.pending == before.pending
        },
        Ok(action) => asked(before, action, Some(typed(before)), after, request),
    }
}

/// The lines that are shown of the open room: none of a hub that was left.
pub open spec fn visible_in(session: RrcSession, state: RrcState) -> Seq<int> {
    let hub = session.hub@;
    if session.disconnected@.contains_key(hub) || !state.history@.contains_key(hub) {
        Seq::empty()
    } else {
        shown_places(
            state.history@[hub]@,
            session.open_room(hub),
            state.history@[hub]@.len() as int,
        )
    }
}

/// Whether a room of a connected hub was joined.
pub open spec fn is_joined(hubs: Seq<RrcHubView>, hash: Seq<char>, room: Seq<char>) -> bool {
    exists|i: int|
        0 <= i < hubs.len() && (#[trigger] hubs[i]).destination_hash@ == hash && hubs[i].connected
            && text_views(hubs[i].rooms@).contains(room)
}

fn room_joined(hubs: &Vec<RrcHubView>, hash: &str, room: &str) -> (r: bool)
    ensures
        r == is_joined(hubs@, hash@, room@),
{
    for i in 0..hubs.len()
        invariant
            forall|j: int|
                0 <= j < i ==> !((#[trigger] hubs@[j]).destination_hash@ == hash@
                    && hubs@[j].connected && text_views(hubs@[j].rooms@).contains(room@)),
    {
        proof {
            lemma_place_of(text_views(hubs@[i as int].rooms@), room@);
        }
        if hubs[i].connected && same_text(hubs[i].destination_hash.as_str(), hash) && find_text(
            &hubs[i].rooms,
            room,
        ) < hubs[i].rooms.len() {
            assert(hubs@[i as int].connected);
            return true;
        }
    }
    false
}

/// Whether a message is shown: those of the open room, and those of no room.
pub open spec fn is_shown(message: RrcMessageView, room: Seq<char>) -> bool {
    match message.room {
        Some(name) => name@ == room,
        None => true,
    }
}

/// The places of the messages that are shown.
pub open spec fn shown_places(messages: Seq<RrcMessageView>, room: Seq<char>, n: int) -> Seq<int>
    decreases n,
{
    if n <= 0 {
        Seq::empty()
    } else if is_shown(messages[n - 1], room) {
        shown_places(messages, room, n - 1).push(n - 1)
    } else {
        shown_places(messages, room, n - 1)
    }
}

pub open spec fn place_views(places: Seq<usize>) -> Seq<int> {
    places.map_values(|place: usize| place as int)
}

impl RrcSession {
    /// Which messages of the open hub are shown: none once it was left.
    pub fn visible_messages(&self, state: &RrcState) -> (r: Vec<usize>)
        requires
            self.wf(),
            state.wf(),
        ensures
            place_views(r@) == visible_in(*self, *state),
            place_views(r@) == if self.disconnected@.contains_key(self.hub@)
                || !state.history@.contains_key(self.hub@) {
                Seq::<int>::empty()
            } else {
                shown_places(
                    state.history@[self.hub@]@,
                    self.open_room(self.hub@),
                    state.history@[self.hub@]@.len() as int,
                )
            },
    {
        let mut places: Vec<usize> = Vec::new();
        assert(place_views(places@) =~= Seq::<int>::empty());
        if self.disconnected.contains(self.hub.as_str()) {
            return places;
        }
        let room = self.current_room();
        if let Some(messages) = state.history.get(self.hub.as_str()) {
            for i in 0..messages.len()
                invariant
                    place_views(places@) == shown_places(messages@, room@, i as int),
            {
                let ghost before = places@;
                let shown = match &messages[i].room {
                    Some(name) => same_text(name.as_str(), room.as_str()),
                    None => true,
                };
                if shown {
                    places.push(i);
                    assert(place_views(places@) =~= place_views(before).push(i as int));
                }
            }
        }
        places
    }

    /// What is said of the open hub: what was said of it last, or what it says of
    /// itself, or what its screen shows.
    pub fn status_text(&self, state: &RrcState, shared: &UiState) -> (r: String)
        requires
            self.wf(),
            shared.wf(),
        ensures
            ({
                let n = place_of(hub_hashes(state.hubs@), self.hub@) as int;
                let key = "rrc:"@ + self.hub@;
                r@ == if self.status@.contains_key(self.hub@) {
                    self.status@[self.hub@]@
                } else if n < state.hubs@.len() {
                    state.hubs@[n].detail@
                } else if shared.directory_views@.contains_key(key) {
                    crate::ui::lines::joined(text_views(shared.directory_views@[key]@), ' ')
                } else {
                    Seq::empty()
                }
            }),
    {
        if let Some(text) = self.status.get(self.hub.as_str()) {
            return text.clone();
        }
        let n = find_hub(&state.hubs, self.hub.as_str());
        if n < state.hubs.len() {
            return state.hubs[n].detail.clone();
        }
        let key = labelled("rrc:", self.hub.as_str());
        match shared.directory_views.get(key.as_str()) {
            Some(lines) => join_lines(lines),
            None => {
                let none = String::new();
                assert(none@ =~= Seq::<char>::empty());
                none
            },
        }
    }
}

fn join_lines(lines: &Vec<String>) -> (r: String)
    ensures
        r@ == crate::ui::lines::joined(text_views(lines@), ' '),
{
    let ghost texts = text_views(lines@);
    let mut out = String::new();
    assert(out@ =~= crate::ui::lines::joined(texts.take(0), ' '));
    for i in 0..lines.len()
        invariant
            texts == text_views(lines@),
            out@ == crate::ui::lines::joined(texts.take(i as int), ' '),
    {
        proof {
            assert(texts.take(i + 1).drop_last() =~= texts.take(i as int));
            assert(texts.take(i + 1).last() == lines@[i as int]@);
        }
        if i > 0 {
            out.push(' ');
        }
        out.append(lines[i].as_str());
        proof {
            if i == 0 {
                assert(out@ =~= lines@[0]@);
            }
            assert(out@ =~= crate::ui::lines::joined(texts.take(i + 1), ' '));
        }
    }
    assert(texts.take(lines@.len() as int) =~= texts);
    out
}

/// The addresses of the hubs that are listed: those that are connected, and the one
/// that is open.
pub open spec fn is_listed(hubs: Seq<RrcHubView>, open: Seq<char>, hash: Seq<char>) -> bool {
    hash == open || is_connected(hubs, hash)
}

/// The row of a hub: whether it is connected, and its name.
pub open spec fn server_text(state: RrcState, shared: UiState, hash: Seq<char>) -> Seq<char> {
    let n = place_of(hub_hashes(state.hubs@), hash) as int;
    (if n < state.hubs@.len() && state.hubs@[n].connected {
        "+ "@
    } else {
        "- "@
    }) + if n < state.hubs@.len() && state.hubs@[n].name.is_some() {
        state.hubs@[n].name.unwrap()@
    } else {
        title_of(shared.directory@, hash)
    }
}

/// The hubs that are listed, in order.
pub fn server_hashes(state: &RrcState, open: &String) -> (r: Vec<String>)
    ensures
        forall|i: int, j: int|
            0 <= i < j < r@.len() ==> text_less(text_views(r@)[i], text_views(r@)[j]),
        forall|hash: Seq<char>| #[trigger]
            text_views(r@).contains(hash) <==> is_listed(state.hubs@, open@, hash),
{
    let mut all: Vec<String> = Vec::new();
    all.push(open.clone());
    assert(text_views(all@)[0] == open@);
    for i in 0..state.hubs.len()
        invariant
            all@.len() >= 1,
            forall|hash: Seq<char>| #[trigger]
                text_views(all@).contains(hash) <==> hash == open@ || exists|j: int|
                    0 <= j < i && (#[trigger] state.hubs@[j]).destination_hash@ == hash
                        && state.hubs@[j].connected,
    {
        let ghost before = text_views(all@);
        if state.hubs[i].connected {
            let hash = state.hubs[i].destination_hash.clone();
            all.push(hash);
            assert(text_views(all@) =~= before.push(hash@));
        }
        proof {
            assert forall|hash: Seq<char>| #[trigger]
                text_views(all@).contains(hash) <==> hash == open@ || exists|j: int|
                    0 <= j < i + 1 && (#[trigger] state.hubs@[j]).destination_hash@ == hash
                        && state.hubs@[j].connected by {
                let here = state.hubs@[i as int];
                if text_views(all@).contains(hash) {
                    let k = choose|k: int|
                        0 <= k < text_views(all@).len() && text_views(all@)[k] == hash;
                    if k < before.len() {
                        assert(before[k] == hash);
                        assert(before.contains(hash));
                    } else {
                        assert(here.destination_hash@ == hash && here.connected);
                    }
                }
                if before.contains(hash) {
                    let k = choose|k: int| 0 <= k < before.len() && before[k] == hash;
                    assert(text_views(all@)[k] == hash);
                }
                if here.connected && here.destination_hash@ == hash {
                    assert(text_views(all@)[before.len() as int] == hash);
                }
            }
        }
    }
    proof {
        assert forall|hash: Seq<char>| #[trigger]
            text_views(all@).contains(hash) <==> is_listed(state.hubs@, open@, hash) by {
        }
    }
    sort_unique(all)
}

/// The rows of the hubs that are listed.
pub fn server_rows(state: &RrcState, shared: &UiState, hashes: &Vec<String>) -> (r: Vec<String>)
    ensures
        r@.len() == hashes@.len(),
        forall|i: int|
            0 <= i < r@.len() ==> (#[trigger] r@[i])@ == server_text(
                *state,
                *shared,
                hashes@[i]@,
            ),
{
    let mut rows: Vec<String> = Vec::new();
    for i in 0..hashes.len()
        invariant
            rows@.len() == i,
            forall|j: int|
                0 <= j < i ==> (#[trigger] rows@[j])@ == server_text(
                    *state,
                    *shared,
                    hashes@[j]@,
                ),
    {
        let hash = hashes[i].as_str();
        let n = find_hub(&state.hubs, hash);
        let known = n < state.hubs.len();
        let mut row = if known && state.hubs[n].connected {
            "+ ".to_string()
        } else {
            "- ".to_string()
        };
        let name = if known {
            crate::browser::clone_text(&state.hubs[n].name)
        } else {
            None
        };
        match name {
            Some(name) => row.append(name.as_str()),
            None => {
                let title = crate::ui::state::directory_title(shared, hash);
                row.append(title.as_str());
            },
        }
        rows.push(row);
    }
    rows
}

/// Whether the Enter key connects to the open hub.
pub fn wants_connect(state: &RrcState, open: &str) -> (r: bool)
    ensures
        r == !is_connected(state.hubs@, open@),
{
    !hub_connected(&state.hubs, open)
}

/// An answer clears only the draft that it answers, and that only as long as it is
/// what was sent.
pub proof fn law_drafts_survive_changes(
    before: Map<Seq<char>, String>,
    pending: PendingAnswer,
    after: Map<Seq<char>, String>,
)
    requires
        drafts_after(before, pending, after),
    ensures
        forall|key: Seq<char>|
            before.contains_key(key) && key != pending.draft_key@ ==> #[trigger] after.contains_key(
                key,
            ) && after[key] == before[key],
        before.contains_key(pending.draft_key@) && (pending.draft.is_none()
            || before[pending.draft_key@]@ != pending.draft.unwrap()@) ==> after == before,
{
}

/// Looking again at the same messages counts nothing twice.
pub proof fn law_messages_are_counted_once(
    messages: Seq<RrcMessageView>,
    own: Option<Seq<char>>,
    room: Seq<char>,
    n: int,
)
    requires
        0 <= n <= messages.len(),
    ensures
        counted(messages, keys_of(messages), own, room, n) == 0,
    decreases n,
{
    if n > 0 {
        law_messages_are_counted_once(messages, own, room, n - 1);
        assert(keys_of(messages)[n - 1] == key_of(messages[n - 1]));
    }
}

/// Where a reader of a room is after its lines changed: at the end, where they were
/// there or another room was opened; else where they were.
pub fn history_place(selected: usize, shown: usize, lines: usize, changed_room: bool) -> (r: usize)
    ensures
        r == if changed_room || selected + 1 >= shown {
            within(lines as int, lines as int)
        } else {
            within(selected as int, lines as int)
        },
{
    if changed_room || selected >= shown || selected + 1 >= shown {
        place_within(lines, lines)
    } else {
        place_within(selected, lines)
    }
}

} // verus!
