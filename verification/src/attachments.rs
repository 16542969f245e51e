//! Files that arrive with messages. They are held in memory until they are
//! accepted, within fixed limits, and for ten minutes at most.
use vstd::prelude::*;
use vstd::string::*;
use vstd::utf8::encode_utf8;

use crate::announce::data_view;
use crate::hexadecimal::{encode_hex, hex_text};
use crate::lxmf::{lxmf_unpacked, unpack_message, UnpackedModel};
use crate::msgpack::{
    decoded_model, lemma_shallow_deeper, lemma_shallow_entries, lemma_shallow_items, msg_model,
    msgpack_read, msgpack_written, read_msgpack, shallow, writable, write_msgpack, MsgModel,
    MsgValue, MAX_DEPTH,
};
use crate::network::{signing_key, signing_part};
use crate::table::{has_key, lemma_list_map, lemma_list_map_insert, list_map, sorted, TextMap};
use crate::text::{
    chars_of, control_char, decimal, equals, first_chars, is_control_char, is_white_space,
    lemma_decimal, push_decimal, skip_back_while, skip_while, string_of, trim, trim_chars,
};

verus! {

pub const MAX_FILE_BYTES: usize = 16777216;

pub const MAX_PENDING_BYTES: usize = 67108864;

pub const MAX_PENDING_FILES: usize = 32;

/// How long an offer stands, in milliseconds.
pub const OFFER_TTL: u64 = 600000;

/// How many names are tried for one file.
pub const MAX_SAVE_ATTEMPTS: u32 = 10000;

#[derive(Debug, PartialEq, Eq)]
pub struct FileOffer {
    pub id: String,
    pub sender: String,
    pub name: String,
    pub size: usize,
    pub verified: bool,
}

pub struct OfferModel {
    pub id: Seq<char>,
    pub sender: Seq<char>,
    pub name: Seq<char>,
    pub size: int,
    pub verified: bool,
}

impl View for FileOffer {
    type V = OfferModel;

    open spec fn view(&self) -> OfferModel {
        OfferModel {
            id: self.id@,
            sender: self.sender@,
            name: self.name@,
            size: self.size as int,
            verified: self.verified,
        }
    }
}

impl Clone for FileOffer {
    fn clone(&self) -> (r: Self)
        ensures
            r == *self,
    {
        FileOffer {
            id: self.id.clone(),
            sender: self.sender.clone(),
            name: self.name.clone(),
            size: self.size,
            verified: self.verified,
        }
    }
}

pub open spec fn offer_views(offers: Seq<FileOffer>) -> Seq<OfferModel> {
    offers.map_values(|offer: FileOffer| offer@)
}

/// A file that waits for a decision. `received` is a time in milliseconds.
#[derive(Debug)]
pub struct Pending {
    pub offer: FileOffer,
    pub data: Vec<u8>,
    pub received: u64,
}

pub struct PendingModel {
    pub offer: OfferModel,
    pub data: Seq<u8>,
    pub received: u64,
}

impl View for Pending {
    type V = PendingModel;

    open spec fn view(&self) -> PendingModel {
        PendingModel { offer: self.offer@, data: self.data@, received: self.received }
    }
}

/// What of an arrived message the inbox reads: the encoded list of its files,
/// its hash and identifier, and who sent it.
#[derive(Debug)]
pub struct FileMessage {
    pub files: Option<Vec<u8>>,
    pub hash: Option<[u8; 32]>,
    pub message_id: Option<[u8; 32]>,
    pub source_hash: [u8; 16],
    pub signature_validated: bool,
}

/// Why files are not taken in or handed out. `Undecodable` holds the decoder's
/// own words.
#[derive(Debug, Clone, PartialEq, Eq)]
pub enum InboxError {
    MemoryLimit,
    Undecodable(String),
    NoList,
    TooManyFiles,
    MissingHash,
    BadEntry,
    BadName,
    BadData,
    FileTooLarge,
    PendingTooLarge,
    Expired,
    TooManySameName,
}

impl InboxError {
    /// The sentence shown for the error.
    pub fn message(&self) -> (r: String)
        ensures
            r@ == match *self {
                InboxError::MemoryLimit => "attachments exceed memory limit"@,
                InboxError::Undecodable(complaint) => complaint@,
                InboxError::NoList => "invalid LXMF file attachments"@,
                InboxError::TooManyFiles => "too many pending files"@,
                InboxError::MissingHash => "missing message hash"@,
                InboxError::BadEntry => "invalid attachment entry"@,
                InboxError::BadName => "invalid attachment name"@,
                InboxError::BadData => "invalid attachment data"@,
                InboxError::FileTooLarge => "attachment exceeds 16 MiB limit"@,
                InboxError::PendingTooLarge => "pending attachments exceed 64 MiB limit"@,
                InboxError::Expired => "file offer expired or already handled"@,
                InboxError::TooManySameName => "too many files with the same name"@,
            },
    {
        match self {
            InboxError::MemoryLimit => "attachments exceed memory limit".to_string(),
            InboxError::Undecodable(complaint) => complaint.clone(),
            InboxError::NoList => "invalid LXMF file attachments".to_string(),
            InboxError::TooManyFiles => "too many pending files".to_string(),
            InboxError::MissingHash => "missing message hash".to_string(),
            InboxError::BadEntry => "invalid attachment entry".to_string(),
            InboxError::BadName => "invalid attachment name".to_string(),
            InboxError::BadData => "invalid attachment data".to_string(),
            InboxError::FileTooLarge => "attachment exceeds 16 MiB limit".to_string(),
            InboxError::PendingTooLarge => "pending attachments exceed 64 MiB limit".to_string(),
            InboxError::Expired => "file offer expired or already handled".to_string(),
            InboxError::TooManySameName => "too many files with the same name".to_string(),
        }
    }
}

pub open spec fn is_separator(c: char) -> bool {
    c == '/' || c == '\\'
}

/// What stands behind the last separator of a path.
pub open spec fn leaf(path: Seq<char>) -> Seq<char>
    decreases path.len(),
{
    if path.len() == 0 || is_separator(path.last()) {
        Seq::empty()
    } else {
        leaf(path.drop_last()).push(path.last())
    }
}

pub open spec fn keeps_in_name(c: char) -> bool {
    !is_control_char(c) && c != ':'
}

/// The name under which a file may be stored: the leaf of the name it came
/// with, without control characters, colons, surrounding space and leading
/// dots.
pub open spec fn stored_name(name: Seq<char>) -> Seq<char> {
    let kept = first_chars(leaf(name).filter(|c: char| keeps_in_name(c)), 120);
    let bare = skip_while(trim(kept), equals('.'));
    if bare.len() == 0 {
        "attachment.bin"@
    } else {
        bare
    }
}

proof fn lemma_leaf(path: Seq<char>, n: int)
    requires
        0 <= n <= path.len(),
        n > 0 ==> is_separator(path[n - 1]),
        forall|i: int| n <= i < path.len() ==> !is_separator(#[trigger] path[i]),
    ensures
        leaf(path) == path.skip(n),
    decreases path.len(),
{
    if n == path.len() {
        assert(path.skip(n) =~= Seq::empty());
    } else {
        assert(!is_separator(path[path.len() - 1]));
        lemma_leaf(path.drop_last(), n);
        assert(path.drop_last().skip(n).push(path.last()) =~= path.skip(n));
    }
}

pub fn safe_name(name: &str) -> (r: String)
    ensures
        r@ == stored_name(name@),
{
    let all = chars_of(name);
    let mut start: usize = all.len();
    while start > 0 && !(all[start - 1] == '/' || all[start - 1] == '\\')
        invariant
            start <= all@.len(),
            forall|i: int| start <= i < all@.len() ==> !is_separator(#[trigger] all@[i]),
        decreases start,
    {
        start = start - 1;
    }
    proof {
        lemma_leaf(all@, start as int);
    }
    let ghost p = |c: char| keeps_in_name(c);
    let ghost tail = all@.skip(start as int);
    let mut filtered: Vec<char> = Vec::new();
    let mut i: usize = start;
    while i < all.len()
        invariant
            start <= i <= all@.len(),
            tail == all@.skip(start as int),
            p == (|c: char| keeps_in_name(c)),
            filtered@ == tail.take(i - start).filter(p),
        decreases all@.len() - i,
    {
        proof {
            assert(tail.take(i - start + 1).drop_last() =~= tail.take(i - start));
            assert(tail[i - start] == all@[i as int]);
            reveal(Seq::filter);
        }
        if !control_char(all[i]) && all[i] != ':' {
            filtered.push(all[i]);
        }
        i = i + 1;
    }
    assert(tail.take(all@.len() - start) =~= tail);
    if filtered.len() > 120 {
        filtered.truncate(120);
    }
    assert(filtered@ =~= first_chars(leaf(name@).filter(p), 120));
    let trimmed = trim_chars(&filtered);
    let mut from: usize = 0;
    assert(trimmed@.skip(0) =~= trimmed@);
    while from < trimmed.len() && trimmed[from] == '.'
        invariant
            from <= trimmed@.len(),
            skip_while(trimmed@, equals('.')) == skip_while(
                trimmed@.skip(from as int),
                equals('.'),
            ),
        decreases trimmed@.len() - from,
    {
        assert(trimmed@.skip(from as int).drop_first() =~= trimmed@.skip(from + 1));
        from = from + 1;
    }
    let bare = vstd::slice::slice_subrange(trimmed, from, trimmed.len());
    assert(bare@ =~= trimmed@.skip(from as int));
    if bare.len() == 0 {
        "attachment.bin".to_string()
    } else {
        string_of(bare)
    }
}

proof fn lemma_leaf_has_no_separator(path: Seq<char>)
    ensures
        forall|i: int| 0 <= i < leaf(path).len() ==> !is_separator(#[trigger] leaf(path)[i]),
    decreases path.len(),
{
    if path.len() > 0 && !is_separator(path.last()) {
        lemma_leaf_has_no_separator(path.drop_last());
        let rest = leaf(path.drop_last());
        assert forall|i: int| 0 <= i < leaf(path).len() implies !is_separator(
            #[trigger] leaf(path)[i],
        ) by {
            if i < rest.len() {
                assert(leaf(path)[i] == rest[i]);
            }
        }
    }
}

proof fn lemma_skip_while_keeps(s: Seq<char>, p: spec_fn(char) -> bool, q: spec_fn(char) -> bool)
    requires
        forall|i: int| 0 <= i < s.len() ==> q(#[trigger] s[i]),
    ensures
        skip_while(s, p).len() <= s.len(),
        forall|i: int| 0 <= i < skip_while(s, p).len() ==> q(#[trigger] skip_while(s, p)[i]),
        skip_while(s, p).len() > 0 ==> !p(skip_while(s, p)[0]),
    decreases s.len(),
{
    if s.len() > 0 && p(s[0]) {
        lemma_skip_while_keeps(s.drop_first(), p, q);
    }
}

proof fn lemma_skip_back_while_keeps(
    s: Seq<char>,
    p: spec_fn(char) -> bool,
    q: spec_fn(char) -> bool,
)
    requires
        forall|i: int| 0 <= i < s.len() ==> q(#[trigger] s[i]),
    ensures
        skip_back_while(s, p).len() <= s.len(),
        forall|i: int|
            0 <= i < skip_back_while(s, p).len() ==> q(#[trigger] skip_back_while(s, p)[i]),
    decreases s.len(),
{
    if s.len() > 0 && p(s.last()) {
        lemma_skip_back_while_keeps(s.drop_last(), p, q);
    }
}

proof fn lemma_filter_keeps(s: Seq<char>, p: spec_fn(char) -> bool, q: spec_fn(char) -> bool)
    requires
        forall|i: int| 0 <= i < s.len() ==> q(#[trigger] s[i]),
    ensures
        forall|i: int|
            0 <= i < s.filter(p).len() ==> q(#[trigger] s.filter(p)[i]) && p(s.filter(p)[i]),
    decreases s.len(),
{
    reveal(Seq::filter);
    if s.len() > 0 {
        assert forall|i: int| 0 <= i < s.drop_last().len() implies q(
            #[trigger] s.drop_last()[i],
        ) by {
            assert(q(s[i]));
        }
        lemma_filter_keeps(s.drop_last(), p, q);
        let rest = s.drop_last().filter(p);
        assert forall|i: int| 0 <= i < s.filter(p).len() implies q(#[trigger] s.filter(p)[i]) && p(
            s.filter(p)[i],
        ) by {
            if i < rest.len() {
                assert(s.filter(p)[i] == rest[i]);
            } else {
                assert(s.filter(p)[i] == s[s.len() - 1]);
            }
        }
    }
}

/// Whatever name a file comes with, it is stored under a safe one.
pub proof fn law_stored_name_is_safe(name: Seq<char>)
    ensures
        safe_stored_name(stored_name(name)),
{
    let p = |c: char| keeps_in_name(c);
    let bare = |c: char| !is_separator(c);
    let q = |c: char| !is_separator(c) && keeps_in_name(c);
    let w = |c: char| is_white_space(c);
    lemma_leaf_has_no_separator(name);
    lemma_filter_keeps(leaf(name), p, bare);
    let kept = first_chars(leaf(name).filter(p), 120);
    assert forall|i: int| 0 <= i < kept.len() implies q(#[trigger] kept[i]) by {
        assert(kept[i] == leaf(name).filter(p)[i]);
    }
    lemma_skip_while_keeps(kept, w, q);
    lemma_skip_back_while_keeps(skip_while(kept, w), w, q);
    lemma_skip_while_keeps(trim(kept), equals('.'), q);
    reveal_strlit("attachment.bin");
    let stored = stored_name(name);
    assert forall|i: int| 0 <= i < stored.len() implies !is_separator(#[trigger] stored[i])
        && keeps_in_name(stored[i]) by {
        let n = skip_while(trim(kept), equals('.'));
        if n.len() > 0 {
            assert(q(n[i]));
        }
    }
}

/// How long ago `then` was; nothing for a time to come.
pub open spec fn elapsed(now: u64, then: u64) -> int {
    if now > then {
        now - then
    } else {
        0
    }
}

pub type Held = Seq<(Seq<char>, PendingModel)>;

pub open spec fn stands(entry: (Seq<char>, PendingModel), now: u64) -> bool {
    elapsed(now, entry.1.received) < OFFER_TTL
}

/// The files whose offers still stand.
pub open spec fn live(held: Held, now: u64) -> Held {
    held.filter(|entry: (Seq<char>, PendingModel)| stands(entry, now))
}

pub open spec fn total_bytes(held: Held) -> nat
    decreases held.len(),
{
    if held.len() == 0 {
        0
    } else {
        total_bytes(held.drop_last()) + held.last().1.data.len()
    }
}

/// What always holds of the files that wait: at most 32, at most 64 MiB in all
/// and 16 MiB each, in the order of their identifiers, no identifier twice.
pub open spec fn within_limits(held: Held) -> bool {
    &&& sorted(held)
    &&& held.len() <= MAX_PENDING_FILES
    &&& total_bytes(held) <= MAX_PENDING_BYTES
    &&& forall|i: int| 0 <= i < held.len() ==> sound_entry(#[trigger] held[i])
}

pub open spec fn sound_entry(entry: (Seq<char>, PendingModel)) -> bool {
    &&& entry.0 == entry.1.offer.id
    &&& entry.1.offer.size == entry.1.data.len()
    &&& entry.1.data.len() <= MAX_FILE_BYTES
    &&& safe_stored_name(entry.1.offer.name)
}

/// A name that names a file of the directory it is put in: not empty, no
/// separator, no colon, no control character, no leading dot, at most 120
/// characters.
pub open spec fn safe_stored_name(name: Seq<char>) -> bool {
    &&& 0 < name.len() <= 120
    &&& name[0] != '.'
    &&& forall|i: int|
        0 <= i < name.len() ==> !is_separator(#[trigger] name[i]) && keeps_in_name(name[i])
}

/// The bytes of an attached file: a byte string, or the bytes of a text.
pub open spec fn file_bytes(value: MsgModel) -> Option<Seq<u8>> {
    match value {
        MsgModel::Binary(bytes) => Some(bytes),
        MsgModel::RawText(bytes) => Some(bytes),
        MsgModel::Text(text) => Some(encode_utf8(text)),
        _ => None,
    }
}

/// One entry of the list of files: a name and its bytes.
pub open spec fn file_entry(value: MsgModel) -> Result<(Seq<char>, Seq<u8>), InboxError> {
    match value {
        MsgModel::Array(pair) => if pair.len() != 2 {
            Err(InboxError::BadEntry)
        } else {
            match pair[0] {
                MsgModel::Text(name) => match file_bytes(pair[1]) {
                    Some(data) => if data.len() > MAX_FILE_BYTES {
                        Err(InboxError::FileTooLarge)
                    } else {
                        Ok((name, data))
                    },
                    None => Err(InboxError::BadData),
                },
                _ => Err(InboxError::BadName),
            }
        },
        _ => Err(InboxError::BadEntry),
    }
}

pub open spec fn sum_bytes(files: Seq<(Seq<char>, Seq<u8>)>) -> nat
    decreases files.len(),
{
    if files.len() == 0 {
        0
    } else {
        sum_bytes(files.drop_last()) + files.last().1.len()
    }
}

/// The entries of a list of files, or the first fault in it, where `held` bytes
/// wait already.
pub open spec fn file_entries(values: Seq<MsgModel>, held: nat) -> Result<
    Seq<(Seq<char>, Seq<u8>)>,
    InboxError,
>
    decreases values.len(),
{
    if values.len() == 0 {
        Ok(Seq::empty())
    } else {
        match file_entries(values.drop_last(), held) {
            Err(error) => Err(error),
            Ok(files) => match file_entry(values.last()) {
                Err(error) => Err(error),
                Ok(file) => if held + sum_bytes(files) + file.1.len() > MAX_PENDING_BYTES {
                    Err(InboxError::PendingTooLarge)
                } else {
                    Ok(files.push(file))
                },
            },
        }
    }
}

/// Where files come from: the hash by which they are known, who sent them, and
/// whether the sender is beyond doubt.
pub struct FileSource {
    pub hash: Option<Seq<u8>>,
    pub sender: Seq<u8>,
    pub verified: bool,
}

/// The source of a message's files. They are known by its hash, or by its
/// identifier where it has no hash.
pub open spec fn file_source(message: FileMessage) -> FileSource {
    FileSource {
        hash: match message.hash {
            Some(hash) => Some(hash@),
            None => match message.message_id {
                Some(id) => Some(id@),
                None => None,
            },
        },
        sender: message.source_hash@,
        verified: message.signature_validated,
    }
}

/// The files that a message brings, by its decoded list of files, where `held`
/// wait already.
pub open spec fn incoming(source: FileSource, list: MsgModel, held: Held) -> Result<
    Seq<(Seq<char>, Seq<u8>)>,
    InboxError,
> {
    match list {
        MsgModel::Array(values) => if values.len() + held.len() > MAX_PENDING_FILES {
            Err(InboxError::TooManyFiles)
        } else if source.hash.is_none() {
            Err(InboxError::MissingHash)
        } else {
            file_entries(values, total_bytes(held))
        },
        _ => Err(InboxError::NoList),
    }
}

/// The identifier of the file at a place in a message's list.
pub open spec fn offer_id(source: FileSource, i: int) -> Seq<char> {
    hex_text(source.hash.unwrap()) + seq![':'] + decimal(i as nat)
}

pub open spec fn offered(
    source: FileSource,
    i: int,
    file: (Seq<char>, Seq<u8>),
    now: u64,
) -> PendingModel {
    PendingModel {
        offer: OfferModel {
            id: offer_id(source, i),
            sender: hex_text(source.sender),
            name: stored_name(file.0),
            size: file.1.len() as int,
            verified: source.verified,
        },
        data: file.1,
        received: now,
    }
}

pub open spec fn all_offered(
    source: FileSource,
    files: Seq<(Seq<char>, Seq<u8>)>,
    now: u64,
) -> Seq<PendingModel> {
    Seq::new(files.len(), |i: int| offered(source, i, files[i], now))
}

/// The files that wait once new ones are put to them. What waits already stays.
pub open spec fn with_offers(
    held: Map<Seq<char>, PendingModel>,
    added: Seq<PendingModel>,
) -> Map<Seq<char>, PendingModel>
    decreases added.len(),
{
    if added.len() == 0 {
        held
    } else {
        let before = with_offers(held, added.drop_last());
        if before.contains_key(added.last().offer.id) {
            before
        } else {
            before.insert(added.last().offer.id, added.last())
        }
    }
}

pub open spec fn offer_models(added: Seq<PendingModel>) -> Seq<OfferModel> {
    added.map_values(|pending: PendingModel| pending.offer)
}

pub open spec fn held_models(list: Seq<(Seq<char>, Pending)>) -> Held {
    list.map_values(|entry: (Seq<char>, Pending)| (entry.0, entry.1@))
}

proof fn lemma_total_of_insert(held: Held, i: int, entry: (Seq<char>, PendingModel))
    requires
        0 <= i <= held.len(),
    ensures
        total_bytes(held.insert(i, entry)) == total_bytes(held) + entry.1.data.len(),
    decreases held.len(),
{
    let after = held.insert(i, entry);
    if i == held.len() {
        assert(after.drop_last() =~= held);
    } else {
        lemma_total_of_insert(held.drop_last(), i, entry);
        assert(after.drop_last() =~= held.drop_last().insert(i, entry));
    }
}

proof fn lemma_total_of_remove(held: Held, i: int)
    requires
        0 <= i < held.len(),
    ensures
        total_bytes(held) == total_bytes(held.remove(i)) + held[i].1.data.len(),
{
    lemma_total_of_insert(held.remove(i), i, held[i]);
    assert(held.remove(i).insert(i, held[i]) =~= held);
}

proof fn lemma_removal_keeps_limits(held: Held, i: int)
    requires
        0 <= i < held.len(),
        within_limits(held),
    ensures
        within_limits(held.remove(i)),
{
    lemma_total_of_remove(held, i);
    crate::table::lemma_list_map_remove(held, i);
    let after = held.remove(i);
    assert forall|j: int| 0 <= j < after.len() implies sound_entry(#[trigger] after[j]) by {
        if j < i {
            assert(after[j] == held[j]);
        } else {
            assert(after[j] == held[j + 1]);
        }
    }
}

proof fn lemma_sorted_models(list: Seq<(Seq<char>, Pending)>)
    ensures
        sorted(held_models(list)) == sorted(list),
{
    let held = held_models(list);
    assert(forall|i: int| 0 <= i < list.len() ==> held[i].0 == list[i].0);
    if sorted(held) {
        assert forall|i: int, j: int| 0 <= i < j < list.len() implies crate::table::text_less(
            list[i].0,
            list[j].0,
        ) by {
            assert(crate::table::text_less(held[i].0, held[j].0));
        }
    }
}

proof fn lemma_models_keep_keys(list: Seq<(Seq<char>, Pending)>)
    requires
        sorted(list),
    ensures
        forall|key: Seq<char>|
            list_map(list).contains_key(key) <==> #[trigger] list_map(
                held_models(list),
            ).contains_key(key),
        forall|key: Seq<char>|
            list_map(list).contains_key(key) ==> #[trigger] list_map(held_models(list))[key]
                == list_map(list)[key]@,
{
    let held = held_models(list);
    lemma_sorted_models(list);
    lemma_list_map(list);
    lemma_list_map(held);
    assert forall|key: Seq<char>|
        list_map(list).contains_key(key) <==> #[trigger] list_map(held).contains_key(key) by {
        if has_key(list, key) {
            let i = choose|i: int| 0 <= i < list.len() && (#[trigger] list[i]).0 == key;
            assert(held[i].0 == key);
        }
        if has_key(held, key) {
            let i = choose|i: int| 0 <= i < held.len() && (#[trigger] held[i]).0 == key;
            assert(list[i].0 == key);
        }
    }
    assert forall|key: Seq<char>| list_map(list).contains_key(key) implies #[trigger] list_map(
        held,
    )[key] == list_map(list)[key]@ by {
        assert(has_key(list, key));
        let i = choose|i: int| 0 <= i < list.len() && (#[trigger] list[i]).0 == key;
        assert(held[i] == (list[i].0, list[i].1@));
    }
}

/// The files that wait for a decision.
#[derive(Debug)]
pub struct Inbox {
    pending: TextMap<Pending>,
}

impl View for Inbox {
    type V = Held;

    closed spec fn view(&self) -> Held {
        held_models(self.pending.list())
    }
}

/// What becomes of a decision.
#[derive(Debug)]
pub enum Decision {
    /// The file is gone.
    Refused,
    /// The file is to be written under the first free name made from `name`.
    Save { name: String, data: Vec<u8> },
}

impl Inbox {
    pub closed spec fn wf(&self) -> bool {
        self.pending.wf() && within_limits(self@)
    }

    /// However it is used, an inbox stays within its limits.
    pub proof fn law_inbox_is_bounded(&self)
        requires
            self.wf(),
        ensures
            within_limits(self@),
    {
    }

    pub fn new() -> (r: Self)
        ensures
            r.wf(),
            r@ == Seq::<(Seq<char>, PendingModel)>::empty(),
    {
        let r = Inbox { pending: TextMap::new() };
        assert(r@ =~= Seq::empty());
        r
    }

    fn expire(&mut self, now: u64)
        requires
            old(self).wf(),
        ensures
            final(self).wf(),
            final(self)@ == live(old(self)@, now),
    {
        let ghost p = |entry: (Seq<char>, PendingModel)| stands(entry, now);
        let ghost held = self@;
        let ghost mut done: int = 0;
        let mut i: usize = 0;
        proof {
            assert(held.take(0).filter(p) =~= Seq::empty());
            assert(Seq::<(Seq<char>, PendingModel)>::empty() + held.skip(0) =~= held);
        }
        while i < self.pending.len()
            invariant
                self.wf(),
                p == (|entry: (Seq<char>, PendingModel)| stands(entry, now)),
                0 <= done <= held.len(),
                i <= self@.len(),
                i == held.take(done).filter(p).len(),
                self@ == held.take(done).filter(p) + held.skip(done),
            decreases self@.len() - i,
        {
            let received = self.pending.at(i).1.received;
            let age: u64 = if now > received {
                now - received
            } else {
                0
            };
            proof {
                assert(self@[i as int] == held[done]);
                assert(held.take(done + 1).drop_last() =~= held.take(done));
                reveal(Seq::filter);
            }
            if age >= OFFER_TTL {
                let ghost before = self@;
                let ghost list = self.pending.list();
                proof {
                    lemma_removal_keeps_limits(before, i as int);
                }
                let _ = self.pending.remove_at(i);
                proof {
                    assert(self@ =~= before.remove(i as int));
                    assert(self@ =~= held.take(done + 1).filter(p) + held.skip(done + 1));
                }
            } else {
                assert(self@ =~= held.take(done + 1).filter(p) + held.skip(done + 1));
                i = i + 1;
            }
            proof {
                done = done + 1;
            }
        }
        proof {
            assert(self@.len() == i + (held.len() - done));
            assert(held.take(done) =~= held);
            assert(self@ =~= held.filter(p));
        }
    }

    /// The offers that stand.
    pub fn offers(&mut self, now: u64) -> (r: Vec<FileOffer>)
        requires
            old(self).wf(),
        ensures
            final(self).wf(),
            final(self)@ == live(old(self)@, now),
            offer_views(r@) == final(self)@.map_values(
                |entry: (Seq<char>, PendingModel)| entry.1.offer,
            ),
    {
        self.expire(now);
        let mut out: Vec<FileOffer> = Vec::new();
        let count = self.pending.len();
        for i in 0..count
            invariant
                out@.len() == i,
                count == self.pending.list().len(),
                count == self@.len(),
                forall|j: int| 0 <= j < i ==> (#[trigger] out@[j])@ == self@[j].1.offer,
        {
            let offer = self.pending.at(i).1.offer.clone();
            assert(self@[i as int].1 == self.pending.list()[i as int].1@);
            out.push(offer);
        }
        assert(offer_views(out@) =~= self@.map_values(
            |entry: (Seq<char>, PendingModel)| entry.1.offer,
        ));
        out
    }

    /// Takes in the files of a message. A message without a list of files
    /// brings none.
    pub fn receive(&mut self, message: &FileMessage, now: u64) -> (r: Result<
        Vec<FileOffer>,
        InboxError,
    >)
        requires
            old(self).wf(),
        ensures
            final(self).wf(),
            message.files.is_none() ==> r is Ok && r->Ok_0@.len() == 0 && final(self)@ == live(
                old(self)@,
                now,
            ),
            message.files.is_some() && message.files.unwrap()@.len() > MAX_PENDING_BYTES ==> r
                is Err && r->Err_0 == InboxError::MemoryLimit && final(self)@ == live(
                old(self)@,
                now,
            ),
            message.files.is_some() && message.files.unwrap()@.len() <= MAX_PENDING_BYTES
                ==> received(
                file_source(*message),
                msgpack_read(message.files.unwrap()@),
                live(old(self)@, now),
                now,
                r,
                final(self)@,
            ),
    {
        self.expire(now);
        match &message.files {
            None => Ok(Vec::new()),
            Some(encoded) => {
                if encoded.len() > MAX_PENDING_BYTES {
                    return Err(InboxError::MemoryLimit);
                }
                let decoded = read_msgpack(encoded);
                proof {
                    lemma_live_twice(old(self)@, now);
                }
                self.receive_list(message, &decoded, now)
            },
        }
    }

    /// Takes in the files of a message as it came over the network, its signature
    /// checked under the sender's public key. `None` where the bytes are no message.
    pub fn receive_raw(
        &mut self,
        payload: &[u8],
        public_key: &Option<Vec<u8>>,
        now: u64,
    ) -> (r: Option<Result<Vec<FileOffer>, InboxError>>)
        requires
            old(self).wf(),
        ensures
            final(self).wf(),
            ({
                let key = signing_part(data_view(*public_key));
                match lxmf_unpacked(payload@, key) {
                    None => r.is_none() && final(self)@ == old(self)@,
                    Some(message) => r.is_some() && match message_files(payload@) {
                        None => {
                            &&& r.unwrap() is Ok
                            &&& r.unwrap()->Ok_0@.len() == 0
                            &&& final(self)@ == live(old(self)@, now)
                        },
                        Some(list) => if is_oversized(list) {
                            &&& r.unwrap() is Err
                            &&& r.unwrap()->Err_0 == InboxError::MemoryLimit
                            &&& final(self)@ == live(old(self)@, now)
                        } else {
                            received(
                                unpacked_source(message),
                                Ok(list),
                                live(old(self)@, now),
                                now,
                                r.unwrap(),
                                final(self)@,
                            )
                        },
                    },
                }
            }),
    {
        let key = signing_key(public_key);
        let unpacked = match unpack_message(payload, &key) {
            None => {
                return None;
            },
            Some(unpacked) => unpacked,
        };
        let message = FileMessage {
            files: None,
            hash: Some(unpacked.message_hash),
            message_id: None,
            source_hash: unpacked.source_hash,
            signature_validated: unpacked.signed,
        };
        assert(file_source(message) == unpacked_source(unpacked@));
        match files_of(payload) {
            None => Some(self.receive(&message, now)),
            Some(list) => {
                if write_msgpack(&list).len() > MAX_PENDING_BYTES {
                    self.expire(now);
                    return Some(Err(InboxError::MemoryLimit));
                }
                Some(self.receive_list(&message, &Ok(list), now))
            },
        }
    }

    /// Takes in the files of a message whose list of files has been decoded.
    pub fn receive_list(
        &mut self,
        message: &FileMessage,
        decoded: &Result<MsgValue, String>,
        now: u64,
    ) -> (r: Result<Vec<FileOffer>, InboxError>)
        requires
            old(self).wf(),
        ensures
            final(self).wf(),
            received(
                file_source(*message),
                decoded_model(*decoded),
                live(old(self)@, now),
                now,
                r,
                final(self)@,
            ),
    {
        self.expire(now);
        let ghost held = self@;
        let ghost model = decoded_model(*decoded);
        let ghost source = file_source(*message);
        let values = match decoded {
            Err(complaint) => {
                return Err(InboxError::Undecodable(complaint.clone()));
            },
            Ok(MsgValue::Array(values)) => values,
            Ok(_) => {
                return Err(InboxError::NoList);
            },
        };
        let ghost all = model->Ok_0->Array_0;
        assert(all.len() == values@.len());
        let count = self.pending.len();
        if values.len() > MAX_PENDING_FILES || values.len() + count > MAX_PENDING_FILES {
            return Err(InboxError::TooManyFiles);
        }
        let hash = match (&message.hash, &message.message_id) {
            (Some(hash), _) => hash,
            (None, Some(id)) => id,
            (None, None) => {
                return Err(InboxError::MissingHash);
            },
        };
        let mut total = self.total();
        let mut added: Vec<Pending> = Vec::new();
        let mut offers: Vec<FileOffer> = Vec::new();
        let ghost mut files: Seq<(Seq<char>, Seq<u8>)> = Seq::empty();
        assert(pending_models(added@) =~= all_offered(source, files, now));
        assert(offer_views(offers@) =~= offer_models(pending_models(added@)));
        for index in 0..values.len()
            invariant
                all.len() == values@.len(),
                forall|j: int| 0 <= j < all.len() ==> #[trigger] all[j] == values@[j]@,
                source == file_source(*message),
                source.hash == Some(hash@),
                file_entries(all.take(index as int), total_bytes(held)) == Ok::<
                    Seq<(Seq<char>, Seq<u8>)>,
                    InboxError,
                >(files),
                total == total_bytes(held) + sum_bytes(files),
                total <= MAX_PENDING_BYTES,
                files.len() == index,
                forall|i: int|
                    0 <= i < files.len() ==> (#[trigger] files[i]).1.len() <= MAX_FILE_BYTES,
                pending_models(added@) == all_offered(source, files, now),
                offer_views(offers@) == offer_models(pending_models(added@)),
                model is Ok,
                incoming(source, model->Ok_0, held) == file_entries(all, total_bytes(held)),
                self@ == held,
                self.wf(),
                held == live(old(self)@, now),
                model == decoded_model(*decoded),
        {
            let ghost before = files;
            proof {
                assert(all.take(index + 1).drop_last() =~= all.take(index as int));
                assert(all.take(index + 1).last() == values@[index as int]@);
            }
            let entry = read_entry(&values[index]);
            let (name, data) = match entry {
                Err(error) => {
                    proof {
                        lemma_first_fault(all, index + 1, total_bytes(held));
                    }
                    return Err(error);
                },
                Ok(file) => file,
            };
            if data.len() > MAX_PENDING_BYTES - total {
                proof {
                    lemma_first_fault(all, index + 1, total_bytes(held));
                }
                return Err(InboxError::PendingTooLarge);
            }
            total = total + data.len();
            let mut id = encode_hex(hash);
            id.push(':');
            push_decimal(&mut id, index as u64);
            let offer = FileOffer {
                id,
                sender: encode_hex(&message.source_hash),
                name: safe_name(name.as_str()),
                size: data.len(),
                verified: message.signature_validated,
            };
            proof {
                files = files.push((name@, data@));
                assert(files.drop_last() =~= before);
                assert(id@ =~= offer_id(source, index as int));
            }
            let ghost pending_before = added@;
            let ghost offers_before = offers@;
            offers.push(offer.clone());
            added.push(Pending { offer, data, received: now });
            proof {
                assert(pending_models(added@) =~= pending_models(pending_before).push(
                    added@.last()@,
                ));
                assert(pending_models(added@) =~= all_offered(source, files, now));
                assert(offer_views(offers@) =~= offer_views(offers_before).push(
                    added@.last()@.offer,
                ));
                assert(offer_models(pending_models(added@)) =~= offer_models(
                    pending_models(pending_before),
                ).push(added@.last()@.offer));
            }
        }
        assert(all.take(values@.len() as int) =~= all);
        self.put(added, Ghost(source), Ghost(files), now);
        Ok(offers)
    }

    /// The number of bytes that wait.
    fn total(&self) -> (r: usize)
        requires
            self.wf(),
        ensures
            r == total_bytes(self@),
    {
        let mut total: usize = 0;
        let count = self.pending.len();
        let ghost held = self@;
        for i in 0..count
            invariant
                self.wf(),
                held == self@,
                count == self.pending.list().len(),
                count == held.len(),
                total == total_bytes(held.take(i as int)),
        {
            proof {
                assert(held.take(i + 1).drop_last() =~= held.take(i as int));
                lemma_total_of_prefix(held, i + 1);
                assert(held[i as int].1 == self.pending.list()[i as int].1@);
            }
            total = total + self.pending.at(i).1.data.len();
        }
        assert(held.take(count as int) =~= held);
        total
    }

    /// Puts files to those that wait.
    fn put(
        &mut self,
        added: Vec<Pending>,
        source: Ghost<FileSource>,
        files: Ghost<Seq<(Seq<char>, Seq<u8>)>>,
        now: u64,
    )
        requires
            old(self).wf(),
            pending_models(added@) == all_offered(source@, files@, now),
            old(self)@.len() + files@.len() <= MAX_PENDING_FILES,
            total_bytes(old(self)@) + sum_bytes(files@) <= MAX_PENDING_BYTES,
            forall|i: int| 0 <= i < files@.len() ==> (#[trigger] files@[i]).1.len() <= MAX_FILE_BYTES,
        ensures
            final(self).wf(),
            list_map(final(self)@) == with_offers(
                list_map(old(self)@),
                all_offered(source@, files@, now),
            ),
    {
        let mut rest = added;
        let ghost all = all_offered(source@, files@, now);
        let ghost held = self@;
        let ghost mut done: int = 0;
        proof {
            assert(all.take(0) =~= Seq::empty());
            assert(files@.take(0) =~= Seq::empty());
        }
        while rest.len() > 0
            invariant
                self.wf(),
                0 <= done <= all.len(),
                all == all_offered(source@, files@, now),
                rest@.len() == all.len() - done,
                forall|j: int| 0 <= j < rest@.len() ==> (#[trigger] rest@[j])@ == all[done + j],
                list_map(self@) == with_offers(list_map(held), all.take(done)),
                self@.len() <= held.len() + done,
                total_bytes(self@) <= total_bytes(held) + sum_bytes(files@.take(done)),
                held.len() + files@.len() <= MAX_PENDING_FILES,
                total_bytes(held) + sum_bytes(files@) <= MAX_PENDING_BYTES,
                forall|i: int|
                    0 <= i < files@.len() ==> (#[trigger] files@[i]).1.len() <= MAX_FILE_BYTES,
            decreases rest@.len(),
        {
            let ghost before = self@;
            let ghost list = self.pending.list();
            let pending = rest.remove(0);
            proof {
                assert(pending@ == all[done]);
                assert(all.take(done + 1).drop_last() =~= all.take(done));
                assert(files@.take(done + 1).drop_last() =~= files@.take(done));
                lemma_sum_of_prefix(files@, done + 1);
                lemma_models_keep_keys(list);
            }
            let id = pending.offer.id.clone();
            if !self.pending.contains(id.as_str()) {
                self.pending.insert(id, pending);
                proof {
                    let i = choose|i: int|
                        0 <= i <= list.len() && self.pending.list() == list.insert(
                            i,
                            (id@, pending),
                        );
                    assert(self@ =~= before.insert(i, (id@, pending@)));
                    lemma_sorted_models(self.pending.list());
                    lemma_list_map_insert(before, i, id@, pending@);
                    lemma_total_of_insert(before, i, (id@, pending@));
                    law_stored_name_is_safe(files@[done].0);
                    assert forall|j: int| 0 <= j < self@.len() implies sound_entry(
                        #[trigger] self@[j],
                    ) by {
                        if j < i {
                            assert(self@[j] == before[j]);
                        } else if j > i {
                            assert(self@[j] == before[j - 1]);
                        }
                    }
                }
            }
            proof {
                done = done + 1;
            }
        }
        assert(all.take(done) =~= all);
    }

    /// Decides on an offer. What is accepted stays until it has been written:
    /// `settle` then lets go of it.
    pub fn decide(&mut self, id: &str, accept: bool, now: u64) -> (r: Result<Decision, InboxError>)
        requires
            old(self).wf(),
        ensures
            final(self).wf(),
            offer_decided(live(old(self)@, now), id@, accept, r, final(self)@),
            !accept ==> r is Ok && r->Ok_0 is Refused && list_map(final(self)@) == list_map(
                live(old(self)@, now),
            ).remove(id@),
            accept ==> final(self)@ == live(old(self)@, now),
            accept && !list_map(final(self)@).contains_key(id@) ==> r is Err && r->Err_0
                == InboxError::Expired,
            accept && list_map(final(self)@).contains_key(id@) ==> (r matches Ok(
                Decision::Save { name, data },
            ) && name@ == list_map(final(self)@)[id@].offer.name && data@ == list_map(
                final(self)@,
            )[id@].data),
    {
        self.expire(now);
        if !accept {
            self.settle(id);
            return Ok(Decision::Refused);
        }
        proof {
            lemma_models_keep_keys(self.pending.list());
        }
        match self.pending.get(id) {
            None => Err(InboxError::Expired),
            Some(pending) => Ok(
                Decision::Save {
                    name: pending.offer.name.clone(),
                    data: vstd::slice::slice_to_vec(&pending.data),
                },
            ),
        }
    }

    /// Lets go of a file that has been written.
    pub fn settle(&mut self, id: &str)
        requires
            old(self).wf(),
        ensures
            final(self).wf(),
            list_map(final(self)@) == list_map(old(self)@).remove(id@),
    {
        let ghost before = self@;
        let ghost list = self.pending.list();
        proof {
            lemma_models_keep_keys(list);
            lemma_sorted_models(list);
        }
        let removed = self.pending.remove(id);
        proof {
            if list_map(list).contains_key(id@) {
                let i = choose|i: int|
                    0 <= i < list.len() && self.pending.list() == list.remove(i) && list[i].0
                        == id@;
                assert(self@ =~= before.remove(i));
                lemma_removal_keeps_limits(before, i);
                crate::table::lemma_list_map_remove(before, i);
            } else {
                assert(self@ == before);
                assert(list_map(before).remove(id@) =~= list_map(before));
            }
        }
    }
}

/// What a decision on an offer leads to: one that is accepted is handed out to be saved
/// and stays until it is, one that is refused is gone, and one that no longer stands
/// cannot be accepted.
pub open spec fn offer_decided(
    held: Held,
    id: Seq<char>,
    accept: bool,
    result: Result<Decision, InboxError>,
    after: Held,
) -> bool {
    if !accept {
        (result matches Ok(Decision::Refused)) && list_map(after) == list_map(held).remove(id)
    } else if list_map(held).contains_key(id) {
        &&& result matches Ok(Decision::Save { name, data }) && name@ == list_map(
            held,
        )[id].offer.name && data@ == list_map(held)[id].data
        &&& after == held
    } else {
        result == Err::<Decision, InboxError>(InboxError::Expired) && after == held
    }
}

pub open spec fn pending_models(added: Seq<Pending>) -> Seq<PendingModel> {
    added.map_values(|pending: Pending| pending@)
}

/// What receiving a message's files does: nothing but report where there is a
/// fault; otherwise the files wait, and their offers are handed out.
pub open spec fn received(
    source: FileSource,
    decoded: Result<MsgModel, Seq<char>>,
    held: Held,
    now: u64,
    result: Result<Vec<FileOffer>, InboxError>,
    after: Held,
) -> bool {
    match decoded {
        Err(complaint) => {
            &&& result is Err
            &&& result->Err_0 is Undecodable
            &&& result->Err_0->Undecodable_0@ == complaint
            &&& after == held
        },
        Ok(list) => match incoming(source, list, held) {
            Err(error) => result is Err && result->Err_0 == error && after == held,
            Ok(files) => {
                let added = all_offered(source, files, now);
                &&& result is Ok
                &&& offer_views(result->Ok_0@) == offer_models(added)
                &&& list_map(after) == with_offers(list_map(held), added)
            },
        },
    }
}

/// The key under which a message's list of files stands among its fields.
pub const FIELD_FILE_ATTACHMENTS: u64 = 5;

/// Where the body of a message begins: behind the destination, the source and the
/// signature.
pub const MESSAGE_BODY: usize = 96;

/// The value of the first entry with a key.
pub open spec fn first_field(entries: Seq<(MsgModel, MsgModel)>, key: MsgModel) -> Option<MsgModel>
    decreases entries.len(),
{
    if entries.len() == 0 {
        None
    } else if entries[0].0 == key {
        Some(entries[0].1)
    } else {
        first_field(entries.skip(1), key)
    }
}

/// The list of files in the body of a message: the body is an array, its fourth
/// item the table of the fields.
pub open spec fn files_field(body: MsgModel) -> Option<MsgModel> {
    match body {
        MsgModel::Array(parts) => if parts.len() <= 3 {
            None
        } else {
            match parts[3] {
                MsgModel::Table(fields) => first_field(
                    fields,
                    MsgModel::Uint(FIELD_FILE_ATTACHMENTS),
                ),
                _ => None,
            }
        },
        _ => None,
    }
}

/// The list of files in a message as it came over the network.
pub open spec fn message_files(payload: Seq<u8>) -> Option<MsgModel> {
    if payload.len() < MESSAGE_BODY {
        None
    } else {
        match msgpack_read(payload.skip(MESSAGE_BODY as int)) {
            Ok(body) => files_field(body),
            Err(_) => None,
        }
    }
}

/// Whether a list of files takes more bytes than may wait.
pub open spec fn is_oversized(list: MsgModel) -> bool {
    msgpack_written(list).len() > MAX_PENDING_BYTES
}

/// The source of the files of an unpacked message.
pub open spec fn unpacked_source(message: UnpackedModel) -> FileSource {
    FileSource {
        hash: Some(message.message_hash),
        sender: message.source_hash,
        verified: message.signed,
    }
}

proof fn lemma_first_field(entries: Seq<(MsgModel, MsgModel)>, key: MsgModel) -> (r: int)
    requires
        first_field(entries, key).is_some(),
    ensures
        0 <= r < entries.len(),
        entries[r].1 == first_field(entries, key).unwrap(),
    decreases entries.len(),
{
    if entries[0].0 == key {
        0
    } else {
        lemma_first_field(entries.skip(1), key) + 1
    }
}

proof fn lemma_files_are_shallow(body: MsgModel, depth: nat)
    requires
        shallow(body, depth),
    ensures
        files_field(body).is_some() ==> shallow(files_field(body).unwrap(), depth),
{
    if files_field(body).is_some() {
        lemma_shallow_items(body, depth, 3);
        let table = body->Array_0[3];
        let place = lemma_first_field(table->Table_0, MsgModel::Uint(FIELD_FILE_ATTACHMENTS));
        lemma_shallow_entries(table, (depth - 1) as nat, place);
        lemma_shallow_deeper(files_field(body).unwrap(), (depth - 2) as nat, depth);
    }
}

/// The list of files in the body of a message, taken out of it.
pub fn take_files_field(body: MsgValue) -> (r: Option<MsgValue>)
    ensures
        r.is_some() == files_field(body@).is_some(),
        r.is_some() ==> r.unwrap()@ == files_field(body@).unwrap(),
{
    proof {
        reveal_with_fuel(msg_model, 3);
    }
    let mut parts = match body {
        MsgValue::Array(parts) => parts,
        _ => {
            return None;
        },
    };
    if parts.len() <= 3 {
        return None;
    }
    let mut fields = match parts.remove(3) {
        MsgValue::Table(fields) => fields,
        _ => {
            return None;
        },
    };
    let ghost all = body@->Array_0[3]->Table_0;
    assert(all.len() == fields@.len());
    let count = fields.len();
    let mut i: usize = 0;
    assert(all.skip(0) =~= all);
    while i < count
        invariant
            i <= count,
            count == all.len(),
            count == fields@.len(),
            forall|j: int|
                0 <= j < all.len() ==> #[trigger] all[j] == (fields@[j].0@, fields@[j].1@),
            files_field(body@) == first_field(
                all.skip(i as int),
                MsgModel::Uint(FIELD_FILE_ATTACHMENTS),
            ),
        decreases count - i,
    {
        assert(all.skip(i as int)[0] == all[i as int]);
        assert(all.skip(i as int).skip(1) =~= all.skip(i + 1));
        let found = match &fields[i].0 {
            MsgValue::Uint(number) => *number == FIELD_FILE_ATTACHMENTS,
            _ => false,
        };
        if found {
            let (_, list) = fields.remove(i);
            return Some(list);
        }
        i = i + 1;
    }
    None
}

/// The list of files in a message as it came over the network.
fn files_of(payload: &[u8]) -> (r: Option<MsgValue>)
    ensures
        r.is_some() == message_files(payload@).is_some(),
        r.is_some() ==> r.unwrap()@ == message_files(payload@).unwrap(),
        r.is_some() ==> shallow(r.unwrap()@, MAX_DEPTH as nat),
{
    if payload.len() < MESSAGE_BODY {
        return None;
    }
    let body = vstd::slice::slice_subrange(payload, MESSAGE_BODY, payload.len());
    assert(body@ =~= payload@.skip(MESSAGE_BODY as int));
    match read_msgpack(body) {
        Ok(value) => {
            proof {
                lemma_files_are_shallow(value@, MAX_DEPTH as nat);
            }
            take_files_field(value)
        },
        Err(_) => None,
    }
}

/// Reads one entry of a list of files.
fn read_entry(value: &MsgValue) -> (r: Result<(String, Vec<u8>), InboxError>)
    ensures
        r is Ok == file_entry(value@) is Ok,
        r is Ok ==> (r->Ok_0.0@, r->Ok_0.1@) == file_entry(value@)->Ok_0,
        r is Err ==> r->Err_0 == file_entry(value@)->Err_0,
{
    proof {
        reveal_with_fuel(msg_model, 3);
    }
    let pair = match value {
        MsgValue::Array(pair) => pair,
        _ => {
            return Err(InboxError::BadEntry);
        },
    };
    if pair.len() != 2 {
        return Err(InboxError::BadEntry);
    }
    let name = match &pair[0] {
        MsgValue::Text(name) => name.clone(),
        _ => {
            return Err(InboxError::BadName);
        },
    };
    let data = match &pair[1] {
        MsgValue::Binary(bytes) => vstd::slice::slice_to_vec(bytes),
        MsgValue::RawText(bytes) => vstd::slice::slice_to_vec(bytes),
        MsgValue::Text(text) => vstd::slice::slice_to_vec(text.as_str().as_bytes()),
        _ => {
            return Err(InboxError::BadData);
        },
    };
    if data.len() > MAX_FILE_BYTES {
        return Err(InboxError::FileTooLarge);
    }
    Ok((name, data))
}

proof fn lemma_first_fault(values: Seq<MsgModel>, n: int, held: nat)
    requires
        0 <= n <= values.len(),
        file_entries(values.take(n), held) is Err,
    ensures
        file_entries(values, held) == file_entries(values.take(n), held),
    decreases values.len() - n,
{
    if n < values.len() {
        assert(values.take(n + 1).drop_last() =~= values.take(n));
        lemma_first_fault(values, n + 1, held);
    } else {
        assert(values.take(n) =~= values);
    }
}

proof fn lemma_total_of_prefix(held: Held, n: int)
    requires
        0 <= n <= held.len(),
    ensures
        total_bytes(held.take(n)) <= total_bytes(held),
    decreases held.len() - n,
{
    if n < held.len() {
        assert(held.take(n + 1).drop_last() =~= held.take(n));
        lemma_total_of_prefix(held, n + 1);
    } else {
        assert(held.take(n) =~= held);
    }
}

proof fn lemma_sum_of_prefix(files: Seq<(Seq<char>, Seq<u8>)>, n: int)
    requires
        0 <= n <= files.len(),
    ensures
        sum_bytes(files.take(n)) <= sum_bytes(files),
    decreases files.len() - n,
{
    if n < files.len() {
        assert(files.take(n + 1).drop_last() =~= files.take(n));
        lemma_sum_of_prefix(files, n + 1);
    } else {
        assert(files.take(n) =~= files);
    }
}

proof fn lemma_live_twice(held: Held, now: u64)
    ensures
        live(live(held, now), now) == live(held, now),
    decreases held.len(),
{
    let p = |entry: (Seq<char>, PendingModel)| stands(entry, now);
    reveal(Seq::filter);
    if held.len() > 0 {
        lemma_live_twice(held.drop_last(), now);
        if p(held.last()) {
            let kept = live(held.drop_last(), now);
            assert(kept.push(held.last()).drop_last() =~= kept);
        }
    }
}

/// The list of files with one file in it.
pub open spec fn file_list(name: Seq<char>, data: Seq<u8>) -> MsgModel {
    MsgModel::Array(seq![MsgModel::Array(seq![MsgModel::Text(name), MsgModel::Binary(data)])])
}

/// Encodes the list of files of a message that carries one file.
pub fn attach(name: &str, data: Vec<u8>) -> (r: Vec<u8>)
    ensures
        r@ == msgpack_written(file_list(name@, data@)),
        encode_utf8(name@).len() <= u32::MAX && data@.len() <= u32::MAX ==> msgpack_read(r@)
            == Ok::<MsgModel, Seq<char>>(file_list(name@, data@)),
{
    let text = name.to_string();
    let mut pair: Vec<MsgValue> = Vec::new();
    pair.push(MsgValue::Text(text));
    pair.push(MsgValue::Binary(data));
    let mut list: Vec<MsgValue> = Vec::new();
    list.push(MsgValue::Array(pair));
    let value = MsgValue::Array(list);
    proof {
        reveal_with_fuel(msg_model, 4);
        reveal_with_fuel(shallow, 4);
        reveal_with_fuel(writable, 4);
        let inner = MsgModel::Array(seq![MsgModel::Text(name@), MsgModel::Binary(data@)]);
        assert(msg_model(list@[0])->Array_0 =~= inner->Array_0);
        assert(value@->Array_0 =~= seq![inner]);
        assert(value@ == file_list(name@, data@));
    }
    write_msgpack(&value)
}

/// Why a file that was selected cannot be sent.
#[derive(Debug, Clone, Copy, PartialEq, Eq, Structural)]
pub enum SelectError {
    NotRegular,
    TooLarge,
}

impl SelectError {
    /// The sentence shown for the error.
    pub fn message(&self) -> (r: String)
        ensures
            r@ == match *self {
                SelectError::NotRegular => "select a regular file"@,
                SelectError::TooLarge => "file exceeds 16 MiB limit"@,
            },
    {
        match self {
            SelectError::NotRegular => "select a regular file".to_string(),
            SelectError::TooLarge => "file exceeds 16 MiB limit".to_string(),
        }
    }
}

/// Checks a file before it is sent: it must be a regular one, and not too long.
pub fn check_selected(regular: bool, bytes: u64) -> (r: Result<(), SelectError>)
    ensures
        r is Ok == (regular && bytes <= MAX_FILE_BYTES),
        r is Err ==> r->Err_0 == if regular {
            SelectError::TooLarge
        } else {
            SelectError::NotRegular
        },
{
    if !regular {
        Err(SelectError::NotRegular)
    } else if bytes > MAX_FILE_BYTES as u64 {
        Err(SelectError::TooLarge)
    } else {
        Ok(())
    }
}

/// The file to send under its name: what was read of the selected file, at most one
/// byte more than may be sent.
pub fn selected_file(name: &str, data: Vec<u8>) -> (r: Result<(String, Vec<u8>), SelectError>)
    ensures
        r is Ok == (data@.len() <= MAX_FILE_BYTES),
        r is Ok ==> r->Ok_0.0@ == stored_name(name@) && r->Ok_0.1 == data,
        r is Err ==> r->Err_0 == SelectError::TooLarge,
{
    if data.len() > MAX_FILE_BYTES {
        return Err(SelectError::TooLarge);
    }
    Ok((safe_name(name), data))
}

/// The name tried for a file after `attempt` names were taken.
pub open spec fn attempt_name(name: Seq<char>, attempt: nat) -> Seq<char> {
    if attempt == 0 {
        name
    } else {
        decimal(attempt) + seq!['-'] + name
    }
}

/// What became of an attempt to create a file that must not exist yet.
#[derive(Debug, Clone, Copy, PartialEq, Eq, Structural)]
pub enum Created {
    /// The file was created and the bytes are in it.
    Written,
    /// There is a file of that name.
    Exists,
    /// The file could not be created or written.
    Failed,
}

/// What to do after an attempt.
#[derive(Debug)]
pub enum SaveStep {
    /// Let go of the offer: the file is stored.
    Done,
    /// Try again under this name.
    Retry { attempt: u32, name: String },
    /// Report the failure of the attempt; the offer stands.
    Report,
    /// All names are taken; the offer stands.
    GiveUp(InboxError),
}

/// What follows an attempt to write a file: it is done, it failed, or the next name is
/// tried where this one is taken.
pub open spec fn save_follows(
    name: Seq<char>,
    attempt: u32,
    created: Created,
    step: SaveStep,
) -> bool {
    match created {
        Created::Written => step is Done,
        Created::Failed => step is Report,
        Created::Exists => match step {
            SaveStep::Retry { attempt: next, name: tried } => attempt + 1 < MAX_SAVE_ATTEMPTS
                && next == attempt + 1 && tried@ == attempt_name(name, (attempt + 1) as nat),
            SaveStep::GiveUp(error) => attempt + 1 >= MAX_SAVE_ATTEMPTS && error
                == InboxError::TooManySameName,
            _ => false,
        },
    }
}

/// What to do after attempt number `attempt`, counted from zero.
pub fn save_step(name: &str, attempt: u32, created: Created) -> (r: SaveStep)
    requires
        attempt < MAX_SAVE_ATTEMPTS,
    ensures
        save_follows(name@, attempt, created, r),
        match created {
            Created::Written => r is Done,
            Created::Failed => r is Report,
            Created::Exists => if attempt + 1 < MAX_SAVE_ATTEMPTS {
                r matches SaveStep::Retry { attempt: next, name: tried } && next == attempt + 1
                    && tried@ == attempt_name(name@, (attempt + 1) as nat)
            } else {
                r matches SaveStep::GiveUp(error) && error == InboxError::TooManySameName
            },
        },
{
    match created {
        Created::Written => SaveStep::Done,
        Created::Failed => SaveStep::Report,
        Created::Exists => {
            if attempt + 1 < MAX_SAVE_ATTEMPTS {
                let mut tried = String::new();
                push_decimal(&mut tried, (attempt + 1) as u64);
                tried.push('-');
                tried.append(name);
                assert(tried@ =~= attempt_name(name@, (attempt + 1) as nat));
                SaveStep::Retry { attempt: attempt + 1, name: tried }
            } else {
                SaveStep::GiveUp(InboxError::TooManySameName)
            }
        },
    }
}

/// No two attempts use the same name.
pub proof fn law_attempts_use_distinct_names(name: Seq<char>, a: nat, b: nat)
    requires
        a != b,
    ensures
        attempt_name(name, a) != attempt_name(name, b),
{
    let x = attempt_name(name, a);
    let y = attempt_name(name, b);
    if x == y {
        lemma_decimal(a);
        lemma_decimal(b);
        if a == 0 || b == 0 {
            assert(x.len() != y.len());
        } else {
            assert(x.len() == decimal(a).len() + 1 + name.len());
            assert(y.len() == decimal(b).len() + 1 + name.len());
            assert(decimal(a) =~= x.take(decimal(a).len() as int));
            assert(decimal(b) =~= y.take(decimal(b).len() as int));
            assert(false);
        }
    }
}

/// A file of up to 16 MiB that is sent waits with the receiver under its safe
/// name, with its bytes, unless 32 files or 64 MiB wait there.
pub proof fn law_attached_file_is_offered(
    source: FileSource,
    name: Seq<char>,
    data: Seq<u8>,
    held: Held,
    now: u64,
)
    requires
        data.len() <= MAX_FILE_BYTES,
        source.hash.is_some(),
        held.len() < MAX_PENDING_FILES,
        total_bytes(held) + data.len() <= MAX_PENDING_BYTES,
    ensures
        incoming(source, file_list(name, data), held) == Ok::<
            Seq<(Seq<char>, Seq<u8>)>,
            InboxError,
        >(seq![(name, data)]),
        !list_map(held).contains_key(offer_id(source, 0)) ==> ({
            let after = with_offers(
                list_map(held),
                all_offered(source, seq![(name, data)], now),
            );
            let id = offer_id(source, 0);
            &&& after.contains_key(id)
            &&& after[id].offer.name == stored_name(name)
            &&& after[id].data == data
            &&& after[id].received == now
        }),
{
    let added = all_offered(source, seq![(name, data)], now);
    assert(added.drop_last() =~= Seq::empty());
    reveal_with_fuel(with_offers, 2);
    let values = file_list(name, data)->Array_0;
    assert(values.drop_last() =~= Seq::empty());
    reveal_with_fuel(file_entries, 2);
    reveal_with_fuel(sum_bytes, 2);
    assert(file_entry(values.last()) == Ok::<(Seq<char>, Seq<u8>), InboxError>((name, data)));
    assert(Seq::<(Seq<char>, Seq<u8>)>::empty().push((name, data)) =~= seq![(name, data)]);
}

/// What waits is never replaced, and the same message brings nothing new.
pub proof fn law_receiving_twice_is_receiving_once(
    held: Map<Seq<char>, PendingModel>,
    first: Seq<PendingModel>,
    again: Seq<PendingModel>,
)
    requires
        first.len() == again.len(),
        forall|i: int|
            0 <= i < first.len() ==> (#[trigger] first[i]).offer.id == again[i].offer.id,
    ensures
        with_offers(with_offers(held, first), again) == with_offers(held, first),
        forall|id: Seq<char>|
            held.contains_key(id) ==> #[trigger] with_offers(held, first).contains_key(id)
                && with_offers(held, first)[id] == held[id],
{
    lemma_offers_are_kept(held, first, first.len() as int);
    assert forall|i: int| 0 <= i < again.len() implies with_offers(held, first).contains_key(
        (#[trigger] again[i]).offer.id,
    ) by {
        assert(first[i].offer.id == again[i].offer.id);
    }
    lemma_nothing_new(with_offers(held, first), again);
}

proof fn lemma_offers_are_kept(held: Map<Seq<char>, PendingModel>, added: Seq<PendingModel>, n: int)
    requires
        n == added.len(),
    ensures
        forall|i: int|
            0 <= i < added.len() ==> with_offers(held, added).contains_key(
                (#[trigger] added[i]).offer.id,
            ),
        forall|id: Seq<char>|
            held.contains_key(id) ==> #[trigger] with_offers(held, added).contains_key(id)
                && with_offers(held, added)[id] == held[id],
    decreases n,
{
    if n > 0 {
        let rest = added.drop_last();
        lemma_offers_are_kept(held, rest, n - 1);
        assert forall|i: int| 0 <= i < added.len() implies with_offers(held, added).contains_key(
            (#[trigger] added[i]).offer.id,
        ) by {
            if i < rest.len() {
                assert(rest[i] == added[i]);
            }
        }
        assert forall|id: Seq<char>| held.contains_key(id) implies #[trigger] with_offers(
            held,
            added,
        ).contains_key(id) && with_offers(held, added)[id] == held[id] by {
            assert(with_offers(held, rest).contains_key(id));
        }
    } else {
        assert(with_offers(held, added) == held);
    }
}

proof fn lemma_nothing_new(held: Map<Seq<char>, PendingModel>, added: Seq<PendingModel>)
    requires
        forall|i: int| 0 <= i < added.len() ==> held.contains_key((#[trigger] added[i]).offer.id),
    ensures
        with_offers(held, added) == held,
    decreases added.len(),
{
    if added.len() > 0 {
        assert forall|i: int| 0 <= i < added.drop_last().len() implies held.contains_key(
            (#[trigger] added.drop_last()[i]).offer.id,
        ) by {
            assert(added.drop_last()[i] == added[i]);
        }
        lemma_nothing_new(held, added.drop_last());
        assert(held.contains_key(added[added.len() - 1].offer.id));
    }
}

/// After ten minutes an offer is gone, however it is asked for.
pub proof fn law_old_offers_are_gone(held: Held, now: u64)
    ensures
        forall|i: int|
            0 <= i < live(held, now).len() ==> elapsed(
                now,
                (#[trigger] live(held, now)[i]).1.received,
            ) < OFFER_TTL,
    decreases held.len(),
{
    reveal(Seq::filter);
    if held.len() > 0 {
        law_old_offers_are_gone(held.drop_last(), now);
        let rest = live(held.drop_last(), now);
        assert forall|i: int| 0 <= i < live(held, now).len() implies elapsed(
            now,
            (#[trigger] live(held, now)[i]).1.received,
        ) < OFFER_TTL by {
            if i < rest.len() {
                assert(live(held, now)[i] == rest[i]);
            } else {
                assert(live(held, now)[i] == held.last());
            }
        }
    }
}

} // verus!
