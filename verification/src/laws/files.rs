//! Laws of files: the names under which they are kept, what is taken in and for how
//! long, and what is fetched.
use vstd::prelude::*;
use vstd::utf8::encode_utf8;

use crate::attachments::{
    attempt_name, file_entries, file_entry, file_source, files_field, incoming, keeps_in_name, leaf,
    live, offer_decided, offer_id, offered, save_follows, stands, stored_name, total_bytes, Created,
    Decision, FileMessage, FileSource, Held, InboxError, PendingModel, SaveStep,
};
use crate::browser::is_page_path;
use crate::fetch::{
    download_name, form_fault, is_form_field, last_segment, long_line_at, may_use_cache,
    metadata_name, page_size_fault, request_fault, FetchError, Fields,
};
use crate::hexadecimal::{hex_text, law_hex_text_is_read_back};
use crate::laws::words::is_trimmed;
use crate::mime::{content_type, extension};
use crate::msgpack::MsgModel;
use crate::table::list_map;
use crate::text::{
    decimal, equals, first_chars, is_control_char, law_decimal_is_read_back, law_trim_keeps_trimmed,
    lower, skip_while, trim,
};

verus! {

/// Whether a name can be used for a file as it is.
pub open spec fn is_good_name(name: Seq<char>) -> bool {
    &&& is_trimmed(name)
    &&& name.len() <= 120
    &&& name[0] != '.'
    &&& forall|i: int|
        0 <= i < name.len() ==> #[trigger] name[i] != '/' && name[i] != '\\' && name[i] != ':'
            && !is_control_char(name[i])
}

proof fn lemma_leaf_is_all(name: Seq<char>)
    requires
        forall|i: int| 0 <= i < name.len() ==> #[trigger] name[i] != '/' && name[i] != '\\',
    ensures
        leaf(name) == name,
    decreases name.len(),
{
    if name.len() > 0 {
        assert(name[name.len() - 1] != '/');
        assert forall|i: int| 0 <= i < name.drop_last().len() implies #[trigger] name.drop_last()[i]
            != '/' && name.drop_last()[i] != '\\' by {
            assert(name.drop_last()[i] == name[i]);
        }
        lemma_leaf_is_all(name.drop_last());
        assert(name.drop_last().push(name.last()) =~= name);
    } else {
        assert(leaf(name) =~= name);
    }
}

proof fn lemma_leaf_of_path(directory: Seq<char>, mark: char, name: Seq<char>)
    requires
        mark == '/' || mark == '\\',
    ensures
        leaf(directory + seq![mark] + name) == leaf(name),
    decreases name.len(),
{
    let path = directory + seq![mark] + name;
    if name.len() == 0 {
        assert(path.last() == mark);
    } else {
        assert(path.last() == name.last());
        assert(path.drop_last() =~= directory + seq![mark] + name.drop_last());
        lemma_leaf_of_path(directory, mark, name.drop_last());
    }
}

proof fn lemma_filter_all(s: Seq<char>, p: spec_fn(char) -> bool)
    requires
        forall|i: int| 0 <= i < s.len() ==> p(#[trigger] s[i]),
    ensures
        s.filter(p) == s,
    decreases s.len(),
{
    reveal(Seq::filter);
    if s.len() > 0 {
        assert forall|i: int| 0 <= i < s.drop_last().len() implies p(#[trigger] s.drop_last()[i]) by {
            assert(s.drop_last()[i] == s[i]);
        }
        lemma_filter_all(s.drop_last(), p);
        assert(p(s[s.len() - 1]));
        assert(s.drop_last().push(s.last()) =~= s);
    } else {
        assert(s.filter(p) =~= s);
    }
}

/// A good name is kept as it is, also from behind a path, of either kind of
/// separator, and from behind a dot that would hide the file.
#[verifier::rlimit(50)]
pub proof fn law_good_names_are_kept(name: Seq<char>, directory: Seq<char>, mark: char)
    requires
        is_good_name(name),
        mark == '/' || mark == '\\',
    ensures
        stored_name(name) == name,
        stored_name(directory + seq![mark] + name) == name,
        name.len() < 120 ==> stored_name(seq!['.'] + name) == name,
{
    let p = |c: char| keeps_in_name(c);
    lemma_leaf_is_all(name);
    lemma_leaf_of_path(directory, mark, name);
    lemma_filter_all(name, p);
    law_trim_keeps_trimmed(name);
    assert(skip_while(name, equals('.')) == name);
    let hidden = seq!['.'] + name;
    assert forall|i: int| 0 <= i < hidden.len() implies #[trigger] hidden[i] != '/' && hidden[i]
        != '\\' && p(hidden[i]) by {
        if i > 0 {
            assert(hidden[i] == name[i - 1]);
        }
    }
    lemma_leaf_is_all(hidden);
    lemma_filter_all(hidden, p);
    assert(hidden.last() == name.last());
    law_trim_keeps_trimmed(hidden);
    assert(hidden.drop_first() =~= name);
    assert(skip_while(hidden, equals('.')) == skip_while(name, equals('.')));
}

/// A path gives the same name as its last part, whatever that is; one that ends in a
/// separator, or in dots alone, names no file, and a name is made up.
pub proof fn law_only_the_last_part_names_a_file(
    directory: Seq<char>,
    mark: char,
    name: Seq<char>,
    dots: nat,
)
    requires
        mark == '/' || mark == '\\',
        dots <= 120,
    ensures
        stored_name(directory + seq![mark] + name) == stored_name(name),
        stored_name(directory + seq![mark]) == "attachment.bin"@,
        stored_name(Seq::new(dots, |i: int| '.')) == "attachment.bin"@,
{
    lemma_leaf_of_path(directory, mark, name);
    lemma_leaf_of_path(directory, mark, Seq::empty());
    assert(directory + seq![mark] + Seq::<char>::empty() =~= directory + seq![mark]);
    let none = Seq::<char>::empty();
    lemma_filter_all(none, |c: char| keeps_in_name(c));
    law_trim_keeps_trimmed(none);
    assert(first_chars(none, 120) == none);
    assert(skip_while(none, equals('.')) == none);
    let s = Seq::new(dots, |i: int| '.');
    lemma_leaf_is_all(s);
    lemma_filter_all(s, |c: char| keeps_in_name(c));
    law_trim_keeps_trimmed(s);
    lemma_dots(dots);
}

proof fn lemma_dots(n: nat)
    ensures
        skip_while(Seq::new(n, |i: int| '.'), equals('.')) == Seq::<char>::empty(),
    decreases n,
{
    let s = Seq::new(n, |i: int| '.');
    if n > 0 {
        assert(s.drop_first() =~= Seq::new((n - 1) as nat, |i: int| '.'));
        lemma_dots((n - 1) as nat);
    } else {
        assert(s =~= Seq::<char>::empty());
    }
}

/// A file in a message is its name and its bytes, as bytes or as text; it is taken
/// up to sixteen megabytes, and nothing else is a file.
pub proof fn law_files_are_names_with_bytes(
    name: Seq<char>,
    data: Seq<u8>,
    text: Seq<char>,
    other: MsgModel,
)
    ensures
        data.len() <= 16777216 ==> file_entry(
            MsgModel::Array(seq![MsgModel::Text(name), MsgModel::Binary(data)]),
        ) == Ok::<(Seq<char>, Seq<u8>), InboxError>((name, data)),
        encode_utf8(text).len() <= 16777216 ==> file_entry(
            MsgModel::Array(seq![MsgModel::Text(name), MsgModel::Text(text)]),
        ) == Ok::<(Seq<char>, Seq<u8>), InboxError>((name, encode_utf8(text))),
        data.len() > 16777216 ==> file_entry(
            MsgModel::Array(seq![MsgModel::Text(name), MsgModel::Binary(data)]),
        ) == Err::<(Seq<char>, Seq<u8>), InboxError>(InboxError::FileTooLarge),
        !(other is Array) ==> file_entry(other) == Err::<(Seq<char>, Seq<u8>), InboxError>(
            InboxError::BadEntry,
        ),
        !(other is Text) ==> file_entry(MsgModel::Array(seq![other, MsgModel::Binary(data)]))
            == Err::<(Seq<char>, Seq<u8>), InboxError>(InboxError::BadName),
        !(other is Text) && !(other is Binary) && !(other is RawText) ==> file_entry(
            MsgModel::Array(seq![MsgModel::Text(name), other]),
        ) == Err::<(Seq<char>, Seq<u8>), InboxError>(InboxError::BadData),
{
    assert(seq![MsgModel::Text(name), MsgModel::Binary(data)][0] == MsgModel::Text(name));
    assert(seq![MsgModel::Text(name), MsgModel::Binary(data)][1] == MsgModel::Binary(data));
    assert(seq![MsgModel::Text(name), MsgModel::Text(text)][1] == MsgModel::Text(text));
    assert(seq![other, MsgModel::Binary(data)][0] == other);
    assert(seq![MsgModel::Text(name), other][1] == other);
}

/// More than 32 files are not held, nor more than 64 megabytes of them, and without
/// the hash of its message no file is taken.
pub proof fn law_the_inbox_has_room_for_so_much(
    source: FileSource,
    values: Seq<MsgModel>,
    file: (Seq<char>, Seq<u8>),
    held: Held,
    list: MsgModel,
)
    ensures
        values.len() + held.len() > 32 ==> incoming(source, MsgModel::Array(values), held)
            == Err::<Seq<(Seq<char>, Seq<u8>)>, InboxError>(InboxError::TooManyFiles),
        values.len() + held.len() <= 32 && source.hash.is_none() ==> incoming(
            source,
            MsgModel::Array(values),
            held,
        ) == Err::<Seq<(Seq<char>, Seq<u8>)>, InboxError>(InboxError::MissingHash),
        !(list is Array) ==> incoming(source, list, held) == Err::<
            Seq<(Seq<char>, Seq<u8>)>,
            InboxError,
        >(InboxError::NoList),
        file.1.len() <= 16777216 && total_bytes(held) + file.1.len() > 67108864 ==> file_entries(
            seq![MsgModel::Array(seq![MsgModel::Text(file.0), MsgModel::Binary(file.1)])],
            total_bytes(held),
        ) == Err::<Seq<(Seq<char>, Seq<u8>)>, InboxError>(InboxError::PendingTooLarge),
{
    let one = seq![MsgModel::Array(seq![MsgModel::Text(file.0), MsgModel::Binary(file.1)])];
    assert(one.drop_last() =~= Seq::<MsgModel>::empty());
    law_files_are_names_with_bytes(file.0, file.1, Seq::empty(), MsgModel::Other);
    reveal_with_fuel(file_entries, 2);
}

/// An offer names who sent the file, bears its safe name, says how large it is and
/// whether its sender is certain, and holds its bytes from the moment it came.
pub proof fn law_offers_say_what_they_hold(
    source: FileSource,
    i: int,
    name: Seq<char>,
    data: Seq<u8>,
    now: u64,
)
    ensures
        offered(source, i, (name, data), now).offer.sender == hex_text(source.sender),
        offered(source, i, (name, data), now).offer.name == stored_name(name),
        offered(source, i, (name, data), now).offer.size == data.len(),
        offered(source, i, (name, data), now).offer.verified == source.verified,
        offered(source, i, (name, data), now).data == data,
        offered(source, i, (name, data), now).received == now,
{
}

/// The files of one message, and those of different messages, are offered under
/// different names.
pub proof fn law_offers_are_told_apart(a: FileSource, b: FileSource, i: nat, j: nat)
    requires
        a.hash.is_some(),
        b.hash.is_some(),
        a.hash.unwrap().len() == b.hash.unwrap().len(),
        a.hash != b.hash || i != j,
    ensures
        offer_id(a, i as int) != offer_id(b, j as int),
{
    let x = hex_text(a.hash.unwrap());
    let y = hex_text(b.hash.unwrap());
    law_hex_text_is_read_back(a.hash.unwrap());
    law_hex_text_is_read_back(b.hash.unwrap());
    let s = offer_id(a, i as int);
    let t = offer_id(b, j as int);
    if s == t {
        assert(s.take(x.len() as int) =~= x);
        assert(t.take(y.len() as int) =~= y);
        assert(s.skip(x.len() as int + 1) =~= decimal(i));
        assert(t.skip(y.len() as int + 1) =~= decimal(j));
        law_decimal_is_read_back(i, i + j);
        law_decimal_is_read_back(j, i + j);
    }
}

/// The sender of a file is that of its message; its hash is the message's own, or the
/// one it is known by; and it is certain only where the signature was verified.
pub proof fn law_files_come_from_the_sender(message: FileMessage)
    ensures
        file_source(message).sender == message.source_hash@,
        file_source(message).verified == message.signature_validated,
        message.hash.is_some() ==> file_source(message).hash == Some(message.hash.unwrap()@),
        message.hash.is_none() && message.message_id.is_some() ==> file_source(message).hash
            == Some(message.message_id.unwrap()@),
        message.hash.is_none() && message.message_id.is_none() ==> file_source(
            message,
        ).hash.is_none(),
{
}

/// An offer stands for ten minutes and no longer.
pub proof fn law_offers_stand_ten_minutes(entry: (Seq<char>, PendingModel), now: u64)
    ensures
        stands(entry, now) <==> now - entry.1.received < 600000,
        live(seq![entry], now) == if now - entry.1.received < 600000 {
            seq![entry]
        } else {
            Seq::<(Seq<char>, PendingModel)>::empty()
        },
{
    reveal_with_fuel(Seq::filter, 2);
    let one = seq![entry];
    assert(one.drop_last() =~= Seq::<(Seq<char>, PendingModel)>::empty());
    assert(live(one, now) =~= if now - entry.1.received < 600000 {
        one
    } else {
        Seq::<(Seq<char>, PendingModel)>::empty()
    });
}

/// The files of a message stand in the fourth part of its body, under field five;
/// where that is missing there are none.
#[verifier::rlimit(50)]
pub proof fn law_files_stand_under_their_field(
    a: MsgModel,
    b: MsgModel,
    c: MsgModel,
    list: MsgModel,
    key: MsgModel,
    value: MsgModel,
)
    ensures
        files_field(
            MsgModel::Array(seq![a, b, c, MsgModel::Table(seq![(MsgModel::Uint(5), list)])]),
        ) == Some(list),
        key != MsgModel::Uint(5) ==> files_field(
            MsgModel::Array(
                seq![a, b, c, MsgModel::Table(seq![(key, value), (MsgModel::Uint(5), list)])],
            ),
        ) == Some(list),
        key != MsgModel::Uint(5) ==> files_field(
            MsgModel::Array(seq![a, b, c, MsgModel::Table(seq![(key, value)])]),
        ).is_none(),
        files_field(MsgModel::Array(seq![a, b, c])).is_none(),
{
    let field = (MsgModel::Uint(5), list);
    let other = (key, value);
    reveal_with_fuel(crate::attachments::first_field, 3);
    assert(seq![other, field].skip(1) =~= seq![field]);
    assert(seq![other].skip(1) =~= Seq::<(MsgModel, MsgModel)>::empty());
    assert(seq![a, b, c, MsgModel::Table(seq![field])][3] == MsgModel::Table(seq![field]));
    assert(seq![a, b, c, MsgModel::Table(seq![other, field])][3] == MsgModel::Table(
        seq![other, field],
    ));
    assert(seq![a, b, c, MsgModel::Table(seq![other])][3] == MsgModel::Table(seq![other]));
    assert(seq![field][0] == field);
    assert(seq![other, field][0] == other);
    assert(seq![other][0] == other);
}

/// A form of up to 256 fields is sent, each under the name of a field or a variable,
/// none of them too long; any other is refused.
pub proof fn law_forms_are_checked(fields: Fields, i: int)
    ensures
        fields.len() > 256 ==> form_fault(fields) == Some(FetchError::TooManyFields),
        fields.len() <= 256 && 0 <= i < fields.len() && !is_form_field(fields[i].0, fields[i].1@)
            ==> form_fault(fields) == Some(FetchError::InvalidField),
        fields.len() <= 256 && (forall|j: int|
            0 <= j < fields.len() ==> is_form_field((#[trigger] fields[j]).0, fields[j].1@))
            ==> form_fault(fields).is_none(),
{
}

/// The names that a form sends are those that a page sees: its fields and its
/// variables. No other name gets through, and none that is too long.
pub proof fn law_form_names_are_marked(name: Seq<char>, value: Seq<char>)
    ensures
        encode_utf8("field_"@ + name).len() <= 134 && encode_utf8(value).len() <= 1048576
            ==> is_form_field("field_"@ + name, value),
        encode_utf8("var_"@ + name).len() <= 134 && encode_utf8(value).len() <= 1048576
            ==> is_form_field("var_"@ + name, value),
        name.len() > 0 && name[0] != 'f' && name[0] != 'v' ==> !is_form_field(name, value),
        encode_utf8(name).len() > 134 ==> !is_form_field(name, value),
        encode_utf8(value).len() > 1048576 ==> !is_form_field(name, value),
{
    reveal_strlit("field_");
    reveal_strlit("var_");
    assert(("field_"@ + name).take(6) =~= "field_"@);
    assert(("var_"@ + name).take(4) =~= "var_"@);
    if name.len() >= 6 {
        assert(name.take(6)[0] == name[0]);
    }
    if name.len() >= 4 {
        assert(name.take(4)[0] == name[0]);
    }
}

/// What was kept of a page serves only where nothing is sent with the request and
/// the page is not to be loaded anew.
pub proof fn law_the_cache_serves_plain_requests(reload: bool, fields: Fields)
    ensures
        may_use_cache(true, fields) == false,
        fields.len() > 0 ==> !may_use_cache(reload, fields),
        fields.len() == 0 ==> may_use_cache(false, fields),
{
}

/// Only pages are asked for as pages, and a form that is refused is not sent.
pub proof fn law_only_pages_are_asked_for(path: Seq<char>, fields: Fields)
    ensures
        !is_page_path(path) ==> request_fault(path, fields) == Some(FetchError::NotPage),
        is_page_path(path) ==> request_fault(path, fields) == form_fault(fields),
{
}

/// A page is taken up to a megabyte, 16384 lines and lines of 16384 bytes; beyond
/// that it is refused, by its size first.
pub proof fn law_pages_are_taken_up_to_a_size(bytes: Seq<u8>, i: int)
    ensures
        bytes.len() > 1048576 ==> page_size_fault(bytes) == Some(FetchError::PageTooLarge),
        bytes.len() <= 1048576 && bytes.filter(|b: u8| b == 10).len() >= 16384 ==> page_size_fault(
            bytes,
        ) == Some(FetchError::TooManyLines),
        bytes.len() <= 16384 && bytes.filter(|b: u8| b == 10).len() < 16384 ==> page_size_fault(
            bytes,
        ).is_none(),
        0 <= i && i + 16384 < bytes.len() && (forall|j: int|
            i <= j <= i + 16384 ==> #[trigger] bytes[j] != 10) ==> page_size_fault(bytes).is_some(),
{
    if 0 <= i && i + 16384 < bytes.len() && (forall|j: int|
        i <= j <= i + 16384 ==> #[trigger] bytes[j] != 10) {
        assert(long_line_at(bytes, i));
    }
}

proof fn lemma_last_segment_of(directory: Seq<char>, name: Seq<char>)
    requires
        !name.contains('/'),
    ensures
        last_segment(directory + seq!['/'] + name) == name,
    decreases name.len(),
{
    let path = directory + seq!['/'] + name;
    if name.len() == 0 {
        assert(path.last() == '/');
        assert(last_segment(path) =~= name);
    } else {
        assert(path.last() == name.last());
        assert(name.contains(name[name.len() - 1]));
        assert(path.drop_last() =~= directory + seq!['/'] + name.drop_last());
        assert(!name.drop_last().contains('/')) by {
            if name.drop_last().contains('/') {
                let i = name.drop_last().index_of('/');
                assert(name[i] == '/');
            }
        }
        lemma_last_segment_of(directory, name.drop_last());
        assert(name.drop_last().push(name.last()) =~= name);
    }
}

/// A file is saved under the name that came with it, or under the last part of its
/// path where none did.
pub proof fn law_downloads_are_named(
    given: Seq<char>,
    directory: Seq<char>,
    name: Seq<char>,
    path: Seq<char>,
)
    requires
        is_good_name(given),
        is_good_name(name),
    ensures
        download_name(Some(given), path) == given,
        download_name(None, directory + seq!['/'] + name) == name,
{
    law_good_names_are_kept(given, directory, '/');
    law_good_names_are_kept(name, directory, '/');
    assert(!name.contains('/')) by {
        if name.contains('/') {
            assert(name[name.index_of('/')] != '/');
        }
    }
    lemma_last_segment_of(directory, name);
}

/// The name that came with a file stands under "name", as text or as bytes of text;
/// other entries before it do not matter.
pub proof fn law_file_names_stand_under_name(
    text: Seq<char>,
    key: MsgModel,
    value: MsgModel,
    rest: Seq<(MsgModel, MsgModel)>,
)
    requires
        key != MsgModel::Text("name"@),
        key != MsgModel::Binary(seq![110u8, 97, 109, 101]),
    ensures
        ({
            let named = (MsgModel::Text("name"@), MsgModel::Text(text));
            let raw = (MsgModel::Binary(seq![110u8, 97, 109, 101]), MsgModel::Text(text));
            &&& metadata_name(Ok(MsgModel::Table(seq![named] + rest))) == Some(text)
            &&& metadata_name(Ok(MsgModel::Table(seq![raw] + rest))) == Some(text)
            &&& metadata_name(Ok(MsgModel::Table(seq![(key, value)] + rest))) == metadata_name(
                Ok(MsgModel::Table(rest)),
            )
            &&& metadata_name(Ok(MsgModel::Table(Seq::empty()))).is_none()
            &&& metadata_name(Err(text)).is_none()
        }),
{
    let named = (MsgModel::Text("name"@), MsgModel::Text(text));
    let raw = (MsgModel::Binary(seq![110u8, 97, 109, 101]), MsgModel::Text(text));
    let other = (key, value);
    assert((seq![named] + rest)[0] == named);
    assert((seq![raw] + rest)[0] == raw);
    assert((seq![other] + rest)[0] == other);
    assert((seq![other] + rest).drop_first() =~= rest);
}

pub proof fn lemma_extension_of(stem: Seq<char>, e: Seq<char>)
    requires
        !e.contains('.'),
    ensures
        extension(stem + seq!['.'] + e) == Some(e),
    decreases e.len(),
{
    let name = stem + seq!['.'] + e;
    if e.len() == 0 {
        assert(name.last() == '.');
        assert(e =~= Seq::<char>::empty());
    } else {
        assert(name.last() == e.last());
        assert(e.contains(e[e.len() - 1]));
        assert(name.drop_last() =~= stem + seq!['.'] + e.drop_last());
        assert(!e.drop_last().contains('.')) by {
            if e.drop_last().contains('.') {
                let i = e.drop_last().index_of('.');
                assert(e[i] == '.');
            }
        }
        lemma_extension_of(stem, e.drop_last());
        assert(e.drop_last().push(e.last()) =~= e);
    }
}

/// What a file is goes by what stands behind the last dot of its name, in capitals or
/// not; the rest of the name does not matter.
pub proof fn law_types_go_by_the_ending(stem: Seq<char>, other: Seq<char>, e: Seq<char>)
    requires
        !e.contains('.'),
        !lower(e).contains('.'),
    ensures
        content_type(stem + seq!['.'] + e) == content_type(other + seq!['.'] + e),
        content_type(stem + seq!['.'] + e) == content_type(stem + seq!['.'] + lower(e)),
{
    lemma_extension_of(stem, e);
    lemma_extension_of(other, e);
    lemma_extension_of(stem, lower(e));
    assert(lower(lower(e)) =~= lower(e));
}

/// A name without a dot says nothing of what the file is.
pub proof fn law_names_without_an_ending_say_nothing(name: Seq<char>)
    requires
        !name.contains('.'),
    ensures
        content_type(name) == "application/octet-stream"@,
{
    lemma_no_extension(name);
}

proof fn lemma_no_extension(name: Seq<char>)
    requires
        !name.contains('.'),
    ensures
        extension(name).is_none(),
    decreases name.len(),
{
    if name.len() > 0 {
        assert(name.contains(name[name.len() - 1]));
        assert(!name.drop_last().contains('.')) by {
            if name.drop_last().contains('.') {
                let i = name.drop_last().index_of('.');
                assert(name[i] == '.');
            }
        }
        lemma_no_extension(name.drop_last());
    }
}

/// An offer that is accepted gives its own file under its own name; one that is refused
/// is gone, and the others stay; one that does not stand gives nothing.
pub proof fn law_offers_are_decided(
    held: Held,
    id: Seq<char>,
    other: Seq<char>,
    result: Result<Decision, InboxError>,
    after: Held,
)
    requires
        other != id,
    ensures
        offer_decided(held, id, true, result, after) && list_map(held).contains_key(id)
            ==> result is Ok && result->Ok_0 is Save && result->Ok_0->data@ == list_map(held)[id].data
            && result->Ok_0->name@ == list_map(held)[id].offer.name && after == held,
        offer_decided(held, id, true, result, after) && !list_map(held).contains_key(id)
            ==> result == Err::<Decision, InboxError>(InboxError::Expired) && after == held,
        offer_decided(held, id, false, result, after) ==> result is Ok && result->Ok_0 is Refused
            && !list_map(after).contains_key(id) && (list_map(after).contains_key(other)
            <==> list_map(held).contains_key(other)),
{
}

/// A file never takes the place of another: where its name is taken the next one is
/// tried, with a number before it, ten thousand times at most.
pub proof fn law_files_do_not_replace_others(
    name: Seq<char>,
    attempt: u32,
    step: SaveStep,
)
    requires
        attempt < 10000,
    ensures
        save_follows(name, attempt, Created::Written, step) ==> step is Done,
        save_follows(name, attempt, Created::Failed, step) ==> step is Report,
        save_follows(name, attempt, Created::Exists, step) && attempt < 9999 ==> step is Retry
            && step->attempt == attempt + 1 && step->name@ == decimal((attempt + 1) as nat)
            + seq!['-'] + name,
        save_follows(name, attempt, Created::Exists, step) && attempt == 9999 ==> step is GiveUp,
        attempt_name(name, 0) == name,
{
}

/// A colon is left out of a name.
pub proof fn law_colons_are_left_out(a: Seq<char>, b: Seq<char>)
    requires
        is_good_name(a + b),
    ensures
        stored_name(a + seq![':'] + b) == a + b,
{
    let name = a + b;
    let odd = a + seq![':'] + b;
    assert forall|i: int| 0 <= i < odd.len() implies #[trigger] odd[i] != '/' && odd[i] != '\\' by {
        if i < a.len() {
            assert(odd[i] == name[i]);
        } else if i > a.len() {
            assert(odd[i] == name[i - 1]);
        }
    }
    lemma_leaf_is_all(odd);
    assert forall|i: int| 0 <= i < (a + b).len() implies keeps_in_name(#[trigger] (a + b)[i]) by {
        assert(name[i] != ':' && !is_control_char(name[i]));
    }
    lemma_filter_part(a, ':', b);
    lemma_good_name_stays(name);
}

/// Of a name that is too long the first 120 characters are kept.
pub proof fn law_long_names_are_cut(name: Seq<char>, tail: Seq<char>)
    requires
        is_good_name(name),
        name.len() == 120,
        forall|i: int|
            0 <= i < tail.len() ==> #[trigger] tail[i] != '/' && tail[i] != '\\' && tail[i] != ':'
                && !is_control_char(tail[i]),
    ensures
        stored_name(name + tail) == name,
{
    let long = name + tail;
    let p = |c: char| keeps_in_name(c);
    assert forall|i: int| 0 <= i < long.len() implies #[trigger] long[i] != '/' && long[i] != '\\'
        && p(long[i]) by {
        if i < name.len() {
            assert(long[i] == name[i]);
        } else {
            assert(long[i] == tail[i - name.len()]);
        }
    }
    lemma_leaf_is_all(long);
    lemma_filter_all(long, p);
    lemma_good_name_stays(name);
    if tail.len() > 0 {
        assert(long.take(120) =~= name);
    } else {
        assert(long =~= name);
    }
}

proof fn lemma_good_name_stays(name: Seq<char>)
    requires
        is_good_name(name),
    ensures
        trim(name) == name,
        skip_while(name, equals('.')) == name,
        first_chars(name, 120) == name,
{
    law_trim_keeps_trimmed(name);
}

#[verifier::rlimit(50)]
proof fn lemma_filter_part(a: Seq<char>, c: char, b: Seq<char>)
    requires
        c == ':',
        forall|i: int| 0 <= i < (a + b).len() ==> keeps_in_name(#[trigger] (a + b)[i]),
    ensures
        (a + seq![c] + b).filter(|d: char| keeps_in_name(d)) == a + b,
    decreases b.len(),
{
    let p = |d: char| keeps_in_name(d);
    let s = a + seq![c] + b;
    reveal(Seq::filter);
    if b.len() == 0 {
        assert(s.last() == c);
        assert(s.drop_last() =~= a);
        assert forall|i: int| 0 <= i < a.len() implies p(#[trigger] a[i]) by {
            assert((a + b)[i] == a[i]);
        }
        lemma_filter_all(a, p);
        assert(a + b =~= a);
    } else {
        assert(s.last() == b.last());
        assert((a + b)[a.len() + b.len() - 1] == b.last());
        assert(s.drop_last() =~= a + seq![c] + b.drop_last());
        assert forall|i: int| 0 <= i < (a + b.drop_last()).len() implies keeps_in_name(
            #[trigger] (a + b.drop_last())[i],
        ) by {
            assert((a + b.drop_last())[i] == (a + b)[i]);
        }
        lemma_filter_part(a, c, b.drop_last());
        assert((a + b.drop_last()).push(b.last()) =~= a + b);
    }
}

} // verus!
