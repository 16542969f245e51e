//! Requests for pages and files of nodes.
use vstd::prelude::*;
use vstd::slice::*;
use vstd::string::*;
use vstd::utf8::{decode_utf8, encode_utf8, valid_utf8};

use crate::attachments::{safe_name, stored_name};
use crate::browser::{
    is_file_path, is_page_path, page_parse, parse_page, text_view, url_canonical, BrowserError,
    BrowserPage, DownloadedFile, NomadUrl,
};
use crate::mime::{content_type, download_content_type};
use crate::msgpack::{
    msg_model, msgpack_read, msgpack_written, read_msgpack, shallow, writable, write_msgpack,
    MsgModel, MsgValue,
};
use crate::service::url_fault;
use crate::table::TextMap;
use crate::text::{
    byte_len, chars_of, same_text, starts_with, string_of, strip_prefix, text_from_utf8,
};

verus! {

/// How long a page may be: 1 MiB.
pub const MAX_PAGE_BYTES: usize = 1048576;

/// How many lines a page may have.
pub const MAX_PAGE_LINES: usize = 16384;

/// How many bytes a line of a page may have.
pub const MAX_LINE_BYTES: usize = 16384;

/// How long a file may be: 64 MiB.
pub const MAX_DOWNLOAD_BYTES: usize = 67108864;

/// Why a page or a file cannot be had.
#[derive(Debug, Clone, Copy, PartialEq, Eq, Structural)]
pub enum FetchError {
    NotPage,
    NotFile,
    TooManyFields,
    InvalidField,
    TooLarge,
    PageTooLarge,
    TooManyLines,
    LineTooLong,
    Page(BrowserError),
}

pub open spec fn fetch_error_text(error: FetchError) -> Seq<char> {
    match error {
        FetchError::NotPage => "browser page request requires a /page/ path"@,
        FetchError::NotFile => "file request requires a /file/ path"@,
        FetchError::TooManyFields => "too many form fields"@,
        FetchError::InvalidField => "invalid form field"@,
        FetchError::TooLarge => "download exceeds the 64 MiB client limit"@,
        FetchError::PageTooLarge => "page exceeds the 1 MiB client limit"@,
        FetchError::TooManyLines => "page has more lines than the client limit"@,
        FetchError::LineTooLong => "page has a line over the client limit"@,
        FetchError::Page(error) => url_fault(error),
    }
}

impl FetchError {
    /// The sentence shown for the error.
    pub fn message(&self) -> (r: String)
        ensures
            r@ == fetch_error_text(*self),
    {
        match self {
            FetchError::NotPage => "browser page request requires a /page/ path".to_string(),
            FetchError::NotFile => "file request requires a /file/ path".to_string(),
            FetchError::TooManyFields => "too many form fields".to_string(),
            FetchError::InvalidField => "invalid form field".to_string(),
            FetchError::TooLarge => "download exceeds the 64 MiB client limit".to_string(),
            FetchError::PageTooLarge => "page exceeds the 1 MiB client limit".to_string(),
            FetchError::TooManyLines => "page has more lines than the client limit".to_string(),
            FetchError::LineTooLong => "page has a line over the client limit".to_string(),
            FetchError::Page(error) => error.message(),
        }
    }
}

/// The fields of a form, key by key, in order.
pub type Fields = Seq<(Seq<char>, String)>;

/// A field of a form has a key that begins with `field_` or `var_`, of at most
/// 134 bytes, and a value of at most 1 MiB.
pub open spec fn is_form_field(key: Seq<char>, value: Seq<char>) -> bool {
    &&& starts_with(key, "field_"@) || starts_with(key, "var_"@)
    &&& encode_utf8(key).len() <= 134
    &&& encode_utf8(value).len() <= 1048576
}

pub open spec fn are_form_fields(fields: Fields) -> bool {
    forall|i: int| 0 <= i < fields.len() ==> is_form_field((#[trigger] fields[i]).0, fields[i].1@)
}

/// The fields of a form as the node reads them.
pub open spec fn form_value(fields: Fields) -> MsgModel {
    MsgModel::Table(
        fields.map_values(
            |field: (Seq<char>, String)| (MsgModel::Text(field.0), MsgModel::Text(field.1@)),
        ),
    )
}

fn form_field(key: &str, value: &str) -> (r: bool)
    ensures
        r == is_form_field(key@, value@),
{
    let letters = chars_of(key);
    (strip_prefix(&letters, "field_").is_some() || strip_prefix(&letters, "var_").is_some())
        && byte_len(key) <= 134 && byte_len(value) <= 1048576
}

/// The fault of the fields of a form, if they have one.
pub open spec fn form_fault(fields: Fields) -> Option<FetchError> {
    if fields.len() > 256 {
        Some(FetchError::TooManyFields)
    } else if !are_form_fields(fields) {
        Some(FetchError::InvalidField)
    } else {
        None
    }
}

/// Encodes the fields of a form for a node.
pub fn encode_form_fields(fields: &TextMap<String>) -> (r: Result<Vec<u8>, FetchError>)
    ensures
        r is Ok == form_fault(fields.list()).is_none(),
        r is Err ==> r->Err_0 == form_fault(fields.list()).unwrap(),
        r is Ok ==> r->Ok_0@ == msgpack_written(form_value(fields.list())) && msgpack_read(
            r->Ok_0@,
        ) == Ok::<MsgModel, Seq<char>>(form_value(fields.list())),
{
    let count = fields.len();
    if count > 256 {
        return Err(FetchError::TooManyFields);
    }
    let mut entries: Vec<(MsgValue, MsgValue)> = Vec::new();
    for i in 0..count
        invariant
            count == fields.list().len(),
            count <= 256,
            entries@.len() == i,
            forall|j: int|
                0 <= j < i ==> is_form_field((#[trigger] fields.list()[j]).0, fields.list()[j].1@),
            forall|j: int|
                0 <= j < i ==> (#[trigger] entries@[j]).0 is Text && entries@[j].1 is Text
                    && entries@[j].0->Text_0@ == fields.list()[j].0 && entries@[j].1->Text_0@
                    == fields.list()[j].1@,
    {
        let (key, value) = fields.at(i);
        if !form_field(key.as_str(), value.as_str()) {
            proof {
                assert(!is_form_field(fields.list()[i as int].0, fields.list()[i as int].1@));
            }
            return Err(FetchError::InvalidField);
        }
        entries.push((MsgValue::Text(key.clone()), MsgValue::Text(value.clone())));
    }
    let value = MsgValue::Table(entries);
    proof {
        reveal_with_fuel(msg_model, 3);
        reveal_with_fuel(shallow, 3);
        reveal_with_fuel(writable, 3);
        let model = form_value(fields.list());
        assert(value@->Table_0 =~= model->Table_0);
        assert(value@ == model);
        assert forall|i: int| 0 <= i < model->Table_0.len() implies writable(
            (#[trigger] model->Table_0[i]).0,
            15,
        ) && writable(model->Table_0[i].1, 15) by {
            assert(is_form_field(fields.list()[i].0, fields.list()[i].1@));
        }
    }
    Ok(write_msgpack(&value))
}

/// Whether an entry of a file's metadata is its name, and the name if it can be
/// read.
pub open spec fn name_entry(key: MsgModel, value: MsgModel) -> Option<Seq<char>> {
    if key == MsgModel::Text("name"@) || key == MsgModel::Binary(seq![110u8, 97, 109, 101]) {
        match value {
            MsgModel::Text(text) => Some(text),
            MsgModel::Binary(bytes) => if valid_utf8(bytes) {
                Some(decode_utf8(bytes))
            } else {
                None
            },
            _ => None,
        }
    } else {
        None
    }
}

pub open spec fn first_name(entries: Seq<(MsgModel, MsgModel)>) -> Option<Seq<char>>
    decreases entries.len(),
{
    if entries.len() == 0 {
        None
    } else if name_entry(entries[0].0, entries[0].1).is_some() {
        name_entry(entries[0].0, entries[0].1)
    } else {
        first_name(entries.drop_first())
    }
}

/// The name in a file's metadata: the first entry under `name` that is a text.
pub open spec fn metadata_name(value: Result<MsgModel, Seq<char>>) -> Option<Seq<char>> {
    match value {
        Ok(MsgModel::Table(entries)) => first_name(entries),
        _ => None,
    }
}

fn is_name_key(key: &MsgValue) -> (r: bool)
    ensures
        r == (key@ == MsgModel::Text("name"@) || key@ == MsgModel::Binary(
            seq![110u8, 97, 109, 101],
        )),
{
    match key {
        MsgValue::Text(text) => same_text(text.as_str(), "name"),
        MsgValue::Binary(bytes) => {
            let r = bytes.len() == 4 && bytes[0] == 110 && bytes[1] == 97 && bytes[2] == 109
                && bytes[3] == 101;
            assert(r == (bytes@ =~= seq![110u8, 97, 109, 101]));
            r
        },
        _ => false,
    }
}

/// The name in a file's metadata that has been decoded.
pub fn filename_from_value(value: &MsgValue) -> (r: Option<String>)
    ensures
        text_view(r) == metadata_name(Ok(value@)),
{
    let entries = match value {
        MsgValue::Table(entries) => entries,
        _ => {
            return None;
        },
    };
    let ghost all = value@->Table_0;
    proof {
        assert(all.skip(0) =~= all);
    }
    for i in 0..entries.len()
        invariant
            value@ == MsgModel::Table(all),
            all.len() == entries@.len(),
            forall|j: int|
                0 <= j < all.len() ==> #[trigger] all[j] == (entries@[j].0@, entries@[j].1@),
            first_name(all) == first_name(all.skip(i as int)),
    {
        proof {
            assert(all.skip(i as int)[0] == all[i as int]);
            assert(all.skip(i as int).drop_first() =~= all.skip(i + 1));
        }
        if is_name_key(&entries[i].0) {
            match &entries[i].1 {
                MsgValue::Text(text) => {
                    return Some(text.clone());
                },
                MsgValue::Binary(bytes) => {
                    if let Some(text) = text_from_utf8(bytes) {
                        return Some(text.to_string());
                    }
                },
                _ => {},
            }
        }
    }
    assert(all.skip(entries@.len() as int) =~= Seq::empty());
    None
}

/// The name in the metadata that a node sends with a file.
pub fn filename_from_resource_metadata(metadata: &[u8]) -> (r: Option<String>)
    ensures
        text_view(r) == metadata_name(msgpack_read(metadata@)),
{
    match read_msgpack(metadata) {
        Ok(value) => filename_from_value(&value),
        Err(_) => None,
    }
}

/// The first thing to do for a page.
#[derive(Debug)]
pub enum FetchStart {
    /// Look for the page under this address in the cache.
    ReadCache { url: String },
    /// Ask the node, with the encoded fields of a form where there are any.
    Ask { url: String, data: Option<Vec<u8>> },
}

/// Whether a page may come from the cache: not where it is asked for anew, nor as
/// the answer to a form.
pub open spec fn may_use_cache(reload: bool, fields: Fields) -> bool {
    fields.len() == 0 && !reload
}

/// What goes with the request for a page, or why it cannot be made.
pub open spec fn request_fault(path: Seq<char>, fields: Fields) -> Option<FetchError> {
    if !is_page_path(path) {
        Some(FetchError::NotPage)
    } else {
        form_fault(fields)
    }
}

/// Asks a node for a page.
pub fn ask_node(url: &NomadUrl, fields: &TextMap<String>) -> (r: Result<FetchStart, FetchError>)
    ensures
        r is Ok == request_fault(url.path@, fields.list()).is_none(),
        r is Err ==> r->Err_0 == request_fault(url.path@, fields.list()).unwrap(),
        r is Ok ==> (r->Ok_0 matches FetchStart::Ask { url: canonical, data } && canonical@
            == url_canonical(url@) && data.is_some() == (fields.list().len() > 0) && (data.is_some()
            ==> data.unwrap()@ == msgpack_written(form_value(fields.list())))),
{
    if !url.is_page() {
        return Err(FetchError::NotPage);
    }
    if fields.len() == 0 {
        return Ok(FetchStart::Ask { url: url.canonical(), data: None });
    }
    match encode_form_fields(fields) {
        Ok(data) => Ok(FetchStart::Ask { url: url.canonical(), data: Some(data) }),
        Err(error) => Err(error),
    }
}

/// Begins to fetch a page.
pub fn begin_fetch(url: &NomadUrl, reload: bool, fields: &TextMap<String>) -> (r: Result<
    FetchStart,
    FetchError,
>)
    ensures
        r is Ok == request_fault(url.path@, fields.list()).is_none(),
        r is Err ==> r->Err_0 == request_fault(url.path@, fields.list()).unwrap(),
        r is Ok && may_use_cache(reload, fields.list()) ==> (r->Ok_0 matches FetchStart::ReadCache {
            url: canonical,
        } && canonical@ == url_canonical(url@)),
        r is Ok && !may_use_cache(reload, fields.list()) ==> (r->Ok_0 matches FetchStart::Ask {
            url: canonical,
            data,
        } && canonical@ == url_canonical(url@) && data.is_some() == (fields.list().len() > 0) && (
        data.is_some() ==> data.unwrap()@ == msgpack_written(form_value(fields.list())))),
{
    if url.is_page() && fields.len() == 0 && !reload {
        return Ok(FetchStart::ReadCache { url: url.canonical() });
    }
    ask_node(url, fields)
}

/// What came of the bytes of a page.
pub open spec fn page_result(url: Seq<char>, bytes: Seq<u8>, from_cache: bool) -> Option<
    crate::browser::PageModel,
> {
    if valid_utf8(bytes) {
        Some(page_parse(url, decode_utf8(bytes), from_cache))
    } else {
        None
    }
}

/// A page from the cache.
pub fn page_from_cache(url: &NomadUrl, bytes: &[u8]) -> (r: Result<BrowserPage, FetchError>)
    ensures
        r is Ok == page_result(url_canonical(url@), bytes@, true).is_some(),
        r is Ok ==> r->Ok_0@ == page_result(url_canonical(url@), bytes@, true).unwrap(),
        r is Err ==> r->Err_0 == FetchError::Page(BrowserError::InvalidEncoding),
{
    match parse_page(url.canonical(), bytes, true) {
        Ok(page) => Ok(page),
        Err(error) => Err(FetchError::Page(error)),
    }
}

/// How often a line ends in a page.
pub open spec fn line_ends(bytes: Seq<u8>) -> nat {
    bytes.filter(|b: u8| b == 10).len()
}

/// Whether one line goes on from a place for more bytes than a line may have.
pub open spec fn long_line_at(bytes: Seq<u8>, i: int) -> bool {
    &&& 0 <= i && i + MAX_LINE_BYTES < bytes.len()
    &&& forall|j: int| i <= j <= i + MAX_LINE_BYTES ==> bytes[j] != 10
}

/// The limit that the bytes of a page go beyond, if any.
pub open spec fn page_size_fault(bytes: Seq<u8>) -> Option<FetchError> {
    if bytes.len() > MAX_PAGE_BYTES {
        Some(FetchError::PageTooLarge)
    } else if line_ends(bytes) >= MAX_PAGE_LINES {
        Some(FetchError::TooManyLines)
    } else if exists|i: int| long_line_at(bytes, i) {
        Some(FetchError::LineTooLong)
    } else {
        None
    }
}

/// Checks that a page is not too long, has not too many lines and no line that is
/// too long.
pub fn check_page_size(bytes: &[u8]) -> (r: Result<(), FetchError>)
    ensures
        r is Ok == page_size_fault(bytes@).is_none(),
        r is Err ==> r->Err_0 == page_size_fault(bytes@).unwrap(),
{
    if bytes.len() > MAX_PAGE_BYTES {
        return Err(FetchError::PageTooLarge);
    }
    let ghost all = bytes@;
    let ghost p = |b: u8| b == 10;
    let mut ends: usize = 0;
    let mut run: usize = 0;
    let mut long = false;
    assert(all.take(0).filter(p).len() == 0) by {
        reveal(Seq::filter);
    }
    for i in 0..bytes.len()
        invariant
            all == bytes@,
            p == (|b: u8| b == 10),
            ends == all.take(i as int).filter(p).len(),
            ends <= i,
            run <= i,
            run <= MAX_LINE_BYTES + 1,
            run <= MAX_LINE_BYTES ==> (run == i || all[i - run - 1] == 10),
            forall|j: int| i - run <= j < i ==> all[j] != 10,
            run > MAX_LINE_BYTES ==> long,
            long ==> exists|k: int| long_line_at(all, k),
            !long ==> forall|k: int| k + MAX_LINE_BYTES < i ==> !#[trigger] long_line_at(all, k),
    {
        proof {
            reveal(Seq::filter);
            assert(all.take(i + 1).drop_last() =~= all.take(i as int));
            assert(all.take(i + 1).last() == all[i as int]);
        }
        if bytes[i] == 10 {
            ends = ends + 1;
            run = 0;
            assert forall|k: int| k + MAX_LINE_BYTES < i + 1 implies !#[trigger] long_line_at(
                all,
                k,
            ) || long by {
                if k + MAX_LINE_BYTES == i {
                    assert(all[i as int] == 10);
                }
            }
        } else if run <= MAX_LINE_BYTES {
            run = run + 1;
            if run > MAX_LINE_BYTES {
                assert(long_line_at(all, i - MAX_LINE_BYTES));
                long = true;
            }
            assert forall|k: int| k + MAX_LINE_BYTES < i + 1 implies !#[trigger] long_line_at(
                all,
                k,
            ) || long by {
                if k + MAX_LINE_BYTES == i && !long && k >= 0 {
                    assert(all[i + 1 - run - 1] == 10);
                }
            }
        }
    }
    assert(all.take(all.len() as int) =~= all);
    if ends >= MAX_PAGE_LINES {
        return Err(FetchError::TooManyLines);
    }
    if long {
        return Err(FetchError::LineTooLong);
    }
    Ok(())
}

/// A page that a node sent, and whether it is to be put into the cache: the
/// answer to a form is not. A page that is too long, or has too many lines or too
/// long ones, is refused before it is read.
pub fn page_from_node(url: &NomadUrl, bytes: &[u8], fields: &TextMap<String>) -> (r: Result<
    (BrowserPage, bool),
    FetchError,
>)
    ensures
        r is Ok == (page_size_fault(bytes@).is_none() && page_result(
            url_canonical(url@),
            bytes@,
            false,
        ).is_some()),
        r is Ok ==> r->Ok_0.0@ == page_result(url_canonical(url@), bytes@, false).unwrap()
            && r->Ok_0.1 == (fields.list().len() == 0),
        r is Err ==> r->Err_0 == match page_size_fault(bytes@) {
            Some(fault) => fault,
            None => FetchError::Page(BrowserError::InvalidEncoding),
        },
{
    if let Err(error) = check_page_size(bytes) {
        return Err(error);
    }
    match parse_page(url.canonical(), bytes, false) {
        Ok(page) => Ok((page, fields.len() == 0)),
        Err(error) => Err(FetchError::Page(error)),
    }
}

/// What stands behind the last slash of a path.
pub open spec fn last_segment(path: Seq<char>) -> Seq<char>
    decreases path.len(),
{
    if path.len() == 0 || path.last() == '/' {
        Seq::empty()
    } else {
        last_segment(path.drop_last()).push(path.last())
    }
}

proof fn lemma_last_segment(path: Seq<char>, n: int)
    requires
        0 <= n <= path.len(),
        n > 0 ==> path[n - 1] == '/',
        forall|i: int| n <= i < path.len() ==> path[i] != '/',
    ensures
        last_segment(path) == path.skip(n),
    decreases path.len(),
{
    if n == path.len() {
        assert(path.skip(n) =~= Seq::empty());
    } else {
        lemma_last_segment(path.drop_last(), n);
        assert(path.drop_last().skip(n).push(path.last()) =~= path.skip(n));
    }
}

fn segment_of(path: &str) -> (r: String)
    ensures
        r@ == last_segment(path@),
{
    let all = chars_of(path);
    let mut start: usize = all.len();
    while start > 0 && all[start - 1] != '/'
        invariant
            start <= all@.len(),
            forall|i: int| start <= i < all@.len() ==> all@[i] != '/',
        decreases start,
    {
        start = start - 1;
    }
    proof {
        lemma_last_segment(all@, start as int);
    }
    let tail = slice_subrange(&all, start, all.len());
    assert(tail@ =~= all@.skip(start as int));
    string_of(tail)
}

/// The name of a downloaded file: the one in its metadata, or the last part of
/// its path, made safe.
pub open spec fn download_name(metadata: Option<Seq<char>>, path: Seq<char>) -> Seq<char> {
    stored_name(
        match metadata {
            Some(name) => name,
            None => last_segment(path),
        },
    )
}

/// Checks that an address is one of a file before it is asked for.
pub fn check_file_url(url: &NomadUrl) -> (r: Result<(), FetchError>)
    ensures
        r is Ok == is_file_path(url.path@),
        r is Err ==> r->Err_0 == FetchError::NotFile,
{
    if url.is_file() {
        Ok(())
    } else {
        Err(FetchError::NotFile)
    }
}

/// A file that a node sent, with the name in its metadata.
pub fn downloaded_file(url: &NomadUrl, bytes: Vec<u8>, metadata: &Option<String>) -> (r: Result<
    DownloadedFile,
    FetchError,
>)
    ensures
        r is Ok == (is_file_path(url.path@) && bytes@.len() <= MAX_DOWNLOAD_BYTES),
        r is Ok ==> r->Ok_0.bytes == bytes && r->Ok_0.content_type@ == content_type(
            r->Ok_0.filename@,
        ) && r->Ok_0.filename@ == download_name(text_view(*metadata), url.path@),
        r is Err ==> r->Err_0 == if is_file_path(url.path@) {
            FetchError::TooLarge
        } else {
            FetchError::NotFile
        },
{
    if !url.is_file() {
        return Err(FetchError::NotFile);
    }
    if bytes.len() > MAX_DOWNLOAD_BYTES {
        return Err(FetchError::TooLarge);
    }
    let filename = match metadata {
        Some(name) => safe_name(name.as_str()),
        None => {
            let segment = segment_of(url.path.as_str());
            safe_name(segment.as_str())
        },
    };
    let content_type = download_content_type(filename.as_str());
    Ok(DownloadedFile { filename, content_type, bytes })
}

/// A file that a node sent, with its metadata as it came.
pub fn fetch_file(url: &NomadUrl, bytes: Vec<u8>, metadata: &Option<Vec<u8>>) -> (r: Result<
    DownloadedFile,
    FetchError,
>)
    ensures
        r is Ok == (is_file_path(url.path@) && bytes@.len() <= MAX_DOWNLOAD_BYTES),
        r is Ok ==> r->Ok_0.bytes == bytes && r->Ok_0.filename@ == download_name(
            match *metadata {
                Some(data) => metadata_name(msgpack_read(data@)),
                None => None,
            },
            url.path@,
        ) && r->Ok_0.content_type@ == content_type(r->Ok_0.filename@),
        r is Err ==> r->Err_0 == if is_file_path(url.path@) {
            FetchError::TooLarge
        } else {
            FetchError::NotFile
        },
{
    let name = match metadata {
        Some(data) => filename_from_resource_metadata(data),
        None => None,
    };
    downloaded_file(url, bytes, &name)
}

/// The name of a downloaded file is a safe one, whatever the node says.
pub proof fn law_downloads_have_safe_names(metadata: Option<Seq<char>>, path: Seq<char>)
    ensures
        crate::attachments::safe_stored_name(download_name(metadata, path)),
{
    crate::attachments::law_stored_name_is_safe(
        match metadata {
            Some(name) => name,
            None => last_segment(path),
        },
    );
}

/// What a node reads of a form is what was entered, key by key.
pub proof fn law_form_fields_reach_the_node(fields: Fields, i: int)
    requires
        form_fault(fields).is_none(),
        0 <= i < fields.len(),
    ensures
        form_value(fields) is Table,
        form_value(fields)->Table_0.len() == fields.len(),
        form_value(fields)->Table_0[i] == (
            MsgModel::Text(fields[i].0),
            MsgModel::Text(fields[i].1@),
        ),
{
}

} // verus!
