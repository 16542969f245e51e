//! The content types of files, by the endings of their names.
use vstd::prelude::*;
use vstd::slice::*;

use crate::text::{chars_of, lower, lower_of, same_text, string_of};

verus! {

/// What stands behind the last dot of a name.
pub open spec fn extension(name: Seq<char>) -> Option<Seq<char>>
    decreases name.len(),
{
    if name.len() == 0 {
        None
    } else if name.last() == '.' {
        Some(Seq::empty())
    } else {
        match extension(name.drop_last()) {
            Some(rest) => Some(rest.push(name.last())),
            None => None,
        }
    }
}

/// The content type of files whose names end in `.` and `e`, in lower case.
pub open spec fn type_of_extension(e: Seq<char>) -> Seq<char> {
    if e == "txt"@ || e == "log"@ || e == "mu"@ {
        "text/plain"@
    } else if e == "md"@ {
        "text/markdown"@
    } else if e == "csv"@ {
        "text/csv"@
    } else if e == "html"@ || e == "htm"@ {
        "text/html"@
    } else if e == "css"@ {
        "text/css"@
    } else if e == "js"@ {
        "text/javascript"@
    } else if e == "json"@ {
        "application/json"@
    } else if e == "xml"@ {
        "application/xml"@
    } else if e == "png"@ {
        "image/png"@
    } else if e == "jpg"@ || e == "jpeg"@ {
        "image/jpeg"@
    } else if e == "gif"@ {
        "image/gif"@
    } else if e == "webp"@ {
        "image/webp"@
    } else if e == "svg"@ {
        "image/svg+xml"@
    } else if e == "pdf"@ {
        "application/pdf"@
    } else if e == "zip"@ {
        "application/zip"@
    } else if e == "gz"@ {
        "application/gzip"@
    } else if e == "tar"@ {
        "application/x-tar"@
    } else if e == "mp3"@ {
        "audio/mpeg"@
    } else if e == "ogg"@ {
        "audio/ogg"@
    } else if e == "wav"@ {
        "audio/wav"@
    } else if e == "mp4"@ {
        "video/mp4"@
    } else if e == "webm"@ {
        "video/webm"@
    } else {
        "application/octet-stream"@
    }
}

/// The content type of a file by its name; letters count the same in both cases.
/// Of a name without a known ending nothing is said but that it holds bytes.
pub open spec fn content_type(name: Seq<char>) -> Seq<char> {
    match extension(name) {
        Some(e) => type_of_extension(lower(e)),
        None => "application/octet-stream"@,
    }
}

proof fn lemma_extension(name: Seq<char>, n: int)
    requires
        0 <= n <= name.len(),
        n > 0 ==> name[n - 1] == '.',
        forall|i: int| n <= i < name.len() ==> name[i] != '.',
    ensures
        n > 0 ==> extension(name) == Some(name.skip(n)),
        n == 0 ==> extension(name).is_none(),
    decreases name.len(),
{
    if n == name.len() {
        if n > 0 {
            assert(name.skip(n) =~= Seq::empty());
        }
    } else {
        lemma_extension(name.drop_last(), n);
        assert(name.drop_last().skip(n).push(name.last()) =~= name.skip(n));
    }
}

fn known_type(e: &str) -> (r: String)
    ensures
        r@ == type_of_extension(e@),
{
    let known = if same_text(e, "txt") || same_text(e, "log") || same_text(e, "mu") {
        "text/plain"
    } else if same_text(e, "md") {
        "text/markdown"
    } else if same_text(e, "csv") {
        "text/csv"
    } else if same_text(e, "html") || same_text(e, "htm") {
        "text/html"
    } else if same_text(e, "css") {
        "text/css"
    } else if same_text(e, "js") {
        "text/javascript"
    } else if same_text(e, "json") {
        "application/json"
    } else if same_text(e, "xml") {
        "application/xml"
    } else if same_text(e, "png") {
        "image/png"
    } else if same_text(e, "jpg") || same_text(e, "jpeg") {
        "image/jpeg"
    } else if same_text(e, "gif") {
        "image/gif"
    } else if same_text(e, "webp") {
        "image/webp"
    } else if same_text(e, "svg") {
        "image/svg+xml"
    } else if same_text(e, "pdf") {
        "application/pdf"
    } else if same_text(e, "zip") {
        "application/zip"
    } else if same_text(e, "gz") {
        "application/gzip"
    } else if same_text(e, "tar") {
        "application/x-tar"
    } else if same_text(e, "mp3") {
        "audio/mpeg"
    } else if same_text(e, "ogg") {
        "audio/ogg"
    } else if same_text(e, "wav") {
        "audio/wav"
    } else if same_text(e, "mp4") {
        "video/mp4"
    } else if same_text(e, "webm") {
        "video/webm"
    } else {
        "application/octet-stream"
    };
    known.to_string()
}

pub fn download_content_type(name: &str) -> (r: String)
    ensures
        r@ == content_type(name@),
{
    let all = chars_of(name);
    let mut start: usize = all.len();
    while start > 0 && all[start - 1] != '.'
        invariant
            start <= all@.len(),
            forall|i: int| start <= i < all@.len() ==> all@[i] != '.',
        decreases start,
    {
        start = start - 1;
    }
    proof {
        lemma_extension(all@, start as int);
    }
    if start == 0 {
        return "application/octet-stream".to_string();
    }
    let tail = slice_subrange(&all, start, all.len());
    assert(tail@ =~= all@.skip(start as int));
    let small = lower_of(tail);
    known_type(string_of(&small).as_str())
}

} // verus!
