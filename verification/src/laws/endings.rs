//! What the endings of file names stand for.
use vstd::prelude::*;

use crate::laws::files::lemma_extension_of;
use crate::mime::{content_type, type_of_extension};
use crate::text::lower;

verus! {

proof fn lemma_ending(stem: Seq<char>, e: Seq<char>)
    requires
        forall|i: int| 0 <= i < e.len() ==> ('a' <= #[trigger] e[i] <= 'z' || '0' <= e[i] <= '9'),
    ensures
        content_type(stem + seq!['.'] + e) == type_of_extension(e),
{
    assert(!e.contains('.')) by {
        if e.contains('.') {
            assert('a' <= e[e.index_of('.')] <= 'z' || '0' <= e[e.index_of('.')] <= '9');
        }
    }
    lemma_extension_of(stem, e);
    assert(lower(e) =~= e);
}

proof fn lemma_endings()
    ensures
        "txt"@ == seq!['t', 'x', 't'],
        "log"@ == seq!['l', 'o', 'g'],
        "mu"@ == seq!['m', 'u'],
        "md"@ == seq!['m', 'd'],
        "csv"@ == seq!['c', 's', 'v'],
        "html"@ == seq!['h', 't', 'm', 'l'],
        "htm"@ == seq!['h', 't', 'm'],
        "css"@ == seq!['c', 's', 's'],
        "js"@ == seq!['j', 's'],
        "json"@ == seq!['j', 's', 'o', 'n'],
        "xml"@ == seq!['x', 'm', 'l'],
        "png"@ == seq!['p', 'n', 'g'],
        "jpg"@ == seq!['j', 'p', 'g'],
        "jpeg"@ == seq!['j', 'p', 'e', 'g'],
        "gif"@ == seq!['g', 'i', 'f'],
        "webp"@ == seq!['w', 'e', 'b', 'p'],
        "svg"@ == seq!['s', 'v', 'g'],
        "pdf"@ == seq!['p', 'd', 'f'],
        "zip"@ == seq!['z', 'i', 'p'],
        "gz"@ == seq!['g', 'z'],
        "tar"@ == seq!['t', 'a', 'r'],
        "mp3"@ == seq!['m', 'p', '3'],
        "ogg"@ == seq!['o', 'g', 'g'],
        "wav"@ == seq!['w', 'a', 'v'],
        "mp4"@ == seq!['m', 'p', '4'],
        "webm"@ == seq!['w', 'e', 'b', 'm'],
{
    reveal_strlit("txt");
    reveal_strlit("log");
    reveal_strlit("mu");
    reveal_strlit("md");
    reveal_strlit("csv");
    reveal_strlit("html");
    reveal_strlit("htm");
    reveal_strlit("css");
    reveal_strlit("js");
    reveal_strlit("json");
    reveal_strlit("xml");
    reveal_strlit("png");
    reveal_strlit("jpg");
    reveal_strlit("jpeg");
    reveal_strlit("gif");
    reveal_strlit("webp");
    reveal_strlit("svg");
    reveal_strlit("pdf");
    reveal_strlit("zip");
    reveal_strlit("gz");
    reveal_strlit("tar");
    reveal_strlit("mp3");
    reveal_strlit("ogg");
    reveal_strlit("wav");
    reveal_strlit("mp4");
    reveal_strlit("webm");
    assert("txt"@ =~= seq!['t', 'x', 't']);
    assert("log"@ =~= seq!['l', 'o', 'g']);
    assert("mu"@ =~= seq!['m', 'u']);
    assert("md"@ =~= seq!['m', 'd']);
    assert("csv"@ =~= seq!['c', 's', 'v']);
    assert("html"@ =~= seq!['h', 't', 'm', 'l']);
    assert("htm"@ =~= seq!['h', 't', 'm']);
    assert("css"@ =~= seq!['c', 's', 's']);
    assert("js"@ =~= seq!['j', 's']);
    assert("json"@ =~= seq!['j', 's', 'o', 'n']);
    assert("xml"@ =~= seq!['x', 'm', 'l']);
    assert("png"@ =~= seq!['p', 'n', 'g']);
    assert("jpg"@ =~= seq!['j', 'p', 'g']);
    assert("jpeg"@ =~= seq!['j', 'p', 'e', 'g']);
    assert("gif"@ =~= seq!['g', 'i', 'f']);
    assert("webp"@ =~= seq!['w', 'e', 'b', 'p']);
    assert("svg"@ =~= seq!['s', 'v', 'g']);
    assert("pdf"@ =~= seq!['p', 'd', 'f']);
    assert("zip"@ =~= seq!['z', 'i', 'p']);
    assert("gz"@ =~= seq!['g', 'z']);
    assert("tar"@ =~= seq!['t', 'a', 'r']);
    assert("mp3"@ =~= seq!['m', 'p', '3']);
    assert("ogg"@ =~= seq!['o', 'g', 'g']);
    assert("wav"@ =~= seq!['w', 'a', 'v']);
    assert("mp4"@ =~= seq!['m', 'p', '4']);
    assert("webm"@ =~= seq!['w', 'e', 'b', 'm']);
}

proof fn lemma_letters()
    ensures
        "txt"@.len() == 3 && "txt"@[0] == 't' && "txt"@[1] == 'x' && "txt"@[2] == 't',
        "log"@.len() == 3 && "log"@[0] == 'l' && "log"@[1] == 'o' && "log"@[2] == 'g',
        "mu"@.len() == 2 && "mu"@[0] == 'm' && "mu"@[1] == 'u',
        "md"@.len() == 2 && "md"@[0] == 'm' && "md"@[1] == 'd',
        "csv"@.len() == 3 && "csv"@[0] == 'c' && "csv"@[1] == 's' && "csv"@[2] == 'v',
        "html"@.len() == 4 && "html"@[0] == 'h' && "html"@[1] == 't' && "html"@[2] == 'm' && "html"@[3] == 'l',
        "htm"@.len() == 3 && "htm"@[0] == 'h' && "htm"@[1] == 't' && "htm"@[2] == 'm',
        "css"@.len() == 3 && "css"@[0] == 'c' && "css"@[1] == 's' && "css"@[2] == 's',
        "js"@.len() == 2 && "js"@[0] == 'j' && "js"@[1] == 's',
        "json"@.len() == 4 && "json"@[0] == 'j' && "json"@[1] == 's' && "json"@[2] == 'o' && "json"@[3] == 'n',
        "xml"@.len() == 3 && "xml"@[0] == 'x' && "xml"@[1] == 'm' && "xml"@[2] == 'l',
        "png"@.len() == 3 && "png"@[0] == 'p' && "png"@[1] == 'n' && "png"@[2] == 'g',
        "jpg"@.len() == 3 && "jpg"@[0] == 'j' && "jpg"@[1] == 'p' && "jpg"@[2] == 'g',
        "jpeg"@.len() == 4 && "jpeg"@[0] == 'j' && "jpeg"@[1] == 'p' && "jpeg"@[2] == 'e' && "jpeg"@[3] == 'g',
        "gif"@.len() == 3 && "gif"@[0] == 'g' && "gif"@[1] == 'i' && "gif"@[2] == 'f',
        "webp"@.len() == 4 && "webp"@[0] == 'w' && "webp"@[1] == 'e' && "webp"@[2] == 'b' && "webp"@[3] == 'p',
        "svg"@.len() == 3 && "svg"@[0] == 's' && "svg"@[1] == 'v' && "svg"@[2] == 'g',
        "pdf"@.len() == 3 && "pdf"@[0] == 'p' && "pdf"@[1] == 'd' && "pdf"@[2] == 'f',
        "zip"@.len() == 3 && "zip"@[0] == 'z' && "zip"@[1] == 'i' && "zip"@[2] == 'p',
        "gz"@.len() == 2 && "gz"@[0] == 'g' && "gz"@[1] == 'z',
        "tar"@.len() == 3 && "tar"@[0] == 't' && "tar"@[1] == 'a' && "tar"@[2] == 'r',
        "mp3"@.len() == 3 && "mp3"@[0] == 'm' && "mp3"@[1] == 'p' && "mp3"@[2] == '3',
        "ogg"@.len() == 3 && "ogg"@[0] == 'o' && "ogg"@[1] == 'g' && "ogg"@[2] == 'g',
        "wav"@.len() == 3 && "wav"@[0] == 'w' && "wav"@[1] == 'a' && "wav"@[2] == 'v',
        "mp4"@.len() == 3 && "mp4"@[0] == 'm' && "mp4"@[1] == 'p' && "mp4"@[2] == '4',
        "webm"@.len() == 4 && "webm"@[0] == 'w' && "webm"@[1] == 'e' && "webm"@[2] == 'b' && "webm"@[3] == 'm',
{
    lemma_endings();
}

/// The endings of texts.
#[verifier::rlimit(50)]
pub proof fn law_texts_are_known(stem: Seq<char>)
    ensures
        content_type(stem + seq!['.', 't', 'x', 't']) == "text/plain"@,
        content_type(stem + seq!['.', 'l', 'o', 'g']) == "text/plain"@,
        content_type(stem + seq!['.', 'm', 'u']) == "text/plain"@,
        content_type(stem + seq!['.', 'm', 'd']) == "text/markdown"@,
        content_type(stem + seq!['.', 'c', 's', 'v']) == "text/csv"@,
        content_type(stem + seq!['.', 'h', 't', 'm', 'l']) == "text/html"@,
        content_type(stem + seq!['.', 'h', 't', 'm']) == "text/html"@,
        content_type(stem + seq!['.', 'c', 's', 's']) == "text/css"@,
        content_type(stem + seq!['.', 'j', 's']) == "text/javascript"@,
{
    lemma_endings();
    lemma_letters();
    lemma_ending(stem, "txt"@);
    assert(stem + seq!['.'] + "txt"@ =~= stem + seq!['.', 't', 'x', 't']);
    lemma_ending(stem, "log"@);
    assert(stem + seq!['.'] + "log"@ =~= stem + seq!['.', 'l', 'o', 'g']);
    lemma_ending(stem, "mu"@);
    assert(stem + seq!['.'] + "mu"@ =~= stem + seq!['.', 'm', 'u']);
    lemma_ending(stem, "md"@);
    assert(stem + seq!['.'] + "md"@ =~= stem + seq!['.', 'm', 'd']);
    lemma_ending(stem, "csv"@);
    assert(stem + seq!['.'] + "csv"@ =~= stem + seq!['.', 'c', 's', 'v']);
    lemma_ending(stem, "html"@);
    assert(stem + seq!['.'] + "html"@ =~= stem + seq!['.', 'h', 't', 'm', 'l']);
    lemma_ending(stem, "htm"@);
    assert(stem + seq!['.'] + "htm"@ =~= stem + seq!['.', 'h', 't', 'm']);
    lemma_ending(stem, "css"@);
    assert(stem + seq!['.'] + "css"@ =~= stem + seq!['.', 'c', 's', 's']);
    lemma_ending(stem, "js"@);
    assert(stem + seq!['.'] + "js"@ =~= stem + seq!['.', 'j', 's']);
}

/// The endings of images.
#[verifier::rlimit(50)]
pub proof fn law_images_are_known(stem: Seq<char>)
    ensures
        content_type(stem + seq!['.', 'p', 'n', 'g']) == "image/png"@,
        content_type(stem + seq!['.', 'j', 'p', 'g']) == "image/jpeg"@,
        content_type(stem + seq!['.', 'j', 'p', 'e', 'g']) == "image/jpeg"@,
        content_type(stem + seq!['.', 'g', 'i', 'f']) == "image/gif"@,
        content_type(stem + seq!['.', 'w', 'e', 'b', 'p']) == "image/webp"@,
        content_type(stem + seq!['.', 's', 'v', 'g']) == "image/svg+xml"@,
{
    lemma_endings();
    lemma_letters();
    lemma_ending(stem, "png"@);
    assert(stem + seq!['.'] + "png"@ =~= stem + seq!['.', 'p', 'n', 'g']);
    lemma_ending(stem, "jpg"@);
    assert(stem + seq!['.'] + "jpg"@ =~= stem + seq!['.', 'j', 'p', 'g']);
    lemma_ending(stem, "jpeg"@);
    assert(stem + seq!['.'] + "jpeg"@ =~= stem + seq!['.', 'j', 'p', 'e', 'g']);
    lemma_ending(stem, "gif"@);
    assert(stem + seq!['.'] + "gif"@ =~= stem + seq!['.', 'g', 'i', 'f']);
    lemma_ending(stem, "webp"@);
    assert(stem + seq!['.'] + "webp"@ =~= stem + seq!['.', 'w', 'e', 'b', 'p']);
    lemma_ending(stem, "svg"@);
    assert(stem + seq!['.'] + "svg"@ =~= stem + seq!['.', 's', 'v', 'g']);
}

/// The endings of documents and archives.
#[verifier::rlimit(50)]
pub proof fn law_documents_are_known(stem: Seq<char>)
    ensures
        content_type(stem + seq!['.', 'j', 's', 'o', 'n']) == "application/json"@,
        content_type(stem + seq!['.', 'x', 'm', 'l']) == "application/xml"@,
        content_type(stem + seq!['.', 'p', 'd', 'f']) == "application/pdf"@,
        content_type(stem + seq!['.', 'z', 'i', 'p']) == "application/zip"@,
        content_type(stem + seq!['.', 'g', 'z']) == "application/gzip"@,
        content_type(stem + seq!['.', 't', 'a', 'r']) == "application/x-tar"@,
{
    lemma_endings();
    lemma_letters();
    lemma_ending(stem, "json"@);
    assert(stem + seq!['.'] + "json"@ =~= stem + seq!['.', 'j', 's', 'o', 'n']);
    lemma_ending(stem, "xml"@);
    assert(stem + seq!['.'] + "xml"@ =~= stem + seq!['.', 'x', 'm', 'l']);
    lemma_ending(stem, "pdf"@);
    assert(stem + seq!['.'] + "pdf"@ =~= stem + seq!['.', 'p', 'd', 'f']);
    lemma_ending(stem, "zip"@);
    assert(stem + seq!['.'] + "zip"@ =~= stem + seq!['.', 'z', 'i', 'p']);
    lemma_ending(stem, "gz"@);
    assert(stem + seq!['.'] + "gz"@ =~= stem + seq!['.', 'g', 'z']);
    lemma_ending(stem, "tar"@);
    assert(stem + seq!['.'] + "tar"@ =~= stem + seq!['.', 't', 'a', 'r']);
}

/// The endings of sounds and films.
#[verifier::rlimit(50)]
pub proof fn law_sounds_and_films_are_known(stem: Seq<char>)
    ensures
        content_type(stem + seq!['.', 'm', 'p', '3']) == "audio/mpeg"@,
        content_type(stem + seq!['.', 'o', 'g', 'g']) == "audio/ogg"@,
        content_type(stem + seq!['.', 'w', 'a', 'v']) == "audio/wav"@,
        content_type(stem + seq!['.', 'm', 'p', '4']) == "video/mp4"@,
        content_type(stem + seq!['.', 'w', 'e', 'b', 'm']) == "video/webm"@,
{
    lemma_endings();
    lemma_letters();
    lemma_ending(stem, "mp3"@);
    assert(stem + seq!['.'] + "mp3"@ =~= stem + seq!['.', 'm', 'p', '3']);
    lemma_ending(stem, "ogg"@);
    assert(stem + seq!['.'] + "ogg"@ =~= stem + seq!['.', 'o', 'g', 'g']);
    lemma_ending(stem, "wav"@);
    assert(stem + seq!['.'] + "wav"@ =~= stem + seq!['.', 'w', 'a', 'v']);
    lemma_ending(stem, "mp4"@);
    assert(stem + seq!['.'] + "mp4"@ =~= stem + seq!['.', 'm', 'p', '4']);
    lemma_ending(stem, "webm"@);
    assert(stem + seq!['.'] + "webm"@ =~= stem + seq!['.', 'w', 'e', 'b', 'm']);
}

} // verus!
