//! Laws of the addresses of pages and files.
use vstd::prelude::*;
use vstd::utf8::{encode_utf8, is_ascii_chars_encode_utf8};

use crate::browser::{
    is_file_path, is_page_path, url_canonical, url_parse, BrowserError, UrlModel,
};
use crate::hexadecimal::{hex_text, law_hex_text_is_read_back};
use crate::laws::words::{is_blank, law_trim_drops_white_space};
use crate::service::{fetch_fault, ErrorModel};
use crate::text::{
    is_hex_char, is_white_space, law_trim_keeps_trimmed, lemma_find_char_at, starts_with,
};

verus! {

/// Whether a path can be asked for: that of a page or a file, not too long, and
/// without a zero in it or white space at its end.
pub open spec fn is_path(path: Seq<char>) -> bool {
    &&& path.len() >= 6
    &&& path.take(6) == seq!['/', 'p', 'a', 'g', 'e', '/'] || path.take(6) == seq![
        '/',
        'f',
        'i',
        'l',
        'e',
        '/',
    ]
    &&& !path.contains('\0')
    &&& encode_utf8(path).len() <= 2048
    &&& !is_white_space(path.last())
}

/// The words that may stand before an address.
pub open spec fn scheme() -> Seq<char> {
    seq!['n', 'o', 'm', 'a', 'd', 'n', 'e', 't', 'w', 'o', 'r', 'k', ':', '/', '/']
}

proof fn lemma_literals()
    ensures
        "nomadnetwork://"@ == scheme(),
        "/page/"@ == seq!['/', 'p', 'a', 'g', 'e', '/'],
        "/file/"@ == seq!['/', 'f', 'i', 'l', 'e', '/'],
{
    reveal_strlit("nomadnetwork://");
    reveal_strlit("/page/");
    reveal_strlit("/file/");
    assert("nomadnetwork://"@ =~= scheme());
    assert("/page/"@ =~= seq!['/', 'p', 'a', 'g', 'e', '/']);
    assert("/file/"@ =~= seq!['/', 'f', 'i', 'l', 'e', '/']);
}

/// An address as it is written: a node in hexadecimal, a colon and a path.
pub open spec fn written(node: Seq<u8>, path: Seq<char>) -> Seq<char> {
    hex_text(node) + seq![':'] + path
}

proof fn lemma_body(node: Seq<u8>, path: Seq<char>)
    requires
        node.len() == 16,
    ensures
        ({
            let s = written(node, path);
            &&& crate::text::find_char(s, ':') == 32
            &&& s.take(32) == hex_text(node)
            &&& s.skip(33) == path
            &&& s.len() == 33 + path.len()
            &&& is_hex_char(s[0])
        }),
        crate::text::find_char(hex_text(node), ':') == 32,
        hex_text(node).len() == 32,
        is_hex_char(hex_text(node)[0]),
        is_hex_char(hex_text(node).last()),
{
    let s = written(node, path);
    let hash = hex_text(node);
    law_hex_text_is_read_back(node);
    assert forall|i: int| 0 <= i < 32 implies s[i] != ':' && hash[i] != ':' by {
        assert(s[i] == hash[i]);
        assert(is_hex_char(hash[i]));
    }
    assert(s[32] == ':');
    lemma_find_char_at(s, ':', 32);
    lemma_find_char_at(hash, ':', 32);
    assert(s.take(32) =~= hash);
    assert(s.skip(33) =~= path);
    assert(is_hex_char(hash[0]) && is_hex_char(hash[31]));
    assert(s[0] == hash[0]);
}

/// The address of a page or a file leads to that node and that path, with or without
/// the scheme before it.
pub proof fn law_addresses_lead_where_they_say(node: Seq<u8>, path: Seq<char>)
    requires
        node.len() == 16,
        is_path(path),
    ensures
        url_parse(written(node, path)) == Ok::<UrlModel, BrowserError>(
            UrlModel { destination_hash: node, path },
        ),
        url_parse(scheme() + written(node, path)) == Ok::<UrlModel, BrowserError>(
            UrlModel { destination_hash: node, path },
        ),
        url_canonical(UrlModel { destination_hash: node, path }) == written(node, path),
{
    let s = written(node, path);
    lemma_literals();
    lemma_body(node, path);
    law_hex_text_is_read_back(node);
    assert(s.last() == path.last());
    law_trim_keeps_trimmed(s);
    lemma_no_scheme(s);
    let full = scheme() + s;
    assert(full[0] == 'n' && full.last() == s.last());
    law_trim_keeps_trimmed(full);
    assert(full.take(15) =~= scheme());
    assert(full.skip(15) =~= s);
}

proof fn lemma_no_scheme(s: Seq<char>)
    requires
        s.len() > 0,
        is_hex_char(s[0]),
    ensures
        !starts_with(s, "nomadnetwork://"@),
{
    lemma_literals();
    if s.len() >= 15 {
        assert(s.take(15)[0] == s[0]);
    }
}

/// A node alone, or with a colon behind it, leads to its first page.
pub proof fn law_nodes_lead_to_their_first_page(node: Seq<u8>)
    requires
        node.len() == 16,
    ensures
        url_parse(hex_text(node)) == Ok::<UrlModel, BrowserError>(
            UrlModel { destination_hash: node, path: "/page/index.mu"@ },
        ),
        url_parse(hex_text(node) + seq![':']) == Ok::<UrlModel, BrowserError>(
            UrlModel { destination_hash: node, path: "/page/index.mu"@ },
        ),
{
    let s = hex_text(node);
    lemma_literals();
    lemma_body(node, Seq::empty());
    law_hex_text_is_read_back(node);
    law_trim_keeps_trimmed(s);
    lemma_no_scheme(s);
    assert(s.take(32) =~= s);
    let colon = s + seq![':'];
    assert(colon =~= written(node, Seq::empty()));
    assert(colon.last() == ':');
    law_trim_keeps_trimmed(colon);
    lemma_no_scheme(colon);
}

/// A path that is neither that of a page nor of a file is refused as such.
pub proof fn law_other_paths_are_refused(node: Seq<u8>, path: Seq<char>)
    requires
        node.len() == 16,
        path.len() > 0,
        !is_white_space(path.last()),
        path.len() < 6 || (path.take(6) != seq!['/', 'p', 'a', 'g', 'e', '/'] && path.take(6)
            != seq!['/', 'f', 'i', 'l', 'e', '/']),
    ensures
        url_parse(written(node, path)) == Err::<UrlModel, BrowserError>(
            BrowserError::UnsupportedPath,
        ),
{
    let s = written(node, path);
    lemma_literals();
    lemma_body(node, path);
    law_hex_text_is_read_back(node);
    assert(s.last() == path.last());
    law_trim_keeps_trimmed(s);
    lemma_no_scheme(s);
}

/// A path that is too long or holds a zero is no address.
pub proof fn law_bad_paths_are_no_addresses(node: Seq<u8>, path: Seq<char>)
    requires
        node.len() == 16,
        path.len() >= 6,
        !is_white_space(path.last()),
        path.take(6) == seq!['/', 'p', 'a', 'g', 'e', '/'],
        path.contains('\0') || encode_utf8(path).len() > 2048,
    ensures
        url_parse(written(node, path)) == Err::<UrlModel, BrowserError>(
            BrowserError::InvalidUrl,
        ),
{
    let s = written(node, path);
    lemma_literals();
    lemma_body(node, path);
    law_hex_text_is_read_back(node);
    assert(s.last() == path.last());
    law_trim_keeps_trimmed(s);
    lemma_no_scheme(s);
}

/// What names no node is no address: one of 16 bytes stands before the colon in
/// every address.
pub proof fn law_addresses_name_a_node(value: Seq<char>)
    requires
        url_parse(value) is Ok,
    ensures
        url_parse(value)->Ok_0.destination_hash.len() == 16,
        is_page_path(url_parse(value)->Ok_0.path) || is_file_path(url_parse(value)->Ok_0.path),
        encode_utf8(url_parse(value)->Ok_0.path).len() <= 2048,
{
    lemma_literals();
    reveal_strlit("/page/index.mu");
    assert("/page/index.mu"@.take(6) =~= "/page/"@);
    is_ascii_chars_encode_utf8("/page/index.mu"@);
}

/// White space around an address does not matter.
pub proof fn law_addresses_are_trimmed(a: Seq<char>, node: Seq<u8>, path: Seq<char>, b: Seq<char>)
    requires
        is_blank(a),
        is_blank(b),
        node.len() == 16,
        is_path(path),
    ensures
        url_parse(a + written(node, path) + b) == url_parse(written(node, path)),
{
    let s = written(node, path);
    lemma_body(node, path);
    assert(s.last() == path.last());
    law_trim_drops_white_space(a, s, b);
    law_trim_keeps_trimmed(s);
}

/// A page is fetched where the network is there; a file is not fetched as a page,
/// and without a network nothing is.
pub proof fn law_pages_are_fetched_online(node: Seq<u8>, path: Seq<char>)
    requires
        node.len() == 16,
        is_path(path),
    ensures
        path[1] == 'p' ==> fetch_fault(written(node, path), true).is_none(),
        path[1] == 'p' ==> fetch_fault(written(node, path), false) matches Some(
            ErrorModel::Unavailable(_),
        ),
        path[1] == 'f' ==> fetch_fault(written(node, path), true) matches Some(
            ErrorModel::Invalid(_),
        ),
{
    law_addresses_lead_where_they_say(node, path);
    lemma_literals();
    assert(path.take(6)[1] == path[1]);
}

} // verus!
