//! NomadNet addresses and the Micron page markup.
use vstd::prelude::*;
use vstd::slice::*;
use vstd::string::*;
use vstd::utf8::{decode_utf8, encode_utf8, is_ascii_chars_encode_utf8, valid_utf8};

use crate::hexadecimal::{
    decode_hex, encode_hex, hex_bytes, hex_text, is_hash_text, is_hex_text,
    law_hex_text_is_read_back,
};
use crate::text::{
    alphanumeric_char, byte_len, chars_of, digit_char, find_char, find_in, has_char, hex_char,
    is_alphanumeric_char, is_digit_char, is_hex_char, law_trim_keeps_trimmed, lemma_find_char,
    lemma_find_char_at, lemma_trim_ends, lines, lines_of, lower, lower_char, lower_of, number_in,
    read_number, same_chars, split, split_at_mark, starts_with, string_of, strip_prefix,
    text_from_utf8, trim, trim_chars, trim_mark, trim_mark_chars, views, without_return,
};

verus! {

/// An optional text, as the characters that it holds.
pub open spec fn text_view(value: Option<String>) -> Option<Seq<char>> {
    match value {
        Some(text) => Some(text@),
        None => None,
    }
}

/// The texts of a list, as the characters that they hold.
pub open spec fn text_views(values: Seq<String>) -> Seq<Seq<char>> {
    values.map_values(|value: String| value@)
}

#[derive(Debug, Clone, Copy, PartialEq, Eq, Structural)]
pub enum Alignment {
    Left,
    Center,
    Right,
}

impl Default for Alignment {
    fn default() -> (r: Self)
        ensures
            r == Alignment::Left,
    {
        Alignment::Left
    }
}

#[derive(Debug, PartialEq, Eq)]
pub struct MicronStyle {
    pub foreground: Option<String>,
    pub background: Option<String>,
    pub bold: bool,
    pub underline: bool,
    pub italic: bool,
}

/// What a style says.
pub struct StyleModel {
    pub foreground: Option<Seq<char>>,
    pub background: Option<Seq<char>>,
    pub bold: bool,
    pub underline: bool,
    pub italic: bool,
}

impl View for MicronStyle {
    type V = StyleModel;

    open spec fn view(&self) -> StyleModel {
        StyleModel {
            foreground: text_view(self.foreground),
            background: text_view(self.background),
            bold: self.bold,
            underline: self.underline,
            italic: self.italic,
        }
    }
}

/// No colours, nothing emphasised.
pub open spec fn plain_style() -> StyleModel {
    StyleModel { foreground: None, background: None, bold: false, underline: false, italic: false }
}

pub fn clone_text(value: &Option<String>) -> (r: Option<String>)
    ensures
        r == *value,
{
    match value {
        Some(text) => Some(text.clone()),
        None => None,
    }
}

impl Clone for MicronStyle {
    fn clone(&self) -> (r: Self)
        ensures
            r == *self,
    {
        MicronStyle {
            foreground: clone_text(&self.foreground),
            background: clone_text(&self.background),
            bold: self.bold,
            underline: self.underline,
            italic: self.italic,
        }
    }
}

impl Default for MicronStyle {
    fn default() -> (r: Self)
        ensures
            r@ == plain_style(),
    {
        MicronStyle {
            foreground: None,
            background: None,
            bold: false,
            underline: false,
            italic: false,
        }
    }
}

/// One piece of a line of a page.
#[derive(Debug, Clone)]
pub enum Inline {
    Text { text: String, style: MicronStyle },
    Link { label: String, target: String, fields: Vec<String>, style: MicronStyle },
    Input { name: String, value: String, width: u16, masked: bool, style: MicronStyle },
    Checkbox { name: String, value: String, label: String, checked: bool, style: MicronStyle },
    Radio { name: String, value: String, label: String, checked: bool, style: MicronStyle },
    Anchor { name: String },
}

/// What a piece of a line says.
pub enum InlineModel {
    Text { text: Seq<char>, style: StyleModel },
    Link { label: Seq<char>, target: Seq<char>, fields: Seq<Seq<char>>, style: StyleModel },
    Input { name: Seq<char>, value: Seq<char>, width: u16, masked: bool, style: StyleModel },
    Checkbox {
        name: Seq<char>,
        value: Seq<char>,
        label: Seq<char>,
        checked: bool,
        style: StyleModel,
    },
    Radio { name: Seq<char>, value: Seq<char>, label: Seq<char>, checked: bool, style: StyleModel },
    Anchor { name: Seq<char> },
}

impl View for Inline {
    type V = InlineModel;

    open spec fn view(&self) -> InlineModel {
        match *self {
            Inline::Text { text, style } => InlineModel::Text { text: text@, style: style@ },
            Inline::Link { label, target, fields, style } => InlineModel::Link {
                label: label@,
                target: target@,
                fields: text_views(fields@),
                style: style@,
            },
            Inline::Input { name, value, width, masked, style } => InlineModel::Input {
                name: name@,
                value: value@,
                width,
                masked,
                style: style@,
            },
            Inline::Checkbox { name, value, label, checked, style } => InlineModel::Checkbox {
                name: name@,
                value: value@,
                label: label@,
                checked,
                style: style@,
            },
            Inline::Radio { name, value, label, checked, style } => InlineModel::Radio {
                name: name@,
                value: value@,
                label: label@,
                checked,
                style: style@,
            },
            Inline::Anchor { name } => InlineModel::Anchor { name: name@ },
        }
    }
}

pub open spec fn inline_views(parts: Seq<Inline>) -> Seq<InlineModel> {
    parts.map_values(|part: Inline| part@)
}

pub open spec fn row_views(cells: Seq<Vec<Inline>>) -> Seq<Seq<InlineModel>> {
    cells.map_values(|cell: Vec<Inline>| inline_views(cell@))
}

pub open spec fn table_views(rows: Seq<Vec<Vec<Inline>>>) -> Seq<Seq<Seq<InlineModel>>> {
    rows.map_values(|row: Vec<Vec<Inline>>| row_views(row@))
}

/// One block of a page.
#[derive(Debug, Clone)]
pub enum MicronBlock {
    Heading { depth: u8, alignment: Alignment, parts: Vec<Inline> },
    Paragraph { depth: u8, alignment: Alignment, parts: Vec<Inline> },
    Divider { depth: u8, character: char },
    Preformatted { text: String },
    Table { alignment: Alignment, max_width: Option<u16>, rows: Vec<Vec<Vec<Inline>>> },
    Partial { target: String, interval_seconds: u64, fields: Vec<String> },
}

/// What a block says.
pub enum BlockModel {
    Heading { depth: u8, alignment: Alignment, parts: Seq<InlineModel> },
    Paragraph { depth: u8, alignment: Alignment, parts: Seq<InlineModel> },
    Divider { depth: u8, character: char },
    Preformatted { text: Seq<char> },
    Table { alignment: Alignment, max_width: Option<u16>, rows: Seq<Seq<Seq<InlineModel>>> },
    Partial { target: Seq<char>, interval_seconds: u64, fields: Seq<Seq<char>> },
}

impl View for MicronBlock {
    type V = BlockModel;

    open spec fn view(&self) -> BlockModel {
        match *self {
            MicronBlock::Heading { depth, alignment, parts } => BlockModel::Heading {
                depth,
                alignment,
                parts: inline_views(parts@),
            },
            MicronBlock::Paragraph { depth, alignment, parts } => BlockModel::Paragraph {
                depth,
                alignment,
                parts: inline_views(parts@),
            },
            MicronBlock::Divider { depth, character } => BlockModel::Divider { depth, character },
            MicronBlock::Preformatted { text } => BlockModel::Preformatted { text: text@ },
            MicronBlock::Table { alignment, max_width, rows } => BlockModel::Table {
                alignment,
                max_width,
                rows: table_views(rows@),
            },
            MicronBlock::Partial { target, interval_seconds, fields } => BlockModel::Partial {
                target: target@,
                interval_seconds,
                fields: text_views(fields@),
            },
        }
    }
}

pub open spec fn block_views(blocks: Seq<MicronBlock>) -> Seq<BlockModel> {
    blocks.map_values(|block: MicronBlock| block@)
}

/// A parsed page.
#[derive(Debug, Clone)]
pub struct BrowserPage {
    pub url: String,
    pub title: Option<String>,
    pub foreground: Option<String>,
    pub background: Option<String>,
    pub cache_seconds: u64,
    pub from_cache: bool,
    pub blocks: Vec<MicronBlock>,
}

pub struct DownloadedFile {
    pub filename: String,
    pub content_type: String,
    pub bytes: Vec<u8>,
}

#[derive(Debug, Clone, Copy, PartialEq, Eq, Structural)]
pub enum BrowserError {
    InvalidUrl,
    UnsupportedPath,
    InvalidEncoding,
}

impl BrowserError {
    /// The sentence shown for the error.
    pub fn message(&self) -> (r: String)
        ensures
            r@ == match *self {
                BrowserError::InvalidUrl => "invalid NomadNet URL"@,
                BrowserError::UnsupportedPath => "only /page/ and /file/ paths are supported"@,
                BrowserError::InvalidEncoding => "page is not valid UTF-8"@,
            },
    {
        match self {
            BrowserError::InvalidUrl => "invalid NomadNet URL".to_string(),
            BrowserError::UnsupportedPath => {
                "only /page/ and /file/ paths are supported".to_string()
            },
            BrowserError::InvalidEncoding => "page is not valid UTF-8".to_string(),
        }
    }
}

/// The address of a page or a file on a node.
#[derive(Debug, Clone, PartialEq, Eq)]
pub struct NomadUrl {
    pub destination_hash: [u8; 16],
    pub path: String,
}

/// What an address says.
pub struct UrlModel {
    pub destination_hash: Seq<u8>,
    pub path: Seq<char>,
}

impl View for NomadUrl {
    type V = UrlModel;

    open spec fn view(&self) -> UrlModel {
        UrlModel { destination_hash: self.destination_hash@, path: self.path@ }
    }
}

pub open spec fn is_page_path(path: Seq<char>) -> bool {
    starts_with(path, "/page/"@)
}

pub open spec fn is_file_path(path: Seq<char>) -> bool {
    starts_with(path, "/file/"@)
}

/// The text of an address without surrounding space and without a scheme.
pub open spec fn url_body(value: Seq<char>) -> Seq<char> {
    if starts_with(trim(value), "nomadnetwork://"@) {
        trim(value).skip("nomadnetwork://"@.len() as int)
    } else {
        trim(value)
    }
}

/// Reads `hash:path`, or a hash alone for the node's index page.
pub open spec fn url_parse(value: Seq<char>) -> Result<UrlModel, BrowserError> {
    let body = url_body(value);
    let n = find_char(body, ':') as int;
    let hash = body.take(n);
    let path = if n < body.len() {
        body.skip(n + 1)
    } else {
        Seq::empty()
    };
    if !is_hash_text(hash) {
        Err(BrowserError::InvalidUrl)
    } else if path.len() == 0 {
        Ok(UrlModel { destination_hash: hex_bytes(hash), path: "/page/index.mu"@ })
    } else if !is_page_path(path) && !is_file_path(path) {
        Err(BrowserError::UnsupportedPath)
    } else if path.contains('\0') || encode_utf8(path).len() > 2048 {
        Err(BrowserError::InvalidUrl)
    } else {
        Ok(UrlModel { destination_hash: hex_bytes(hash), path })
    }
}

/// The one way to write an address.
pub open spec fn url_canonical(url: UrlModel) -> Seq<char> {
    hex_text(url.destination_hash) + seq![':'] + url.path
}

impl NomadUrl {
    pub fn parse(value: &str) -> (r: Result<Self, BrowserError>)
        ensures
            r is Ok == url_parse(value@) is Ok,
            r is Ok ==> r->Ok_0@ == url_parse(value@)->Ok_0,
            r is Err ==> r->Err_0 == url_parse(value@)->Err_0,
    {
        let all = chars_of(value);
        let trimmed = trim_chars(&all);
        let body = match strip_prefix(trimmed, "nomadnetwork://") {
            Some(rest) => rest,
            None => trimmed,
        };
        proof {
            lemma_find_char(body@, ':');
        }
        let n: usize = find_in(body, ':');
        let hash = slice_subrange(body, 0, n);
        assert(hash@ =~= body@.take(n as int));
        let path = if n < body.len() {
            slice_subrange(body, n + 1, body.len())
        } else {
            slice_subrange(body, n, n)
        };
        assert(path@ =~= if n < body@.len() {
            body@.skip(n + 1)
        } else {
            Seq::empty()
        });
        let bytes = match decode_hex(string_of(hash).as_str()) {
            Ok(bytes) => bytes,
            Err(_) => {
                return Err(BrowserError::InvalidUrl);
            },
        };
        if bytes.len() != 16 {
            return Err(BrowserError::InvalidUrl);
        }
        let mut destination_hash: [u8; 16] = [0u8;16];
        for i in 0..16
            invariant
                bytes@.len() == 16,
                forall|j: int| 0 <= j < i ==> destination_hash@[j] == bytes@[j],
        {
            destination_hash[i] = bytes[i];
        }
        assert(destination_hash@ =~= bytes@);
        if path.len() == 0 {
            return Ok(NomadUrl { destination_hash, path: "/page/index.mu".to_string() });
        }
        if strip_prefix(path, "/page/").is_none() && strip_prefix(path, "/file/").is_none() {
            return Err(BrowserError::UnsupportedPath);
        }
        let path_text = string_of(path);
        if has_char(path, '\0') || byte_len(path_text.as_str()) > 2048 {
            return Err(BrowserError::InvalidUrl);
        }
        Ok(NomadUrl { destination_hash, path: path_text })
    }

    pub fn canonical(&self) -> (r: String)
        ensures
            r@ == url_canonical(self@),
    {
        let mut out = encode_hex(&self.destination_hash);
        out.push(':');
        out.append(self.path.as_str());
        assert(out@ =~= url_canonical(self@));
        out
    }

    pub fn is_page(&self) -> (r: bool)
        ensures
            r == is_page_path(self.path@),
    {
        let path = chars_of(self.path.as_str());
        strip_prefix(&path, "/page/").is_some()
    }

    pub fn is_file(&self) -> (r: bool)
        ensures
            r == is_file_path(self.path@),
    {
        let path = chars_of(self.path.as_str());
        strip_prefix(&path, "/file/").is_some()
    }
}

/// An address that was read is read again from its canonical form.
pub proof fn law_canonical_url_is_read_back(value: Seq<char>)
    requires
        url_parse(value) is Ok,
    ensures
        url_parse(url_canonical(url_parse(value)->Ok_0)) == url_parse(value),
{
    let url = url_parse(value)->Ok_0;
    let body = url_body(value);
    let n = find_char(body, ':') as int;
    let c = url_canonical(url);
    let hash = hex_text(url.destination_hash);
    lemma_trim_ends(value);
    lemma_find_char(body, ':');
    law_hex_text_is_read_back(url.destination_hash);
    reveal_strlit("nomadnetwork://");
    reveal_strlit("/page/index.mu");
    reveal_strlit("/page/");
    reveal_strlit("/file/");
    assert(url.destination_hash.len() == 16);
    assert(hash.len() == 32);
    assert(is_hex_char(hash[0]));
    assert(url.path.len() > 0);
    if url.path != "/page/index.mu"@ {
        assert(url.path.last() == trim(value).last());
    } else {
        is_ascii_chars_encode_utf8("/page/index.mu"@);
        assert(starts_with(url.path, "/page/"@)) by {
            assert(url.path.take(6) =~= "/page/"@);
        }
    }
    assert(c.last() == url.path.last());
    assert(c[0] == hash[0]);
    law_trim_keeps_trimmed(c);
    assert(!starts_with(c, "nomadnetwork://"@)) by {
        if starts_with(c, "nomadnetwork://"@) {
            assert(c.take(15)[0] == c[0]);
        }
    }
    assert forall|i: int| 0 <= i < 32 implies c[i] != ':' by {
        assert(c[i] == hash[i]);
        assert(is_hex_char(hash[i]));
    }
    lemma_find_char_at(c, ':', 32);
    assert(c.take(32) =~= hash);
    assert(c.skip(33) =~= url.path);
}

/// Letters, digits, `_` and `-` of ASCII.
pub open spec fn is_name_char(c: char) -> bool {
    is_alphanumeric_char(c) || c == '_' || c == '-'
}

pub open spec fn is_field_name(s: Seq<char>) -> bool {
    forall|i: int| 0 <= i < s.len() ==> is_name_char(#[trigger] s[i])
}

fn name_char(c: char) -> (r: bool)
    ensures
        r == is_name_char(c),
{
    alphanumeric_char(c) || c == '_' || c == '-'
}

/// Whether every character of a field's name is allowed in one.
pub fn valid_field_name(value: &[char]) -> (r: bool)
    ensures
        r == is_field_name(value@),
{
    for i in 0..value.len()
        invariant
            forall|j: int| 0 <= j < i ==> is_name_char(#[trigger] value@[j]),
    {
        if !name_char(value[i]) {
            return false;
        }
    }
    true
}

/// The colour that three or six hexadecimal digits name, as `#rrggbb` in
/// lower case.
pub open spec fn colour(s: Seq<char>) -> Option<Seq<char>> {
    let v = lower(s);
    if s.len() == 3 && is_hex_text(s) {
        Some(seq!['#', v[0], v[0], v[1], v[1], v[2], v[2]])
    } else if s.len() == 6 && is_hex_text(s) {
        Some(seq!['#'] + v)
    } else {
        None
    }
}

pub fn valid_colour(value: &[char]) -> (r: Option<String>)
    ensures
        text_view(r) == colour(value@),
{
    if value.len() != 3 && value.len() != 6 {
        return None;
    }
    for i in 0..value.len()
        invariant
            forall|j: int| 0 <= j < i ==> is_hex_char(#[trigger] value@[j]),
    {
        if !hex_char(value[i]) {
            return None;
        }
    }
    let v = lower_of(value);
    let mut out = String::new();
    out.push('#');
    if v.len() == 3 {
        out.push(v[0]);
        out.push(v[0]);
        out.push(v[1]);
        out.push(v[1]);
        out.push(v[2]);
        out.push(v[2]);
        assert(out@ =~= colour(value@).unwrap());
    } else {
        for i in 0..v.len()
            invariant
                out@ == seq!['#'] + v@.take(i as int),
        {
            out.push(v[i]);
            assert(out@ =~= seq!['#'] + v@.take(i + 1));
        }
        assert(v@.take(v@.len() as int) =~= v@);
    }
    Some(out)
}

/// The text collected so far, as a piece of its own unless it is empty.
pub open spec fn flushed(text: Seq<char>, style: StyleModel) -> Seq<InlineModel> {
    if text.len() == 0 {
        Seq::empty()
    } else {
        seq![InlineModel::Text { text, style }]
    }
}

pub fn push_text(output: &mut Vec<Inline>, text: &mut String, style: &MicronStyle)
    ensures
        inline_views(final(output)@) == inline_views(old(output)@) + flushed(old(text)@, style@),
        final(text)@ == Seq::<char>::empty(),
{
    if !text.as_str().is_empty() {
        let taken = text.clone();
        *text = String::new();
        output.push(Inline::Text { text: taken, style: style.clone() });
        assert(inline_views(output@) =~= inline_views(old(output)@) + flushed(
            old(text)@,
            style@,
        ));
    } else {
        assert(inline_views(output@) =~= inline_views(old(output)@) + flushed(
            old(text)@,
            style@,
        ));
        assert(text@ =~= Seq::empty());
    }
}

/// The parts of a list that hold something.
pub open spec fn nonempty(parts: Seq<Seq<char>>) -> Seq<Seq<char>> {
    parts.filter(|part: Seq<char>| part.len() > 0)
}

/// The field names in the last component of a link or a partial.
pub open spec fn field_list(components: Seq<Seq<char>>) -> Seq<Seq<char>> {
    if components.len() > 2 {
        nonempty(split(components[2], '|'))
    } else {
        Seq::empty()
    }
}

fn read_field_list(components: &Vec<&[char]>) -> (r: Vec<String>)
    ensures
        text_views(r@) == field_list(views(components@)),
{
    let mut fields: Vec<String> = Vec::new();
    if components.len() > 2 {
        let parts = split_at_mark(components[2], '|');
        let ghost keep = |part: Seq<char>| part.len() > 0;
        let ghost all = split(components@[2]@, '|');
        for i in 0..parts.len()
            invariant
                views(parts@) == all,
                keep == (|part: Seq<char>| part.len() > 0),
                text_views(fields@) == all.take(i as int).filter(keep),
        {
            let part = parts[i];
            proof {
                assert(views(parts@)[i as int] == part@);
                assert(all.take(i + 1).drop_last() =~= all.take(i as int));
                reveal(Seq::filter);
            }
            if part.len() > 0 {
                let ghost before = fields@;
                fields.push(string_of(part));
                assert(text_views(fields@) =~= text_views(before).push(part@));
            }
        }
        assert(all.take(parts@.len() as int) =~= all);
        assert(views(components@)[2] == components@[2]@);
    } else {
        assert(text_views(fields@) =~= Seq::empty());
    }
    fields
}

/// What stands between the brackets of a link: a label, a target and the names
/// of the fields to send, with `` ` `` between them. The target alone serves as
/// its own label. Without a target there is no link.
pub open spec fn link_parts(value: Seq<char>, style: StyleModel) -> Seq<InlineModel> {
    let components = split(value, '`');
    let label = components[0];
    let target = if components.len() > 1 {
        components[1]
    } else {
        label
    };
    if target.len() == 0 {
        Seq::empty()
    } else {
        seq![
            InlineModel::Link {
                label: if label.len() == 0 {
                    target
                } else {
                    label
                },
                target,
                fields: field_list(components),
                style,
            },
        ]
    }
}

fn push_link(output: &mut Vec<Inline>, value: &[char], style: &MicronStyle)
    ensures
        inline_views(final(output)@) == inline_views(old(output)@) + link_parts(value@, style@),
{
    let components = split_at_mark(value, '`');
    let label = components[0];
    let target = if components.len() > 1 {
        components[1]
    } else {
        label
    };
    proof {
        assert(views(components@)[0] == components@[0]@);
        if components@.len() > 1 {
            assert(views(components@)[1] == components@[1]@);
        }
    }
    if target.len() > 0 {
        let shown = if label.len() == 0 {
            target
        } else {
            label
        };
        output.push(
            Inline::Link {
                label: string_of(shown),
                target: string_of(target),
                fields: read_field_list(&components),
                style: style.clone(),
            },
        );
    }
    assert(inline_views(output@) =~= inline_views(old(output)@) + link_parts(value@, style@));
}

pub open spec fn only_digits(s: Seq<char>) -> Seq<char> {
    s.filter(|c: char| is_digit_char(c))
}

pub open spec fn clamp(value: nat, low: nat, high: nat) -> nat {
    if value < low {
        low
    } else if value > high {
        high
    } else {
        value
    }
}

/// The width of an input: the digits among its flags, 24 where they are no
/// 16-bit number, held between 1 and 256.
pub open spec fn field_width(flags: Seq<char>) -> u16 {
    let digits = only_digits(flags);
    clamp(
        match number_in(digits, 65535) {
            Some(n) => n,
            None => 24,
        },
        1,
        256,
    ) as u16
}

fn read_field_width(flags: &[char]) -> (r: u16)
    ensures
        r == field_width(flags@),
{
    let mut digits: Vec<char> = Vec::new();
    let ghost keep = |c: char| is_digit_char(c);
    for i in 0..flags.len()
        invariant
            keep == (|c: char| is_digit_char(c)),
            digits@ == flags@.take(i as int).filter(keep),
    {
        proof {
            assert(flags@.take(i + 1).drop_last() =~= flags@.take(i as int));
            reveal(Seq::filter);
        }
        if digit_char(flags[i]) {
            digits.push(flags[i]);
        }
    }
    assert(flags@.take(flags@.len() as int) =~= flags@);
    match read_number(&digits, 65535) {
        Some(n) => if n < 1 {
            1
        } else if n > 256 {
            256
        } else {
            n as u16
        },
        None => 24,
    }
}

/// A form field that `s` begins with, and how many characters it takes. `s`
/// begins with `<`; then come flags, name, value and mark with `|` between
/// them (or a name alone), `` ` ``, the label and `>`.
pub open spec fn field_parse(s: Seq<char>, style: StyleModel) -> Option<(InlineModel, nat)> {
    let tick = find_char(s, '`') as int;
    let end = tick + 1 + find_char(s.skip(tick + 1), '>') as int;
    let descriptor = s.subrange(1, tick);
    let label = s.subrange(tick + 1, end);
    let components = split(descriptor, '|');
    let flags = if components.len() > 1 {
        components[0]
    } else {
        Seq::empty()
    };
    let name = if components.len() > 1 {
        components[1]
    } else {
        components[0]
    };
    let value = if components.len() > 2 {
        components[2]
    } else {
        label
    };
    let checked = components.len() > 3 && components[3] == seq!['*'];
    if tick >= s.len() || end >= s.len() || name.len() == 0 || !is_field_name(name) {
        None
    } else if flags.contains('?') {
        Some((InlineModel::Checkbox { name, value, label, checked, style }, (end + 1) as nat))
    } else if flags.contains('^') {
        Some((InlineModel::Radio { name, value, label, checked, style }, (end + 1) as nat))
    } else {
        Some(
            (
                InlineModel::Input {
                    name,
                    value: label,
                    width: field_width(flags),
                    masked: flags.contains('!'),
                    style,
                },
                (end + 1) as nat,
            ),
        )
    }
}

pub fn parse_field(characters: &[char], style: &MicronStyle) -> (r: Option<(Inline, usize)>)
    requires
        characters@.len() > 0 ==> characters@[0] != '`',
    ensures
        r.is_some() == field_parse(characters@, style@).is_some(),
        r.is_some() ==> r.unwrap().0@ == field_parse(characters@, style@).unwrap().0,
        r.is_some() ==> r.unwrap().1 == field_parse(characters@, style@).unwrap().1,
        r.is_some() ==> 0 < r.unwrap().1 <= characters@.len(),
{
    let tick: usize = find_in(characters, '`');
    if tick >= characters.len() {
        return None;
    }
    proof {
        lemma_find_char(characters@, '`');
    }
    let tail = slice_subrange(characters, tick + 1, characters.len());
    assert(tail@ =~= characters@.skip(tick + 1));
    let reach: usize = find_in(tail, '>');
    if reach >= tail.len() {
        return None;
    }
    let end: usize = tick + 1 + reach;
    let descriptor = slice_subrange(characters, 1, tick);
    let label = slice_subrange(characters, tick + 1, end);
    let components = split_at_mark(descriptor, '|');
    let ghost parts = split(descriptor@, '|');
    proof {
        assert forall|i: int| 0 <= i < components@.len() implies #[trigger] parts[i]
            == components@[i]@ by {
            assert(views(components@)[i] == components@[i]@);
        }
    }
    let flags = if components.len() > 1 {
        components[0]
    } else {
        slice_subrange(characters, 0, 0)
    };
    let name = if components.len() > 1 {
        components[1]
    } else {
        components[0]
    };
    assert(components@.len() <= 1 ==> flags@ =~= Seq::empty());
    if name.len() == 0 || !valid_field_name(name) {
        return None;
    }
    let value = if components.len() > 2 {
        components[2]
    } else {
        label
    };
    let checked = components.len() > 3 && components[3].len() == 1 && components[3][0] == '*';
    assert(components@.len() > 3 ==> (checked == (components@[3]@ =~= seq!['*'])));
    let field = if has_char(flags, '?') {
        Inline::Checkbox {
            name: string_of(name),
            value: string_of(value),
            label: string_of(label),
            checked,
            style: style.clone(),
        }
    } else if has_char(flags, '^') {
        Inline::Radio {
            name: string_of(name),
            value: string_of(value),
            label: string_of(label),
            checked,
            style: style.clone(),
        }
    } else {
        Inline::Input {
            name: string_of(name),
            value: string_of(label),
            width: read_field_width(flags),
            masked: has_char(flags, '!'),
            style: style.clone(),
        }
    };
    Some((field, end + 1))
}

/// How many of the leading characters of `s` may stand in a name.
pub open spec fn name_run(s: Seq<char>) -> nat
    decreases s.len(),
{
    if s.len() > 0 && is_name_char(s[0]) {
        1 + name_run(s.drop_first())
    } else {
        0
    }
}

proof fn lemma_name_run(s: Seq<char>, n: int)
    requires
        0 <= n <= s.len(),
        forall|i: int| 0 <= i < n ==> is_name_char(#[trigger] s[i]),
        n < s.len() ==> !is_name_char(s[n]),
    ensures
        name_run(s) == n,
    decreases s.len(),
{
    if n > 0 {
        assert(is_name_char(s[0]));
        lemma_name_run(s.drop_first(), n - 1);
    }
}

proof fn lemma_name_run_fits(s: Seq<char>)
    ensures
        name_run(s) <= s.len(),
    decreases s.len(),
{
    if s.len() > 0 {
        lemma_name_run_fits(s.drop_first());
    }
}

/// What one command of a line gives: the pieces it adds, the style after it
/// and the number of characters it takes.
pub struct InlineStep {
    pub items: Seq<InlineModel>,
    pub style: StyleModel,
    pub used: int,
}

/// `` `F `` and `` `B `` with three hexadecimal digits, or with `T` and six,
/// set a colour.
pub open spec fn colour_command(s: Seq<char>, style: StyleModel) -> InlineStep {
    let full = s.len() > 2 && s[2] == 'T';
    let start: int = if full {
        3
    } else {
        2
    };
    let end: int = start + if full {
        6int
    } else {
        3int
    };
    if end <= s.len() && colour(s.subrange(start, end)).is_some() {
        let found = colour(s.subrange(start, end));
        InlineStep {
            items: Seq::empty(),
            style: if s[1] == 'F' {
                StyleModel { foreground: found, ..style }
            } else {
                StyleModel { background: found, ..style }
            },
            used: end,
        }
    } else {
        InlineStep { items: Seq::empty(), style, used: 2 }
    }
}

/// What the command that `s` begins with does; `s` begins with `` ` `` and a
/// further character.
pub open spec fn inline_command(s: Seq<char>, style: StyleModel) -> InlineStep {
    let reach = find_char(s.skip(2), ']') as int;
    let field = field_parse(s.skip(1), style);
    let name = name_run(s.skip(2)) as int;
    let none = Seq::<InlineModel>::empty();
    if s[1] == '[' && reach < s.len() - 2 {
        InlineStep {
            items: link_parts(s.subrange(2, 2 + reach), style),
            style,
            used: reach + 3,
        }
    } else if s[1] == '<' && field.is_some() {
        InlineStep { items: seq![field.unwrap().0], style, used: field.unwrap().1 as int + 1 }
    } else if s[1] == '!' {
        InlineStep { items: none, style: StyleModel { bold: !style.bold, ..style }, used: 2 }
    } else if s[1] == '_' {
        InlineStep {
            items: none,
            style: StyleModel { underline: !style.underline, ..style },
            used: 2,
        }
    } else if s[1] == '*' {
        InlineStep { items: none, style: StyleModel { italic: !style.italic, ..style }, used: 2 }
    } else if s[1] == 'f' {
        InlineStep { items: none, style: StyleModel { foreground: None, ..style }, used: 2 }
    } else if s[1] == 'b' {
        InlineStep { items: none, style: StyleModel { background: None, ..style }, used: 2 }
    } else if s[1] == '`' {
        InlineStep { items: none, style: plain_style(), used: 2 }
    } else if s[1] == 'F' || s[1] == 'B' {
        colour_command(s, style)
    } else if s[1] == ':' {
        InlineStep {
            items: if name > 0 {
                seq![InlineModel::Anchor { name: s.subrange(2, 2 + name) }]
            } else {
                none
            },
            style,
            used: 2 + name,
        }
    } else {
        InlineStep { items: none, style, used: 2 }
    }
}

/// The pieces of the rest of a line, and the style at its end, where `text` has
/// been collected and `style` holds so far. A backslash takes the character
/// behind it as it is; `` ` `` begins a command.
pub open spec fn inline_parse(s: Seq<char>, text: Seq<char>, style: StyleModel) -> (
    Seq<InlineModel>,
    StyleModel,
)
    decreases s.len(),
    via inline_parse_decreases
{
    if s.len() == 0 {
        (flushed(text, style), style)
    } else if s[0] == '\\' && s.len() > 1 {
        inline_parse(s.skip(2), text.push(s[1]), style)
    } else if s[0] != '`' || s.len() == 1 {
        inline_parse(s.skip(1), text.push(s[0]), style)
    } else {
        let step = inline_command(s, style);
        let rest = inline_parse(s.skip(step.used), Seq::empty(), step.style);
        (flushed(text, style) + step.items + rest.0, rest.1)
    }
}

#[via_fn]
proof fn inline_parse_decreases(s: Seq<char>, text: Seq<char>, style: StyleModel) {
    if s.len() >= 2 && s[0] == '`' {
        lemma_command_takes(s, style);
    }
}

proof fn lemma_command_takes(s: Seq<char>, style: StyleModel)
    requires
        s.len() >= 2,
        s[0] == '`',
    ensures
        2 <= inline_command(s, style).used <= s.len(),
{
    lemma_name_run_fits(s.skip(2));
    let t = s.skip(1);
    lemma_find_char(t, '`');
    lemma_find_char(t.skip(find_char(t, '`') as int + 1), '>');
}

pub fn parse_inline(line: &[char], style: &mut MicronStyle) -> (r: Vec<Inline>)
    ensures
        inline_views(r@) == inline_parse(line@, Seq::empty(), old(style)@).0,
        final(style)@ == inline_parse(line@, Seq::empty(), old(style)@).1,
{
    let mut output: Vec<Inline> = Vec::new();
    let mut text = String::new();
    let mut index: usize = 0;
    let ghost whole = inline_parse(line@, Seq::empty(), style@);
    proof {
        assert(line@.skip(0) =~= line@);
        assert(text@ =~= Seq::empty());
        assert(inline_views(output@) + whole.0 =~= whole.0);
    }
    while index < line.len()
        invariant
            index <= line@.len(),
            inline_views(output@) + inline_parse(line@.skip(index as int), text@, style@).0
                == whole.0,
            inline_parse(line@.skip(index as int), text@, style@).1 == whole.1,
        decreases line@.len() - index,
    {
        let rest = slice_subrange(line, index, line.len());
        assert(rest@ =~= line@.skip(index as int));
        if rest[0] == '\\' && rest.len() > 1 {
            text.push(rest[1]);
            assert(rest@.skip(2) =~= line@.skip(index + 2));
            index = index + 2;
            continue ;
        }
        if rest[0] != '`' || rest.len() == 1 {
            text.push(rest[0]);
            assert(rest@.skip(1) =~= line@.skip(index + 1));
            index = index + 1;
            continue ;
        }
        proof {
            lemma_command_takes(rest@, style@);
        }
        let ghost before = inline_views(output@);
        let ghost collected = flushed(text@, style@);
        let ghost step = inline_command(rest@, style@);
        let ghost tail = inline_parse(rest@.skip(step.used), Seq::empty(), step.style);
        push_text(&mut output, &mut text, style);
        let used = apply_command(rest, style, &mut output);
        proof {
            assert(rest@.skip(step.used) =~= line@.skip(index + used));
            assert(text@ =~= Seq::empty());
            assert(inline_views(output@) + tail.0 =~= before + (collected + step.items
                + tail.0));
        }
        index = index + used;
    }
    assert(line@.skip(index as int) =~= Seq::empty());
    push_text(&mut output, &mut text, style);
    output
}

fn apply_command(rest: &[char], style: &mut MicronStyle, output: &mut Vec<Inline>) -> (used: usize)
    requires
        rest@.len() >= 2,
        rest@[0] == '`',
    ensures
        used == inline_command(rest@, old(style)@).used,
        final(style)@ == inline_command(rest@, old(style)@).style,
        inline_views(final(output)@) == inline_views(old(output)@) + inline_command(
            rest@,
            old(style)@,
        ).items,
{
    let command = rest[1];
    let ghost step = inline_command(rest@, style@);
    proof {
        lemma_command_takes(rest@, style@);
    }
    let tail = slice_subrange(rest, 2, rest.len());
    assert(tail@ =~= rest@.skip(2));
    if command == '[' {
        let reach: usize = find_in(tail, ']');
        if reach < tail.len() {
            let value = slice_subrange(rest, 2, 2 + reach);
            push_link(output, value, style);
            return reach + 3;
        }
    }
    if command == '<' {
        let start = slice_subrange(rest, 1, rest.len());
        assert(start@ =~= rest@.skip(1));
        if let Some((field, consumed)) = parse_field(start, style) {
            output.push(field);
            assert(inline_views(output@) =~= inline_views(old(output)@) + step.items);
            return consumed + 1;
        }
    }
    if command == 'F' || command == 'B' {
        assert(inline_views(output@) =~= inline_views(output@) + step.items);
        let full = rest.len() > 2 && rest[2] == 'T';
        let start: usize = if full {
            3
        } else {
            2
        };
        let length: usize = if full {
            6
        } else {
            3
        };
        if start + length <= rest.len() {
            if let Some(found) = valid_colour(slice_subrange(rest, start, start + length)) {
                if command == 'F' {
                    style.foreground = Some(found);
                } else {
                    style.background = Some(found);
                }
                return start + length;
            }
        }
        return 2;
    }
    if command == ':' {
        let mut end: usize = 0;
        while end < tail.len() && name_char(tail[end])
            invariant
                end <= tail@.len(),
                forall|i: int| 0 <= i < end ==> is_name_char(#[trigger] tail@[i]),
            decreases tail@.len() - end,
        {
            end = end + 1;
        }
        proof {
            lemma_name_run(tail@, end as int);
        }
        if end > 0 {
            output.push(Inline::Anchor { name: string_of(slice_subrange(rest, 2, 2 + end)) });
        }
        assert(inline_views(output@) =~= inline_views(old(output)@) + step.items);
        return 2 + end;
    }
    assert(inline_views(output@) =~= inline_views(output@) + step.items);
    if command == '!' {
        style.bold = !style.bold;
    } else if command == '_' {
        style.underline = !style.underline;
    } else if command == '*' {
        style.italic = !style.italic;
    } else if command == 'f' {
        style.foreground = None;
    } else if command == 'b' {
        style.background = None;
    } else if command == '`' {
        *style = MicronStyle::default();
    }
    2
}

/// A line `` `{target`interval`fields} `` that another page is to fill. The
/// interval is a number of seconds, at most a day, and zero where it is none.
pub open spec fn partial_parse(line: Seq<char>) -> Option<BlockModel> {
    let value = line.subrange(2, line.len() - 1);
    let components = split(value, '`');
    let target = trim(components[0]);
    let interval = if components.len() > 1 {
        match number_in(components[1], u64::MAX as nat) {
            Some(n) => n,
            None => 0,
        }
    } else {
        0
    };
    if !starts_with(line, "`{"@) || line.len() < 3 || line.last() != '}' || target.len() == 0 {
        None
    } else {
        Some(
            BlockModel::Partial {
                target,
                interval_seconds: clamp(interval, 0, 86400) as u64,
                fields: field_list(components),
            },
        )
    }
}

pub fn parse_partial(line: &[char]) -> (r: Option<MicronBlock>)
    ensures
        r.is_some() == partial_parse(line@).is_some(),
        r.is_some() ==> r.unwrap()@ == partial_parse(line@).unwrap(),
{
    proof {
        reveal_strlit("`{");
    }
    if strip_prefix(line, "`{").is_none() || line.len() < 3 || line[line.len() - 1] != '}' {
        return None;
    }
    let value = slice_subrange(line, 2, line.len() - 1);
    let components = split_at_mark(value, '`');
    proof {
        assert(views(components@)[0] == components@[0]@);
        if components@.len() > 1 {
            assert(views(components@)[1] == components@[1]@);
        }
    }
    let target = trim_chars(components[0]);
    if target.len() == 0 {
        return None;
    }
    let interval: u64 = if components.len() > 1 {
        match read_number(components[1], u64::MAX) {
            Some(n) => n,
            None => 0,
        }
    } else {
        0
    };
    Some(
        MicronBlock::Partial {
            target: string_of(target),
            interval_seconds: if interval > 86400 {
                86400
            } else {
                interval
            },
            fields: read_field_list(&components),
        },
    )
}

/// The text of a piece as a title shows it.
pub open spec fn shown_text(part: InlineModel) -> Seq<char> {
    match part {
        InlineModel::Text { text, .. } => text,
        InlineModel::Link { label, .. } => label,
        InlineModel::Input { value, .. } => value,
        InlineModel::Checkbox { label, .. } => label,
        InlineModel::Radio { label, .. } => label,
        InlineModel::Anchor { .. } => Seq::empty(),
    }
}

pub open spec fn shown_texts(parts: Seq<InlineModel>) -> Seq<char>
    decreases parts.len(),
{
    if parts.len() == 0 {
        Seq::empty()
    } else {
        shown_texts(parts.drop_last()) + shown_text(parts.last())
    }
}

pub fn inline_text(parts: &[Inline]) -> (r: String)
    ensures
        r@ == shown_texts(inline_views(parts@)),
{
    let mut out = String::new();
    let ghost all = inline_views(parts@);
    assert(out@ =~= Seq::empty());
    for i in 0..parts.len()
        invariant
            all == inline_views(parts@),
            out@ == shown_texts(all.take(i as int)),
    {
        assert(all.take(i + 1).drop_last() =~= all.take(i as int));
        assert(all[i as int] == parts@[i as int]@);
        match &parts[i] {
            Inline::Text { text, .. } => out.append(text.as_str()),
            Inline::Link { label, .. } => out.append(label.as_str()),
            Inline::Input { value, .. } => out.append(value.as_str()),
            Inline::Checkbox { label, .. } => out.append(label.as_str()),
            Inline::Radio { label, .. } => out.append(label.as_str()),
            Inline::Anchor { .. } => {
                assert(out@ =~= out@ + Seq::<char>::empty());
            },
        }
    }
    assert(all.take(parts@.len() as int) =~= all);
    out
}

/// The state of a page after some of its lines.
pub struct PageState {
    pub cache_seconds: u64,
    pub foreground: Option<Seq<char>>,
    pub background: Option<Seq<char>>,
    pub blocks: Seq<BlockModel>,
    pub literal: bool,
    pub table: Option<Seq<Seq<Seq<InlineModel>>>>,
    pub table_alignment: Alignment,
    pub table_max_width: Option<u16>,
    pub alignment: Alignment,
    pub depth: u8,
    pub style: StyleModel,
}

/// The state before the first line. Pages stay in the cache for half a day
/// unless they say otherwise.
pub open spec fn page_start() -> PageState {
    PageState {
        cache_seconds: 43200,
        foreground: None,
        background: None,
        blocks: Seq::empty(),
        literal: false,
        table: None,
        table_alignment: Alignment::Left,
        table_max_width: None,
        alignment: Alignment::Left,
        depth: 0,
        style: plain_style(),
    }
}

/// The cells of a table row, read one after the other.
pub open spec fn row_parse(cells: Seq<Seq<char>>, style: StyleModel) -> (
    Seq<Seq<InlineModel>>,
    StyleModel,
)
    decreases cells.len(),
{
    if cells.len() == 0 {
        (Seq::empty(), style)
    } else {
        let before = row_parse(cells.drop_last(), style);
        let cell = inline_parse(trim(cells.last()), Seq::empty(), before.1);
        (before.0.push(cell.0), cell.1)
    }
}

pub open spec fn row_cells(line: Seq<char>) -> Seq<Seq<char>> {
    split(trim_mark(trim(line), '|'), '|')
}

/// The alignment that a table's options begin with, if any.
pub open spec fn option_alignment(options: Seq<char>) -> Option<Alignment> {
    if options.len() == 0 {
        None
    } else if options[0] == 'c' {
        Some(Alignment::Center)
    } else if options[0] == 'r' {
        Some(Alignment::Right)
    } else if options[0] == 'l' {
        Some(Alignment::Left)
    } else {
        None
    }
}

/// The width that a table's options give, held between 1 and 512.
pub open spec fn option_width(options: Seq<char>) -> Option<u16> {
    let number = if option_alignment(options).is_some() {
        options.skip(1)
    } else {
        options
    };
    match number_in(number, 65535) {
        Some(n) => Some(clamp(n, 1, 512) as u16),
        None => None,
    }
}

/// A table without rows leaves no block.
pub open spec fn table_closed(state: PageState) -> PageState {
    PageState {
        table: None,
        blocks: match state.table {
            Some(rows) if rows.len() > 0 => state.blocks.push(
                BlockModel::Table {
                    alignment: state.table_alignment,
                    max_width: state.table_max_width,
                    rows,
                },
            ),
            _ => state.blocks,
        },
        ..state
    }
}

/// `` `t `` closes the open table, or opens one.
pub open spec fn table_line(state: PageState, line: Seq<char>) -> PageState {
    let options = trim(line.skip(2));
    if state.table.is_some() {
        table_closed(state)
    } else {
        PageState {
            table: Some(Seq::empty()),
            table_alignment: match option_alignment(options) {
                Some(alignment) => alignment,
                None => state.alignment,
            },
            table_max_width: option_width(options),
            ..state
        }
    }
}

pub open spec fn mark_run(s: Seq<char>, mark: char) -> nat
    decreases s.len(),
{
    if s.len() > 0 && s[0] == mark {
        1 + mark_run(s.drop_first(), mark)
    } else {
        0
    }
}

/// The alignment command that a line begins with, if any.
pub open spec fn line_alignment(s: Seq<char>) -> Option<Alignment> {
    if s.len() < 2 || s[0] != '`' {
        None
    } else if s[1] == 'c' {
        Some(Alignment::Center)
    } else if s[1] == 'r' {
        Some(Alignment::Right)
    } else if s[1] == 'l' || s[1] == 'a' {
        Some(Alignment::Left)
    } else {
        None
    }
}

/// A line of text: `>` marks make it a heading of that depth; otherwise `<`
/// leaves the section, and an alignment command may follow.
pub open spec fn text_line(state: PageState, line: Seq<char>) -> PageState {
    let marks = mark_run(line, '>');
    let heading = marks > 0;
    let reset = !heading && line.len() > 0 && line[0] == '<';
    let depth = if heading {
        clamp(marks, 0, 255) as u8
    } else if reset {
        0u8
    } else {
        state.depth
    };
    let body = if heading {
        line.skip(marks as int)
    } else if reset {
        line.skip(1)
    } else {
        line
    };
    let aligned = !heading && line_alignment(body).is_some();
    let alignment = if aligned {
        line_alignment(body).unwrap()
    } else {
        state.alignment
    };
    let content = if aligned {
        body.skip(2)
    } else {
        body
    };
    let parsed = inline_parse(content, Seq::empty(), state.style);
    if content.len() == 0 {
        PageState { depth, alignment, ..state }
    } else {
        PageState {
            depth,
            alignment,
            style: parsed.1,
            blocks: state.blocks.push(
                if heading {
                    BlockModel::Heading { depth, alignment, parts: parsed.0 }
                } else {
                    BlockModel::Paragraph { depth, alignment, parts: parsed.0 }
                },
            ),
            ..state
        }
    }
}

/// The state after one more line.
pub open spec fn page_line(state: PageState, line: Seq<char>) -> PageState {
    if starts_with(line, "#!c="@) {
        PageState {
            cache_seconds: match number_in(trim(line.skip(4)), u64::MAX as nat) {
                Some(n) => n as u64,
                None => state.cache_seconds,
            },
            ..state
        }
    } else if starts_with(line, "#!fg="@) {
        PageState { foreground: colour(trim(line.skip(5))), ..state }
    } else if starts_with(line, "#!bg="@) {
        PageState { background: colour(trim(line.skip(5))), ..state }
    } else if line == "`="@ {
        PageState { literal: !state.literal, ..state }
    } else if !state.literal && partial_parse(line).is_some() {
        PageState { blocks: state.blocks.push(partial_parse(line).unwrap()), ..state }
    } else if starts_with(line, "`t"@) {
        table_line(state, line)
    } else if state.table.is_some() {
        let row = row_parse(row_cells(line), state.style);
        PageState { table: Some(state.table.unwrap().push(row.0)), style: row.1, ..state }
    } else if state.literal {
        PageState { blocks: state.blocks.push(BlockModel::Preformatted { text: line }), ..state }
    } else if line.len() > 0 && line[0] == '#' {
        state
    } else if line.len() > 0 && line[0] == '-' {
        PageState {
            blocks: state.blocks.push(
                BlockModel::Divider {
                    depth: state.depth,
                    character: if line.len() > 1 {
                        line[1]
                    } else {
                        '\u{2500}'
                    },
                },
            ),
            ..state
        }
    } else {
        text_line(state, line)
    }
}

pub open spec fn page_lines(lines: Seq<Seq<char>>) -> PageState
    decreases lines.len(),
{
    if lines.len() == 0 {
        page_start()
    } else {
        page_line(page_lines(lines.drop_last()), lines.last())
    }
}

/// The text of the first heading.
pub open spec fn first_heading(blocks: Seq<BlockModel>) -> Option<Seq<char>>
    decreases blocks.len(),
{
    if blocks.len() == 0 {
        None
    } else {
        match blocks[0] {
            BlockModel::Heading { parts, .. } => Some(shown_texts(parts)),
            _ => first_heading(blocks.drop_first()),
        }
    }
}

/// What a page says.
pub struct PageModel {
    pub url: Seq<char>,
    pub title: Option<Seq<char>>,
    pub foreground: Option<Seq<char>>,
    pub background: Option<Seq<char>>,
    pub cache_seconds: u64,
    pub from_cache: bool,
    pub blocks: Seq<BlockModel>,
}

impl View for BrowserPage {
    type V = PageModel;

    open spec fn view(&self) -> PageModel {
        PageModel {
            url: self.url@,
            title: text_view(self.title),
            foreground: text_view(self.foreground),
            background: text_view(self.background),
            cache_seconds: self.cache_seconds,
            from_cache: self.from_cache,
            blocks: block_views(self.blocks@),
        }
    }
}

/// The page that a text writes.
pub open spec fn page_parse(url: Seq<char>, source: Seq<char>, from_cache: bool) -> PageModel {
    let end = table_closed(page_lines(lines(source)));
    PageModel {
        url,
        title: first_heading(end.blocks),
        foreground: end.foreground,
        background: end.background,
        cache_seconds: end.cache_seconds,
        from_cache,
        blocks: end.blocks,
    }
}

/// A page under construction.
struct PageBuilder {
    cache_seconds: u64,
    foreground: Option<String>,
    background: Option<String>,
    blocks: Vec<MicronBlock>,
    literal: bool,
    table: Option<Vec<Vec<Vec<Inline>>>>,
    table_alignment: Alignment,
    table_max_width: Option<u16>,
    alignment: Alignment,
    depth: u8,
    style: MicronStyle,
}

impl View for PageBuilder {
    type V = PageState;

    closed spec fn view(&self) -> PageState {
        PageState {
            cache_seconds: self.cache_seconds,
            foreground: text_view(self.foreground),
            background: text_view(self.background),
            blocks: block_views(self.blocks@),
            literal: self.literal,
            table: match self.table {
                Some(rows) => Some(table_views(rows@)),
                None => None,
            },
            table_alignment: self.table_alignment,
            table_max_width: self.table_max_width,
            alignment: self.alignment,
            depth: self.depth,
            style: self.style@,
        }
    }
}

proof fn lemma_mark_run(s: Seq<char>, mark: char, n: int)
    requires
        0 <= n <= s.len(),
        forall|i: int| 0 <= i < n ==> s[i] == mark,
        n < s.len() ==> s[n] != mark,
    ensures
        mark_run(s, mark) == n,
    decreases s.len(),
{
    if n > 0 {
        assert(s[0] == mark);
        lemma_mark_run(s.drop_first(), mark, n - 1);
    }
}

impl PageBuilder {
    fn new() -> (r: Self)
        ensures
            r@ == page_start(),
    {
        let r = PageBuilder {
            cache_seconds: 43200,
            foreground: None,
            background: None,
            blocks: Vec::new(),
            literal: false,
            table: None,
            table_alignment: Alignment::Left,
            table_max_width: None,
            alignment: Alignment::Left,
            depth: 0,
            style: MicronStyle::default(),
        };
        assert(block_views(r.blocks@) =~= Seq::empty());
        r
    }

    fn push(&mut self, block: MicronBlock)
        ensures
            final(self)@ == (PageState { blocks: old(self)@.blocks.push(block@), ..old(self)@ }),
    {
        self.blocks.push(block);
        assert(block_views(self.blocks@) =~= block_views(old(self).blocks@).push(block@));
    }

    fn close_table(&mut self)
        ensures
            final(self)@ == table_closed(old(self)@),
    {
        let taken = self.table.take();
        if let Some(rows) = taken {
            if rows.len() > 0 {
                let ghost between = self@;
                self.push(
                    MicronBlock::Table {
                        alignment: self.table_alignment,
                        max_width: self.table_max_width,
                        rows,
                    },
                );
            }
        }
    }

    fn row(&mut self, line: &[char])
        requires
            old(self)@.table.is_some(),
        ensures
            final(self)@ == ({
                let row = row_parse(row_cells(line@), old(self)@.style);
                PageState {
                    table: Some(old(self)@.table.unwrap().push(row.0)),
                    style: row.1,
                    ..old(self)@
                }
            }),
    {
        let cells = split_at_mark(trim_mark_chars(trim_chars(line), '|'), '|');
        let ghost texts = row_cells(line@);
        let mut row: Vec<Vec<Inline>> = Vec::new();
        let mut style = self.style.clone();
        assert(row_views(row@) =~= Seq::empty());
        for i in 0..cells.len()
            invariant
                views(cells@) == texts,
                row_views(row@) == row_parse(texts.take(i as int), old(self)@.style).0,
                style@ == row_parse(texts.take(i as int), old(self)@.style).1,
        {
            let ghost before = row@;
            let cell = parse_inline(trim_chars(cells[i]), &mut style);
            row.push(cell);
            proof {
                assert(views(cells@)[i as int] == cells@[i as int]@);
                assert(texts.take(i + 1).drop_last() =~= texts.take(i as int));
                assert(row_views(row@) =~= row_views(before).push(inline_views(cell@)));
            }
        }
        assert(texts.take(cells@.len() as int) =~= texts);
        self.style = style;
        let taken = self.table.take();
        if let Some(mut rows) = taken {
            let ghost before = rows@;
            rows.push(row);
            assert(table_views(rows@) =~= table_views(before).push(row_views(row@)));
            self.table = Some(rows);
        }
    }

    fn table_options(&mut self, line: &[char])
        requires
            starts_with(line@, "`t"@),
        ensures
            final(self)@ == table_line(old(self)@, line@),
    {
        proof {
            reveal_strlit("`t");
        }
        if self.table.is_some() {
            self.close_table();
            return ;
        }
        let tail = slice_subrange(line, 2, line.len());
        assert(tail@ =~= line@.skip(2));
        let options = trim_chars(tail);
        let found = if options.len() == 0 {
            None
        } else if options[0] == 'c' {
            Some(Alignment::Center)
        } else if options[0] == 'r' {
            Some(Alignment::Right)
        } else if options[0] == 'l' {
            Some(Alignment::Left)
        } else {
            None
        };
        let number = if found.is_some() {
            slice_subrange(options, 1, options.len())
        } else {
            options
        };
        assert(found.is_some() ==> number@ =~= options@.skip(1));
        self.table_alignment = match found {
            Some(alignment) => alignment,
            None => self.alignment,
        };
        self.table_max_width = match read_number(number, 65535) {
            Some(n) => Some(
                if n < 1 {
                    1u16
                } else if n > 512 {
                    512u16
                } else {
                    n as u16
                },
            ),
            None => None,
        };
        let rows: Vec<Vec<Vec<Inline>>> = Vec::new();
        assert(table_views(rows@) =~= Seq::empty());
        self.table = Some(rows);
    }

    fn text(&mut self, line: &[char])
        ensures
            final(self)@ == text_line(old(self)@, line@),
    {
        let mut marks: usize = 0;
        while marks < line.len() && line[marks] == '>'
            invariant
                marks <= line@.len(),
                forall|i: int| 0 <= i < marks ==> line@[i] == '>',
            decreases line@.len() - marks,
        {
            marks = marks + 1;
        }
        proof {
            lemma_mark_run(line@, '>', marks as int);
        }
        let heading = marks > 0;
        let mut content = slice_subrange(line, marks, line.len());
        assert(content@ =~= line@.skip(marks as int));
        if heading {
            self.depth = if marks > 255 {
                255
            } else {
                marks as u8
            };
        } else {
            assert(content@ =~= line@);
            if content.len() > 0 && content[0] == '<' {
                self.depth = 0;
                content = slice_subrange(content, 1, content.len());
                assert(content@ =~= line@.skip(1));
            }
            let found = if content.len() < 2 || content[0] != '`' {
                None
            } else if content[1] == 'c' {
                Some(Alignment::Center)
            } else if content[1] == 'r' {
                Some(Alignment::Right)
            } else if content[1] == 'l' || content[1] == 'a' {
                Some(Alignment::Left)
            } else {
                None
            };
            if let Some(alignment) = found {
                self.alignment = alignment;
                let ghost body = content@;
                content = slice_subrange(content, 2, content.len());
                assert(content@ =~= body.skip(2));
            }
        }
        if content.len() == 0 {
            return ;
        }
        let mut style = self.style.clone();
        let parts = parse_inline(content, &mut style);
        self.style = style;
        let depth = self.depth;
        let alignment = self.alignment;
        if heading {
            self.push(MicronBlock::Heading { depth, alignment, parts });
        } else {
            self.push(MicronBlock::Paragraph { depth, alignment, parts });
        }
    }

    fn line(&mut self, line: &[char])
        ensures
            final(self)@ == page_line(old(self)@, line@),
    {
        proof {
            reveal_strlit("#!c=");
            reveal_strlit("#!fg=");
            reveal_strlit("#!bg=");
        }
        if let Some(value) = strip_prefix(line, "#!c=") {
            if let Some(n) = read_number(trim_chars(value), u64::MAX) {
                self.cache_seconds = n;
            }
            return ;
        }
        if let Some(value) = strip_prefix(line, "#!fg=") {
            self.foreground = valid_colour(trim_chars(value));
            return ;
        }
        if let Some(value) = strip_prefix(line, "#!bg=") {
            self.background = valid_colour(trim_chars(value));
            return ;
        }
        let toggle = chars_of("`=");
        if same_chars(line, &toggle) {
            self.literal = !self.literal;
            return ;
        }
        if !self.literal {
            if let Some(partial) = parse_partial(line) {
                self.push(partial);
                return ;
            }
        }
        if strip_prefix(line, "`t").is_some() {
            self.table_options(line);
            return ;
        }
        if self.table.is_some() {
            self.row(line);
            return ;
        }
        if self.literal {
            self.push(MicronBlock::Preformatted { text: string_of(line) });
            return ;
        }
        if line.len() > 0 && line[0] == '#' {
            return ;
        }
        if line.len() > 0 && line[0] == '-' {
            let depth = self.depth;
            let character = if line.len() > 1 {
                line[1]
            } else {
                '\u{2500}'
            };
            self.push(MicronBlock::Divider { depth, character });
            return ;
        }
        self.text(line);
    }
}

fn page_title(blocks: &Vec<MicronBlock>) -> (r: Option<String>)
    ensures
        text_view(r) == first_heading(block_views(blocks@)),
{
    let ghost all = block_views(blocks@);
    assert(all.skip(0) =~= all);
    for i in 0..blocks.len()
        invariant
            all == block_views(blocks@),
            first_heading(all) == first_heading(all.skip(i as int)),
    {
        assert(all.skip(i as int)[0] == blocks@[i as int]@);
        if let MicronBlock::Heading { parts, .. } = &blocks[i] {
            return Some(inline_text(parts));
        }
        assert(all.skip(i as int).drop_first() =~= all.skip(i + 1));
    }
    None
}

/// Reads a page. Bytes that are no UTF-8 are refused; every text is a page.
pub fn parse_page(url: String, bytes: &[u8], from_cache: bool) -> (r: Result<
    BrowserPage,
    BrowserError,
>)
    ensures
        r is Ok == valid_utf8(bytes@),
        r is Ok ==> r->Ok_0@ == page_parse(url@, decode_utf8(bytes@), from_cache),
        r is Err ==> r->Err_0 == BrowserError::InvalidEncoding,
{
    let source = match text_from_utf8(bytes) {
        Some(source) => chars_of(source),
        None => {
            return Err(BrowserError::InvalidEncoding);
        },
    };
    let page_text = lines_of(&source);
    let ghost all = lines(source@);
    let mut page = PageBuilder::new();
    for i in 0..page_text.len()
        invariant
            views(page_text@) == all,
            page@ == page_lines(all.take(i as int)),
    {
        page.line(page_text[i]);
        proof {
            assert(views(page_text@)[i as int] == page_text@[i as int]@);
            assert(all.take(i + 1).drop_last() =~= all.take(i as int));
        }
    }
    assert(all.take(page_text@.len() as int) =~= all);
    page.close_table();
    let title = page_title(&page.blocks);
    Ok(
        BrowserPage {
            url,
            title,
            foreground: page.foreground,
            background: page.background,
            cache_seconds: page.cache_seconds,
            from_cache,
            blocks: page.blocks,
        },
    )
}

/// The text with a backslash before each character that would otherwise be
/// read as markup.
pub open spec fn escaped(s: Seq<char>) -> Seq<char>
    decreases s.len(),
{
    if s.len() == 0 {
        Seq::empty()
    } else if s[0] == '\\' || s[0] == '`' {
        seq!['\\', s[0]] + escaped(s.drop_first())
    } else {
        seq![s[0]] + escaped(s.drop_first())
    }
}

/// Any text can be written on a line: its escaped form is read as that text, in
/// one piece, and changes no style.
pub proof fn law_escaped_text_is_read_back(s: Seq<char>, text: Seq<char>, style: StyleModel)
    ensures
        inline_parse(escaped(s), text, style) == (flushed(text + s, style), style),
    decreases s.len(),
{
    if s.len() == 0 {
        assert(text + s =~= text);
    } else {
        let rest = s.drop_first();
        law_escaped_text_is_read_back(rest, text.push(s[0]), style);
        assert(text.push(s[0]) + rest =~= text + s);
        if s[0] == '\\' || s[0] == '`' {
            assert(escaped(s).skip(2) =~= escaped(rest));
        } else {
            assert(escaped(s).skip(1) =~= escaped(rest));
        }
    }
}

/// A line without backslashes and backticks is one piece of text.
pub proof fn law_plain_text_is_kept(s: Seq<char>, text: Seq<char>, style: StyleModel)
    requires
        !s.contains('\\'),
        !s.contains('`'),
    ensures
        inline_parse(s, text, style) == (flushed(text + s, style), style),
    decreases s.len(),
{
    if s.len() == 0 {
        assert(text + s =~= text);
    } else {
        let rest = s.drop_first();
        assert(s[0] != '\\' && s[0] != '`');
        assert forall|c: char| rest.contains(c) implies s.contains(c) by {
            let i = choose|i: int| 0 <= i < rest.len() && rest[i] == c;
            assert(s[i + 1] == c);
        }
        law_plain_text_is_kept(rest, text.push(s[0]), style);
        assert(text.push(s[0]) + rest =~= text + s);
        assert(s.skip(1) =~= rest);
    }
}

/// Every colour that is accepted is written as `#rrggbb` in lower case, and is
/// itself the colour of those six digits.
pub proof fn law_colours_are_canonical(s: Seq<char>)
    requires
        colour(s).is_some(),
    ensures
        colour(s).unwrap().len() == 7,
        colour(s).unwrap()[0] == '#',
        colour(colour(s).unwrap().skip(1)) == colour(s),
{
    let found = colour(s).unwrap();
    let digits = found.skip(1);
    assert forall|i: int| 0 <= i < s.len() implies is_hex_char(#[trigger] lower(s)[i]) && lower(
        s,
    )[i] == lower_char(lower(s)[i]) by {
        assert(is_hex_char(s[i]));
    }
    assert(is_hex_text(digits));
    assert(lower(digits) =~= digits);
    assert(seq!['#'] + digits =~= found);
}

/// Whether a text is a colour as it is written in a page: `#rrggbb` in lower case.
pub open spec fn is_colour(s: Seq<char>) -> bool {
    s.len() == 7 && colour(s.skip(1)) == Some(s)
}

/// The colours of a style are colours.
pub open spec fn bounded_style(style: StyleModel) -> bool {
    &&& style.foreground.is_some() ==> is_colour(style.foreground.unwrap())
    &&& style.background.is_some() ==> is_colour(style.background.unwrap())
}

/// No text of a list is empty.
pub open spec fn all_nonempty(texts: Seq<Seq<char>>) -> bool {
    forall|i: int| 0 <= i < texts.len() ==> (#[trigger] texts[i]).len() > 0
}

/// A form field has a name of allowed characters, an input is between 1 and 256
/// cells wide, a link has a label, a target and fields that have names, and the
/// colours of a part are colours.
pub open spec fn bounded_part(part: InlineModel) -> bool {
    match part {
        InlineModel::Input { name, width, style, .. } => name.len() > 0 && is_field_name(name) && 1
            <= width <= 256 && bounded_style(style),
        InlineModel::Checkbox { name, style, .. } => name.len() > 0 && is_field_name(name)
            && bounded_style(style),
        InlineModel::Radio { name, style, .. } => name.len() > 0 && is_field_name(name)
            && bounded_style(style),
        InlineModel::Link { label, target, fields, style } => label.len() > 0 && target.len() > 0
            && all_nonempty(fields) && bounded_style(style),
        InlineModel::Anchor { name } => name.len() > 0 && is_field_name(name),
        InlineModel::Text { text, style } => text.len() > 0 && bounded_style(style),
    }
}

pub open spec fn bounded_parts(parts: Seq<InlineModel>) -> bool {
    forall|i: int| 0 <= i < parts.len() ==> bounded_part(#[trigger] parts[i])
}

/// A block of bounded parts; a heading has a depth, a table has rows of at least a
/// cell and a width between 1 and 512, a partial has a target, an interval of at
/// most a day and fields that have names.
pub open spec fn bounded_block(block: BlockModel) -> bool {
    match block {
        BlockModel::Heading { depth, parts, .. } => depth >= 1 && bounded_parts(parts),
        BlockModel::Paragraph { parts, .. } => bounded_parts(parts),
        BlockModel::Divider { .. } => true,
        BlockModel::Preformatted { .. } => true,
        BlockModel::Table { max_width, rows, .. } => {
            &&& max_width.is_some() ==> 1 <= max_width.unwrap() <= 512
            &&& rows.len() > 0
            &&& bounded_rows(rows)
        },
        BlockModel::Partial { target, interval_seconds, fields } => target.len() > 0
            && interval_seconds <= 86400 && all_nonempty(fields),
    }
}

pub open spec fn bounded_rows(rows: Seq<Seq<Seq<InlineModel>>>) -> bool {
    &&& forall|i: int| 0 <= i < rows.len() ==> (#[trigger] rows[i]).len() > 0
    &&& forall|i: int, j: int|
        0 <= i < rows.len() && 0 <= j < rows[i].len() ==> bounded_parts(#[trigger] rows[i][j])
}

pub open spec fn bounded_state(state: PageState) -> bool {
    &&& forall|i: int| 0 <= i < state.blocks.len() ==> bounded_block(#[trigger] state.blocks[i])
    &&& state.table_max_width.is_some() ==> 1 <= state.table_max_width.unwrap() <= 512
    &&& state.table.is_some() ==> bounded_rows(state.table.unwrap())
    &&& bounded_style(state.style)
    &&& state.foreground.is_some() ==> is_colour(state.foreground.unwrap())
    &&& state.background.is_some() ==> is_colour(state.background.unwrap())
}

proof fn lemma_nonempty(parts: Seq<Seq<char>>)
    ensures
        all_nonempty(nonempty(parts)),
    decreases parts.len(),
{
    reveal(Seq::filter);
    if parts.len() > 0 {
        lemma_nonempty(parts.drop_last());
    }
}

proof fn lemma_command_is_bounded(s: Seq<char>, style: StyleModel)
    requires
        s.len() > 1,
        bounded_style(style),
    ensures
        bounded_parts(inline_command(s, style).items),
        bounded_style(inline_command(s, style).style),
{
    let reach = find_char(s.skip(2), ']') as int;
    let components = split(s.subrange(2, 2 + reach), '`');
    if components.len() > 2 {
        lemma_nonempty(split(components[2], '|'));
    }
    let name = name_run(s.skip(2)) as int;
    lemma_name_run_is_name(s.skip(2));
    assert(s.subrange(2, 2 + name) =~= s.skip(2).take(name));
    let start: int = if s.len() > 2 && s[2] == 'T' {
        3
    } else {
        2
    };
    let end: int = if start == 3 {
        9
    } else {
        5
    };
    if end <= s.len() && colour(s.subrange(start, end)).is_some() {
        law_colours_are_canonical(s.subrange(start, end));
    }
}

proof fn lemma_inline_is_bounded(s: Seq<char>, text: Seq<char>, style: StyleModel)
    requires
        bounded_style(style),
    ensures
        bounded_parts(inline_parse(s, text, style).0),
        bounded_style(inline_parse(s, text, style).1),
    decreases s.len(),
{
    if s.len() == 0 {
    } else if s[0] == '\\' && s.len() > 1 {
        lemma_inline_is_bounded(s.skip(2), text.push(s[1]), style);
    } else if s[0] != '`' || s.len() == 1 {
        lemma_inline_is_bounded(s.skip(1), text.push(s[0]), style);
    } else {
        let step = inline_command(s, style);
        lemma_command_takes(s, style);
        lemma_command_is_bounded(s, style);
        lemma_inline_is_bounded(s.skip(step.used), Seq::empty(), step.style);
    }
}

proof fn lemma_name_run_is_name(s: Seq<char>)
    ensures
        name_run(s) <= s.len(),
        is_field_name(s.take(name_run(s) as int)),
    decreases s.len(),
{
    if s.len() > 0 && is_name_char(s[0]) {
        let rest = s.drop_first();
        lemma_name_run_is_name(rest);
        let run = s.take(name_run(s) as int);
        assert forall|i: int| 0 <= i < run.len() implies is_name_char(#[trigger] run[i]) by {
            if i > 0 {
                assert(run[i] == rest.take(name_run(rest) as int)[i - 1]);
            }
        }
    }
}

proof fn lemma_row_is_bounded(cells: Seq<Seq<char>>, style: StyleModel)
    requires
        bounded_style(style),
    ensures
        row_parse(cells, style).0.len() == cells.len(),
        bounded_style(row_parse(cells, style).1),
        forall|j: int|
            0 <= j < row_parse(cells, style).0.len() ==> bounded_parts(
                #[trigger] row_parse(cells, style).0[j],
            ),
    decreases cells.len(),
{
    if cells.len() > 0 {
        lemma_row_is_bounded(cells.drop_last(), style);
        lemma_inline_is_bounded(
            trim(cells.last()),
            Seq::empty(),
            row_parse(cells.drop_last(), style).1,
        );
    }
}

proof fn lemma_push_stays_bounded(state: PageState, block: BlockModel)
    requires
        bounded_state(state),
        bounded_block(block),
    ensures
        bounded_state(PageState { blocks: state.blocks.push(block), ..state }),
{
}

proof fn lemma_line_stays_bounded(state: PageState, line: Seq<char>)
    requires
        bounded_state(state),
    ensures
        bounded_state(page_line(state, line)),
{
    let after = page_line(state, line);
    if starts_with(line, "#!c="@) {
        assert(bounded_state(after));
    } else if starts_with(line, "#!fg="@) || starts_with(line, "#!bg="@) {
        if colour(trim(line.skip(5))).is_some() {
            law_colours_are_canonical(trim(line.skip(5)));
        }
        assert(bounded_state(after));
    } else if line == "`="@ {
        assert(bounded_state(after));
    } else if !state.literal && partial_parse(line).is_some() {
        let components = split(line.subrange(2, line.len() - 1), '`');
        if components.len() > 2 {
            lemma_nonempty(split(components[2], '|'));
        }
        assert(bounded_state(after));
    } else if starts_with(line, "`t"@) {
        assert(bounded_state(after));
    } else if state.table.is_some() {
        lemma_row_is_bounded(row_cells(line), state.style);
        assert(row_cells(line).len() >= 1);
        let row = row_parse(row_cells(line), state.style).0;
        let rows = state.table.unwrap();
        assert forall|i: int, j: int|
            0 <= i < rows.push(row).len() && 0 <= j < rows.push(row)[i].len() implies bounded_parts(
            #[trigger] rows.push(row)[i][j],
        ) by {
            if i < rows.len() {
                assert(rows.push(row)[i] == rows[i]);
            }
        }
        assert(bounded_state(after));
    } else if state.literal {
        lemma_push_stays_bounded(state, BlockModel::Preformatted { text: line });
    } else if line.len() > 0 && line[0] == '#' {
        assert(after == state);
    } else if line.len() > 0 && line[0] == '-' {
        let block = BlockModel::Divider {
            depth: state.depth,
            character: if line.len() > 1 {
                line[1]
            } else {
                '\u{2500}'
            },
        };
        lemma_push_stays_bounded(state, block);
    } else {
        let marks = mark_run(line, '>');
        let reset = marks == 0 && line.len() > 0 && line[0] == '<';
        let body = if marks > 0 {
            line.skip(marks as int)
        } else if reset {
            line.skip(1)
        } else {
            line
        };
        lemma_inline_is_bounded(body, Seq::empty(), state.style);
        lemma_inline_is_bounded(body.skip(2), Seq::empty(), state.style);
        assert(after == text_line(state, line));
        assert(after.blocks == state.blocks || (after.blocks == state.blocks.push(
            after.blocks.last(),
        ) && bounded_block(after.blocks.last())));
        assert(bounded_state(after));
    }
}

proof fn lemma_lines_are_bounded(lines: Seq<Seq<char>>)
    ensures
        bounded_state(page_lines(lines)),
    decreases lines.len(),
{
    if lines.len() > 0 {
        lemma_lines_are_bounded(lines.drop_last());
        lemma_line_stays_bounded(page_lines(lines.drop_last()), lines.last());
    }
}

/// Whatever a node sends, the page holds only bounded blocks, and its colours are
/// colours.
pub proof fn law_pages_are_bounded(url: Seq<char>, source: Seq<char>, from_cache: bool)
    ensures
        forall|i: int|
            0 <= i < page_parse(url, source, from_cache).blocks.len() ==> bounded_block(
                #[trigger] page_parse(url, source, from_cache).blocks[i],
            ),
        page_parse(url, source, from_cache).foreground.is_some() ==> is_colour(
            page_parse(url, source, from_cache).foreground.unwrap(),
        ),
        page_parse(url, source, from_cache).background.is_some() ==> is_colour(
            page_parse(url, source, from_cache).background.unwrap(),
        ),
{
    lemma_lines_are_bounded(lines(source));
}

proof fn lemma_mark_line(source: Seq<char>, line: Seq<char>)
    requires
        source.len() == 0 || source.last() == '\n',
        line.len() > 0,
        line.last() != '\r',
        !line.contains('\n'),
    ensures
        lines(source + line.push('\n')) == lines(source).push(line),
    decreases source.len(),
{
    let tail = line.push('\n');
    let all = source + tail;
    lemma_find_char(all, '\n');
    lemma_find_char(source, '\n');
    let n = find_char(all, '\n') as int;
    if source.len() == 0 {
        assert(all =~= tail);
        assert forall|i: int| 0 <= i < line.len() implies all[i] != '\n' by {
            assert(line.contains(line[i]));
        }
        assert(all[line.len() as int] == '\n');
        assert(n == line.len());
        assert(all.take(n) =~= line);
        assert(all.skip(n + 1) =~= Seq::empty());
        assert(without_return(line) == line);
        assert(lines(all.skip(n + 1)) =~= Seq::empty());
        assert(lines(all) =~= seq![line]);
        assert(lines(source) =~= Seq::empty());
    } else {
        let m = find_char(source, '\n') as int;
        assert(source[source.len() - 1] == '\n');
        assert(m < source.len());
        assert(all[m] == '\n');
        assert forall|i: int| 0 <= i < m implies all[i] != '\n' by {
            assert(all[i] == source[i]);
        }
        assert(n == m);
        let rest = source.skip(m + 1);
        assert(all.take(m) =~= source.take(m));
        assert(all.skip(m + 1) =~= rest + tail);
        if rest.len() > 0 {
            assert(rest.last() == source.last());
        }
        lemma_mark_line(rest, line);
        assert(seq![without_return(source.take(m))] + lines(rest).push(line) =~= (seq![
            without_return(source.take(m)),
        ] + lines(rest)).push(line));
    }
}

/// How many lines open or close a table.
pub open spec fn table_marks(lines: Seq<Seq<char>>) -> nat
    decreases lines.len(),
{
    if lines.len() == 0 {
        0
    } else {
        table_marks(lines.drop_last()) + if starts_with(lines.last(), "`t"@) {
            1nat
        } else {
            0nat
        }
    }
}

proof fn lemma_table_is_open(lines: Seq<Seq<char>>)
    ensures
        page_lines(lines).table.is_some() == (table_marks(lines) % 2 == 1),
    decreases lines.len(),
{
    if lines.len() > 0 {
        let line = lines.last();
        lemma_table_is_open(lines.drop_last());
        reveal_strlit("`t");
        reveal_strlit("`=");
        reveal_strlit("`{");
        reveal_strlit("#!c=");
        reveal_strlit("#!fg=");
        reveal_strlit("#!bg=");
        if starts_with(line, "`t"@) {
            assert(line.take(2)[0] == '`' && line.take(2)[1] == 't');
            assert(line[0] == '`' && line[1] == 't');
            assert(!starts_with(line, "#!c="@)) by {
                assert("#!c="@[0] == '#' && line.take(4)[0] == line[0] || line.len() < 4);
            }
            assert(!starts_with(line, "#!fg="@)) by {
                assert("#!fg="@[0] == '#' && line.take(5)[0] == line[0] || line.len() < 5);
            }
            assert(!starts_with(line, "#!bg="@)) by {
                assert("#!bg="@[0] == '#' && line.take(5)[0] == line[0] || line.len() < 5);
            }
            assert("`="@[1] == '=' && "`{"@[1] == '{');
            assert(!starts_with(line, "`{"@)) by {
                assert(line.take(2)[1] != "`{"@[1]);
            }
        }
    }
}

/// A table that is never closed is closed at the end of its page: the page reads as
/// it does with a closing line behind it, and the rows of the table are its last
/// block. Where no table is open, the line more opens one without rows, and changes
/// nothing either.
pub proof fn law_open_table_ends_with_its_page(
    url: Seq<char>,
    source: Seq<char>,
    from_cache: bool,
)
    requires
        source.len() == 0 || source.last() == '\n',
    ensures
        page_parse(url, source + "`t\n"@, from_cache) == page_parse(url, source, from_cache),
        page_lines(lines(source)).table.is_some() == (table_marks(lines(source)) % 2 == 1),
        table_marks(lines(source)) % 2 == 1 && page_lines(lines(source)).table.unwrap().len() > 0
            ==> {
            let blocks = page_parse(url, source, from_cache).blocks;
            &&& blocks.len() == page_lines(lines(source)).blocks.len() + 1
            &&& blocks.last() is Table
            &&& blocks.last()->rows == page_lines(lines(source)).table.unwrap()
        },
{
    let line = "`t"@;
    assert(lines(source + "`t\n"@) == lines(source).push(line)) by {
        reveal_strlit("`t\n");
        reveal_strlit("`t");
        assert("`t\n"@ =~= line.push('\n'));
        lemma_mark_line(source, line);
    }
    let after = lines(source).push(line);
    assert(after.drop_last() =~= lines(source));
    assert(page_lines(after) == page_line(page_lines(lines(source)), line));
    lemma_table_is_open(lines(source));
    lemma_closing_line(page_lines(lines(source)));
}

/// Closing a table, or opening one, changes nothing of a page that ends there.
proof fn lemma_closing_line(state: PageState)
    ensures
        ({
            let closed = table_closed(page_line(state, "`t"@));
            &&& closed.blocks == table_closed(state).blocks
            &&& closed.foreground == state.foreground
            &&& closed.background == state.background
            &&& closed.cache_seconds == state.cache_seconds
        }),
{
    let line = "`t"@;
    assert(page_line(state, line) == table_line(state, line)) by {
        reveal_strlit("`t");
        reveal_strlit("`=");
        reveal_strlit("`{");
        reveal_strlit("#!c=");
        reveal_strlit("#!fg=");
        reveal_strlit("#!bg=");
        assert(line.take(2) =~= line);
        assert(line[1] == 't' && "`="@[1] == '=' && "`{"@[1] == '{');
    }
}

} // verus!
