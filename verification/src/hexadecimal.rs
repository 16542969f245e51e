//! Hexadecimal text for byte strings, and the 16-byte addresses written in it.
use vstd::prelude::*;
use vstd::utf8::encode_utf8;

use crate::text::{is_digit_char, is_hex_char, lower, lower_char};

verus! {

pub open spec fn is_hex_text(s: Seq<char>) -> bool {
    forall|i: int| 0 <= i < s.len() ==> is_hex_char(#[trigger] s[i])
}

pub open spec fn hex_value(c: char) -> int {
    if is_digit_char(c) {
        c as int - '0' as int
    } else if 'a' <= c <= 'f' {
        c as int - 'a' as int + 10
    } else {
        c as int - 'A' as int + 10
    }
}

/// The bytes that an even number of hexadecimal digits writes.
pub open spec fn hex_bytes(s: Seq<char>) -> Seq<u8> {
    Seq::new(
        s.len() / 2,
        |i: int| (hex_value(s[2 * i]) * 16 + hex_value(s[2 * i + 1])) as u8,
    )
}

pub open spec fn hex_digit(n: int) -> char {
    if n < 10 {
        ((n + 48) as u8) as char
    } else {
        ((n + 87) as u8) as char
    }
}

/// Two lower-case hexadecimal digits for each byte.
pub open spec fn hex_text(bytes: Seq<u8>) -> Seq<char> {
    Seq::new(
        bytes.len() * 2,
        |i: int| hex_digit(if i % 2 == 0 { bytes[i / 2] as int / 16 } else { bytes[i / 2] as int % 16 }),
    )
}

/// Whether `s` writes a 16-byte address.
pub open spec fn is_hash_text(s: Seq<char>) -> bool {
    s.len() == 32 && is_hex_text(s)
}

/// The words in which `hex::decode` refuses a text.
pub uninterp spec fn hex_complaint(text: Seq<char>) -> Seq<char>;

/// `hex::decode` reads an even number of hexadecimal digits, of either case,
/// and refuses every other text. In which words it does so depends on the text
/// alone: an odd number of bytes comes first; which character it names otherwise,
/// and how, is left unsaid.
#[verifier::external_body]
pub(crate) fn decode_hex(value: &str) -> (r: Result<Vec<u8>, String>)
    ensures
        r is Ok == (value@.len() % 2 == 0 && is_hex_text(value@)),
        r is Ok ==> r->Ok_0@ == hex_bytes(value@),
        r is Err ==> r->Err_0@ == hex_complaint(value@),
        r is Err && encode_utf8(value@).len() % 2 != 0 ==> r->Err_0@ == "Odd number of digits"@,
{
    hex::decode(value).map_err(|error| error.to_string())
}

/// `hex::decode_to_slice` into 16 bytes reads exactly 32 hexadecimal digits,
/// of either case, and refuses every other text.
#[verifier::external_body]
pub(crate) fn decode_hash(value: &str) -> (r: Option<[u8; 16]>)
    ensures
        r.is_some() == is_hash_text(value@),
        r.is_some() ==> r.unwrap()@ == hex_bytes(value@),
{
    let mut output = [0u8; 16];
    hex::decode_to_slice(value, &mut output).ok().map(|_| output)
}

/// `hex::encode` writes two lower-case digits for each byte.
#[verifier::external_body]
pub(crate) fn encode_hex(bytes: &[u8]) -> (r: String)
    ensures
        r@ == hex_text(bytes@),
{
    hex::encode(bytes)
}

/// What is written in hexadecimal is read back.
pub proof fn law_hex_text_is_read_back(bytes: Seq<u8>)
    ensures
        hex_text(bytes).len() == 2 * bytes.len(),
        is_hex_text(hex_text(bytes)),
        hex_bytes(hex_text(bytes)) == bytes,
{
    let s = hex_text(bytes);
    assert forall|i: int| 0 <= i < bytes.len() implies hex_bytes(s)[i] == bytes[i] by {
        let high = bytes[i] as int / 16;
        let low = bytes[i] as int % 16;
        assert((2 * i) / 2 == i && (2 * i + 1) / 2 == i);
        assert(s[2 * i] == hex_digit(high));
        assert(s[2 * i + 1] == hex_digit(low));
        assert(hex_value(hex_digit(high)) == high);
        assert(hex_value(hex_digit(low)) == low);
    }
    assert(hex_bytes(s) =~= bytes);
}

/// Reading and writing again gives the lower-case form.
pub proof fn law_hex_bytes_write_lower_case(s: Seq<char>)
    requires
        s.len() % 2 == 0,
        is_hex_text(s),
    ensures
        hex_text(hex_bytes(s)) == lower(s),
{
    let t = hex_text(hex_bytes(s));
    assert forall|i: int| 0 <= i < s.len() implies t[i] == lower(s)[i] by {
        let k = i / 2;
        let high = s[2 * k];
        let low = s[2 * k + 1];
        assert(is_hex_char(high) && is_hex_char(low));
        let byte = hex_bytes(s)[k] as int;
        assert(byte == hex_value(high) * 16 + hex_value(low));
        assert(byte / 16 == hex_value(high) && byte % 16 == hex_value(low));
        assert(hex_digit(hex_value(high)) == lower_char(high));
        assert(hex_digit(hex_value(low)) == lower_char(low));
        assert(i == 2 * k || i == 2 * k + 1);
    }
    assert(t =~= lower(s));
}

} // verus!
