//! MessagePack values, as far as the library looks into them.
use vstd::prelude::*;
use vstd::utf8::encode_utf8;

verus! {

/// A MessagePack value. `Uint` is a whole number from zero on, `Int` one below
/// zero, `RawText` a string that is no UTF-8. Of a floating-point number only the
/// width is kept, and `Other` stands for nil and the booleans: they are never looked
/// into.
#[derive(Debug)]
pub enum MsgValue {
    Uint(u64),
    Int(i64),
    Single,
    Double,
    Extension(i8, Vec<u8>),
    Text(String),
    RawText(Vec<u8>),
    Binary(Vec<u8>),
    Array(Vec<MsgValue>),
    Table(Vec<(MsgValue, MsgValue)>),
    Other,
}

/// What a value says.
pub enum MsgModel {
    Uint(u64),
    Int(i64),
    Single,
    Double,
    Extension(i8, Seq<u8>),
    Text(Seq<char>),
    RawText(Seq<u8>),
    Binary(Seq<u8>),
    Array(Seq<MsgModel>),
    Table(Seq<(MsgModel, MsgModel)>),
    Other,
}

pub open spec fn msg_model(value: MsgValue) -> MsgModel
    decreases value,
{
    match value {
        MsgValue::Uint(number) => MsgModel::Uint(number),
        MsgValue::Int(number) => MsgModel::Int(number),
        MsgValue::Single => MsgModel::Single,
        MsgValue::Double => MsgModel::Double,
        MsgValue::Extension(kind, bytes) => MsgModel::Extension(kind, bytes@),
        MsgValue::Text(text) => MsgModel::Text(text@),
        MsgValue::RawText(bytes) => MsgModel::RawText(bytes@),
        MsgValue::Binary(bytes) => MsgModel::Binary(bytes@),
        MsgValue::Array(items) => MsgModel::Array(
            Seq::new(
                items@.len(),
                |i: int|
                    if 0 <= i < items@.len() {
                        msg_model(items@[i])
                    } else {
                        MsgModel::Other
                    },
            ),
        ),
        MsgValue::Table(entries) => MsgModel::Table(
            Seq::new(
                entries@.len(),
                |i: int|
                    if 0 <= i < entries@.len() {
                        (msg_model(entries@[i].0), msg_model(entries@[i].1))
                    } else {
                        (MsgModel::Other, MsgModel::Other)
                    },
            ),
        ),
        MsgValue::Other => MsgModel::Other,
    }
}

impl View for MsgValue {
    type V = MsgModel;

    open spec fn view(&self) -> MsgModel {
        msg_model(*self)
    }
}

/// What was read, or the words in which reading failed.
pub open spec fn decoded_model(decoded: Result<MsgValue, String>) -> Result<MsgModel, Seq<char>> {
    match decoded {
        Ok(value) => Ok(value@),
        Err(complaint) => Err(complaint@),
    }
}

/// Whether a value is nested at most `depth` deep.
pub open spec fn shallow(value: MsgModel, depth: nat) -> bool
    decreases depth,
{
    match value {
        MsgModel::Array(items) => depth > 0 && forall|i: int|
            0 <= i < items.len() ==> shallow(#[trigger] items[i], (depth - 1) as nat),
        MsgModel::Table(entries) => depth > 0 && forall|i: int|
            0 <= i < entries.len() ==> shallow((#[trigger] entries[i]).0, (depth - 1) as nat)
                && shallow(entries[i].1, (depth - 1) as nat),
        _ => true,
    }
}

pub(crate) proof fn lemma_shallow_items(value: MsgModel, depth: nat, i: int)
    requires
        shallow(value, depth),
        value is Array,
        0 <= i < value->Array_0.len(),
    ensures
        shallow(value->Array_0[i], (depth - 1) as nat),
{
    match value {
        MsgModel::Array(items) => {
            assert(shallow(items[i], (depth - 1) as nat));
        },
        _ => {},
    }
}

pub(crate) proof fn lemma_shallow_entries(value: MsgModel, depth: nat, i: int)
    requires
        shallow(value, depth),
        value is Table,
        0 <= i < value->Table_0.len(),
    ensures
        shallow(value->Table_0[i].0, (depth - 1) as nat),
        shallow(value->Table_0[i].1, (depth - 1) as nat),
{
    match value {
        MsgModel::Table(entries) => {
            assert(shallow(entries[i].0, (depth - 1) as nat));
        },
        _ => {},
    }
}

pub(crate) proof fn lemma_shallow_deeper(value: MsgModel, depth: nat, deeper: nat)
    requires
        shallow(value, depth),
        depth <= deeper,
    ensures
        shallow(value, deeper),
    decreases depth,
{
    match value {
        MsgModel::Array(items) => {
            assert forall|i: int| 0 <= i < items.len() implies shallow(
                #[trigger] items[i],
                (deeper - 1) as nat,
            ) by {
                lemma_shallow_items(value, depth, i);
                lemma_shallow_deeper(items[i], (depth - 1) as nat, (deeper - 1) as nat);
            }
        },
        MsgModel::Table(entries) => {
            assert forall|i: int| 0 <= i < entries.len() implies shallow(
                (#[trigger] entries[i]).0,
                (deeper - 1) as nat,
            ) && shallow(entries[i].1, (deeper - 1) as nat) by {
                lemma_shallow_entries(value, depth, i);
                lemma_shallow_deeper(entries[i].0, (depth - 1) as nat, (deeper - 1) as nat);
                lemma_shallow_deeper(entries[i].1, (depth - 1) as nat, (deeper - 1) as nat);
            }
        },
        _ => {},
    }
}

/// Whether a value is made of numbers, texts, byte strings, arrays and tables
/// whose lengths MessagePack can write.
pub open spec fn writable(value: MsgModel, depth: nat) -> bool
    decreases depth,
{
    match value {
        MsgModel::Uint(_) => true,
        MsgModel::Text(text) => encode_utf8(text).len() <= u32::MAX,
        MsgModel::Binary(bytes) => bytes.len() <= u32::MAX,
        MsgModel::Array(items) => depth > 0 && items.len() <= u32::MAX && forall|i: int|
            0 <= i < items.len() ==> writable(#[trigger] items[i], (depth - 1) as nat),
        MsgModel::Table(entries) => depth > 0 && entries.len() <= u32::MAX && forall|i: int|
            0 <= i < entries.len() ==> writable((#[trigger] entries[i]).0, (depth - 1) as nat)
                && writable(entries[i].1, (depth - 1) as nat),
        _ => false,
    }
}

/// The value that `rmpv::decode::read_value` reads at the start of a byte
/// string, or the words of its error.
pub uninterp spec fn msgpack_read(bytes: Seq<u8>) -> Result<MsgModel, Seq<char>>;

/// The bytes that `rmpv::encode::write_value` writes for a value.
pub uninterp spec fn msgpack_written(value: MsgModel) -> Seq<u8>;

/// How deep a value may be nested to be read.
pub const MAX_DEPTH: usize = 512;

/// `rmpv::decode::read_value` on a byte string: what it reads, and the words of
/// its error where it reads nothing, depend on the bytes alone. It reads nothing that
/// is nested deeper than 512 arrays and tables. What the bytes of each value are is
/// left unsaid.
#[verifier::external_body]
pub(crate) fn read_msgpack(bytes: &[u8]) -> (r: Result<MsgValue, String>)
    ensures
        decoded_model(r) == msgpack_read(bytes@),
        r is Ok ==> shallow(r->Ok_0@, MAX_DEPTH as nat),
{
    rmpv::decode::read_value(&mut std::io::Cursor::new(bytes)).map(from_rmpv).map_err(
        |error| error.to_string(),
    )
}

/// `rmpv::encode::write_value` into a vector, which cannot fail: what it writes
/// depends on the value alone, and `read_value` reads a writable value back.
#[verifier::external_body]
pub(crate) fn write_msgpack(value: &MsgValue) -> (r: Vec<u8>)
    requires
        shallow(value@, MAX_DEPTH as nat),
    ensures
        r@ == msgpack_written(value@),
        writable(value@, 16) ==> msgpack_read(r@) is Ok && msgpack_read(r@)->Ok_0 == value@,
{
    let mut encoded = Vec::new();
    let _ = rmpv::encode::write_value(&mut encoded, &to_rmpv(value));
    encoded
}

/// Turns an `rmpv::Value` into the value of this library, variant by variant.
#[verifier::external_body]
fn from_rmpv(value: rmpv::Value) -> MsgValue {
    match value {
        rmpv::Value::String(s) if s.is_str() => MsgValue::Text(s.into_str().unwrap_or_default()),
        rmpv::Value::String(s) => MsgValue::RawText(s.into_bytes()),
        rmpv::Value::Binary(bytes) => MsgValue::Binary(bytes),
        rmpv::Value::Array(items) => MsgValue::Array(items.into_iter().map(from_rmpv).collect()),
        rmpv::Value::Map(entries) => MsgValue::Table(
            entries.into_iter().map(|(k, v)| (from_rmpv(k), from_rmpv(v))).collect(),
        ),
        rmpv::Value::Ext(kind, bytes) => MsgValue::Extension(kind, bytes),
        other => number_from_rmpv(&other),
    }
}

/// Turns an `rmpv::Value` that is a number, nil or a boolean into the value of this
/// library, variant by variant.
#[verifier::external_body]
fn number_from_rmpv(value: &rmpv::Value) -> MsgValue {
    match value {
        rmpv::Value::Integer(n) if n.is_u64() => MsgValue::Uint(n.as_u64().unwrap_or_default()),
        rmpv::Value::Integer(n) => MsgValue::Int(n.as_i64().unwrap_or_default()),
        rmpv::Value::F32(_) => MsgValue::Single,
        rmpv::Value::F64(_) => MsgValue::Double,
        _ => MsgValue::Other,
    }
}

/// Turns a value of this library into an `rmpv::Value`, variant by variant. What is
/// no UTF-8 goes as a byte string, as `write_value` writes it; a floating-point
/// number goes as zero of its width, and what `Other` stands for as nil, which takes
/// as many bytes.
#[verifier::external_body]
fn to_rmpv(value: &MsgValue) -> rmpv::Value {
    match value {
        MsgValue::Text(text) => rmpv::Value::from(text.as_str()),
        MsgValue::RawText(bytes) => rmpv::Value::Binary(bytes.clone()),
        MsgValue::Binary(bytes) => rmpv::Value::Binary(bytes.clone()),
        MsgValue::Array(items) => rmpv::Value::Array(items.iter().map(to_rmpv).collect()),
        MsgValue::Table(entries) => rmpv::Value::Map(
            entries.iter().map(|(k, v)| (to_rmpv(k), to_rmpv(v))).collect(),
        ),
        MsgValue::Extension(kind, bytes) => rmpv::Value::Ext(*kind, bytes.clone()),
        other => number_to_rmpv(other),
    }
}

/// Turns a number of this library, or what `Other` stands for, into an
/// `rmpv::Value`, variant by variant.
#[verifier::external_body]
fn number_to_rmpv(value: &MsgValue) -> rmpv::Value {
    match value {
        MsgValue::Uint(number) => rmpv::Value::from(*number),
        MsgValue::Int(number) => rmpv::Value::from(*number),
        MsgValue::Single => rmpv::Value::F32(Default::default()),
        MsgValue::Double => rmpv::Value::F64(Default::default()),
        _ => rmpv::Value::Nil,
    }
}

/// `rmpv::Value`, carried between the outside calls and the conversions.
#[verifier::external_type_specification]
#[verifier::external_body]
pub struct ExRmpvValue(rmpv::Value);

} // verus!
