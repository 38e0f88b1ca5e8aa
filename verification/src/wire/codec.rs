//! Bytes to values and back, through the `rmpv` crate.
//!
//! `rmpv` reads and writes MessagePack; this module turns what it reads into
//! a [`WireValue`] and what it is to write into an `rmpv::Value`, one level
//! at a time.

use vstd::prelude::*;
use vstd::slice::slice_to_vec;
use crate::wire::value::{
    WireModel,
    WireValue,
    lemma_array_view,
    lemma_mapping_view,
    models,
    nests_within,
    pair_models,
};

verus! {

/// `rmpv::Value`, the value that `rmpv` reads and writes. Nothing of it is
/// seen here but through `open_value`.
#[verifier::external_type_specification]
#[verifier::external_body]
pub struct ExValue(rmpv::Value);

/// What an `rmpv::Value` holds. `open_value` says what that is, one level
/// at a time.
pub uninterp spec fn content(value: rmpv::Value) -> WireModel;

/// What `rmpv::decode::read_value` reads from the front of a run of bytes;
/// `None` where it reports an error.
pub uninterp spec fn decoding(bytes: Seq<u8>) -> Option<WireModel>;

/// The bytes that `rmpv::encode::write_value` writes for a value; `None`
/// where it reports an error.
pub uninterp spec fn encoding(value: WireModel) -> Option<Seq<u8>>;

/// How deep arrays and mappings may nest in a value that is encoded. A
/// value that nests deeper is refused: building and writing it goes one call
/// deeper with every level.
pub const MAX_NESTING: usize = 256;

/// The bytes of a value: what `rmpv` writes for it, where it nests no deeper
/// than `MAX_NESTING`.
pub open spec fn bytes_of(value: WireModel) -> Option<Seq<u8>> {
    if nests_within(value, MAX_NESTING as nat) {
        encoding(value)
    } else {
        None
    }
}

/// A floating-point number, carried as `rmpv` holds it. This crate reads no
/// float and makes none: one comes out of `decode` and goes back into
/// `encode` unchanged.
#[derive(Debug, PartialEq)]
pub struct FloatValue {
    raw: rmpv::Value,
}

impl FloatValue {
    /// The `rmpv` value that is carried.
    pub closed spec fn carried(self) -> rmpv::Value {
        self.raw
    }

    #[verifier::type_invariant]
    closed spec fn holds_float(self) -> bool {
        content(self.raw) == WireModel::Float(self.raw)
    }

    /// Takes a copy of a float that `rmpv` has read.
    fn carry(value: &rmpv::Value) -> (r: FloatValue)
        requires
            content(*value) == WireModel::Float(*value),
        ensures
            r.carried() == *value,
    {
        FloatValue { raw: clone_value(value) }
    }

    /// A copy of the number.
    pub fn duplicate(&self) -> (r: FloatValue)
        ensures
            r.carried() == self.carried(),
    {
        proof {
            use_type_invariant(self);
        }
        FloatValue { raw: clone_value(&self.raw) }
    }
}

/// `Clone::clone` of `rmpv::Value`: the copy holds what the value holds,
/// so the two are one value to the contracts.
#[verifier::external_body]
fn clone_value(value: &rmpv::Value) -> (r: rmpv::Value)
    ensures
        r == *value,
{
    value.clone()
}

/// What each of a run of `rmpv` values holds, in order.
spec fn contents(items: Seq<rmpv::Value>) -> Seq<WireModel> {
    Seq::new(items.len(), |i: int| content(items[i]))
}

/// What each of a run of pairs of `rmpv` values holds, in order.
spec fn pair_contents(pairs: Seq<(rmpv::Value, rmpv::Value)>) -> Seq<
    (WireModel, WireModel),
> {
    Seq::new(pairs.len(), |i: int| (content(pairs[i].0), content(pairs[i].1)))
}

/// The top level of an `rmpv::Value`: its variant, with the fields borrowed.
/// An integer comes as both of its readings, a string as its text (where it
/// is valid UTF-8) and its bytes.
enum Level<'a> {
    Nil,
    Boolean(bool),
    Integer(Option<u64>, Option<i64>),
    Float(&'a rmpv::Value),
    Text(Option<&'a str>, &'a [u8]),
    Binary(&'a [u8]),
    Array(&'a Vec<rmpv::Value>),
    Mapping(&'a Vec<(rmpv::Value, rmpv::Value)>),
    Ext(i8, &'a [u8]),
}

impl<'a> Level<'a> {
    /// The model of the value that this level was taken from.
    spec fn content(self) -> WireModel {
        match self {
            Level::Nil => WireModel::Nil,
            Level::Boolean(b) => WireModel::Boolean(b),
            Level::Integer(Some(u), _) => WireModel::Integer(u as int),
            Level::Integer(None, Some(i)) => WireModel::Integer(i as int),
            Level::Integer(None, None) => WireModel::Nil,
            Level::Float(x) => WireModel::Float(*x),
            Level::Text(Some(text), _) => WireModel::String(text@),
            Level::Text(None, bytes) => WireModel::Binary(bytes@),
            Level::Binary(bytes) => WireModel::Binary(bytes@),
            Level::Array(items) => WireModel::Array(contents(items@)),
            Level::Mapping(pairs) => WireModel::Mapping(pair_contents(pairs@)),
            Level::Ext(tag, data) => WireModel::Ext(tag, data@),
        }
    }
}

/// Tells the variants of `rmpv::Value` apart and hands out their fields.
/// The contract defines `content` level by level: a float holds itself, a
/// string that is not valid UTF-8 holds its bytes, an integer holds the
/// number that `Integer::as_u64` or `Integer::as_i64` gives, and one of the
/// two always gives one.
#[verifier::external_body]
fn open_value<'a>(value: &'a rmpv::Value) -> (level: Level<'a>)
    ensures
        level.content() == content(*value),
        level matches Level::Float(x) ==> *x == *value,
        level matches Level::Integer(u, i) ==> u is Some || i is Some,
{
    match value {
        rmpv::Value::Nil => Level::Nil,
        rmpv::Value::Boolean(b) => Level::Boolean(*b),
        rmpv::Value::Integer(n) => Level::Integer(n.as_u64(), n.as_i64()),
        rmpv::Value::F32(_) | rmpv::Value::F64(_) => Level::Float(value),
        rmpv::Value::String(s) => Level::Text(s.as_str(), s.as_bytes()),
        rmpv::Value::Binary(b) => Level::Binary(b),
        rmpv::Value::Array(a) => Level::Array(a),
        rmpv::Value::Map(m) => Level::Mapping(m),
        rmpv::Value::Ext(t, d) => Level::Ext(*t, d),
    }
}

/// The model that `close_value` builds: that of `shape`, with the elements
/// or pairs replaced by what `items` or `pairs` hold.
spec fn closed_content(
    shape: WireValue,
    items: Seq<rmpv::Value>,
    pairs: Seq<(rmpv::Value, rmpv::Value)>,
) -> WireModel {
    match shape {
        WireValue::Array(_) => WireModel::Array(contents(items)),
        WireValue::Mapping(_) => WireModel::Mapping(pair_contents(pairs)),
        _ => shape@,
    }
}

/// Builds the `rmpv::Value` of the same variant as `shape`: an array from
/// `items`, a mapping from `pairs`, anything else from `shape`'s own field
/// (integers through `Value::from`, which keeps the number).
#[verifier::external_body]
fn close_value(
    shape: &WireValue,
    items: Vec<rmpv::Value>,
    pairs: Vec<(rmpv::Value, rmpv::Value)>,
) -> (value: rmpv::Value)
    requires
        shape matches WireValue::Float(x) ==> content(x.carried()) == WireModel::Float(x.carried()),
    ensures
        content(value) == closed_content(*shape, items@, pairs@),
{
    match shape {
        WireValue::Nil => rmpv::Value::Nil,
        WireValue::Boolean(b) => rmpv::Value::Boolean(*b),
        WireValue::Unsigned(n) => rmpv::Value::from(*n),
        WireValue::Signed(n) => rmpv::Value::from(*n),
        WireValue::Float(x) => x.raw.clone(),
        WireValue::String(s) => rmpv::Value::from(s.as_str()),
        WireValue::Binary(b) => rmpv::Value::Binary(b.clone()),
        WireValue::Array(_) => rmpv::Value::Array(items),
        WireValue::Mapping(_) => rmpv::Value::Map(pairs),
        WireValue::Ext(t, d) => rmpv::Value::Ext(*t, d.clone()),
    }
}

/// `rmpv::decode::read_value` on a byte slice.
#[verifier::external_body]
fn read_value(bytes: &[u8]) -> (r: Option<rmpv::Value>)
    ensures
        decoding(bytes@) == match r {
            Some(value) => Some(content(value)),
            None => None,
        },
{
    let mut rest = bytes;
    rmpv::decode::read_value(&mut rest).ok()
}

/// `rmpv::encode::write_value` into a fresh buffer. It calls itself once
/// for every level of nesting, so the nesting is bounded.
#[verifier::external_body]
fn write_value(value: &rmpv::Value) -> (r: Option<Vec<u8>>)
    requires
        nests_within(content(*value), MAX_NESTING as nat),
    ensures
        encoding(content(*value)) == match r {
            Some(bytes) => Some(bytes@),
            None => None,
        },
{
    let mut buffer = Vec::new();
    rmpv::encode::write_value(&mut buffer, value).ok().map(|_| buffer)
}

/// Rebuilds what `rmpv` has read as a value of this crate.
fn lift(value: &rmpv::Value) -> (r: WireValue)
    ensures
        r@ == content(*value),
    decreases content(*value),
{
    match open_value(value) {
        Level::Nil => WireValue::Nil,
        Level::Boolean(b) => WireValue::Boolean(b),
        Level::Integer(Some(u), _) => WireValue::Unsigned(u),
        Level::Integer(None, Some(i)) => WireValue::Signed(i),
        Level::Integer(None, None) => WireValue::Nil,
        Level::Float(x) => WireValue::Float(FloatValue::carry(x)),
        Level::Text(Some(text), _) => WireValue::String(text.to_owned()),
        Level::Text(None, bytes) => WireValue::Binary(slice_to_vec(bytes)),
        Level::Binary(bytes) => WireValue::Binary(slice_to_vec(bytes)),
        Level::Array(items) => {
            let mut out: Vec<WireValue> = Vec::new();
            let mut i: usize = 0;
            while i < items.len()
                invariant
                    i <= items.len(),
                    out@.len() == i,
                    content(*value) == WireModel::Array(contents(items@)),
                    forall|j: int| 0 <= j < i ==> (#[trigger] out@[j])@ == content(items@[j]),
                decreases items.len() - i,
            {
                assert(contents(items@)[i as int] == content(items@[i as int]));
                assert(decreases_to!(content(*value) => content(*value)->Array_0));
                assert(decreases_to!(contents(items@) => contents(items@)[i as int]));
                let child = lift(&items[i]);
                out.push(child);
                i += 1;
            }
            proof {
                lemma_array_view(out);
                assert(models(out@) =~= contents(items@));
            }
            WireValue::Array(out)
        },
        Level::Mapping(pairs) => {
            let mut out: Vec<(WireValue, WireValue)> = Vec::new();
            let mut i: usize = 0;
            while i < pairs.len()
                invariant
                    i <= pairs.len(),
                    out@.len() == i,
                    content(*value) == WireModel::Mapping(pair_contents(pairs@)),
                    forall|j: int|
                        0 <= j < i ==> (#[trigger] out@[j]).0@ == content(pairs@[j].0) && out@[j].1@
                            == content(pairs@[j].1),
                decreases pairs.len() - i,
            {
                assert(pair_contents(pairs@)[i as int] == (
                    content(pairs@[i as int].0),
                    content(pairs@[i as int].1),
                ));
                assert(decreases_to!(content(*value) => content(*value)->Mapping_0));
                assert(decreases_to!(pair_contents(pairs@) => pair_contents(pairs@)[i as int]));
                assert(decreases_to!(pair_contents(pairs@)[i as int] => pair_contents(pairs@)[i as int].0));
                assert(decreases_to!(pair_contents(pairs@)[i as int] => pair_contents(pairs@)[i as int].1));
                let key = lift(&pairs[i].0);
                let item = lift(&pairs[i].1);
                out.push((key, item));
                i += 1;
            }
            proof {
                lemma_mapping_view(out);
                assert(pair_models(out@) =~= pair_contents(pairs@));
            }
            WireValue::Mapping(out)
        },
        Level::Ext(tag, data) => WireValue::Ext(tag, slice_to_vec(data)),
    }
}

/// Rebuilds a value of this crate as one that `rmpv` can write.
fn lower(value: &WireValue) -> (r: rmpv::Value)
    ensures
        content(r) == value@,
    decreases value,
{
    let mut items: Vec<rmpv::Value> = Vec::new();
    let mut pairs: Vec<(rmpv::Value, rmpv::Value)> = Vec::new();
    match value {
        WireValue::Array(elements) => {
            let mut i: usize = 0;
            while i < elements.len()
                invariant
                    i <= elements.len(),
                    items@.len() == i,
                    *value == WireValue::Array(*elements),
                    forall|j: int| 0 <= j < i ==> content(#[trigger] items@[j]) == elements@[j]@,
                decreases elements.len() - i,
            {
                assert(*elements == value->Array_0);
                assert(decreases_to!(*value => value->Array_0));
                assert(decreases_to!(*elements => elements@));
                assert(decreases_to!(elements@ => elements@[i as int]));
                let child = lower(&elements[i]);
                items.push(child);
                i += 1;
            }
            proof {
                lemma_array_view(*elements);
                assert(contents(items@) =~= models(elements@));
            }
        },
        WireValue::Mapping(entries) => {
            let mut i: usize = 0;
            while i < entries.len()
                invariant
                    i <= entries.len(),
                    pairs@.len() == i,
                    *value == WireValue::Mapping(*entries),
                    forall|j: int|
                        0 <= j < i ==> content((#[trigger] pairs@[j]).0) == entries@[j].0@
                            && content(pairs@[j].1) == entries@[j].1@,
                decreases entries.len() - i,
            {
                assert(decreases_to!(*value => value->Mapping_0));
                assert(decreases_to!(*entries => entries@));
                assert(decreases_to!(entries@ => entries@[i as int]));
                assert(decreases_to!(entries@[i as int] => entries@[i as int].0));
                assert(decreases_to!(entries@[i as int] => entries@[i as int].1));
                let key = lower(&entries[i].0);
                let item = lower(&entries[i].1);
                pairs.push((key, item));
                i += 1;
            }
            proof {
                lemma_mapping_view(*entries);
                assert(pair_contents(pairs@) =~= pair_models(entries@));
            }
        },
        WireValue::Float(x) => {
            proof {
                use_type_invariant(x);
            }
        },
        _ => {},
    }
    close_value(value, items, pairs)
}

/// Decodes one value from the front of `bytes`. `None` where `rmpv` reports
/// an error: the bytes end too early, or the value nests deeper than `rmpv`
/// reads.
pub fn decode(bytes: &[u8]) -> (r: Option<WireValue>)
    ensures
        decoding(bytes@) == match r {
            Some(value) => Some(value@),
            None => None,
        },
{
    match read_value(bytes) {
        Some(raw) => Some(lift(&raw)),
        None => None,
    }
}

/// Encodes one value. `None` where the value nests deeper than
/// `MAX_NESTING` or `rmpv` reports an error.
pub fn encode(value: &WireValue) -> (r: Option<Vec<u8>>)
    ensures
        bytes_of(value@) == match r {
            Some(bytes) => Some(bytes@),
            None => None,
        },
{
    if !value.nests_within(MAX_NESTING) {
        return None;
    }
    let raw = lower(value);
    write_value(&raw)
}

} // verus!
