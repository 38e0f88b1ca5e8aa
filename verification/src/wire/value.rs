//! The generic value that travels on the wire, and its mathematical model.

use vstd::prelude::*;
use vstd::slice::slice_to_vec;
use crate::wire::codec::FloatValue;

verus! {

/// A wire value as the contracts see it: sequences in place of vectors and
/// strings, and one mathematical integer in place of the two machine forms.
pub enum WireModel {
    Nil,
    Boolean(bool),
    Integer(int),
    Float(rmpv::Value),
    String(Seq<char>),
    Binary(Seq<u8>),
    Array(Seq<WireModel>),
    Mapping(Seq<(WireModel, WireModel)>),
    Ext(i8, Seq<u8>),
}

impl WireModel {
    /// The integer as a `u64`, where the value is an integer that fits.
    pub open spec fn as_unsigned(self) -> Option<u64> {
        match self {
            WireModel::Integer(n) if 0 <= n <= u64::MAX => Some(n as u64),
            _ => None,
        }
    }

    /// The integer as an `i64`, where the value is an integer that fits.
    pub open spec fn as_signed(self) -> Option<i64> {
        match self {
            WireModel::Integer(n) if i64::MIN <= n <= i64::MAX => Some(n as i64),
            _ => None,
        }
    }

    /// The characters, where the value is a string.
    pub open spec fn as_text(self) -> Option<Seq<char>> {
        match self {
            WireModel::String(s) => Some(s),
            _ => None,
        }
    }

    /// The elements, where the value is an array.
    pub open spec fn as_items(self) -> Option<Seq<WireModel>> {
        match self {
            WireModel::Array(items) => Some(items),
            _ => None,
        }
    }
}

/// Whether arrays and mappings nest at most `limit` deep in a value. A value
/// that is neither nests zero deep.
pub open spec fn nests_within(value: WireModel, limit: nat) -> bool
    decreases limit,
{
    match value {
        WireModel::Array(items) => if limit == 0 {
            false
        } else {
            forall|i: int|
                0 <= i < items.len() ==> nests_within(#[trigger] items[i], (limit - 1) as nat)
        },
        WireModel::Mapping(pairs) => if limit == 0 {
            false
        } else {
            forall|i: int|
                0 <= i < pairs.len() ==> nests_within((#[trigger] pairs[i]).0, (limit - 1) as nat)
                    && nests_within(pairs[i].1, (limit - 1) as nat)
        },
        _ => true,
    }
}

/// One value of the wire format: a closed tagged union.
#[derive(Debug, PartialEq)]
pub enum WireValue {
    /// The null value.
    Nil,
    /// True or false.
    Boolean(bool),
    /// An integer held as unsigned.
    Unsigned(u64),
    /// An integer held as signed.
    Signed(i64),
    /// A floating-point number, carried as the codec holds it.
    Float(FloatValue),
    /// A string.
    String(String),
    /// A byte string.
    Binary(Vec<u8>),
    /// An ordered array of values.
    Array(Vec<WireValue>),
    /// An ordered mapping from value to value.
    Mapping(Vec<(WireValue, WireValue)>),
    /// An application-defined extension: a type tag and its bytes.
    Ext(i8, Vec<u8>),
}

/// The model of a value: each element and each pair modelled in turn.
pub open spec fn model_of(value: WireValue) -> WireModel
    decreases value,
{
    match value {
        WireValue::Nil => WireModel::Nil,
        WireValue::Boolean(b) => WireModel::Boolean(b),
        WireValue::Unsigned(n) => WireModel::Integer(n as int),
        WireValue::Signed(n) => WireModel::Integer(n as int),
        WireValue::Float(x) => WireModel::Float(x.carried()),
        WireValue::String(s) => WireModel::String(s@),
        WireValue::Binary(b) => WireModel::Binary(b@),
        WireValue::Array(items) => WireModel::Array(
            Seq::new(
                items@.len(),
                |i: int|
                    if 0 <= i < items@.len() {
                        model_of(items@[i])
                    } else {
                        WireModel::Nil
                    },
            ),
        ),
        WireValue::Mapping(pairs) => WireModel::Mapping(
            Seq::new(
                pairs@.len(),
                |i: int|
                    if 0 <= i < pairs@.len() {
                        (model_of(pairs@[i].0), model_of(pairs@[i].1))
                    } else {
                        (WireModel::Nil, WireModel::Nil)
                    },
            ),
        ),
        WireValue::Ext(tag, data) => WireModel::Ext(tag, data@),
    }
}

impl View for WireValue {
    type V = WireModel;

    open spec fn view(&self) -> WireModel {
        model_of(*self)
    }
}

/// The models of a run of values, in order.
pub open spec fn models(items: Seq<WireValue>) -> Seq<WireModel> {
    Seq::new(items.len(), |i: int| items[i]@)
}

/// The models of a run of key-value pairs, in order.
pub open spec fn pair_models(pairs: Seq<(WireValue, WireValue)>) -> Seq<(WireModel, WireModel)> {
    Seq::new(pairs.len(), |i: int| (pairs[i].0@, pairs[i].1@))
}

/// The model of an array is the array of its elements' models.
pub proof fn lemma_array_view(items: Vec<WireValue>)
    ensures
        WireValue::Array(items)@ == WireModel::Array(models(items@)),
{
    reveal_with_fuel(model_of, 2);
    assert(WireValue::Array(items)@->Array_0 =~= models(items@));
}

/// The model of a mapping is the sequence of its pairs' models.
pub proof fn lemma_mapping_view(pairs: Vec<(WireValue, WireValue)>)
    ensures
        WireValue::Mapping(pairs)@ == WireModel::Mapping(pair_models(pairs@)),
{
    reveal_with_fuel(model_of, 2);
    assert(WireValue::Mapping(pairs)@->Mapping_0 =~= pair_models(pairs@));
}

impl WireValue {
    /// The integer as a `u64`, where the value is an integer that fits.
    pub fn as_u64(&self) -> (r: Option<u64>)
        ensures
            r == self@.as_unsigned(),
    {
        match self {
            WireValue::Unsigned(n) => Some(*n),
            WireValue::Signed(n) => if *n >= 0 {
                Some(*n as u64)
            } else {
                None
            },
            _ => None,
        }
    }

    /// The integer as an `i64`, where the value is an integer that fits.
    pub fn as_i64(&self) -> (r: Option<i64>)
        ensures
            r == self@.as_signed(),
    {
        match self {
            WireValue::Unsigned(n) => if *n <= i64::MAX as u64 {
                Some(*n as i64)
            } else {
                None
            },
            WireValue::Signed(n) => Some(*n),
            _ => None,
        }
    }

    /// The string, where the value is one.
    pub fn as_str(&self) -> (r: Option<&str>)
        ensures
            match r {
                Some(s) => self@.as_text() == Some(s@),
                None => self@.as_text() is None,
            },
    {
        match self {
            WireValue::String(s) => Some(s.as_str()),
            _ => None,
        }
    }

    /// Whether arrays and mappings nest at most `limit` deep in the value.
    pub fn nests_within(&self, limit: usize) -> (r: bool)
        ensures
            r == nests_within(self@, limit as nat),
        decreases limit,
    {
        proof {
            reveal_with_fuel(nests_within, 2);
        }
        match self {
            WireValue::Array(items) => {
                proof {
                    lemma_array_view(*items);
                }
                if limit == 0 {
                    return false;
                }
                let mut i: usize = 0;
                while i < items.len()
                    invariant
                        i <= items.len(),
                        limit > 0,
                        self@ == WireModel::Array(models(items@)),
                        forall|j: int|
                            0 <= j < i ==> nests_within(
                                #[trigger] models(items@)[j],
                                (limit - 1) as nat,
                            ),
                    decreases items.len() - i,
                {
                    assert(models(items@)[i as int] == items@[i as int]@);
                    if !items[i].nests_within(limit - 1) {
                        proof {
                            reveal_with_fuel(nests_within, 2);
                            assert(!nests_within(self@->Array_0[i as int], (limit - 1) as nat));
                        }
                        return false;
                    }
                    i += 1;
                }
                true
            },
            WireValue::Mapping(pairs) => {
                proof {
                    lemma_mapping_view(*pairs);
                }
                if limit == 0 {
                    return false;
                }
                let mut i: usize = 0;
                while i < pairs.len()
                    invariant
                        i <= pairs.len(),
                        limit > 0,
                        self@ == WireModel::Mapping(pair_models(pairs@)),
                        forall|j: int|
                            0 <= j < i ==> nests_within(
                                (#[trigger] pair_models(pairs@)[j]).0,
                                (limit - 1) as nat,
                            ) && nests_within(pair_models(pairs@)[j].1, (limit - 1) as nat),
                    decreases pairs.len() - i,
                {
                    assert(pair_models(pairs@)[i as int] == (
                        pairs@[i as int].0@,
                        pairs@[i as int].1@,
                    ));
                    if !pairs[i].0.nests_within(limit - 1) {
                        proof {
                            reveal_with_fuel(nests_within, 2);
                            assert(!nests_within(
                                self@->Mapping_0[i as int].0,
                                (limit - 1) as nat,
                            ));
                        }
                        return false;
                    }
                    if !pairs[i].1.nests_within(limit - 1) {
                        proof {
                            reveal_with_fuel(nests_within, 2);
                            assert(!nests_within(
                                self@->Mapping_0[i as int].1,
                                (limit - 1) as nat,
                            ));
                        }
                        return false;
                    }
                    i += 1;
                }
                true
            },
            _ => true,
        }
    }

    /// A copy of the value.
    pub fn duplicate(&self) -> (r: WireValue)
        ensures
            r@ == self@,
        decreases self,
    {
        match self {
            WireValue::Nil => WireValue::Nil,
            WireValue::Boolean(b) => WireValue::Boolean(*b),
            WireValue::Unsigned(n) => WireValue::Unsigned(*n),
            WireValue::Signed(n) => WireValue::Signed(*n),
            WireValue::Float(x) => WireValue::Float(x.duplicate()),
            WireValue::String(s) => WireValue::String(s.clone()),
            WireValue::Binary(b) => WireValue::Binary(slice_to_vec(b.as_slice())),
            WireValue::Array(items) => {
                let mut out: Vec<WireValue> = Vec::new();
                let mut i: usize = 0;
                while i < items.len()
                    invariant
                        i <= items.len(),
                        out@.len() == i,
                        *self == WireValue::Array(*items),
                        forall|j: int| 0 <= j < i ==> (#[trigger] out@[j])@ == items@[j]@,
                    decreases items.len() - i,
                {
                    assert(decreases_to!(*self => self->Array_0));
                    assert(decreases_to!(*items => items@));
                    assert(decreases_to!(items@ => items@[i as int]));
                    let item = items[i].duplicate();
                    out.push(item);
                    i += 1;
                }
                proof {
                    lemma_array_view(out);
                    lemma_array_view(*items);
                    assert(models(out@) =~= models(items@));
                }
                WireValue::Array(out)
            },
            WireValue::Mapping(pairs) => {
                let mut out: Vec<(WireValue, WireValue)> = Vec::new();
                let mut i: usize = 0;
                while i < pairs.len()
                    invariant
                        i <= pairs.len(),
                        out@.len() == i,
                        *self == WireValue::Mapping(*pairs),
                        forall|j: int|
                            0 <= j < i ==> (#[trigger] out@[j]).0@ == pairs@[j].0@ && out@[j].1@
                                == pairs@[j].1@,
                    decreases pairs.len() - i,
                {
                    assert(decreases_to!(*self => self->Mapping_0));
                    assert(decreases_to!(*pairs => pairs@));
                    assert(decreases_to!(pairs@ => pairs@[i as int]));
                    assert(decreases_to!(pairs@[i as int] => pairs@[i as int].0));
                    assert(decreases_to!(pairs@[i as int] => pairs@[i as int].1));
                    let key = pairs[i].0.duplicate();
                    let item = pairs[i].1.duplicate();
                    out.push((key, item));
                    i += 1;
                }
                proof {
                    lemma_mapping_view(out);
                    lemma_mapping_view(*pairs);
                    assert(pair_models(out@) =~= pair_models(pairs@));
                }
                WireValue::Mapping(out)
            },
            WireValue::Ext(tag, data) => WireValue::Ext(*tag, slice_to_vec(data.as_slice())),
        }
    }

    /// The elements, where the value is an array.
    pub fn as_array(&self) -> (r: Option<&Vec<WireValue>>)
        ensures
            match r {
                Some(items) => self@.as_items() == Some(models(items@)),
                None => self@.as_items() is None,
            },
    {
        match self {
            WireValue::Array(items) => {
                proof {
                    lemma_array_view(*items);
                }
                Some(items)
            },
            _ => None,
        }
    }
}

} // verus!
