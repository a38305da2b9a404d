//! The JSON document tree and the operations the filters need from it.
//!
//! Documents are `serde_json::Value`s.  The verifier cannot look inside one,
//! so this module gives every document a mathematical model, [`Json`], and
//! states what each operation of `serde_json` used here does in terms of that
//! model.  Nothing in this module is proved: it is the boundary on which the
//! proofs of the other modules rest.

use crate::double::Double;
use serde_json::Value;
use vstd::prelude::*;

verus! {

/// The model of a JSON number.
pub struct JsonNumber {
    /// The exact value, where the number is held as an integer, and `None`
    /// where it is held as a double.
    pub integer: Option<int>,
    /// The double that the number converts to.  `serde_json` holds no NaN and
    /// no infinity, and neither does an integer convert to one.
    pub double: Double,
}

impl JsonNumber {
    /// The place of the number on the line of all doubles.  A document's
    /// number is never a NaN, so its rank is its value for every comparison.
    pub open spec fn rank(self) -> int {
        self.double.rank()
    }

    /// The number is equal to `n`: never, where `n` is a NaN.
    pub open spec fn same(self, n: Double) -> bool {
        !n.is_nan() && self.rank() == n.rank()
    }

    /// The number is less than `n`: never, where `n` is a NaN.
    pub open spec fn below(self, n: Double) -> bool {
        !n.is_nan() && self.rank() < n.rank()
    }

    /// The number is greater than `n`: never, where `n` is a NaN.
    pub open spec fn above(self, n: Double) -> bool {
        !n.is_nan() && self.rank() > n.rank()
    }

    /// The number is less than or equal to `n`: never, where `n` is a NaN.
    pub open spec fn at_most(self, n: Double) -> bool {
        !n.is_nan() && self.rank() <= n.rank()
    }

    /// The number is greater than or equal to `n`: never, where `n` is a NaN.
    pub open spec fn at_least(self, n: Double) -> bool {
        !n.is_nan() && self.rank() >= n.rank()
    }
}

/// The model of a JSON document.
pub enum Json {
    Null,
    Bool(bool),
    Number(JsonNumber),
    String(Seq<char>),
    Array(Seq<Json>),
    Object(Map<Seq<char>, Json>),
}

/// Structural equality of documents: the same kind, and equal contents all
/// the way down.  Arrays are equal element by element, in order; objects
/// where they hold the same keys with equal values.  A number held as an
/// integer never equals one held as a double; two integers are equal as
/// integers, two doubles where they have one rank, so the two zeros are
/// equal.
pub open spec fn json_equal(a: Json, b: Json) -> bool
    decreases a,
{
    match (a, b) {
        (Json::Null, Json::Null) => true,
        (Json::Bool(x), Json::Bool(y)) => x == y,
        (Json::Number(x), Json::Number(y)) => x.integer == y.integer && x.rank() == y.rank(),
        (Json::String(x), Json::String(y)) => x == y,
        (Json::Array(x), Json::Array(y)) => x.len() == y.len() && forall|i: int|
            0 <= i < x.len() ==> json_equal(#[trigger] x[i], y[i]),
        (Json::Object(x), Json::Object(y)) => x.dom().finite() && x.dom() == y.dom() && forall|
            k: Seq<char>,
        |
            x.dom().contains(k) ==> json_equal(#[trigger] x[k], y[k]),
        _ => false,
    }
}

/// `serde_json::Value`, of which the verifier sees nothing but the name.
#[verifier::external_type_specification]
#[verifier::external_body]
pub struct ExValue(Value);

/// The model of a document: what it holds, all the way down.
pub uninterp spec fn json_of(v: Value) -> Json;

/// The text that `serde_json` writes for a document with the given model
/// when it is formatted with `{:?}`.
pub uninterp spec fn debug_text(j: Json) -> Seq<char>;

/// `Value::clone`: the copy has the model of the document it was made from.
pub assume_specification[ <Value as Clone>::clone ](v: &Value) -> (r: Value)
    ensures
        json_of(r) == json_of(*v),
;

/// `Value::get` with a string: the member of an object under the key, and
/// `None` where the document is no object or the object lacks the key.
#[verifier::external_body]
pub(crate) fn get_key<'a>(v: &'a Value, key: &str) -> (r: Option<&'a Value>)
    ensures
        match json_of(*v) {
            Json::Object(members) if members.contains_key(key@) => r is Some && json_of(
                *r.unwrap(),
            ) == members[key@],
            _ => r is None,
        },
{
    v.get(key)
}

/// `Value::as_array`: the elements of an array in order, and `None` for any
/// other kind of document.
#[verifier::external_body]
pub(crate) fn as_array(v: &Value) -> (r: Option<&Vec<Value>>)
    ensures
        match json_of(*v) {
            Json::Array(items) => r is Some && r.unwrap()@.len() == items.len() && forall|i: int|
                0 <= i < items.len() ==> json_of(#[trigger] r.unwrap()@[i]) == items[i],
            _ => r is None,
        },
{
    v.as_array()
}

/// `Value::as_str`: the text of a string, and `None` for any other kind of
/// document.
#[verifier::external_body]
pub(crate) fn as_str(v: &Value) -> (r: Option<&str>)
    ensures
        match json_of(*v) {
            Json::String(s) => r is Some && r.unwrap()@ == s,
            _ => r is None,
        },
{
    v.as_str()
}

/// `Value::as_f64`, its result taken by its bits: the double that a number
/// converts to, and `None` for any other kind of document.  The double is
/// never a NaN: `serde_json` holds finite doubles only, and an integer
/// converts to a finite double.
#[verifier::external_body]
pub(crate) fn as_double(v: &Value) -> (r: Option<Double>)
    ensures
        match json_of(*v) {
            Json::Number(n) => r == Some(n.double) && !r.unwrap().is_nan(),
            _ => r is None,
        },
{
    v.as_f64().map(|x| Double { bits: x.to_bits() })
}

/// `Value::is_object`.
#[verifier::external_body]
pub(crate) fn is_object(v: &Value) -> (r: bool)
    ensures
        r == (json_of(*v) is Object),
{
    v.is_object()
}

/// `Value::eq`, the `==` of documents: structural equality.
#[verifier::external_body]
pub(crate) fn equal(a: &Value, b: &Value) -> (r: bool)
    ensures
        r == json_equal(json_of(*a), json_of(*b)),
{
    a == b
}

/// `Value`'s `Debug`, through `format!`: the rendering of a document.  It is
/// a function of the model alone: an integer is written as an integer, a
/// double from its bits, and the members of an object in the order of their
/// keys, which is how `serde_json` holds them unless it is built to keep the
/// order of insertion.
#[verifier::external_body]
pub(crate) fn debug_string(v: &Value) -> (r: String)
    ensures
        r@ == debug_text(json_of(*v)),
{
    format!("{:?}", v)
}

} // verus!
