//! The tree that is searched: scalars, arrays and objects, with the
//! mathematical model that the contracts speak of.

use vstd::prelude::*;

verus! {

/// Mask of the eleven exponent bits of an IEEE 754 binary64 pattern.
pub const EXPONENT_MASK: u64 = 0x7ff0_0000_0000_0000;

/// The binary64 pattern of negative zero.
pub const NEGATIVE_ZERO: u64 = 0x8000_0000_0000_0000;

/// What a number is, as far as equality can tell.
///
/// An integer is the integer itself. A floating-point number is its binary64
/// pattern, where negative zero is folded into zero: two finite doubles are
/// equal exactly when these patterns are.
pub enum Numeric {
    Int(int),
    Float(u64),
}

/// A binary64 pattern is finite when its exponent is not all ones.
pub open spec fn is_finite_pattern(bits: u64) -> bool {
    bits & EXPONENT_MASK != EXPONENT_MASK
}

/// The pattern that stands for every pattern equal to `bits` as a double.
pub open spec fn canonical_pattern(bits: u64) -> u64 {
    if bits == NEGATIVE_ZERO {
        0
    } else {
        bits
    }
}

#[derive(Clone, Copy, Debug)]
enum Repr {
    PosInt(u64),
    NegInt(i64),
    Float(u64),
}

/// A number: a non-negative integer up to `u64::MAX`, a negative integer down
/// to `i64::MIN`, or a finite double held by its bit pattern.
#[derive(Clone, Copy, Debug)]
pub struct Number {
    repr: Repr,
}

impl View for Number {
    type V = Numeric;

    closed spec fn view(&self) -> Numeric {
        match self.repr {
            Repr::PosInt(n) => Numeric::Int(n as int),
            Repr::NegInt(n) => Numeric::Int(n as int),
            Repr::Float(bits) => Numeric::Float(canonical_pattern(bits)),
        }
    }
}

impl Number {
    /// A negative integer is never held as a non-negative one, and a double is
    /// finite.
    #[verifier::type_invariant]
    spec fn well_formed(self) -> bool {
        match self.repr {
            Repr::PosInt(_) => true,
            Repr::NegInt(n) => n < 0,
            Repr::Float(bits) => is_finite_pattern(bits),
        }
    }

    /// The number `n`.
    pub fn from_u64(n: u64) -> (number: Number)
        ensures
            number@ == Numeric::Int(n as int),
    {
        Number { repr: Repr::PosInt(n) }
    }

    /// The number `n`.
    pub fn from_i64(n: i64) -> (number: Number)
        ensures
            number@ == Numeric::Int(n as int),
    {
        if n < 0 {
            Number { repr: Repr::NegInt(n) }
        } else {
            Number { repr: Repr::PosInt(n as u64) }
        }
    }

    /// The double with the bit pattern `bits`, if it is finite: infinities and
    /// NaN are no numbers.
    pub fn from_f64_bits(bits: u64) -> (number: Option<Number>)
        ensures
            number is Some <==> is_finite_pattern(bits),
            number matches Some(n) ==> n@ == Numeric::Float(canonical_pattern(bits)),
    {
        if bits & EXPONENT_MASK != EXPONENT_MASK {
            Some(Number { repr: Repr::Float(bits) })
        } else {
            None
        }
    }

    /// Whether two numbers are equal: both integers and the same integer, or
    /// both doubles and equal as doubles. An integer never equals a double.
    pub fn equals(&self, other: &Number) -> (equal: bool)
        ensures
            equal == (self@ == other@),
    {
        proof {
            use_type_invariant(self);
            use_type_invariant(other);
        }
        match (self.repr, other.repr) {
            (Repr::PosInt(a), Repr::PosInt(b)) => a == b,
            (Repr::NegInt(a), Repr::NegInt(b)) => a == b,
            (Repr::Float(a), Repr::Float(b)) => {
                a == b || ((a == 0 || a == NEGATIVE_ZERO) && (b == 0 || b == NEGATIVE_ZERO))
            },
            _ => false,
        }
    }
}

/// A node of the tree: a scalar, an array of nodes, or an object, which maps
/// keys to nodes and keeps its entries in order.
///
/// An object is meant to hold each key once. Nothing in this library depends
/// on it: an entry is looked at by itself.
#[derive(Debug)]
pub enum Value {
    Null,
    Bool(bool),
    Number(Number),
    String(String),
    Array(Vec<Value>),
    Object(Vec<(String, Value)>),
}

/// The tree as a mathematical value. Two nodes are equal in the sense of
/// this library exactly when their models are: by kind first, then by
/// content.
pub enum Json {
    Null,
    Bool(bool),
    Number(Numeric),
    String(Seq<char>),
    Array(Seq<Json>),
    Object(Seq<(Seq<char>, Json)>),
}

impl Value {
    /// The tree as a mathematical value: each node by its kind and content,
    /// an array by the models of its items, an object by its keys and the
    /// models of their values, all in order.
    pub open spec fn model(self) -> Json
        decreases self,
    {
        match self {
            Value::Null => Json::Null,
            Value::Bool(b) => Json::Bool(b),
            Value::Number(n) => Json::Number(n@),
            Value::String(s) => Json::String(s@),
            Value::Array(items) => Json::Array(
                Seq::new(
                    items@.len(),
                    |i: int|
                        if 0 <= i < items@.len() {
                            items@[i].model()
                        } else {
                            Json::Null
                        },
                ),
            ),
            Value::Object(entries) => Json::Object(
                Seq::new(
                    entries@.len(),
                    |i: int|
                        if 0 <= i < entries@.len() {
                            (entries@[i].0@, entries@[i].1.model())
                        } else {
                            (Seq::empty(), Json::Null)
                        },
                ),
            ),
        }
    }
}

impl View for Value {
    type V = Json;

    open spec fn view(&self) -> Json {
        self.model()
    }
}

impl Value {
    /// Whether this node is a scalar equal to `other`: of the same kind and
    /// with the same content. An array or an object is no scalar.
    pub fn scalar_equals(&self, other: &Value) -> (equal: bool)
        ensures
            equal == (self@.is_scalar() && self@ == other@),
    {
        match (self, other) {
            (Value::Null, Value::Null) => true,
            (Value::Bool(a), Value::Bool(b)) => *a == *b,
            (Value::Number(a), Value::Number(b)) => a.equals(b),
            (Value::String(a), Value::String(b)) => *a == *b,
            _ => false,
        }
    }

    /// Whether this node is the string `key`.
    pub fn is_key(&self, key: &String) -> (equal: bool)
        ensures
            equal == (self@ == Json::String(key@)),
    {
        match self {
            Value::String(text) => *text == *key,
            _ => false,
        }
    }
}

impl Json {
    /// A scalar is a node that holds no other node.
    pub open spec fn is_scalar(self) -> bool {
        !(self is Array) && !(self is Object)
    }

    /// Whether `target` occurs in this tree: as a scalar node, or as the key of
    /// an entry of an object.
    pub open spec fn occurs(self, target: Json) -> bool
        decreases self,
    {
        match self {
            Json::Array(items) => exists|i: int|
                0 <= i < items.len() && (#[trigger] items[i]).occurs(target),
            Json::Object(entries) => exists|i: int|
                0 <= i < entries.len() && (Json::String((#[trigger] entries[i]).0) == target
                    || entries[i].1.occurs(target)),
            _ => self == target,
        }
    }

    /// Whether `node` is this tree itself or a node somewhere below it.
    pub open spec fn has_node(self, node: Json) -> bool
        decreases self,
    {
        self == node || match self {
            Json::Array(items) => exists|i: int|
                0 <= i < items.len() && (#[trigger] items[i]).has_node(node),
            Json::Object(entries) => exists|i: int|
                0 <= i < entries.len() && (#[trigger] entries[i]).1.has_node(node),
            _ => false,
        }
    }

    /// Whether this node is an object with an entry under `key`.
    pub open spec fn has_key(self, key: Seq<char>) -> bool {
        self matches Json::Object(entries) && exists|i: int|
            0 <= i < entries.len() && (#[trigger] entries[i]).0 == key
    }

    /// Whether `target` is matched at this very node: the node is a scalar
    /// equal to it, or an object with it as a key.
    pub open spec fn matches_here(self, target: Json) -> bool {
        (self.is_scalar() && self == target) || (target matches Json::String(key) && self.has_key(
            key,
        ))
    }
}


} // verus!
