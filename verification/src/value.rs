//! The tagged value type: the universal currency of the interpreter.
//!
//! A value is a number, a boolean, a string, a handle to a heap object, or
//! one of four sentinels (`Uninitialized`, `Empty`, `Null`, `Undefined`).
//! `Empty` marks a slot that is reserved but not yet written; every public
//! read path converts it to `Undefined` before handing it out.
//!
//! This module holds the operations that read no heap state: type tests,
//! boolean coercion, equality, relational and arithmetic operators. Where an
//! operand combination is outside the implemented core (coercion of an object
//! to a primitive, for one), the operators uniformly return `Undefined`, and
//! their contracts say exactly when.

use crate::num::JsNum;
use crate::num::parse_num;
use crate::num::parse_num_str;
use crate::text::str_eq;
use vstd::prelude::*;
use vstd::string::StrSliceExecFns;
use vstd::string::StringExecFns;

verus! {

/// The non-payload value kinds.
#[derive(Clone, Copy, Debug, PartialEq, Eq, Structural)]
pub enum Sentinel {
    Uninitialized,
    Empty,
    Null,
    Undefined,
}

/// A tagged runtime value. Object payloads are handles into a [`crate::heap::Heap`].
#[derive(Debug)]
pub enum Value2 {
    Number(JsNum),
    Bool(bool),
    String(String),
    Object(usize),
    Other(Sentinel),
}

/// The mathematical model of a value: strings are their character
/// sequences, object handles are bare indices.
pub enum ValueV {
    Number(JsNum),
    Bool(bool),
    Str(Seq<char>),
    Obj(int),
    Other(Sentinel),
}

impl View for Value2 {
    type V = ValueV;

    open spec fn view(&self) -> ValueV {
        match self {
            Value2::Number(n) => ValueV::Number(*n),
            Value2::Bool(b) => ValueV::Bool(*b),
            Value2::String(s) => ValueV::Str(s@),
            Value2::Object(h) => ValueV::Obj(*h as int),
            Value2::Other(s) => ValueV::Other(*s),
        }
    }
}

impl Clone for Value2 {
    fn clone(&self) -> (r: Self)
        ensures
            r@ == self@,
    {
        match self {
            Value2::Number(n) => Value2::Number(*n),
            Value2::Bool(b) => Value2::Bool(*b),
            Value2::String(s) => Value2::String(s.clone()),
            Value2::Object(h) => Value2::Object(*h),
            Value2::Other(s) => Value2::Other(*s),
        }
    }
}

/// The type tag of a value. The four sentinels count as four distinct
/// types: they are singleton values.
#[derive(Clone, Copy, Debug, PartialEq, Eq, Structural)]
pub enum TypeTag {
    NumberTag,
    BoolTag,
    StringTag,
    ObjectTag,
    UninitializedTag,
    EmptyTag,
    NullTag,
    UndefinedTag,
}

/// The type tag of a value view.
pub open spec fn tag_of(v: ValueV) -> TypeTag {
    match v {
        ValueV::Number(_) => TypeTag::NumberTag,
        ValueV::Bool(_) => TypeTag::BoolTag,
        ValueV::Str(_) => TypeTag::StringTag,
        ValueV::Obj(_) => TypeTag::ObjectTag,
        ValueV::Other(Sentinel::Uninitialized) => TypeTag::UninitializedTag,
        ValueV::Other(Sentinel::Empty) => TypeTag::EmptyTag,
        ValueV::Other(Sentinel::Null) => TypeTag::NullTag,
        ValueV::Other(Sentinel::Undefined) => TypeTag::UndefinedTag,
    }
}

/// A boolean as a number: `false` is `+0`, `true` is `1`.
pub open spec fn bool_as_num(b: bool) -> JsNum {
    JsNum::Finite { neg: false, mag: if b {
        1
    } else {
        0
    } }
}

/// The ToBoolean coercion table: sentinels are false; numbers are false
/// exactly when zero or `NaN`; strings are false exactly when empty;
/// objects of every kind are true.
pub open spec fn to_boolean_v(v: ValueV) -> bool {
    match v {
        ValueV::Other(_) => false,
        ValueV::Bool(b) => b,
        ValueV::Number(n) => !(n is Nan || n.is_zero()),
        ValueV::Str(s) => s.len() != 0,
        ValueV::Obj(_) => true,
    }
}

/// Strict equality: a type mismatch is false; each sentinel equals itself;
/// numbers compare by numeric equality (`NaN` unequal to itself); strings
/// by content; objects by handle identity, never structurally.
pub open spec fn strict_eq_v(a: ValueV, b: ValueV) -> bool {
    match (a, b) {
        (ValueV::Other(s1), ValueV::Other(s2)) => s1 == s2,
        (ValueV::Number(n1), ValueV::Number(n2)) => n1.spec_num_eq(n2),
        (ValueV::Str(s1), ValueV::Str(s2)) => s1 == s2,
        (ValueV::Bool(b1), ValueV::Bool(b2)) => b1 == b2,
        (ValueV::Obj(h1), ValueV::Obj(h2)) => h1 == h2,
        _ => false,
    }
}

/// Abstract equality. Operands of one type compare strictly; `Null` and
/// `Undefined` equal each other and nothing else; a boolean coerces to a
/// number; a number and a string compare numerically; a remaining mix
/// involving a sentinel is false; coercing an object to a primitive is
/// outside the implemented core, so the remaining object/primitive mixes
/// yield `Undefined`.
pub open spec fn abstract_eq_v(a: ValueV, b: ValueV) -> ValueV {
    if tag_of(a) == tag_of(b) {
        ValueV::Bool(strict_eq_v(a, b))
    } else {
        match (a, b) {
            (ValueV::Other(Sentinel::Null), ValueV::Other(Sentinel::Undefined)) => ValueV::Bool(
                true,
            ),
            (ValueV::Other(Sentinel::Undefined), ValueV::Other(Sentinel::Null)) => ValueV::Bool(
                true,
            ),
            (ValueV::Number(n), ValueV::Str(s)) => ValueV::Bool(n.spec_num_eq(parse_num(s))),
            (ValueV::Str(s), ValueV::Number(n)) => ValueV::Bool(parse_num(s).spec_num_eq(n)),
            (ValueV::Bool(x), ValueV::Number(n)) => ValueV::Bool(bool_as_num(x).spec_num_eq(n)),
            (ValueV::Number(n), ValueV::Bool(x)) => ValueV::Bool(n.spec_num_eq(bool_as_num(x))),
            (ValueV::Bool(x), ValueV::Str(s)) => ValueV::Bool(
                bool_as_num(x).spec_num_eq(parse_num(s)),
            ),
            (ValueV::Str(s), ValueV::Bool(x)) => ValueV::Bool(
                parse_num(s).spec_num_eq(bool_as_num(x)),
            ),
            (ValueV::Other(_), _) => ValueV::Bool(false),
            (_, ValueV::Other(_)) => ValueV::Bool(false),
            _ => ValueV::Other(Sentinel::Undefined),
        }
    }
}

impl Value2 {
    /// The `null` value.
    pub fn null() -> (r: Self)
        ensures
            r@ == ValueV::Other(Sentinel::Null),
    {
        Value2::Other(Sentinel::Null)
    }

    /// The `undefined` value.
    pub fn undefined() -> (r: Self)
        ensures
            r@ == ValueV::Other(Sentinel::Undefined),
    {
        Value2::Other(Sentinel::Undefined)
    }

    /// The sentinel of a binding that exists but was never initialized.
    pub fn uninitialized() -> (r: Self)
        ensures
            r@ == ValueV::Other(Sentinel::Uninitialized),
    {
        Value2::Other(Sentinel::Uninitialized)
    }

    /// The internal marker of a reserved, never written slot.
    pub fn empty() -> (r: Self)
        ensures
            r@ == ValueV::Other(Sentinel::Empty),
    {
        Value2::Other(Sentinel::Empty)
    }

    /// Wraps a boolean.
    pub fn bool(x: bool) -> (r: Self)
        ensures
            r@ == ValueV::Bool(x),
    {
        Value2::Bool(x)
    }

    /// Wraps a number.
    pub fn number(n: JsNum) -> (r: Self)
        ensures
            r@ == ValueV::Number(n),
    {
        Value2::Number(n)
    }

    /// Wraps a string.
    pub fn string(body: String) -> (r: Self)
        ensures
            r@ == ValueV::Str(body@),
    {
        Value2::String(body)
    }

    /// Is this value an object handle?
    pub fn is_object(&self) -> (r: bool)
        ensures
            r == (self@ is Obj),
    {
        match self {
            Value2::Object(_) => true,
            _ => false,
        }
    }

    /// Maps the internal `Empty` marker to `undefined`; every other value
    /// passes through unchanged.
    pub fn to_undefined_if_empty(self) -> (r: Self)
        ensures
            r@ == if self@ == ValueV::Other(Sentinel::Empty) {
                ValueV::Other(Sentinel::Undefined)
            } else {
                self@
            },
    {
        match self {
            Value2::Other(Sentinel::Empty) => Value2::Other(Sentinel::Undefined),
            v => v,
        }
    }

    /// Is this value the internal `Empty` marker?
    pub fn is_empty_marker(&self) -> (r: bool)
        ensures
            r == (self@ == ValueV::Other(Sentinel::Empty)),
    {
        matches!(self, Value2::Other(Sentinel::Empty))
    }

    /// Is this value `undefined`?
    pub fn is_undefined(&self) -> (r: bool)
        ensures
            r == (self@ == ValueV::Other(Sentinel::Undefined)),
    {
        matches!(self, Value2::Other(Sentinel::Undefined))
    }

    /// The payload of a number value.
    pub fn into_number(&self) -> (r: JsNum)
        requires
            self@ is Number,
        ensures
            self@ == ValueV::Number(r),
    {
        match self {
            Value2::Number(n) => *n,
            _ => JsNum::Nan,
        }
    }

    /// The payload of a string value.
    pub fn into_str(&self) -> (r: &str)
        requires
            self@ is Str,
        ensures
            self@ == ValueV::Str(r@),
    {
        match self {
            Value2::String(s) => s.as_str(),
            _ => "",
        }
    }

    /// The payload of a boolean value.
    pub fn into_bool(&self) -> (r: bool)
        requires
            self@ is Bool,
        ensures
            self@ == ValueV::Bool(r),
    {
        match self {
            Value2::Bool(b) => *b,
            _ => false,
        }
    }

    /// Overwrites the payload of a number value in place; any other value
    /// is left unchanged.
    pub fn set_number_if_possible(&mut self, n: JsNum)
        ensures
            final(self)@ == if old(self)@ is Number {
                ValueV::Number(n)
            } else {
                old(self)@
            },
    {
        match self {
            Value2::Number(x) => {
                *x = n;
            },
            _ => {},
        }
    }

    /// The ToBoolean coercion; see [`to_boolean_v`].
    pub fn to_boolean(&self) -> (r: bool)
        ensures
            r == to_boolean_v(self@),
    {
        match self {
            Value2::Other(_) => false,
            Value2::Bool(b) => *b,
            Value2::Number(n) => !(n.is_nan() || n.is_zero_num()),
            Value2::String(s) => s.as_str().unicode_len() != 0,
            Value2::Object(_) => true,
        }
    }

    /// Do the two values carry the same type tag? The four sentinels are
    /// four distinct tags.
    pub fn is_same_type_as(&self, val: &Value2) -> (r: bool)
        ensures
            r == (tag_of(self@) == tag_of(val@)),
    {
        match (self, val) {
            (Value2::Number(_), Value2::Number(_)) => true,
            (Value2::Bool(_), Value2::Bool(_)) => true,
            (Value2::String(_), Value2::String(_)) => true,
            (Value2::Object(_), Value2::Object(_)) => true,
            (Value2::Other(s1), Value2::Other(s2)) => s1 == s2,
            _ => false,
        }
    }

    /// Strict equality as a `Bool` value; see [`strict_eq_v`].
    pub fn strict_eq(&self, val: &Value2) -> (r: Value2)
        ensures
            r@ == ValueV::Bool(strict_eq_v(self@, val@)),
    {
        match (self, val) {
            (Value2::Other(s1), Value2::Other(s2)) => Value2::Bool(s1 == s2),
            (Value2::Number(n1), Value2::Number(n2)) => Value2::Bool(n1.num_eq(*n2)),
            (Value2::String(s1), Value2::String(s2)) => Value2::Bool(
                str_eq(s1.as_str(), s2.as_str()),
            ),
            (Value2::Bool(b1), Value2::Bool(b2)) => Value2::Bool(b1 == b2),
            (Value2::Object(h1), Value2::Object(h2)) => Value2::Bool(h1 == h2),
            _ => Value2::Bool(false),
        }
    }

    /// Abstract equality; see [`abstract_eq_v`] for the coercion table and
    /// for the operand mixes that are outside the implemented core and
    /// yield `Undefined`.
    pub fn eq(&self, val: &Value2) -> (r: Value2)
        ensures
            r@ == abstract_eq_v(self@, val@),
    {
        if self.is_same_type_as(val) {
            return self.strict_eq(val);
        }
        match (self, val) {
            (Value2::Other(Sentinel::Null), Value2::Other(Sentinel::Undefined)) => Value2::Bool(
                true,
            ),
            (Value2::Other(Sentinel::Undefined), Value2::Other(Sentinel::Null)) => Value2::Bool(
                true,
            ),
            (Value2::Number(n), Value2::String(s)) => {
                let sv = parse_str_chars(s);
                Value2::Bool(n.num_eq(sv))
            },
            (Value2::String(s), Value2::Number(n)) => {
                let sv = parse_str_chars(s);
                Value2::Bool(sv.num_eq(*n))
            },
            (Value2::Bool(x), Value2::Number(n)) => {
                let xv = JsNum::of_u64(
                    if *x {
                        1
                    } else {
                        0
                    },
                );
                Value2::Bool(xv.num_eq(*n))
            },
            (Value2::Number(n), Value2::Bool(x)) => {
                let xv = JsNum::of_u64(
                    if *x {
                        1
                    } else {
                        0
                    },
                );
                Value2::Bool(n.num_eq(xv))
            },
            (Value2::Bool(x), Value2::String(s)) => {
                let xv = JsNum::of_u64(
                    if *x {
                        1
                    } else {
                        0
                    },
                );
                let sv = parse_str_chars(s);
                Value2::Bool(xv.num_eq(sv))
            },
            (Value2::String(s), Value2::Bool(x)) => {
                let xv = JsNum::of_u64(
                    if *x {
                        1
                    } else {
                        0
                    },
                );
                let sv = parse_str_chars(s);
                Value2::Bool(sv.num_eq(xv))
            },
            (Value2::Other(_), _) => Value2::Bool(false),
            (_, Value2::Other(_)) => Value2::Bool(false),
            _ => Value2::Other(Sentinel::Undefined),
        }
    }

    /// Abstract inequality: the negation of [`Value2::eq`] where that is a
    /// boolean, `Undefined` where equality itself is outside the implemented core.
    pub fn ne(&self, val: &Value2) -> (r: Value2)
        ensures
            r@ == match abstract_eq_v(self@, val@) {
                ValueV::Bool(b) => ValueV::Bool(!b),
                other => other,
            },
    {
        match self.eq(val) {
            Value2::Bool(b) => Value2::Bool(!b),
            other => other,
        }
    }

    /// Numeric strict order as a `Bool` value; any other operand pair
    /// yields `Undefined` (the coercing comparison is outside the
    /// implemented core).
    pub fn lt(&self, val: &Value2) -> (r: Value2)
        ensures
            r@ == match (self@, val@) {
                (ValueV::Number(x), ValueV::Number(y)) => ValueV::Bool(x.spec_lt(y)),
                _ => ValueV::Other(Sentinel::Undefined),
            },
    {
        match (self, val) {
            (Value2::Number(x), Value2::Number(y)) => Value2::Bool(x.lt_num(*y)),
            _ => Value2::Other(Sentinel::Undefined),
        }
    }

    /// Numeric non-strict order; as [`Value2::lt`] otherwise.
    pub fn le(&self, val: &Value2) -> (r: Value2)
        ensures
            r@ == match (self@, val@) {
                (ValueV::Number(x), ValueV::Number(y)) => ValueV::Bool(x.spec_le(y)),
                _ => ValueV::Other(Sentinel::Undefined),
            },
    {
        match (self, val) {
            (Value2::Number(x), Value2::Number(y)) => Value2::Bool(x.le_num(*y)),
            _ => Value2::Other(Sentinel::Undefined),
        }
    }

    /// The flipped [`Value2::lt`]: `a.gt(b)` is `b.lt(a)`.
    pub fn gt(&self, val: &Value2) -> (r: Value2)
        ensures
            r@ == match (self@, val@) {
                (ValueV::Number(x), ValueV::Number(y)) => ValueV::Bool(y.spec_lt(x)),
                _ => ValueV::Other(Sentinel::Undefined),
            },
    {
        val.lt(self)
    }

    /// The flipped [`Value2::le`]: `a.ge(b)` is `b.le(a)`.
    pub fn ge(&self, val: &Value2) -> (r: Value2)
        ensures
            r@ == match (self@, val@) {
                (ValueV::Number(x), ValueV::Number(y)) => ValueV::Bool(y.spec_le(x)),
                _ => ValueV::Other(Sentinel::Undefined),
            },
    {
        val.le(self)
    }

    /// Addition: numbers add, strings concatenate, every other operand
    /// pair yields `Undefined` (its coercion is outside the implemented
    /// core).
    pub fn add(&self, val: &Value2) -> (r: Value2)
        ensures
            r@ == match (self@, val@) {
                (ValueV::Number(x), ValueV::Number(y)) => ValueV::Number(x.spec_add(y)),
                (ValueV::Str(x), ValueV::Str(y)) => ValueV::Str(x + y),
                _ => ValueV::Other(Sentinel::Undefined),
            },
    {
        match (self, val) {
            (Value2::Number(x), Value2::Number(y)) => Value2::Number(x.add_num(*y)),
            (Value2::String(x), Value2::String(y)) => {
                let cat = x.clone().concat(y.as_str());
                Value2::String(cat)
            },
            _ => Value2::Other(Sentinel::Undefined),
        }
    }

    /// Subtraction on numbers; `Undefined` on every other operand pair.
    pub fn sub(&self, val: &Value2) -> (r: Value2)
        ensures
            r@ == match (self@, val@) {
                (ValueV::Number(x), ValueV::Number(y)) => ValueV::Number(x.spec_sub(y)),
                _ => ValueV::Other(Sentinel::Undefined),
            },
    {
        match (self, val) {
            (Value2::Number(x), Value2::Number(y)) => Value2::Number(x.sub_num(*y)),
            _ => Value2::Other(Sentinel::Undefined),
        }
    }

    /// Multiplication on numbers; `Undefined` on every other operand pair.
    pub fn mul(&self, val: &Value2) -> (r: Value2)
        ensures
            r@ == match (self@, val@) {
                (ValueV::Number(x), ValueV::Number(y)) => ValueV::Number(x.spec_mul(y)),
                _ => ValueV::Other(Sentinel::Undefined),
            },
    {
        match (self, val) {
            (Value2::Number(x), Value2::Number(y)) => Value2::Number(x.mul_num(*y)),
            _ => Value2::Other(Sentinel::Undefined),
        }
    }

    /// Division on numbers; `Undefined` on every other operand pair.
    pub fn div(&self, val: &Value2) -> (r: Value2)
        ensures
            r@ == match (self@, val@) {
                (ValueV::Number(x), ValueV::Number(y)) => ValueV::Number(x.spec_div(y)),
                _ => ValueV::Other(Sentinel::Undefined),
            },
    {
        match (self, val) {
            (Value2::Number(x), Value2::Number(y)) => Value2::Number(x.div_num(*y)),
            _ => Value2::Other(Sentinel::Undefined),
        }
    }

    /// Remainder on numbers; `Undefined` on every other operand pair.
    pub fn rem(&self, val: &Value2) -> (r: Value2)
        ensures
            r@ == match (self@, val@) {
                (ValueV::Number(x), ValueV::Number(y)) => ValueV::Number(x.spec_rem(y)),
                _ => ValueV::Other(Sentinel::Undefined),
            },
    {
        match (self, val) {
            (Value2::Number(x), Value2::Number(y)) => Value2::Number(x.rem_num(*y)),
            _ => Value2::Other(Sentinel::Undefined),
        }
    }

    /// Unary minus on a number; `Undefined` on every other operand.
    pub fn minus(&self) -> (r: Value2)
        ensures
            r@ == match self@ {
                ValueV::Number(n) => ValueV::Number(n.spec_neg()),
                _ => ValueV::Other(Sentinel::Undefined),
            },
    {
        match self {
            Value2::Number(n) => Value2::Number(n.neg()),
            _ => Value2::Other(Sentinel::Undefined),
        }
    }
}

/// Collects a string's characters and parses them as a numeric literal.
pub fn parse_str_chars(s: &String) -> (r: JsNum)
    ensures
        r == parse_num(s@),
{
    let chars = collect_chars(s.as_str());
    parse_num_str(&chars)
}

/// Copies a string into a vector of its characters.
pub fn collect_chars(s: &str) -> (r: Vec<char>)
    ensures
        r@ == s@,
{
    let n = s.unicode_len();
    let mut out: Vec<char> = Vec::new();
    let mut i: usize = 0;
    while i < n
        invariant
            0 <= i <= n == s@.len(),
            out@ == s@.subrange(0, i as int),
        decreases n - i,
    {
        out.push(s.get_char(i));
        proof {
            assert(out@ =~= s@.subrange(0, i + 1 as int));
        }
        i = i + 1;
    }
    proof {
        assert(s@.subrange(0, n as int) =~= s@);
    }
    out
}

} // verus!
