//! The coercion engine: ToNumber, ToString and ToUint32.
//!
//! All three are total. Reading an object can recurse through array
//! elements, so the specifications carry a fuel bound; the public functions
//! fix the fuel at one more than the heap size, which every acyclic object
//! graph stays within, and a cyclic one (which the original model never
//! terminates on) bottoms out in `NaN` or an empty rendering.
//!
//! Coercing a non-array object to a number is outside the implemented core
//! and yields `NaN`; the contracts say so exactly.

use crate::array::ArrayObjectInfo;
use crate::heap::Heap;
use crate::heap::KindV;
use crate::heap::ObjectKind2;
use crate::heap::ObjectV;
use crate::heap::date_in_range;
use crate::heap::valid_kind;
use crate::heap::valid_object;
use crate::heap::valid_prop;
use crate::heap::valid_prop_seq;
use crate::heap::valid_value;
use crate::num::JsNum;
use crate::num::num_str;
use crate::num::parse_num;
use crate::object::Property2;
use crate::object::PropertyV;
use crate::value::Sentinel;
use crate::value::Value2;
use crate::value::ValueV;
use crate::value::bool_as_num;
use crate::value::parse_str_chars;
use vstd::pervasive::unreached;
use vstd::prelude::*;
use vstd::string::StringExecFns;

verus! {

// ---------------------------------------------------------------------------
// Dates
// ---------------------------------------------------------------------------
/// The RFC 3339 rendering, in UTC, of a millisecond timestamp.
pub uninterp spec fn rfc3339_of(ms: int) -> Seq<char>;

/// Relies on chrono's `DateTime::<Utc>::from_timestamp_millis` and
/// `DateTime::to_rfc3339`: the rendering is a function of the timestamp
/// alone (the zone is fixed to UTC), and `from_timestamp_millis` documents
/// `None` only for timestamps outside its representable range, which
/// contains the years 1 through 9999.
#[verifier::external_body]
fn rfc3339_of_millis(ms: i64) -> (r: Option<String>)
    ensures
        r matches Some(s) ==> s@ == rfc3339_of(ms as int),
        date_in_range(ms as int) ==> r is Some,
{
    chrono::DateTime::<chrono::Utc>::from_timestamp_millis(ms).map(|d| d.to_rfc3339())
}

/// Renders a date object's timestamp, which the heap invariant keeps in
/// the representable range.
fn date_string(ms: i64) -> (r: String)
    requires
        date_in_range(ms as int),
    ensures
        r@ == rfc3339_of(ms as int),
{
    match rfc3339_of_millis(ms) {
        Some(s) => s,
        None => unreached(),
    }
}

// ---------------------------------------------------------------------------
// ToNumber
// ---------------------------------------------------------------------------
/// The ToNumber coercion table. An empty array is zero; a one-element
/// array coerces its sole element unless that is a boolean (then `NaN`);
/// a longer array, a non-array object, and every sentinel are `NaN`.
pub open spec fn spec_to_number(heap: Seq<ObjectV>, v: ValueV, fuel: nat) -> JsNum
    decreases fuel,
{
    if fuel == 0 {
        JsNum::Nan
    } else {
        match v {
            ValueV::Number(n) => n,
            ValueV::Bool(b) => bool_as_num(b),
            ValueV::Str(s) => parse_num(s),
            ValueV::Other(_) => JsNum::Nan,
            ValueV::Obj(h) => {
                if 0 <= h < heap.len() {
                    match heap[h].kind {
                        KindV::Array(elems) => {
                            if elems.len() == 0 {
                                JsNum::Finite { neg: false, mag: 0 }
                            } else if elems.len() == 1 {
                                match elems[0] {
                                    PropertyV::Data { val, .. } => if val is Bool {
                                        JsNum::Nan
                                    } else {
                                        spec_to_number(heap, val, (fuel - 1) as nat)
                                    },
                                    _ => JsNum::Nan,
                                }
                            } else {
                                JsNum::Nan
                            }
                        },
                        _ => JsNum::Nan,
                    }
                } else {
                    JsNum::Nan
                }
            },
        }
    }
}

fn to_number_fuel(heap: &Heap, v: &Value2, fuel: u128) -> (r: JsNum)
    requires
        heap.wf(),
        valid_value(v@, heap@.len() as int),
    ensures
        r == spec_to_number(heap@, v@, fuel as nat),
    decreases fuel,
{
    if fuel == 0 {
        return JsNum::Nan;
    }
    match v {
        Value2::Number(n) => *n,
        Value2::Bool(b) => JsNum::of_u64(
            if *b {
                1
            } else {
                0
            },
        ),
        Value2::String(s) => parse_str_chars(s),
        Value2::Other(_) => JsNum::Nan,
        Value2::Object(h) => {
            let o = heap.obj(*h);
            match &o.kind {
                ObjectKind2::Array(a) => {
                    proof {
                        assert(valid_object(heap@[*h as int], heap@.len() as int));
                        assert(heap@[*h as int].kind == KindV::Array(a@));
                    }
                    if a.elems.len() == 0 {
                        JsNum::Finite { neg: false, mag: 0 }
                    } else if a.elems.len() == 1 {
                        proof {
                            assert(a@[0] == a.elems@[0]@);
                            assert(valid_prop_seq(a@, heap@.len() as int));
                            assert(valid_prop(a@[0], heap@.len() as int));
                        }
                        match &a.elems[0] {
                            Property2::Data(d) => {
                                if matches!(&d.val, Value2::Bool(_)) {
                                    JsNum::Nan
                                } else {
                                    to_number_fuel(heap, &d.val, fuel - 1)
                                }
                            },
                            _ => JsNum::Nan,
                        }
                    } else {
                        JsNum::Nan
                    }
                },
                _ => JsNum::Nan,
            }
        },
    }
}

// ---------------------------------------------------------------------------
// ToString
// ---------------------------------------------------------------------------
/// The ToString rendering table. Numbers render as [`num_str`] says;
/// arrays comma-join their element renderings (an `Empty` slot and an
/// accessor slot render as the empty string); ordinary objects render the
/// fixed literal (no user `toString` dispatch at this layer); dates render
/// in RFC 3339.
pub open spec fn spec_to_string(heap: Seq<ObjectV>, v: ValueV, fuel: nat) -> Seq<char>
    decreases fuel, 0int, 0int,
{
    match v {
        ValueV::Str(s) => s,
        ValueV::Bool(b) => if b {
            "true"@
        } else {
            "false"@
        },
        ValueV::Number(n) => num_str(n),
        ValueV::Other(Sentinel::Undefined) => "undefined"@,
        ValueV::Other(Sentinel::Null) => "null"@,
        ValueV::Other(Sentinel::Empty) => "empty"@,
        ValueV::Other(Sentinel::Uninitialized) => "uninitialized"@,
        ValueV::Obj(h) => {
            if 0 <= h < heap.len() {
                match heap[h].kind {
                    KindV::Ordinary => "[object Object]"@,
                    KindV::Function(_) => "[Function]"@,
                    KindV::Arguments(_) => "[object Arguments]"@,
                    KindV::Date(ms) => rfc3339_of(ms as int),
                    KindV::Array(elems) => if fuel == 0 {
                        Seq::<char>::empty()
                    } else {
                        spec_join_elems(heap, elems, (fuel - 1) as nat)
                    },
                }
            } else {
                "[object Object]"@
            }
        },
    }
}

/// How one array slot renders inside a join.
pub open spec fn spec_elem_str(heap: Seq<ObjectV>, p: PropertyV, fuel: nat) -> Seq<char>
    decreases fuel, 1int, 0int,
{
    match p {
        PropertyV::Data { val, .. } => if val == ValueV::Other(Sentinel::Empty) {
            Seq::<char>::empty()
        } else {
            spec_to_string(heap, val, fuel)
        },
        PropertyV::Accessor { .. } => Seq::<char>::empty(),
    }
}

/// The comma-join of the slot renderings.
pub open spec fn spec_join_elems(heap: Seq<ObjectV>, elems: Seq<PropertyV>, fuel: nat) -> Seq<
    char,
>
    decreases fuel, 2int, elems.len(),
{
    if elems.len() == 0 {
        Seq::<char>::empty()
    } else if elems.len() == 1 {
        spec_elem_str(heap, elems[0], fuel)
    } else {
        spec_join_elems(heap, elems.drop_last(), fuel) + seq![','] + spec_elem_str(
            heap,
            elems.last(),
            fuel,
        )
    }
}

fn to_string_fuel(heap: &Heap, v: &Value2, fuel: u128) -> (r: String)
    requires
        heap.wf(),
        valid_value(v@, heap@.len() as int),
    ensures
        r@ == spec_to_string(heap@, v@, fuel as nat),
    decreases fuel, 0int, 0int,
{
    match v {
        Value2::String(s) => s.clone(),
        Value2::Bool(b) => if *b {
            "true".to_owned()
        } else {
            "false".to_owned()
        },
        Value2::Number(n) => n.render(),
        Value2::Other(Sentinel::Undefined) => "undefined".to_owned(),
        Value2::Other(Sentinel::Null) => "null".to_owned(),
        Value2::Other(Sentinel::Empty) => "empty".to_owned(),
        Value2::Other(Sentinel::Uninitialized) => "uninitialized".to_owned(),
        Value2::Object(h) => {
            let o = heap.obj(*h);
            match &o.kind {
                ObjectKind2::Ordinary => "[object Object]".to_owned(),
                ObjectKind2::Function(_) => "[Function]".to_owned(),
                ObjectKind2::Arguments(_) => "[object Arguments]".to_owned(),
                ObjectKind2::Date(ms) => {
                    proof {
                        assert(valid_object(heap@[*h as int], heap@.len() as int));
                        assert(valid_kind(heap@[*h as int].kind, heap@.len() as int));
                    }
                    date_string(*ms)
                },
                ObjectKind2::Array(a) => {
                    proof {
                        assert(valid_object(heap@[*h as int], heap@.len() as int));
                        assert(heap@[*h as int].kind == KindV::Array(a@));
                    }
                    if fuel == 0 {
                        String::new()
                    } else {
                        join_elems_fuel(heap, a, fuel - 1)
                    }
                },
            }
        },
    }
}

fn elem_str_fuel(heap: &Heap, p: &Property2, fuel: u128) -> (r: String)
    requires
        heap.wf(),
        valid_prop(p@, heap@.len() as int),
    ensures
        r@ == spec_elem_str(heap@, p@, fuel as nat),
    decreases fuel, 1int, 0int,
{
    match p {
        Property2::Data(d) => {
            if d.val.is_empty_marker() {
                String::new()
            } else {
                to_string_fuel(heap, &d.val, fuel)
            }
        },
        Property2::Accessor(_) => String::new(),
    }
}

fn join_elems_fuel(heap: &Heap, a: &ArrayObjectInfo, fuel: u128) -> (r: String)
    requires
        heap.wf(),
        valid_kind(KindV::Array(a@), heap@.len() as int),
    ensures
        r@ == spec_join_elems(heap@, a@, fuel as nat),
    decreases fuel, 2int, 0int,
{
    let n = a.elems.len();
    let mut acc = String::new();
    let mut i: usize = 0;
    while i < n
        invariant
            0 <= i <= n == a@.len(),
            heap.wf(),
            valid_kind(KindV::Array(a@), heap@.len() as int),
            acc@ == spec_join_elems(heap@, a@.take(i as int), fuel as nat),
        decreases n - i,
    {
        proof {
            assert(a@[i as int] == a.elems@[i as int]@);
            assert(valid_prop_seq(a@, heap@.len() as int));
            assert(valid_prop(a@[i as int], heap@.len() as int));
        }
        if i > 0 {
            acc.append(",");
        }
        let piece = elem_str_fuel(heap, &a.elems[i], fuel);
        acc.append(piece.as_str());
        proof {
            reveal_strlit(",");
            let taken = a@.take(i + 1 as int);
            assert(taken.drop_last() =~= a@.take(i as int));
            assert(taken.last() == a@[i as int]);
            if i == 0 {
                assert(acc@ =~= spec_join_elems(heap@, taken, fuel as nat));
            } else {
                assert(","@ =~= seq![',']);
                assert(acc@ =~= spec_join_elems(heap@, a@.take(i as int), fuel as nat)
                    + seq![','] + spec_elem_str(heap@, a@[i as int], fuel as nat));
                assert(acc@ =~= spec_join_elems(heap@, taken, fuel as nat));
            }
        }
        i = i + 1;
    }
    proof {
        assert(a@.take(n as int) =~= a@);
    }
    acc
}

impl Value2 {
    /// The ToNumber coercion; see [`spec_to_number`].
    pub fn to_number(&self, heap: &Heap) -> (r: JsNum)
        requires
            heap.wf(),
            valid_value(self@, heap@.len() as int),
        ensures
            r == spec_to_number(heap@, self@, (heap@.len() + 1) as nat),
    {
        let fuel: u128 = heap.len() as u128 + 1;
        to_number_fuel(heap, self, fuel)
    }

    /// The ToUint32 coercion: ToNumber followed by the modular reduction
    /// of [`JsNum::spec_to_uint32`].
    pub fn to_uint32(&self, heap: &Heap) -> (r: u32)
        requires
            heap.wf(),
            valid_value(self@, heap@.len() as int),
        ensures
            r == spec_to_number(heap@, self@, (heap@.len() + 1) as nat).spec_to_uint32(),
    {
        self.to_number(heap).to_uint32()
    }

    /// The ToString coercion; see [`spec_to_string`].
    pub fn to_string(&self, heap: &Heap) -> (r: String)
        requires
            heap.wf(),
            valid_value(self@, heap@.len() as int),
        ensures
            r@ == spec_to_string(heap@, self@, (heap@.len() + 1) as nat),
    {
        let fuel: u128 = heap.len() as u128 + 1;
        to_string_fuel(heap, self, fuel)
    }
}

} // verus!
