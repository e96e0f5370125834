//! The prototype resolver: property reads and writes with type-driven
//! dispatch.
//!
//! Reads dispatch on the receiver's runtime type. Strings answer index and
//! `length` keys directly and send every other key through the string
//! prototype's chain; arrays answer index-like keys (a numeric index, or a
//! string key that round-trips through ToUint32) and `length` from their
//! dense slots; arguments objects answer index and `length` keys from their
//! bindings; numbers look keys up through the number prototype; everything
//! else that is an object walks its own map and then the `__proto__` chain,
//! first match wins. Booleans and the sentinels read as `undefined`.
//!
//! The chain walk carries a fuel bound of one more than the heap size; an
//! acyclic chain (which callers must maintain when writing `__proto__`)
//! cannot be longer, so the bound is never the deciding factor there.
//!
//! Writes mirror the read dispatch, but never walk the chain: an absent key
//! makes a fresh own data property on the receiver. Where a write meets an
//! accessor property, nothing is stored and the setter is handed back for
//! the executor to invoke; a write to a non-object receiver is a no-op.

use crate::array::spec_set_element;
use crate::array::spec_set_length;
use crate::array::undef_if_empty;
use crate::coerce::spec_to_string;
use crate::heap::Heap;
use crate::heap::KindV;
use crate::heap::ObjectKind2;
use crate::heap::ObjectPrototypes;
use crate::heap::ObjectV;
use crate::heap::ProtosV;
use crate::heap::valid_object;
use crate::heap::valid_prop;
use crate::heap::valid_prop_seq;
use crate::heap::valid_props_map;
use crate::heap::valid_value;
use crate::heap::valid_value_seq;
use crate::num::JsNum;
use crate::num::num_str;
use crate::num::parse_num;
use crate::object::Property2;
use crate::object::PropertyV;
use crate::object::data_prop_v;
use crate::text::str_eq;
use crate::text::utf16_count;
use crate::text::utf16_sat;
use crate::value::Sentinel;
use crate::value::Value2;
use crate::value::ValueV;
use vstd::pervasive::unreached;
use vstd::prelude::*;
use vstd::string::StrSliceExecFns;
use vstd::string::StringExecFns;

verus! {

/// Array indices run below 2^32 - 1; larger numeric keys are ordinary
/// property names.
pub const ARRAY_INDEX_LIMIT: u64 = 4294967295;

/// What a property read hands the executor: the value itself, or the
/// getter to invoke with `this` bound to the receiver.
pub enum PropAccess {
    Value(Value2),
    Getter(Value2),
}

/// The model of a read outcome.
pub enum AccessV {
    Value(ValueV),
    Getter(ValueV),
}

impl View for PropAccess {
    type V = AccessV;

    open spec fn view(&self) -> AccessV {
        match self {
            PropAccess::Value(v) => AccessV::Value(v@),
            PropAccess::Getter(g) => AccessV::Getter(g@),
        }
    }
}

// ---------------------------------------------------------------------------
// The chain walk
// ---------------------------------------------------------------------------
/// The own property of object `h` under `key`, if any.
pub open spec fn own_prop(heap: Seq<ObjectV>, h: int, key: Seq<char>) -> Option<PropertyV> {
    if 0 <= h < heap.len() && heap[h].props.contains_key(key) {
        Some(heap[h].props[key])
    } else {
        None
    }
}

/// The prototype link of object `h`: the value of its own `__proto__` data
/// property, `undefined` where that is absent or an accessor.
pub open spec fn proto_of(heap: Seq<ObjectV>, h: int) -> ValueV {
    match own_prop(heap, h, "__proto__"@) {
        Some(PropertyV::Data { val, .. }) => val,
        _ => ValueV::Other(Sentinel::Undefined),
    }
}

/// The first descriptor for `key` on the prototype chain from `h`:
/// first match wins, and the walk ends at the first non-object prototype.
pub open spec fn chain_lookup(heap: Seq<ObjectV>, h: int, key: Seq<char>, fuel: nat) -> Option<
    PropertyV,
>
    decreases fuel,
{
    if fuel == 0 {
        None
    } else {
        match own_prop(heap, h, key) {
            Some(p) => Some(p),
            None => match proto_of(heap, h) {
                ValueV::Obj(h2) => chain_lookup(heap, h2, key, (fuel - 1) as nat),
                _ => None,
            },
        }
    }
}

/// How many chain members a lookup examines before it answers.
pub open spec fn lookup_steps(heap: Seq<ObjectV>, h: int, key: Seq<char>, fuel: nat) -> nat
    decreases fuel,
{
    if fuel == 0 {
        0
    } else {
        match own_prop(heap, h, key) {
            Some(_) => 1,
            None => match proto_of(heap, h) {
                ValueV::Obj(h2) => 1 + lookup_steps(heap, h2, key, (fuel - 1) as nat),
                _ => 1,
            },
        }
    }
}

/// How a found descriptor (or its absence) reads: a data value with `Empty`
/// mapped to `undefined`; a getter handed back, or `undefined` where the
/// accessor has none.
pub open spec fn access_of(p: Option<PropertyV>) -> AccessV {
    match p {
        None => AccessV::Value(ValueV::Other(Sentinel::Undefined)),
        Some(PropertyV::Data { val, .. }) => AccessV::Value(undef_if_empty(val)),
        Some(PropertyV::Accessor { get, .. }) => if get == ValueV::Other(Sentinel::Undefined) {
            AccessV::Value(ValueV::Other(Sentinel::Undefined))
        } else {
            AccessV::Getter(get)
        },
    }
}

/// The generic map-plus-chain read.
pub open spec fn ordinary_get(heap: Seq<ObjectV>, h: int, key: Seq<char>, fuel: nat) -> AccessV {
    access_of(chain_lookup(heap, h, key, fuel))
}

/// How one array (or arguments) slot reads.
pub open spec fn slot_get(elems: Seq<PropertyV>, idx: int) -> AccessV {
    if 0 <= idx < elems.len() {
        access_of(Some(elems[idx]))
    } else {
        AccessV::Value(ValueV::Other(Sentinel::Undefined))
    }
}

/// Is this number usable as a slot index (a non-negative finite integer)?
pub open spec fn index_key(n: JsNum) -> bool {
    n matches JsNum::Finite { neg, mag } && (!neg || mag == 0)
}

/// Does the string key round-trip through ToUint32 back to itself? Such a
/// key addresses an array slot; `"02"` does not and stays an ordinary key.
pub open spec fn uint32_round_trip(s: Seq<char>) -> bool {
    num_str(JsNum::spec_of_u64(parse_num(s).spec_to_uint32() as u64)) == s
}

// ---------------------------------------------------------------------------
// Reads
// ---------------------------------------------------------------------------
/// The full read dispatch table over the receiver's runtime type.
pub open spec fn spec_get_property(
    heap: Seq<ObjectV>,
    protos: ProtosV,
    recv: ValueV,
    key: ValueV,
    fuel: nat,
) -> AccessV {
    match recv {
        ValueV::Str(s) => match key {
            ValueV::Number(n) => if index_key(n) {
                if n->Finite_mag < s.len() {
                    AccessV::Value(ValueV::Str(seq![s[n->Finite_mag as int]]))
                } else {
                    AccessV::Value(ValueV::Other(Sentinel::Undefined))
                }
            } else {
                if n matches JsNum::Finite { .. } {
                    AccessV::Value(ValueV::Other(Sentinel::Undefined))
                } else {
                    ordinary_get(
                        heap,
                        protos.string->Obj_0,
                        spec_to_string(heap, key, fuel),
                        fuel,
                    )
                }
            },
            ValueV::Str(k) => if k == "length"@ {
                AccessV::Value(ValueV::Number(JsNum::spec_of_u64(utf16_sat(s))))
            } else {
                ordinary_get(heap, protos.string->Obj_0, k, fuel)
            },
            _ => ordinary_get(heap, protos.string->Obj_0, spec_to_string(heap, key, fuel), fuel),
        },
        ValueV::Number(_) => ordinary_get(
            heap,
            protos.number->Obj_0,
            spec_to_string(heap, key, fuel),
            fuel,
        ),
        ValueV::Obj(h) => {
            if 0 <= h < heap.len() {
                match heap[h].kind {
                    KindV::Array(elems) => match key {
                        ValueV::Number(n) => if index_key(n) {
                            slot_get(elems, n->Finite_mag as int)
                        } else {
                            ordinary_get(heap, h, spec_to_string(heap, key, fuel), fuel)
                        },
                        ValueV::Str(k) => if k == "length"@ {
                            AccessV::Value(
                                ValueV::Number(
                                    JsNum::spec_of_u64(
                                        if elems.len() > u64::MAX {
                                            u64::MAX
                                        } else {
                                            elems.len() as u64
                                        },
                                    ),
                                ),
                            )
                        } else if uint32_round_trip(k) {
                            slot_get(elems, parse_num(k).spec_to_uint32() as int)
                        } else {
                            ordinary_get(heap, h, k, fuel)
                        },
                        _ => ordinary_get(heap, h, spec_to_string(heap, key, fuel), fuel),
                    },
                    KindV::Arguments(bs) => match key {
                        ValueV::Number(n) => if index_key(n) {
                            if n->Finite_mag < bs.len() {
                                AccessV::Value(undef_if_empty(bs[n->Finite_mag as int]))
                            } else {
                                AccessV::Value(ValueV::Other(Sentinel::Undefined))
                            }
                        } else {
                            AccessV::Value(ValueV::Other(Sentinel::Undefined))
                        },
                        ValueV::Str(k) => if k == "length"@ {
                            AccessV::Value(
                                ValueV::Number(
                                    JsNum::spec_of_u64(
                                        if bs.len() > u64::MAX {
                                            u64::MAX
                                        } else {
                                            bs.len() as u64
                                        },
                                    ),
                                ),
                            )
                        } else {
                            AccessV::Value(ValueV::Other(Sentinel::Undefined))
                        },
                        _ => AccessV::Value(ValueV::Other(Sentinel::Undefined)),
                    },
                    _ => ordinary_get(heap, h, spec_to_string(heap, key, fuel), fuel),
                }
            } else {
                AccessV::Value(ValueV::Other(Sentinel::Undefined))
            }
        },
        _ => AccessV::Value(ValueV::Other(Sentinel::Undefined)),
    }
}

/// The read outcome of a plain string key on an object value: the chain is
/// walked, a data value is handed out (`Empty` as `undefined`), and an
/// accessor reads as `undefined` on this path (getter invocation goes
/// through [`Value2::get_property`]). Non-objects read as `undefined`.
pub open spec fn spec_get_by_str_key(heap: Seq<ObjectV>, recv: ValueV, key: Seq<char>, fuel: nat) -> ValueV {
    match recv {
        ValueV::Obj(h) => match chain_lookup(heap, h, key, fuel) {
            Some(PropertyV::Data { val, .. }) => undef_if_empty(val),
            _ => ValueV::Other(Sentinel::Undefined),
        },
        _ => ValueV::Other(Sentinel::Undefined),
    }
}

/// Walks the chain from `h`, cloning the first descriptor found for `key`.
fn chain_lookup_exec(heap: &Heap, h: usize, key: &str, fuel: u128) -> (r: Option<Property2>)
    requires
        heap.wf(),
        h < heap@.len(),
    ensures
        match r {
            Some(p) => chain_lookup(heap@, h as int, key@, fuel as nat) == Some(p@),
            None => chain_lookup(heap@, h as int, key@, fuel as nat) is None,
        },
    decreases fuel,
{
    if fuel == 0 {
        return None;
    }
    let o = heap.obj(h);
    let found: Option<Property2> = match o.property.get(key) {
        Some(p) => Some(p.clone()),
        None => None,
    };
    match found {
        Some(p) => Some(p),
        None => {
            let proto: Option<Value2> = match o.property.get("__proto__") {
                Some(Property2::Data(d)) => Some(d.val.clone()),
                _ => None,
            };
            match proto {
                Some(Value2::Object(h2)) => {
                    proof {
                        assert(valid_object(heap@[h as int], heap@.len() as int));
                        assert(valid_props_map(heap@[h as int].props, heap@.len() as int));
                        assert(valid_prop(
                            heap@[h as int].props["__proto__"@],
                            heap@.len() as int,
                        ));
                    }
                    chain_lookup_exec(heap, h2, key, fuel - 1)
                },
                _ => None,
            }
        },
    }
}

/// Reads the chain-walk outcome as a [`PropAccess`].
fn ordinary_get_exec(heap: &Heap, h: usize, key: &str, fuel: u128) -> (r: PropAccess)
    requires
        heap.wf(),
        h < heap@.len(),
    ensures
        r@ == ordinary_get(heap@, h as int, key@, fuel as nat),
{
    match chain_lookup_exec(heap, h, key, fuel) {
        None => PropAccess::Value(Value2::undefined()),
        Some(Property2::Data(d)) => PropAccess::Value(d.val.to_undefined_if_empty()),
        Some(Property2::Accessor(a)) => {
            if a.get.is_undefined() {
                PropAccess::Value(Value2::undefined())
            } else {
                PropAccess::Getter(a.get)
            }
        },
    }
}

/// Reads one array or arguments-like slot as a [`PropAccess`].
fn slot_get_exec(elems: &Vec<Property2>, idx: u64) -> (r: PropAccess)
    ensures
        r@ == slot_get(elems@.map_values(|p: Property2| p@), idx as int),
{
    if idx < (elems.len() as u64) {
        let i = idx as usize;
        proof {
            assert(elems@.map_values(|p: Property2| p@)[idx as int] == elems@[idx as int]@);
        }
        match &elems[i] {
            Property2::Data(d) => PropAccess::Value(d.val.clone().to_undefined_if_empty()),
            Property2::Accessor(a) => {
                if a.get.is_undefined() {
                    PropAccess::Value(Value2::undefined())
                } else {
                    PropAccess::Getter(a.get.clone())
                }
            },
        }
    } else {
        PropAccess::Value(Value2::undefined())
    }
}

impl Value2 {
    /// Reads a property as [`spec_get_property`] says: dispatch on the
    /// receiver's runtime type, exotic index and `length` behavior on
    /// strings, arrays and arguments objects, prototype-chain fallback
    /// everywhere else, first match wins.
    pub fn get_property(&self, heap: &Heap, protos: &ObjectPrototypes, key: &Value2) -> (r:
        PropAccess)
        requires
            heap.wf(),
            protos.wf(heap@.len() as int),
            valid_value(self@, heap@.len() as int),
            valid_value(key@, heap@.len() as int),
        ensures
            r@ == spec_get_property(heap@, protos@, self@, key@, (heap@.len() + 1) as nat),
    {
        let fuel: u128 = heap.len() as u128 + 1;
        match self {
            Value2::String(s) => {
                match key {
                    Value2::Number(n) => {
                        match n {
                            JsNum::Finite { neg, mag } => {
                                if !*neg || *mag == 0 {
                                    let count = s.as_str().unicode_len();
                                    if *mag < (count as u64) {
                                        let i = *mag as usize;
                                        let piece = s.as_str().substring_char(i, i + 1);
                                        proof {
                                            assert(piece@ =~= seq![s@[*mag as int]]);
                                        }
                                        PropAccess::Value(Value2::String(piece.to_owned()))
                                    } else {
                                        PropAccess::Value(Value2::undefined())
                                    }
                                } else {
                                    PropAccess::Value(Value2::undefined())
                                }
                            },
                            _ => {
                                let ks = key.to_string(heap);
                                let ph = protos.string.obj_handle();
                                ordinary_get_exec(heap, ph, ks.as_str(), fuel)
                            },
                        }
                    },
                    Value2::String(k) => {
                        if str_eq(k.as_str(), "length") {
                            let len = utf16_count(s.as_str());
                            PropAccess::Value(Value2::Number(JsNum::of_u64(len)))
                        } else {
                            let ph = protos.string.obj_handle();
                            ordinary_get_exec(heap, ph, k.as_str(), fuel)
                        }
                    },
                    _ => {
                        let ks = key.to_string(heap);
                        let ph = protos.string.obj_handle();
                        ordinary_get_exec(heap, ph, ks.as_str(), fuel)
                    },
                }
            },
            Value2::Number(_) => {
                let ks = key.to_string(heap);
                let ph = protos.number.obj_handle();
                ordinary_get_exec(heap, ph, ks.as_str(), fuel)
            },
            Value2::Object(h) => {
                let o = heap.obj(*h);
                match &o.kind {
                    ObjectKind2::Array(a) => {
                        proof {
                            assert(heap@[*h as int].kind == KindV::Array(a@));
                        }
                        match key {
                            Value2::Number(n) => {
                                match n {
                                    JsNum::Finite { neg, mag } => {
                                        if !*neg || *mag == 0 {
                                            slot_get_exec(&a.elems, *mag)
                                        } else {
                                            let ks = key.to_string(heap);
                                            ordinary_get_exec(heap, *h, ks.as_str(), fuel)
                                        }
                                    },
                                    _ => {
                                        let ks = key.to_string(heap);
                                        ordinary_get_exec(heap, *h, ks.as_str(), fuel)
                                    },
                                }
                            },
                            Value2::String(k) => {
                                if str_eq(k.as_str(), "length") {
                                    let len = a.elems.len();
                                    PropAccess::Value(Value2::Number(JsNum::of_u64(len as u64)))
                                } else {
                                    let parsed = crate::value::parse_str_chars(k);
                                    let u = parsed.to_uint32();
                                    let canon = JsNum::of_u64(u as u64).render();
                                    if str_eq(canon.as_str(), k.as_str()) {
                                        slot_get_exec(&a.elems, u as u64)
                                    } else {
                                        ordinary_get_exec(heap, *h, k.as_str(), fuel)
                                    }
                                }
                            },
                            _ => {
                                let ks = key.to_string(heap);
                                ordinary_get_exec(heap, *h, ks.as_str(), fuel)
                            },
                        }
                    },
                    ObjectKind2::Arguments(args) => {
                        proof {
                            assert(heap@[*h as int].kind == KindV::Arguments(
                                args.bindings@.map_values(|v: Value2| v@),
                            ));
                        }
                        match key {
                            Value2::Number(n) => {
                                match n {
                                    JsNum::Finite { neg, mag } => {
                                        if !*neg || *mag == 0 {
                                            if *mag < (args.bindings.len() as u64) {
                                                let i = *mag as usize;
                                                proof {
                                                    assert(args.bindings@.map_values(
                                                        |v: Value2| v@,
                                                    )[*mag as int] == args.bindings@[*mag as int]@);
                                                }
                                                PropAccess::Value(
                                                    args.bindings[i].clone().to_undefined_if_empty(),
                                                )
                                            } else {
                                                PropAccess::Value(Value2::undefined())
                                            }
                                        } else {
                                            PropAccess::Value(Value2::undefined())
                                        }
                                    },
                                    _ => PropAccess::Value(Value2::undefined()),
                                }
                            },
                            Value2::String(k) => {
                                if str_eq(k.as_str(), "length") {
                                    let len = args.bindings.len();
                                    PropAccess::Value(Value2::Number(JsNum::of_u64(len as u64)))
                                } else {
                                    PropAccess::Value(Value2::undefined())
                                }
                            },
                            _ => PropAccess::Value(Value2::undefined()),
                        }
                    },
                    _ => {
                        let ks = key.to_string(heap);
                        ordinary_get_exec(heap, *h, ks.as_str(), fuel)
                    },
                }
            },
            _ => PropAccess::Value(Value2::undefined()),
        }
    }

    /// Reads a plain string key on an object value as
    /// [`spec_get_by_str_key`] says.
    pub fn get_property_by_str_key(&self, heap: &Heap, key: &str) -> (r: Value2)
        requires
            heap.wf(),
            valid_value(self@, heap@.len() as int),
        ensures
            r@ == spec_get_by_str_key(heap@, self@, key@, (heap@.len() + 1) as nat),
    {
        let fuel: u128 = heap.len() as u128 + 1;
        match self {
            Value2::Object(h) => {
                match chain_lookup_exec(heap, *h, key, fuel) {
                    Some(Property2::Data(d)) => d.val.to_undefined_if_empty(),
                    _ => Value2::undefined(),
                }
            },
            _ => Value2::undefined(),
        }
    }

    /// The handle inside an object value.
    pub fn obj_handle(&self) -> (h: usize)
        requires
            self@ is Obj,
        ensures
            self@ == ValueV::Obj(h as int),
    {
        match self {
            Value2::Object(h) => *h,
            _ => unreached(),
        }
    }
}

// ---------------------------------------------------------------------------
// Writes
// ---------------------------------------------------------------------------
/// What an ordinary write does to an own-property map: an existing data
/// property takes the value in place, keeping its flags; an existing
/// accessor stores nothing and hands its setter back (`None` where it has
/// none); an absent key becomes a fresh own data property with default
/// flags. Writes never walk the prototype chain.
pub open spec fn ordinary_set(props: Map<Seq<char>, PropertyV>, key: Seq<char>, val: ValueV) -> (
    Map<Seq<char>, PropertyV>,
    Option<ValueV>,
) {
    if props.contains_key(key) {
        match props[key] {
            PropertyV::Data { val: _, writable, enumerable, configurable } => (
                props.insert(key, PropertyV::Data { val, writable, enumerable, configurable }),
                None,
            ),
            PropertyV::Accessor { set, .. } => (
                props,
                if set == ValueV::Other(Sentinel::Undefined) {
                    None
                } else {
                    Some(set)
                },
            ),
        }
    } else {
        (props.insert(key, data_prop_v(val)), None)
    }
}

/// [`ordinary_set`] applied to object `h` of the heap.
pub open spec fn ordinary_set_on(heap: Seq<ObjectV>, h: int, key: Seq<char>, val: ValueV) -> (
    Seq<ObjectV>,
    Option<ValueV>,
) {
    (
        heap.update(
            h,
            ObjectV { kind: heap[h].kind, props: ordinary_set(heap[h].props, key, val).0 },
        ),
        ordinary_set(heap[h].props, key, val).1,
    )
}

/// A slot write on the array object `h`; see [`spec_set_element`].
pub open spec fn array_elem_write(
    heap: Seq<ObjectV>,
    h: int,
    elems: Seq<PropertyV>,
    idx: int,
    val: ValueV,
) -> (Seq<ObjectV>, Option<ValueV>) {
    (
        heap.update(
            h,
            ObjectV { kind: KindV::Array(spec_set_element(elems, idx, val).0), props: heap[h].props },
        ),
        spec_set_element(elems, idx, val).1,
    )
}

/// The write dispatch on an array object: an index-like key (numeric, or a
/// round-tripping string) below the index limit writes a slot, growing the
/// array as needed; `"length"` set to an integer within the limit truncates
/// or pads the slots and anything else is a no-op; every other key is an
/// ordinary own-property write.
pub open spec fn spec_set_on_array(
    heap: Seq<ObjectV>,
    h: int,
    elems: Seq<PropertyV>,
    key: ValueV,
    val: ValueV,
    fuel: nat,
) -> (Seq<ObjectV>, Option<ValueV>) {
    match key {
        ValueV::Number(n) => if index_key(n) && n->Finite_mag < ARRAY_INDEX_LIMIT {
            array_elem_write(heap, h, elems, n->Finite_mag as int, val)
        } else {
            ordinary_set_on(heap, h, spec_to_string(heap, key, fuel), val)
        },
        ValueV::Str(k) => if k == "length"@ {
            match val {
                ValueV::Number(m) => if index_key(m) && m->Finite_mag <= ARRAY_INDEX_LIMIT {
                    (
                        heap.update(
                            h,
                            ObjectV {
                                kind: KindV::Array(
                                    spec_set_length(elems, m->Finite_mag as int),
                                ),
                                props: heap[h].props,
                            },
                        ),
                        None,
                    )
                } else {
                    (heap, None)
                },
                _ => (heap, None),
            }
        } else if uint32_round_trip(k) && (parse_num(k).spec_to_uint32() as u64)
            < ARRAY_INDEX_LIMIT {
            array_elem_write(heap, h, elems, parse_num(k).spec_to_uint32() as int, val)
        } else {
            ordinary_set_on(heap, h, k, val)
        },
        _ => ordinary_set_on(heap, h, spec_to_string(heap, key, fuel), val),
    }
}

/// The full write dispatch table: arrays and arguments objects take their
/// exotic paths, other objects take the ordinary own-property write, and a
/// write to a non-object receiver changes nothing.
pub open spec fn spec_set_property(
    heap: Seq<ObjectV>,
    recv: ValueV,
    key: ValueV,
    val: ValueV,
    fuel: nat,
) -> (Seq<ObjectV>, Option<ValueV>) {
    match recv {
        ValueV::Obj(h) => if 0 <= h < heap.len() {
            match heap[h].kind {
                KindV::Array(elems) => spec_set_on_array(heap, h, elems, key, val, fuel),
                KindV::Arguments(bs) => match key {
                    ValueV::Number(n) => if index_key(n) && n->Finite_mag < bs.len() {
                        (
                            heap.update(
                                h,
                                ObjectV {
                                    kind: KindV::Arguments(
                                        bs.update(n->Finite_mag as int, val),
                                    ),
                                    props: heap[h].props,
                                },
                            ),
                            None,
                        )
                    } else {
                        (heap, None)
                    },
                    _ => (heap, None),
                },
                _ => ordinary_set_on(heap, h, spec_to_string(heap, key, fuel), val),
            }
        } else {
            (heap, None)
        },
        _ => (heap, None),
    }
}

pub proof fn lemma_set_length_valid(elems: Seq<PropertyV>, m: int, n: int)
    requires
        valid_prop_seq(elems, n),
        m >= 0,
    ensures
        valid_prop_seq(spec_set_length(elems, m), n),
{
    let out = spec_set_length(elems, m);
    assert forall|i: int| 0 <= i < out.len() implies valid_prop(#[trigger] out[i], n) by {
        if m <= elems.len() {
            assert(out[i] == elems[i]);
        } else {
            if i < elems.len() {
                assert(out[i] == elems[i]);
            } else {
                assert(out[i] == data_prop_v(ValueV::Other(Sentinel::Empty)));
            }
        }
    }
}

pub proof fn lemma_set_element_valid(elems: Seq<PropertyV>, idx: int, val: ValueV, n: int)
    requires
        valid_prop_seq(elems, n),
        valid_value(val, n),
        idx >= 0,
    ensures
        valid_prop_seq(spec_set_element(elems, idx, val).0, n),
{
    let padded = if idx >= elems.len() {
        spec_set_length(elems, idx + 1)
    } else {
        elems
    };
    if idx >= elems.len() {
        lemma_set_length_valid(elems, idx + 1, n);
    }
    assert(valid_prop_seq(padded, n));
    let out = spec_set_element(elems, idx, val).0;
    assert forall|i: int| 0 <= i < out.len() implies valid_prop(#[trigger] out[i], n) by {
        match padded[idx] {
            PropertyV::Data { .. } => {
                if i != idx {
                    assert(out[i] == padded[i]);
                }
            },
            PropertyV::Accessor { .. } => {
                assert(out[i] == padded[i]);
            },
        }
    }
}

/// Writes one array slot in place, handing back the setter where the slot
/// is an accessor.
fn array_write_exec(heap: &mut Heap, h: usize, idx: u64, val: Value2) -> (r: Option<Value2>)
    requires
        old(heap).wf(),
        h < old(heap)@.len(),
        old(heap)@[h as int].kind is Array,
        valid_value(val@, old(heap)@.len() as int),
        idx < ARRAY_INDEX_LIMIT,
    ensures
        final(heap).wf(),
        final(heap)@ == array_elem_write(
            old(heap)@,
            h as int,
            old(heap)@[h as int].kind->Array_0,
            idx as int,
            val@,
        ).0,
        match r {
            Some(s) => Some(s@) == array_elem_write(
                old(heap)@,
                h as int,
                old(heap)@[h as int].kind->Array_0,
                idx as int,
                val@,
            ).1,
            None => array_elem_write(
                old(heap)@,
                h as int,
                old(heap)@[h as int].kind->Array_0,
                idx as int,
                val@,
            ).1 is None,
        },
        final(heap).next_fn_id == old(heap).next_fn_id,
{
    let ghost n = old(heap)@.len() as int;
    let ghost val_v = val@;
    let r = match &mut heap.objects[h].kind {
        ObjectKind2::Array(a) => a.set_element(idx as usize, val),
        _ => unreached(),
    };
    proof {
        let elems = old(heap)@[h as int].kind->Array_0;
        let updated = ObjectV {
            kind: KindV::Array(spec_set_element(elems, idx as int, val_v).0),
            props: old(heap)@[h as int].props,
        };
        assert(heap@ =~= old(heap)@.update(h as int, updated));
        assert(valid_object(old(heap)@[h as int], n));
        lemma_set_element_valid(elems, idx as int, val_v, n);
        assert forall|i: int| 0 <= i < heap@.len() implies valid_object(
            #[trigger] heap@[i],
            n,
        ) by {
            if i != h as int {
                assert(heap@[i] == old(heap)@[i]);
            }
        }
    }
    r
}

/// Adjusts an array's `length` in place.
fn array_set_length_exec(heap: &mut Heap, h: usize, new_len: u64)
    requires
        old(heap).wf(),
        h < old(heap)@.len(),
        old(heap)@[h as int].kind is Array,
        new_len <= ARRAY_INDEX_LIMIT,
    ensures
        final(heap).wf(),
        final(heap)@ == old(heap)@.update(
            h as int,
            ObjectV {
                kind: KindV::Array(
                    spec_set_length(old(heap)@[h as int].kind->Array_0, new_len as int),
                ),
                props: old(heap)@[h as int].props,
            },
        ),
        final(heap).next_fn_id == old(heap).next_fn_id,
{
    let ghost n = old(heap)@.len() as int;
    match &mut heap.objects[h].kind {
        ObjectKind2::Array(a) => a.set_length(new_len as usize),
        _ => unreached(),
    }
    proof {
        let elems = old(heap)@[h as int].kind->Array_0;
        let updated = ObjectV {
            kind: KindV::Array(spec_set_length(elems, new_len as int)),
            props: old(heap)@[h as int].props,
        };
        assert(heap@ =~= old(heap)@.update(h as int, updated));
        assert(valid_object(old(heap)@[h as int], n));
        lemma_set_length_valid(elems, new_len as int, n);
        assert forall|i: int| 0 <= i < heap@.len() implies valid_object(
            #[trigger] heap@[i],
            n,
        ) by {
            if i != h as int {
                assert(heap@[i] == old(heap)@[i]);
            }
        }
    }
}

/// Overwrites one positional binding of an arguments object.
fn arguments_write_exec(heap: &mut Heap, h: usize, idx: usize, val: Value2)
    requires
        old(heap).wf(),
        h < old(heap)@.len(),
        old(heap)@[h as int].kind is Arguments,
        idx < old(heap)@[h as int].kind->Arguments_0.len(),
        valid_value(val@, old(heap)@.len() as int),
    ensures
        final(heap).wf(),
        final(heap)@ == old(heap)@.update(
            h as int,
            ObjectV {
                kind: KindV::Arguments(
                    old(heap)@[h as int].kind->Arguments_0.update(idx as int, val@),
                ),
                props: old(heap)@[h as int].props,
            },
        ),
        final(heap).next_fn_id == old(heap).next_fn_id,
{
    let ghost n = old(heap)@.len() as int;
    let ghost val_v = val@;
    match &mut heap.objects[h].kind {
        ObjectKind2::Arguments(args) => {
            args.bindings[idx] = val;
            proof {
                assert(args.bindings@.map_values(|v: Value2| v@) =~= old(
                    heap,
                )@[h as int].kind->Arguments_0.update(idx as int, val_v));
            }
        },
        _ => unreached(),
    }
    proof {
        let updated = ObjectV {
            kind: KindV::Arguments(
                old(heap)@[h as int].kind->Arguments_0.update(idx as int, val_v),
            ),
            props: old(heap)@[h as int].props,
        };
        assert(heap@ =~= old(heap)@.update(h as int, updated));
        assert(valid_object(old(heap)@[h as int], n));
        assert(valid_value_seq(old(heap)@[h as int].kind->Arguments_0, n));
        assert forall|i: int| 0 <= i < heap@.len() implies valid_object(
            #[trigger] heap@[i],
            n,
        ) by {
            if i != h as int {
                assert(heap@[i] == old(heap)@[i]);
            } else {
                let bs = old(heap)@[h as int].kind->Arguments_0.update(idx as int, val_v);
                assert forall|k: int| 0 <= k < bs.len() implies valid_value(
                    #[trigger] bs[k],
                    n,
                ) by {
                    if k != idx as int {
                        assert(bs[k] == old(heap)@[h as int].kind->Arguments_0[k]);
                    }
                }
            }
        }
    }
}

/// Performs an ordinary own-property write on object `h`.
fn ordinary_set_exec(heap: &mut Heap, h: usize, key: String, val: Value2) -> (r: Option<Value2>)
    requires
        old(heap).wf(),
        h < old(heap)@.len(),
        valid_value(val@, old(heap)@.len() as int),
    ensures
        final(heap).wf(),
        final(heap)@ == ordinary_set_on(old(heap)@, h as int, key@, val@).0,
        match r {
            Some(s) => Some(s@) == ordinary_set_on(old(heap)@, h as int, key@, val@).1,
            None => ordinary_set_on(old(heap)@, h as int, key@, val@).1 is None,
        },
        final(heap).next_fn_id == old(heap).next_fn_id,
{
    let existing: Option<Property2> = match heap.obj(h).property.get(key.as_str()) {
        Some(p) => Some(p.clone()),
        None => None,
    };
    match existing {
        Some(Property2::Data(d)) => {
            heap.insert_prop(
                h,
                key,
                Property2::new_data(val, d.writable, d.enumerable, d.configurable),
            );
            None
        },
        Some(Property2::Accessor(a)) => {
            proof {
                assert(heap@ =~= old(heap)@.update(
                    h as int,
                    ObjectV { kind: old(heap)@[h as int].kind, props: old(heap)@[h as int].props },
                ));
            }
            if a.set.is_undefined() {
                None
            } else {
                Some(a.set)
            }
        },
        None => {
            heap.insert_prop(h, key, Property2::new_data_simple(val));
            None
        },
    }
}

impl Value2 {
    /// Writes a property as [`spec_set_property`] says, handing back the
    /// setter to invoke where the write met an accessor.
    pub fn set_property(&self, heap: &mut Heap, key: &Value2, val: Value2) -> (r: Option<Value2>)
        requires
            old(heap).wf(),
            valid_value(self@, old(heap)@.len() as int),
            valid_value(key@, old(heap)@.len() as int),
            valid_value(val@, old(heap)@.len() as int),
        ensures
            final(heap).wf(),
            final(heap)@ == spec_set_property(
                old(heap)@,
                self@,
                key@,
                val@,
                (old(heap)@.len() + 1) as nat,
            ).0,
            match r {
                Some(s) => Some(s@) == spec_set_property(
                    old(heap)@,
                    self@,
                    key@,
                    val@,
                    (old(heap)@.len() + 1) as nat,
                ).1,
                None => spec_set_property(
                    old(heap)@,
                    self@,
                    key@,
                    val@,
                    (old(heap)@.len() + 1) as nat,
                ).1 is None,
            },
            final(heap).next_fn_id == old(heap).next_fn_id,
    {
        let h = match self {
            Value2::Object(h) => *h,
            _ => {
                return None;
            },
        };
        let ks: String = key.to_string(heap);
        let on_array = matches!(&heap.objects[h].kind, ObjectKind2::Array(_));
        let on_arguments = matches!(&heap.objects[h].kind, ObjectKind2::Arguments(_));
        if on_array {
            match key {
                Value2::Number(n) => {
                    match n {
                        JsNum::Finite { neg, mag } => {
                            if (!*neg || *mag == 0) && *mag < ARRAY_INDEX_LIMIT {
                                array_write_exec(heap, h, *mag, val)
                            } else {
                                ordinary_set_exec(heap, h, ks, val)
                            }
                        },
                        _ => ordinary_set_exec(heap, h, ks, val),
                    }
                },
                Value2::String(k) => {
                    if str_eq(k.as_str(), "length") {
                        match &val {
                            Value2::Number(m) => {
                                match m {
                                    JsNum::Finite { neg, mag } => {
                                        if (!*neg || *mag == 0) && *mag <= ARRAY_INDEX_LIMIT {
                                            array_set_length_exec(heap, h, *mag);
                                            None
                                        } else {
                                            None
                                        }
                                    },
                                    _ => None,
                                }
                            },
                            _ => None,
                        }
                    } else {
                        let parsed = crate::value::parse_str_chars(k);
                        let u = parsed.to_uint32();
                        let canon = JsNum::of_u64(u as u64).render();
                        if str_eq(canon.as_str(), k.as_str()) && (u as u64) < ARRAY_INDEX_LIMIT {
                            array_write_exec(heap, h, u as u64, val)
                        } else {
                            ordinary_set_exec(heap, h, ks, val)
                        }
                    }
                },
                _ => ordinary_set_exec(heap, h, ks, val),
            }
        } else if on_arguments {
            match key {
                Value2::Number(n) => {
                    match n {
                        JsNum::Finite { neg, mag } => {
                            let blen = match &heap.objects[h].kind {
                                ObjectKind2::Arguments(args) => args.bindings.len(),
                                _ => unreached(),
                            };
                            if (!*neg || *mag == 0) && *mag < (blen as u64) {
                                arguments_write_exec(heap, h, *mag as usize, val);
                                None
                            } else {
                                None
                            }
                        },
                        _ => None,
                    }
                },
                _ => None,
            }
        } else {
            ordinary_set_exec(heap, h, ks, val)
        }
    }

    /// Writes under a plain string key, as [`Value2::set_property`] with a
    /// string-valued key.
    pub fn set_property_by_string_key(&self, heap: &mut Heap, key: String, val: Value2) -> (r:
        Option<Value2>)
        requires
            old(heap).wf(),
            valid_value(self@, old(heap)@.len() as int),
            valid_value(val@, old(heap)@.len() as int),
        ensures
            final(heap).wf(),
            final(heap)@ == spec_set_property(
                old(heap)@,
                self@,
                ValueV::Str(key@),
                val@,
                (old(heap)@.len() + 1) as nat,
            ).0,
            match r {
                Some(s) => Some(s@) == spec_set_property(
                    old(heap)@,
                    self@,
                    ValueV::Str(key@),
                    val@,
                    (old(heap)@.len() + 1) as nat,
                ).1,
                None => spec_set_property(
                    old(heap)@,
                    self@,
                    ValueV::Str(key@),
                    val@,
                    (old(heap)@.len() + 1) as nat,
                ).1 is None,
            },
            final(heap).next_fn_id == old(heap).next_fn_id,
    {
        let kv = Value2::String(key);
        self.set_property(heap, &kv, val)
    }
}

} // verus!
