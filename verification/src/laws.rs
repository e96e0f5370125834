//! The laws the value model obeys, stated and proved over the same
//! specifications the operations' contracts use.

use crate::heap::ObjectV;
use crate::heap::ProtosV;
use crate::num::JsNum;
use crate::num::dec_str;
use crate::num::lemma_canonical_index_round_trip;
use crate::num::lemma_dec_str_digits;
use crate::num::num_str;
use crate::num::parse_num;
use crate::num::is_digit;
use crate::object::PropertyV;
use crate::resolve::AccessV;
use crate::resolve::chain_lookup;
use crate::resolve::index_key;
use crate::resolve::lookup_steps;
use crate::resolve::own_prop;
use crate::resolve::proto_of;
use crate::resolve::slot_get;
use crate::resolve::spec_get_property;
use crate::resolve::uint32_round_trip;
use crate::value::Sentinel;
use crate::value::ValueV;
use crate::value::bool_as_num;
use crate::value::tag_of;
use crate::value::to_boolean_v;
use vstd::prelude::*;

verus! {

// ---------------------------------------------------------------------------
// Type tags
// ---------------------------------------------------------------------------
/// Variant-only equality of two values: they carry the same constructor,
/// with the four sentinels counted apart.
pub open spec fn same_variant(a: ValueV, b: ValueV) -> bool {
    match (a, b) {
        (ValueV::Number(_), ValueV::Number(_)) => true,
        (ValueV::Bool(_), ValueV::Bool(_)) => true,
        (ValueV::Str(_), ValueV::Str(_)) => true,
        (ValueV::Obj(_), ValueV::Obj(_)) => true,
        (ValueV::Other(s1), ValueV::Other(s2)) => s1 == s2,
        _ => false,
    }
}

/// Every value satisfies exactly one of the five variant checks.
pub proof fn lemma_variant_partition(v: ValueV)
    ensures
        (if v is Number {
            1int
        } else {
            0int
        }) + (if v is Bool {
            1int
        } else {
            0int
        }) + (if v is Str {
            1int
        } else {
            0int
        }) + (if v is Obj {
            1int
        } else {
            0int
        }) + (if v is Other {
            1int
        } else {
            0int
        }) == 1,
{
}

/// The type-tag relation the `is_same_type_as` contract uses is exactly
/// variant-only equality.
pub proof fn lemma_same_type_is_variant_equality(a: ValueV, b: ValueV)
    ensures
        (tag_of(a) == tag_of(b)) == same_variant(a, b),
{
}

/// The type-tag relation is reflexive.
pub proof fn lemma_same_type_reflexive(v: ValueV)
    ensures
        same_variant(v, v),
{
}

/// The type-tag relation is symmetric.
pub proof fn lemma_same_type_symmetric(a: ValueV, b: ValueV)
    ensures
        same_variant(a, b) == same_variant(b, a),
{
}

// ---------------------------------------------------------------------------
// Prototype fallback
// ---------------------------------------------------------------------------
/// `chain` is the (acyclic, materialized) prototype chain from its first
/// member: consecutive members are linked by `__proto__`, and the last
/// one's prototype is not an object.
pub open spec fn is_proto_chain(heap: Seq<ObjectV>, chain: Seq<int>) -> bool {
    &&& chain.len() >= 1
    &&& forall|i: int| 0 <= i < chain.len() ==> 0 <= #[trigger] chain[i] < heap.len()
    &&& forall|i: int|
        0 <= i < chain.len() - 1 ==> proto_of(heap, #[trigger] chain[i]) == ValueV::Obj(
            chain[i + 1],
        )
    &&& !(proto_of(heap, chain.last()) is Obj)
}

/// A key absent on every member of an acyclic chain of `n + 1` members
/// resolves to nothing, and the walk examines exactly `n + 1` members
/// (one per chain link, the receiver included).
pub proof fn lemma_prototype_fallback_absent(
    heap: Seq<ObjectV>,
    chain: Seq<int>,
    key: Seq<char>,
    fuel: nat,
)
    requires
        is_proto_chain(heap, chain),
        fuel >= chain.len(),
        forall|i: int| 0 <= i < chain.len() ==> own_prop(heap, #[trigger] chain[i], key) is None,
    ensures
        chain_lookup(heap, chain[0], key, fuel) is None,
        lookup_steps(heap, chain[0], key, fuel) == chain.len(),
    decreases chain.len(),
{
    if chain.len() == 1 {
        assert(!(proto_of(heap, chain[0]) is Obj));
    } else {
        let rest = chain.subrange(1, chain.len() as int);
        assert(rest.last() == chain.last());
        assert forall|i: int| 0 <= i < rest.len() - 1 implies proto_of(heap, #[trigger] rest[i])
            == ValueV::Obj(rest[i + 1]) by {
            assert(rest[i] == chain[i + 1]);
            assert(rest[i + 1] == chain[i + 2]);
        }
        assert forall|i: int| 0 <= i < rest.len() implies own_prop(
            heap,
            #[trigger] rest[i],
            key,
        ) is None by {
            assert(rest[i] == chain[i + 1]);
        }
        assert forall|i: int| 0 <= i < rest.len() implies 0 <= #[trigger] rest[i]
            < heap.len() by {
            assert(rest[i] == chain[i + 1]);
        }
        lemma_prototype_fallback_absent(heap, rest, key, (fuel - 1) as nat);
        assert(proto_of(heap, chain[0]) == ValueV::Obj(chain[1]));
        assert(rest[0] == chain[1]);
    }
}

/// Members before `j` are linked and valid; the chain need not be complete.
pub open spec fn chain_linked_to(heap: Seq<ObjectV>, chain: Seq<int>, j: int) -> bool {
    &&& 0 <= j < chain.len()
    &&& forall|i: int| 0 <= i <= j ==> 0 <= #[trigger] chain[i] < heap.len()
    &&& forall|i: int|
        0 <= i < j ==> proto_of(heap, #[trigger] chain[i]) == ValueV::Obj(chain[i + 1])
}

/// The first chain member that owns the key decides the lookup: the walk
/// answers with that member's descriptor after examining `j + 1` members,
/// whatever lies further along the chain.
pub proof fn lemma_prototype_first_match(
    heap: Seq<ObjectV>,
    chain: Seq<int>,
    key: Seq<char>,
    fuel: nat,
    j: int,
    p: PropertyV,
)
    requires
        chain_linked_to(heap, chain, j),
        fuel > j,
        own_prop(heap, chain[j], key) == Some(p),
        forall|i: int| 0 <= i < j ==> own_prop(heap, #[trigger] chain[i], key) is None,
    ensures
        chain_lookup(heap, chain[0], key, fuel) == Some(p),
        lookup_steps(heap, chain[0], key, fuel) == j + 1,
    decreases j,
{
    if j == 0 {
    } else {
        let rest = chain.subrange(1, chain.len() as int);
        assert(rest[j - 1] == chain[j]);
        assert forall|i: int| 0 <= i <= j - 1 implies 0 <= #[trigger] rest[i] < heap.len() by {
            assert(rest[i] == chain[i + 1]);
        }
        assert forall|i: int| 0 <= i < j - 1 implies proto_of(heap, #[trigger] rest[i])
            == ValueV::Obj(rest[i + 1]) by {
            assert(rest[i] == chain[i + 1]);
            assert(rest[i + 1] == chain[i + 2]);
        }
        assert forall|i: int| 0 <= i < j - 1 implies own_prop(
            heap,
            #[trigger] rest[i],
            key,
        ) is None by {
            assert(rest[i] == chain[i + 1]);
        }
        lemma_prototype_first_match(heap, rest, key, (fuel - 1) as nat, j - 1, p);
        assert(own_prop(heap, chain[0], key) is None);
        assert(proto_of(heap, chain[0]) == ValueV::Obj(chain[1]));
        assert(rest[0] == chain[1]);
    }
}

/// At the read dispatch: an object of ordinary kind with a string key that
/// is absent on its whole acyclic chain reads as `undefined`, after
/// examining every chain member once.
pub proof fn lemma_get_property_absent_reads_undefined(
    heap: Seq<ObjectV>,
    protos: ProtosV,
    chain: Seq<int>,
    key: Seq<char>,
    fuel: nat,
)
    requires
        is_proto_chain(heap, chain),
        heap[chain[0]].kind is Ordinary,
        fuel >= chain.len(),
        forall|i: int| 0 <= i < chain.len() ==> own_prop(heap, #[trigger] chain[i], key) is None,
    ensures
        spec_get_property(heap, protos, ValueV::Obj(chain[0]), ValueV::Str(key), fuel)
            == AccessV::Value(ValueV::Other(Sentinel::Undefined)),
        lookup_steps(heap, chain[0], key, fuel) == chain.len(),
{
    lemma_prototype_fallback_absent(heap, chain, key, fuel);
}

/// At the read dispatch: on an object of ordinary kind, the first chain
/// member owning the key decides what a string-key read answers.
pub proof fn lemma_get_property_first_match(
    heap: Seq<ObjectV>,
    protos: ProtosV,
    chain: Seq<int>,
    key: Seq<char>,
    fuel: nat,
    j: int,
    p: PropertyV,
)
    requires
        chain_linked_to(heap, chain, j),
        heap[chain[0]].kind is Ordinary,
        fuel > j,
        own_prop(heap, chain[j], key) == Some(p),
        forall|i: int| 0 <= i < j ==> own_prop(heap, #[trigger] chain[i], key) is None,
    ensures
        spec_get_property(heap, protos, ValueV::Obj(chain[0]), ValueV::Str(key), fuel)
            == crate::resolve::access_of(Some(p)),
        lookup_steps(heap, chain[0], key, fuel) == j + 1,
{
    lemma_prototype_first_match(heap, chain, key, fuel, j, p);
}

// ---------------------------------------------------------------------------
// Arrays
// ---------------------------------------------------------------------------
/// Reading `length` on an array always answers the slot count: the dense
/// store and the observable length cannot drift apart.
pub proof fn lemma_array_length_observable(
    heap: Seq<ObjectV>,
    protos: ProtosV,
    h: int,
    fuel: nat,
)
    requires
        0 <= h < heap.len(),
        heap[h].kind is Array,
        heap[h].kind->Array_0.len() <= u64::MAX,
    ensures
        spec_get_property(heap, protos, ValueV::Obj(h), ValueV::Str("length"@), fuel)
            == AccessV::Value(
            ValueV::Number(JsNum::spec_of_u64(heap[h].kind->Array_0.len() as u64)),
        ),
{
}

/// An array answers a canonical numeric string key exactly as it answers
/// the number itself: the two spellings address the same slot.
pub proof fn lemma_index_string_key_equivalence(
    heap: Seq<ObjectV>,
    protos: ProtosV,
    h: int,
    i: u32,
    fuel: nat,
)
    requires
        0 <= h < heap.len(),
        heap[h].kind is Array,
    ensures
        spec_get_property(
            heap,
            protos,
            ValueV::Obj(h),
            ValueV::Number(JsNum::spec_of_u64(i as u64)),
            fuel,
        ) == spec_get_property(
            heap,
            protos,
            ValueV::Obj(h),
            ValueV::Str(dec_str(i as nat)),
            fuel,
        ),
{
    let elems = heap[h].kind->Array_0;
    let k = dec_str(i as nat);
    lemma_canonical_index_round_trip(i);
    lemma_dec_str_digits(i as nat);
    assert(k != "length"@) by {
        reveal_strlit("length");
        if k == "length"@ {
            assert(is_digit(k[0]));
            assert(k[0] == 'l');
        }
    }
    assert(uint32_round_trip(k));
    assert(index_key(JsNum::spec_of_u64(i as u64)));
    assert(parse_num(k).spec_to_uint32() == i);
    assert(spec_get_property(
        heap,
        protos,
        ValueV::Obj(h),
        ValueV::Number(JsNum::spec_of_u64(i as u64)),
        fuel,
    ) == slot_get(elems, i as int));
    assert(spec_get_property(heap, protos, ValueV::Obj(h), ValueV::Str(k), fuel) == slot_get(
        elems,
        i as int,
    ));
}

// ---------------------------------------------------------------------------
// Coercion round trips
// ---------------------------------------------------------------------------
/// A boolean survives the trip through ToNumber and back through
/// ToBoolean.
pub proof fn lemma_bool_number_round_trip(b: bool)
    ensures
        to_boolean_v(ValueV::Number(bool_as_num(b))) == b,
{
}

/// Both zeros render as `0`: the rendering collapses the sign of zero.
pub proof fn lemma_zero_renders_as_zero(neg: bool)
    ensures
        num_str(JsNum::spec_zero(neg)) == "0"@,
{
    reveal_strlit("0");
    assert(dec_str(0) =~= "0"@);
}

} // verus!
