//! Construction of heap objects and the accessors on object values.
//!
//! Every constructor takes the heap (the allocator capability) and, where a
//! prototype must be wired in, the prototype registry. Each returns a value
//! holding the handle of a freshly allocated record whose contents the
//! contract states exactly.

use crate::array::ArrayObjectInfo;
use crate::heap::ArgumentsInfo;
use crate::heap::FuncKindV;
use crate::heap::FunctionObjectInfo;
use crate::heap::FunctionObjectKind;
use crate::heap::FunctionParameter;
use crate::heap::FunctionV;
use crate::heap::Heap;
use crate::heap::KindV;
use crate::heap::ObjectInfo;
use crate::heap::ObjectKind2;
use crate::heap::ObjectPrototypes;
use crate::heap::ObjectV;
use crate::heap::UserFnV;
use crate::heap::UserFunctionInfo;
use crate::heap::Exception;
use crate::heap::date_in_range;
use crate::heap::valid_props_map;
use crate::heap::valid_value;
use crate::num::JsNum;
use crate::object::Property2;
use crate::object::PropertyMap;
use crate::object::PropertyV;
use crate::object::data_prop_v;
use crate::value::Value2;
use crate::value::ValueV;
use vstd::prelude::*;

verus! {

/// The model of the own-property map every function object starts with.
pub open spec fn function_props_v(
    proto: ValueV,
    prototype: ValueV,
    length: u64,
    name: Seq<char>,
    prototype_writable: bool,
    prototype_enumerable: bool,
    prototype_configurable: bool,
) -> Map<Seq<char>, PropertyV> {
    Map::<Seq<char>, PropertyV>::empty().insert(
        "__proto__"@,
        PropertyV::Data { val: proto, writable: false, enumerable: false, configurable: false },
    ).insert(
        "prototype"@,
        PropertyV::Data {
            val: prototype,
            writable: prototype_writable,
            enumerable: prototype_enumerable,
            configurable: prototype_configurable,
        },
    ).insert(
        "length"@,
        PropertyV::Data {
            val: ValueV::Number(JsNum::spec_of_u64(length)),
            writable: false,
            enumerable: false,
            configurable: true,
        },
    ).insert(
        "name"@,
        PropertyV::Data {
            val: ValueV::Str(name),
            writable: false,
            enumerable: false,
            configurable: true,
        },
    )
}

/// Builds the own-property map every function object starts with.
fn function_props(
    proto: Value2,
    prototype: Value2,
    length: u64,
    name: &String,
    prototype_writable: bool,
    prototype_enumerable: bool,
    prototype_configurable: bool,
) -> (r: PropertyMap)
    ensures
        r.wf(),
        r@ == function_props_v(
            proto@,
            prototype@,
            length,
            name@,
            prototype_writable,
            prototype_enumerable,
            prototype_configurable,
        ),
{
    let mut pm = PropertyMap::new();
    pm.insert("__proto__".to_owned(), Property2::new_data(proto, false, false, false));
    pm.insert(
        "prototype".to_owned(),
        Property2::new_data(
            prototype,
            prototype_writable,
            prototype_enumerable,
            prototype_configurable,
        ),
    );
    pm.insert(
        "length".to_owned(),
        Property2::new_data(Value2::Number(JsNum::of_u64(length)), false, false, true),
    );
    pm.insert(
        "name".to_owned(),
        Property2::new_data(Value2::String(name.clone()), false, false, true),
    );
    pm
}

/// Allocates an ordinary object with no own properties at all.
fn alloc_bare_object(heap: &mut Heap) -> (h: usize)
    requires
        old(heap).wf(),
    ensures
        final(heap).wf(),
        h == old(heap)@.len(),
        final(heap)@ == old(heap)@.push(
            ObjectV { kind: KindV::Ordinary, props: Map::<Seq<char>, PropertyV>::empty() },
        ),
        final(heap).next_fn_id == old(heap).next_fn_id,
{
    heap.allocate(ObjectInfo { kind: ObjectKind2::Ordinary, property: PropertyMap::new() })
}

impl Value2 {
    /// Allocates an ordinary object holding the given own properties, with
    /// the registry's object prototype installed under `__proto__`.
    pub fn object(heap: &mut Heap, protos: &ObjectPrototypes, properties: PropertyMap) -> (r:
        Value2)
        requires
            old(heap).wf(),
            protos.wf(old(heap)@.len() as int),
            properties.wf(),
            valid_props_map(properties@, old(heap)@.len() as int),
        ensures
            final(heap).wf(),
            r@ == ValueV::Obj(old(heap)@.len() as int),
            final(heap)@ == old(heap)@.push(
                ObjectV {
                    kind: KindV::Ordinary,
                    props: properties@.insert(
                        "__proto__"@,
                        PropertyV::Data {
                            val: protos.object@,
                            writable: false,
                            enumerable: false,
                            configurable: false,
                        },
                    ),
                },
            ),
            final(heap).next_fn_id == old(heap).next_fn_id,
    {
        let mut properties = properties;
        properties.insert(
            "__proto__".to_owned(),
            Property2::new_data(protos.object.clone(), false, false, false),
        );
        let h = heap.allocate(ObjectInfo { kind: ObjectKind2::Ordinary, property: properties });
        Value2::Object(h)
    }

    /// Allocates a native-callback function object: a fresh empty object
    /// becomes its `prototype`, the registry's function prototype its
    /// `__proto__`, and the callback token its behavior.
    pub fn builtin_function(
        heap: &mut Heap,
        protos: &ObjectPrototypes,
        name: String,
        func: usize,
    ) -> (r: Value2)
        requires
            old(heap).wf(),
            protos.wf(old(heap)@.len() as int),
            old(heap).next_fn_id < u64::MAX,
        ensures
            final(heap).wf(),
            r@ == ValueV::Obj(old(heap)@.len() + 1 as int),
            final(heap)@.len() == old(heap)@.len() + 2,
            forall|i: int| 0 <= i < old(heap)@.len() ==> final(heap)@[i] == old(heap)@[i],
            final(heap)@[old(heap)@.len() as int] == (ObjectV {
                kind: KindV::Ordinary,
                props: Map::<Seq<char>, PropertyV>::empty(),
            }),
            final(heap)@[old(heap)@.len() + 1 as int] == (ObjectV {
                kind: KindV::Function(
                    FunctionV {
                        id: old(heap).next_fn_id,
                        name: Some(name@),
                        kind: FuncKindV::Builtin(func),
                    },
                ),
                props: function_props_v(
                    protos.function@,
                    ValueV::Obj(old(heap)@.len() as int),
                    0,
                    name@,
                    true,
                    true,
                    true,
                ),
            }),
            final(heap).next_fn_id == old(heap).next_fn_id + 1,
    {
        let proto_handle = alloc_bare_object(heap);
        let prototype = Value2::Object(proto_handle);
        let pm = function_props(protos.function.clone(), prototype, 0, &name, true, true, true);
        let id = heap.fresh_fn_id();
        let info = FunctionObjectInfo {
            id,
            name: Some(name),
            kind: FunctionObjectKind::Builtin(func),
        };
        let h = heap.allocate(
            ObjectInfo { kind: ObjectKind2::Function(info), property: pm },
        );
        Value2::Object(h)
    }

    /// As [`Value2::builtin_function`], but wired to a caller-supplied
    /// function prototype instead of the registry's.
    pub fn builtin_function_with_prototype(
        heap: &mut Heap,
        function_prototype: Value2,
        name: String,
        func: usize,
    ) -> (r: Value2)
        requires
            old(heap).wf(),
            valid_value(function_prototype@, old(heap)@.len() as int),
            old(heap).next_fn_id < u64::MAX,
        ensures
            final(heap).wf(),
            r@ == ValueV::Obj(old(heap)@.len() + 1 as int),
            final(heap)@.len() == old(heap)@.len() + 2,
            forall|i: int| 0 <= i < old(heap)@.len() ==> final(heap)@[i] == old(heap)@[i],
            final(heap)@[old(heap)@.len() as int] == (ObjectV {
                kind: KindV::Ordinary,
                props: Map::<Seq<char>, PropertyV>::empty(),
            }),
            final(heap)@[old(heap)@.len() + 1 as int] == (ObjectV {
                kind: KindV::Function(
                    FunctionV {
                        id: old(heap).next_fn_id,
                        name: Some(name@),
                        kind: FuncKindV::Builtin(func),
                    },
                ),
                props: function_props_v(
                    function_prototype@,
                    ValueV::Obj(old(heap)@.len() as int),
                    0,
                    name@,
                    true,
                    true,
                    true,
                ),
            }),
            final(heap).next_fn_id == old(heap).next_fn_id + 1,
    {
        let proto_handle = alloc_bare_object(heap);
        let prototype = Value2::Object(proto_handle);
        let pm = function_props(function_prototype, prototype, 0, &name, true, true, true);
        let id = heap.fresh_fn_id();
        let info = FunctionObjectInfo {
            id,
            name: Some(name),
            kind: FunctionObjectKind::Builtin(func),
        };
        let h = heap.allocate(
            ObjectInfo { kind: ObjectKind2::Function(info), property: pm },
        );
        Value2::Object(h)
    }

    /// Allocates a function object defined in the language. Its `length`
    /// property is the parameter count, its `prototype` a fresh empty
    /// object, and its outer environment is left unset for the executor to
    /// wire later.
    pub fn function(
        heap: &mut Heap,
        protos: &ObjectPrototypes,
        name: Option<String>,
        params: Vec<FunctionParameter>,
        var_names: Vec<String>,
        lex_names: Vec<String>,
        func_decls: Vec<Value2>,
        code: Vec<u8>,
        exception_table: Vec<Exception>,
    ) -> (r: Value2)
        requires
            old(heap).wf(),
            protos.wf(old(heap)@.len() as int),
            old(heap).next_fn_id < u64::MAX,
            params@.len() <= u64::MAX,
            forall|i: int|
                0 <= i < func_decls@.len() ==> valid_value(
                    (#[trigger] func_decls@[i])@,
                    old(heap)@.len() as int,
                ),
        ensures
            final(heap).wf(),
            r@ == ValueV::Obj(old(heap)@.len() + 1 as int),
            final(heap)@.len() == old(heap)@.len() + 2,
            forall|i: int| 0 <= i < old(heap)@.len() ==> final(heap)@[i] == old(heap)@[i],
            final(heap)@[old(heap)@.len() as int] == (ObjectV {
                kind: KindV::Ordinary,
                props: Map::<Seq<char>, PropertyV>::empty(),
            }),
            final(heap)@[old(heap)@.len() + 1 as int] == (ObjectV {
                kind: KindV::Function(
                    FunctionV {
                        id: old(heap).next_fn_id,
                        name: match name {
                            Some(n) => Some(n@),
                            None => None,
                        },
                        kind: FuncKindV::User(
                            UserFnV {
                                params: params@.map_values(|p: FunctionParameter| p@),
                                var_names: var_names@.map_values(|s: String| s@),
                                lex_names: lex_names@.map_values(|s: String| s@),
                                func_decls: func_decls@.map_values(|v: Value2| v@),
                                code: code@,
                                exception_table: exception_table@,
                                outer: None,
                            },
                        ),
                    },
                ),
                props: function_props_v(
                    protos.function@,
                    ValueV::Obj(old(heap)@.len() as int),
                    params@.len() as u64,
                    match name {
                        Some(n) => n@,
                        None => Seq::<char>::empty(),
                    },
                    true,
                    false,
                    false,
                ),
            }),
            final(heap).next_fn_id == old(heap).next_fn_id + 1,
    {
        let name_string: String = match &name {
            Some(n) => n.clone(),
            None => String::new(),
        };
        proof {
            assert(name_string@ == match name {
                Some(n) => n@,
                None => Seq::<char>::empty(),
            });
        }
        let proto_handle = alloc_bare_object(heap);
        let prototype = Value2::Object(proto_handle);
        let pm = function_props(
            protos.function.clone(),
            prototype,
            params.len() as u64,
            &name_string,
            true,
            false,
            false,
        );
        let id = heap.fresh_fn_id();
        let info = FunctionObjectInfo {
            id,
            name,
            kind: FunctionObjectKind::User(
                UserFunctionInfo {
                    params,
                    var_names,
                    lex_names,
                    func_decls,
                    code,
                    exception_table,
                    outer: None,
                },
            ),
        };
        let h = heap.allocate(
            ObjectInfo { kind: ObjectKind2::Function(info), property: pm },
        );
        Value2::Object(h)
    }

    /// Allocates an array whose slots hold the given values as fresh data
    /// properties, with the registry's array prototype under `__proto__`.
    pub fn array_from_elems(heap: &mut Heap, protos: &ObjectPrototypes, elems: Vec<Value2>) -> (r:
        Value2)
        requires
            old(heap).wf(),
            protos.wf(old(heap)@.len() as int),
            forall|i: int|
                0 <= i < elems@.len() ==> valid_value(
                    (#[trigger] elems@[i])@,
                    old(heap)@.len() as int,
                ),
        ensures
            final(heap).wf(),
            r@ == ValueV::Obj(old(heap)@.len() as int),
            final(heap)@ == old(heap)@.push(
                ObjectV {
                    kind: KindV::Array(elems@.map_values(|v: Value2| data_prop_v(v@))),
                    props: Map::<Seq<char>, PropertyV>::empty().insert(
                        "__proto__"@,
                        PropertyV::Data {
                            val: protos.array@,
                            writable: false,
                            enumerable: false,
                            configurable: false,
                        },
                    ),
                },
            ),
            final(heap).next_fn_id == old(heap).next_fn_id,
    {
        let n = elems.len();
        let mut slots: Vec<Property2> = Vec::new();
        let mut i: usize = 0;
        let ghost target = elems@.map_values(|v: Value2| data_prop_v(v@));
        while i < n
            invariant
                0 <= i <= n == elems@.len(),
                target == elems@.map_values(|v: Value2| data_prop_v(v@)),
                forall|k: int|
                    0 <= k < elems@.len() ==> valid_value((#[trigger] elems@[k])@, old(heap)@.len() as int),
                slots@.map_values(|p: Property2| p@) =~= target.take(i as int),
            decreases n - i,
        {
            let v = elems[i].clone();
            let ghost vv = v@;
            let prop = Property2::new_data_simple(v);
            let ghost propv = prop@;
            let ghost slots_before = slots@;
            slots.push(prop);
            proof {
                assert(target[i as int] == data_prop_v(elems@[i as int]@));
                assert(propv == data_prop_v(vv));
                assert(slots_before.map_values(|p: Property2| p@).len() == slots_before.len());
                assert(slots_before.len() == i);
                assert(slots@ == slots_before.push(prop));
                assert forall|j: int| 0 <= j < i + 1 implies (#[trigger] slots@[j])@ == target[j] by {
                    if j < i {
                        assert(slots@[j] == slots_before[j]);
                        assert(slots_before.map_values(|p: Property2| p@)[j] == target[j]);
                    } else {
                        assert(slots@[j]@ == propv);
                    }
                }
                assert(slots@.map_values(|p: Property2| p@) =~= target.take(i + 1 as int));
            }
            i = i + 1;
        }
        proof {
            assert(target.take(n as int) =~= target);
        }
        let mut pm = PropertyMap::new();
        pm.insert(
            "__proto__".to_owned(),
            Property2::new_data(protos.array.clone(), false, false, false),
        );
        let h = heap.allocate(
            ObjectInfo {
                kind: ObjectKind2::Array(ArrayObjectInfo { elems: slots }),
                property: pm,
            },
        );
        Value2::Object(h)
    }

    /// Allocates an arguments object delegating to the given positional
    /// bindings.
    pub fn arguments(heap: &mut Heap, bindings: Vec<Value2>) -> (r: Value2)
        requires
            old(heap).wf(),
            forall|i: int|
                0 <= i < bindings@.len() ==> valid_value(
                    (#[trigger] bindings@[i])@,
                    old(heap)@.len() as int,
                ),
        ensures
            final(heap).wf(),
            r@ == ValueV::Obj(old(heap)@.len() as int),
            final(heap)@ == old(heap)@.push(
                ObjectV {
                    kind: KindV::Arguments(bindings@.map_values(|v: Value2| v@)),
                    props: Map::<Seq<char>, PropertyV>::empty(),
                },
            ),
            final(heap).next_fn_id == old(heap).next_fn_id,
    {
        let h = heap.allocate(
            ObjectInfo {
                kind: ObjectKind2::Arguments(ArgumentsInfo { bindings }),
                property: PropertyMap::new(),
            },
        );
        Value2::Object(h)
    }

    /// Allocates a date object carrying the given timestamp, with the
    /// registry's date prototype under `__proto__`.
    pub fn date(heap: &mut Heap, protos: &ObjectPrototypes, millis: i64) -> (r: Value2)
        requires
            old(heap).wf(),
            protos.wf(old(heap)@.len() as int),
            date_in_range(millis as int),
        ensures
            final(heap).wf(),
            r@ == ValueV::Obj(old(heap)@.len() as int),
            final(heap)@ == old(heap)@.push(
                ObjectV {
                    kind: KindV::Date(millis),
                    props: Map::<Seq<char>, PropertyV>::empty().insert(
                        "__proto__"@,
                        PropertyV::Data {
                            val: protos.date@,
                            writable: false,
                            enumerable: false,
                            configurable: false,
                        },
                    ),
                },
            ),
            final(heap).next_fn_id == old(heap).next_fn_id,
    {
        let mut pm = PropertyMap::new();
        pm.insert(
            "__proto__".to_owned(),
            Property2::new_data(protos.date.clone(), false, false, false),
        );
        let h = heap.allocate(ObjectInfo { kind: ObjectKind2::Date(millis), property: pm });
        Value2::Object(h)
    }
}

} // verus!
