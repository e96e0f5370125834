//! Accessors and the two mutation escapes beyond property access: shallow
//! object copying and late-bound closure wiring.

use crate::array::ArrayObjectInfo;
use crate::heap::ArgumentsInfo;
use crate::heap::FuncKindV;
use crate::heap::FunctionObjectInfo;
use crate::heap::FunctionObjectKind;
use crate::heap::FunctionParameter;
use crate::heap::FunctionV;
use crate::heap::Heap;
use crate::heap::KindV;
use crate::heap::ObjectInfo;
use crate::heap::ObjectKind2;
use crate::heap::ObjectV;
use crate::heap::UserFnV;
use crate::heap::UserFunctionInfo;
use crate::heap::valid_object;
use crate::heap::valid_value;
use crate::object::Property2;
use crate::object::PropertyMap;
use crate::object::PropertyV;
use crate::value::Value2;
use crate::value::ValueV;
use vstd::pervasive::unreached;
use vstd::prelude::*;

verus! {

/// Copies a vector of plain (`Copy`) items.
fn copy_vec<T: Copy>(v: &Vec<T>) -> (r: Vec<T>)
    ensures
        r@ == v@,
{
    let n = v.len();
    let mut out: Vec<T> = Vec::new();
    let mut i: usize = 0;
    while i < n
        invariant
            0 <= i <= n == v@.len(),
            out@ == v@.subrange(0, i as int),
        decreases n - i,
    {
        out.push(v[i]);
        proof {
            assert(out@ =~= v@.subrange(0, i + 1 as int));
        }
        i = i + 1;
    }
    proof {
        assert(v@.subrange(0, n as int) =~= v@);
    }
    out
}

/// Clones a vector of strings, keeping every character sequence.
fn clone_string_vec(v: &Vec<String>) -> (r: Vec<String>)
    ensures
        r@.map_values(|s: String| s@) == v@.map_values(|s: String| s@),
{
    let r = v.clone();
    proof {
        assert forall|j: int|
            0 <= j < v@.len() implies (#[trigger] r@[j])@ == v@[j]@ by {
            assert(cloned::<String>(v@[j], r@[j]));
        }
        assert(r@.map_values(|s: String| s@) =~= v@.map_values(|s: String| s@));
    }
    r
}

/// Clones a vector of values, keeping every view.
fn clone_value_vec(v: &Vec<Value2>) -> (r: Vec<Value2>)
    ensures
        r@.map_values(|x: Value2| x@) == v@.map_values(|x: Value2| x@),
{
    let r = v.clone();
    proof {
        assert forall|j: int|
            0 <= j < v@.len() implies (#[trigger] r@[j])@ == v@[j]@ by {
            assert(cloned::<Value2>(v@[j], r@[j]));
        }
        assert(r@.map_values(|x: Value2| x@) =~= v@.map_values(|x: Value2| x@));
    }
    r
}

/// Clones a vector of parameters, keeping every view.
fn clone_param_vec(v: &Vec<FunctionParameter>) -> (r: Vec<FunctionParameter>)
    ensures
        r@.map_values(|p: FunctionParameter| p@) == v@.map_values(|p: FunctionParameter| p@),
{
    let r = v.clone();
    proof {
        assert forall|j: int|
            0 <= j < v@.len() implies (#[trigger] r@[j])@ == v@[j]@ by {
            assert(cloned::<FunctionParameter>(v@[j], r@[j]));
        }
        assert(r@.map_values(|p: FunctionParameter| p@) =~= v@.map_values(
            |p: FunctionParameter| p@,
        ));
    }
    r
}

/// Clones a vector of property descriptors, keeping every view.
fn clone_prop_vec(v: &Vec<Property2>) -> (r: Vec<Property2>)
    ensures
        r@.map_values(|p: Property2| p@) == v@.map_values(|p: Property2| p@),
{
    let r = v.clone();
    proof {
        assert forall|j: int|
            0 <= j < v@.len() implies (#[trigger] r@[j])@ == v@[j]@ by {
            assert(cloned::<Property2>(v@[j], r@[j]));
        }
        assert(r@.map_values(|p: Property2| p@) =~= v@.map_values(|p: Property2| p@));
    }
    r
}

/// Deep-copies an object record; the copy has the same model.
fn clone_object_info(o: &ObjectInfo) -> (r: ObjectInfo)
    requires
        o.property.wf(),
    ensures
        r@ == o@,
        r.property.wf(),
{
    let kind = match &o.kind {
        ObjectKind2::Ordinary => ObjectKind2::Ordinary,
        ObjectKind2::Date(ms) => ObjectKind2::Date(*ms),
        ObjectKind2::Array(a) => ObjectKind2::Array(
            ArrayObjectInfo { elems: clone_prop_vec(&a.elems) },
        ),
        ObjectKind2::Arguments(a) => ObjectKind2::Arguments(
            ArgumentsInfo { bindings: clone_value_vec(&a.bindings) },
        ),
        ObjectKind2::Function(f) => {
            let name = match &f.name {
                Some(n) => Some(n.clone()),
                None => None,
            };
            let kind = match &f.kind {
                FunctionObjectKind::Builtin(t) => FunctionObjectKind::Builtin(*t),
                FunctionObjectKind::User(u) => FunctionObjectKind::User(
                    UserFunctionInfo {
                        params: clone_param_vec(&u.params),
                        var_names: clone_string_vec(&u.var_names),
                        lex_names: clone_string_vec(&u.lex_names),
                        func_decls: clone_value_vec(&u.func_decls),
                        code: copy_vec(&u.code),
                        exception_table: copy_vec(&u.exception_table),
                        outer: u.outer,
                    },
                ),
            };
            ObjectKind2::Function(FunctionObjectInfo { id: f.id, name, kind })
        },
    };
    let r = ObjectInfo { kind, property: o.property.clone_map() };
    proof {
        assert(r.kind@ == o.kind@);
    }
    r
}

/// The kind after the executor wires a function's outer environment: a user
/// function with no environment yet takes it; anything else is unchanged.
pub open spec fn set_outer_v(k: KindV, env: u64) -> KindV {
    match k {
        KindV::Function(f) => KindV::Function(
            FunctionV {
                id: f.id,
                name: f.name,
                kind: match f.kind {
                    FuncKindV::User(u) => FuncKindV::User(
                        UserFnV {
                            outer: if u.outer is None {
                                Some(env)
                            } else {
                                u.outer
                            },
                            ..u
                        },
                    ),
                    b => b,
                },
            },
        ),
        k => k,
    }
}

impl Value2 {
    /// Does the object hold the name as an own property? False for every
    /// non-object value.
    pub fn has_own_property(&self, heap: &Heap, key: &str) -> (r: bool)
        requires
            heap.wf(),
            valid_value(self@, heap@.len() as int),
        ensures
            r == match self@ {
                ValueV::Obj(h) => heap@[h].props.contains_key(key@),
                _ => false,
            },
    {
        match self {
            Value2::Object(h) => heap.obj(*h).property.contains(key),
            _ => false,
        }
    }

    /// Borrows the own-property map of an object value; `None` for every
    /// non-object value.
    pub fn get_object_properties<'a>(&self, heap: &'a Heap) -> (r: Option<&'a PropertyMap>)
        requires
            heap.wf(),
            valid_value(self@, heap@.len() as int),
        ensures
            match r {
                Some(pm) => self@ is Obj && pm@ == heap@[self@->Obj_0].props && pm.wf(),
                None => !(self@ is Obj),
            },
    {
        match self {
            Value2::Object(h) => Some(&heap.obj(*h).property),
            _ => None,
        }
    }

    /// Borrows the object record this value points at.
    pub fn get_object_info<'a>(&self, heap: &'a Heap) -> (r: &'a ObjectInfo)
        requires
            heap.wf(),
            self@ is Obj,
            valid_value(self@, heap@.len() as int),
        ensures
            r@ == heap@[self@->Obj_0],
            r.property.wf(),
    {
        match self {
            Value2::Object(h) => heap.obj(*h),
            _ => unreached(),
        }
    }

    /// Borrows the callable part of a function object.
    pub fn as_function<'a>(&self, heap: &'a Heap) -> (r: &'a FunctionObjectInfo)
        requires
            heap.wf(),
            self@ is Obj,
            valid_value(self@, heap@.len() as int),
            heap@[self@->Obj_0].kind is Function,
        ensures
            heap@[self@->Obj_0].kind == KindV::Function(r@),
    {
        match self {
            Value2::Object(h) => {
                match &heap.obj(*h).kind {
                    ObjectKind2::Function(f) => f,
                    _ => unreached(),
                }
            },
            _ => unreached(),
        }
    }

    /// Installs or overwrites the own, non-enumerable `constructor` data
    /// property of an object.
    pub fn set_constructor(&self, heap: &mut Heap, val: Value2)
        requires
            old(heap).wf(),
            self@ is Obj,
            valid_value(self@, old(heap)@.len() as int),
            valid_value(val@, old(heap)@.len() as int),
        ensures
            final(heap).wf(),
            final(heap)@ == old(heap)@.update(
                self@->Obj_0,
                ObjectV {
                    kind: old(heap)@[self@->Obj_0].kind,
                    props: old(heap)@[self@->Obj_0].props.insert(
                        "constructor"@,
                        PropertyV::Data {
                            val: val@,
                            writable: true,
                            enumerable: false,
                            configurable: true,
                        },
                    ),
                },
            ),
            final(heap).next_fn_id == old(heap).next_fn_id,
    {
        let h = match self {
            Value2::Object(h) => *h,
            _ => unreached(),
        };
        heap.insert_prop(
            h,
            "constructor".to_owned(),
            Property2::new_data(val, true, false, true),
        );
    }

    /// Wires the lexical environment a user function closed over. The
    /// back-reference is settable once: a function that already has one
    /// keeps it.
    pub fn set_function_outer_environment(&self, heap: &mut Heap, env: u64)
        requires
            old(heap).wf(),
            self@ is Obj,
            valid_value(self@, old(heap)@.len() as int),
            old(heap)@[self@->Obj_0].kind is Function,
        ensures
            final(heap).wf(),
            final(heap)@ == old(heap)@.update(
                self@->Obj_0,
                ObjectV {
                    kind: set_outer_v(old(heap)@[self@->Obj_0].kind, env),
                    props: old(heap)@[self@->Obj_0].props,
                },
            ),
            final(heap).next_fn_id == old(heap).next_fn_id,
    {
        let h = match self {
            Value2::Object(h) => *h,
            _ => unreached(),
        };
        let ghost n = old(heap)@.len() as int;
        match &mut heap.objects[h].kind {
            ObjectKind2::Function(info) => {
                match &mut info.kind {
                    FunctionObjectKind::User(u) => {
                        if u.outer.is_none() {
                            u.outer = Some(env);
                        }
                    },
                    _ => {},
                }
            },
            _ => unreached(),
        }
        proof {
            let updated = ObjectV {
                kind: set_outer_v(old(heap)@[h as int].kind, env),
                props: old(heap)@[h as int].props,
            };
            assert(heap@ =~= old(heap)@.update(h as int, updated));
            assert(valid_object(old(heap)@[h as int], n));
            assert forall|i: int| 0 <= i < heap@.len() implies valid_object(
                #[trigger] heap@[i],
                n,
            ) by {
                if i != h as int {
                    assert(heap@[i] == old(heap)@[i]);
                }
            }
        }
    }

    /// Copies an object shallowly through the allocator; a non-object value
    /// comes back unchanged and the heap untouched.
    pub fn copy_object(&self, heap: &mut Heap) -> (r: Value2)
        requires
            old(heap).wf(),
            valid_value(self@, old(heap)@.len() as int),
        ensures
            final(heap).wf(),
            match self@ {
                ValueV::Obj(h) => final(heap)@ == old(heap)@.push(old(heap)@[h]) && r@
                    == ValueV::Obj(old(heap)@.len() as int),
                _ => final(heap)@ == old(heap)@ && r@ == self@,
            },
    {
        match self {
            Value2::Object(h) => {
                let copy = clone_object_info(heap.obj(*h));
                proof {
                    crate::heap::lemma_valid_object_mono(
                        old(heap)@[*h as int],
                        old(heap)@.len() as int,
                        old(heap)@.len() + 1 as int,
                    );
                }
                let nh = heap.allocate(copy);
                Value2::Object(nh)
            },
            v => v.clone(),
        }
    }
}

} // verus!
