//! The heap of object records and the prototype registry.
//!
//! Objects live in an arena and are addressed by stable handles (indices);
//! every other reference to an object is a non-owning handle. The arena only
//! grows here: reclaiming unreachable objects is an external collector's
//! concern, and handing a handle out never invalidates another.
//!
//! An object record owns a property map and a kind tag; the kind carries the
//! state of the exotic kinds (the dense slots of an array, the bindings of an
//! arguments object, the timestamp of a date, the code of a function). The
//! prototype link is an ordinary property under the reserved key `__proto__`,
//! a relation rather than an ownership edge.

use crate::array::ArrayObjectInfo;
use crate::object::Property2;
use crate::object::PropertyMap;
use crate::object::PropertyV;
use crate::value::Value2;
use crate::value::ValueV;
use vstd::prelude::*;

verus! {

/// One declared parameter of a user function.
pub struct FunctionParameter {
    pub name: String,
    pub rest_param: bool,
}

/// The model of a parameter.
pub struct ParamV {
    pub name: Seq<char>,
    pub rest_param: bool,
}

impl View for FunctionParameter {
    type V = ParamV;

    open spec fn view(&self) -> ParamV {
        ParamV { name: self.name@, rest_param: self.rest_param }
    }
}

impl Clone for FunctionParameter {
    fn clone(&self) -> (r: Self)
        ensures
            r@ == self@,
    {
        FunctionParameter { name: self.name.clone(), rest_param: self.rest_param }
    }
}

/// One entry of a function's exception table: the guarded code range and
/// the handler it jumps to.
#[derive(Clone, Copy, Debug, PartialEq, Eq, Structural)]
pub struct Exception {
    pub start: usize,
    pub end: usize,
    pub dst: usize,
}

/// The body and scope data of a function defined in the language.
pub struct UserFunctionInfo {
    pub params: Vec<FunctionParameter>,
    pub var_names: Vec<String>,
    pub lex_names: Vec<String>,
    pub func_decls: Vec<Value2>,
    pub code: Vec<u8>,
    pub exception_table: Vec<Exception>,
    /// The lexical environment the function closed over: an opaque handle,
    /// absent until the executor wires it, then fixed.
    pub outer: Option<u64>,
}

/// The model of a user function.
pub struct UserFnV {
    pub params: Seq<ParamV>,
    pub var_names: Seq<Seq<char>>,
    pub lex_names: Seq<Seq<char>>,
    pub func_decls: Seq<ValueV>,
    pub code: Seq<u8>,
    pub exception_table: Seq<Exception>,
    pub outer: Option<u64>,
}

impl View for UserFunctionInfo {
    type V = UserFnV;

    open spec fn view(&self) -> UserFnV {
        UserFnV {
            params: self.params@.map_values(|p: FunctionParameter| p@),
            var_names: self.var_names@.map_values(|s: String| s@),
            lex_names: self.lex_names@.map_values(|s: String| s@),
            func_decls: self.func_decls@.map_values(|v: Value2| v@),
            code: self.code@,
            exception_table: self.exception_table@,
            outer: self.outer,
        }
    }
}

/// What a function object runs: a native callback (named by an opaque
/// token the executor interprets) or code defined in the language.
pub enum FunctionObjectKind {
    Builtin(usize),
    User(UserFunctionInfo),
}

/// The model of a function object's kind.
pub enum FuncKindV {
    Builtin(usize),
    User(UserFnV),
}

/// The callable part of a function object.
pub struct FunctionObjectInfo {
    pub id: u64,
    pub name: Option<String>,
    pub kind: FunctionObjectKind,
}

/// The model of a function object.
pub struct FunctionV {
    pub id: u64,
    pub name: Option<Seq<char>>,
    pub kind: FuncKindV,
}

impl View for FunctionObjectInfo {
    type V = FunctionV;

    open spec fn view(&self) -> FunctionV {
        FunctionV {
            id: self.id,
            name: match &self.name {
                Some(n) => Some(n@),
                None => None,
            },
            kind: match &self.kind {
                FunctionObjectKind::Builtin(t) => FuncKindV::Builtin(*t),
                FunctionObjectKind::User(u) => FuncKindV::User(u@),
            },
        }
    }
}

/// The positional bindings an arguments object delegates to.
pub struct ArgumentsInfo {
    pub bindings: Vec<Value2>,
}

/// The kind tag of an object record, carrying the exotic kinds' state.
pub enum ObjectKind2 {
    Ordinary,
    Function(FunctionObjectInfo),
    Array(ArrayObjectInfo),
    Arguments(ArgumentsInfo),
    /// A date: milliseconds since the Unix epoch.
    Date(i64),
}

/// The model of an object's kind.
pub enum KindV {
    Ordinary,
    Function(FunctionV),
    Array(Seq<PropertyV>),
    Arguments(Seq<ValueV>),
    Date(i64),
}

impl View for ObjectKind2 {
    type V = KindV;

    open spec fn view(&self) -> KindV {
        match self {
            ObjectKind2::Ordinary => KindV::Ordinary,
            ObjectKind2::Function(f) => KindV::Function(f@),
            ObjectKind2::Array(a) => KindV::Array(a@),
            ObjectKind2::Arguments(a) => KindV::Arguments(
                a.bindings@.map_values(|v: Value2| v@),
            ),
            ObjectKind2::Date(ms) => KindV::Date(*ms),
        }
    }
}

/// A heap-allocated object record: a kind and an own-property map.
pub struct ObjectInfo {
    pub kind: ObjectKind2,
    pub property: PropertyMap,
}

/// The model of an object record.
pub struct ObjectV {
    pub kind: KindV,
    pub props: Map<Seq<char>, PropertyV>,
}

impl View for ObjectInfo {
    type V = ObjectV;

    open spec fn view(&self) -> ObjectV {
        ObjectV { kind: self.kind@, props: self.property@ }
    }
}

// ---------------------------------------------------------------------------
// Handle validity
// ---------------------------------------------------------------------------
/// Every object handle a value carries points into a heap of `n` objects.
pub open spec fn valid_value(v: ValueV, n: int) -> bool {
    match v {
        ValueV::Obj(h) => 0 <= h < n,
        _ => true,
    }
}

pub open spec fn valid_prop(p: PropertyV, n: int) -> bool {
    match p {
        PropertyV::Data { val, .. } => valid_value(val, n),
        PropertyV::Accessor { get, set, .. } => valid_value(get, n) && valid_value(set, n),
    }
}

pub open spec fn valid_props_map(m: Map<Seq<char>, PropertyV>, n: int) -> bool {
    forall|k: Seq<char>| m.contains_key(k) ==> valid_prop(#[trigger] m[k], n)
}

/// The timestamps (milliseconds since the Unix epoch) a date object may
/// carry: the years 1 through 9999, so that a calendar rendering always
/// exists.
pub open spec fn date_in_range(ms: int) -> bool {
    -62135596800000 <= ms <= 253402300799999
}

pub open spec fn valid_prop_seq(elems: Seq<PropertyV>, n: int) -> bool {
    forall|i: int| 0 <= i < elems.len() ==> valid_prop(#[trigger] elems[i], n)
}

pub open spec fn valid_value_seq(vs: Seq<ValueV>, n: int) -> bool {
    forall|i: int| 0 <= i < vs.len() ==> valid_value(#[trigger] vs[i], n)
}

pub open spec fn valid_kind(k: KindV, n: int) -> bool {
    match k {
        KindV::Array(elems) => valid_prop_seq(elems, n),
        KindV::Arguments(bs) => valid_value_seq(bs, n),
        KindV::Function(f) => match f.kind {
            FuncKindV::User(u) => valid_value_seq(u.func_decls, n),
            FuncKindV::Builtin(_) => true,
        },
        KindV::Date(ms) => date_in_range(ms as int),
        _ => true,
    }
}

pub open spec fn valid_object(o: ObjectV, n: int) -> bool {
    valid_props_map(o.props, n) && valid_kind(o.kind, n)
}

/// Every handle stored anywhere in the heap points into the heap.
pub open spec fn heap_view_wf(h: Seq<ObjectV>) -> bool {
    forall|i: int| 0 <= i < h.len() ==> valid_object(#[trigger] h[i], h.len() as int)
}

pub proof fn lemma_valid_object_mono(o: ObjectV, n: int, m: int)
    requires
        valid_object(o, n),
        n <= m,
    ensures
        valid_object(o, m),
{
    assert forall|k: Seq<char>| o.props.contains_key(k) implies valid_prop(
        #[trigger] o.props[k],
        m,
    ) by {
        assert(valid_prop(o.props[k], n));
    }
    match o.kind {
        KindV::Array(elems) => {
            assert(valid_prop_seq(elems, n));
            assert forall|i: int| 0 <= i < elems.len() implies valid_prop(
                #[trigger] elems[i],
                m,
            ) by {
                assert(valid_prop(elems[i], n));
            }
            assert(valid_prop_seq(elems, m));
        },
        KindV::Arguments(bs) => {
            assert(valid_value_seq(bs, n));
            assert forall|i: int| 0 <= i < bs.len() implies valid_value(#[trigger] bs[i], m) by {
                assert(valid_value(bs[i], n));
            }
            assert(valid_value_seq(bs, m));
        },
        KindV::Function(f) => {
            match f.kind {
                FuncKindV::User(u) => {
                    assert(valid_value_seq(u.func_decls, n));
                    assert forall|i: int| 0 <= i < u.func_decls.len() implies valid_value(
                        #[trigger] u.func_decls[i],
                        m,
                    ) by {
                        assert(valid_value(u.func_decls[i], n));
                    }
                    assert(valid_value_seq(u.func_decls, m));
                },
                FuncKindV::Builtin(_) => {},
            }
        },
        _ => {},
    }
}

// ---------------------------------------------------------------------------
// The heap
// ---------------------------------------------------------------------------
/// The arena of object records. It only grows: handles stay valid.
pub struct Heap {
    pub objects: Vec<ObjectInfo>,
    /// The next unique function id to hand out.
    pub next_fn_id: u64,
}

impl View for Heap {
    type V = Seq<ObjectV>;

    open spec fn view(&self) -> Seq<ObjectV> {
        self.objects@.map_values(|o: ObjectInfo| o@)
    }
}

impl Heap {
    /// Well-formed: every stored handle points into the heap, and every
    /// object's property map has unique keys.
    pub open spec fn wf(&self) -> bool {
        &&& heap_view_wf(self@)
        &&& forall|i: int|
            0 <= i < self.objects@.len() ==> (#[trigger] self.objects@[i]).property.wf()
    }

    pub fn new() -> (r: Heap)
        ensures
            r.wf(),
            r@ == Seq::<ObjectV>::empty(),
            r.next_fn_id == 0,
    {
        let r = Heap { objects: Vec::new(), next_fn_id: 0 };
        proof {
            assert(r@ =~= Seq::<ObjectV>::empty());
        }
        r
    }

    /// How many objects the heap holds.
    pub fn len(&self) -> (r: usize)
        ensures
            r == self@.len(),
    {
        self.objects.len()
    }

    /// Allocates an object record; the new handle is the old length. The
    /// record may hold handles to anything already in the heap and to
    /// itself.
    pub fn allocate(&mut self, obj: ObjectInfo) -> (h: usize)
        requires
            old(self).wf(),
            obj.property.wf(),
            valid_object(obj@, old(self)@.len() + 1 as int),
        ensures
            final(self).wf(),
            h == old(self)@.len(),
            final(self)@ == old(self)@.push(obj@),
            final(self).next_fn_id == old(self).next_fn_id,
    {
        let h = self.objects.len();
        self.objects.push(obj);
        proof {
            assert(self@ =~= old(self)@.push(obj@));
            assert forall|i: int| 0 <= i < self@.len() implies valid_object(
                #[trigger] self@[i],
                self@.len() as int,
            ) by {
                if i < old(self)@.len() {
                    assert(self@[i] == old(self)@[i]);
                    lemma_valid_object_mono(old(self)@[i], old(self)@.len() as int, self@.len() as int);
                } else {
                    lemma_valid_object_mono(obj@, old(self)@.len() + 1 as int, self@.len() as int);
                }
            }
        }
        h
    }

    /// Hands out a fresh function id.
    pub fn fresh_fn_id(&mut self) -> (id: u64)
        requires
            old(self).next_fn_id < u64::MAX,
        ensures
            id == old(self).next_fn_id,
            final(self).next_fn_id == old(self).next_fn_id + 1,
            final(self)@ == old(self)@,
            final(self).objects@ == old(self).objects@,
    {
        let id = self.next_fn_id;
        self.next_fn_id = self.next_fn_id + 1;
        id
    }

    /// Borrows the object record a handle points at.
    pub fn obj<'a>(&'a self, h: usize) -> (r: &'a ObjectInfo)
        requires
            h < self@.len(),
        ensures
            r@ == self@[h as int],
            self.wf() ==> r.property.wf(),
    {
        &self.objects[h]
    }

    /// Inserts or overwrites one own property of the object at `h`.
    pub fn insert_prop(&mut self, h: usize, key: String, p: Property2)
        requires
            old(self).wf(),
            h < old(self)@.len(),
            valid_prop(p@, old(self)@.len() as int),
        ensures
            final(self).wf(),
            final(self)@ == old(self)@.update(
                h as int,
                ObjectV {
                    kind: old(self)@[h as int].kind,
                    props: old(self)@[h as int].props.insert(key@, p@),
                },
            ),
            final(self).next_fn_id == old(self).next_fn_id,
    {
        let obj = &mut self.objects[h];
        obj.property.insert(key, p);
        proof {
            let n = self@.len() as int;
            let updated = ObjectV {
                kind: old(self)@[h as int].kind,
                props: old(self)@[h as int].props.insert(key@, p@),
            };
            assert(self@ =~= old(self)@.update(h as int, updated));
            assert forall|i: int| 0 <= i < self@.len() implies valid_object(
                #[trigger] self@[i],
                n,
            ) by {
                if i == h {
                    assert(valid_object(old(self)@[i], n));
                    assert forall|k: Seq<char>| updated.props.contains_key(k) implies valid_prop(
                        #[trigger] updated.props[k],
                        n,
                    ) by {
                        if k == key@ {
                        } else {
                            assert(valid_prop(old(self)@[h as int].props[k], n));
                        }
                    }
                } else {
                    assert(self@[i] == old(self)@[i]);
                    assert(valid_object(old(self)@[i], n));
                }
            }
        }
    }
}

/// The registry of the shared prototype objects, built once at startup and
/// passed into every constructor and lookup that needs it.
pub struct ObjectPrototypes {
    pub object: Value2,
    pub function: Value2,
    pub string: Value2,
    pub number: Value2,
    pub array: Value2,
    pub date: Value2,
}

/// The model of the prototype registry.
pub struct ProtosV {
    pub object: ValueV,
    pub function: ValueV,
    pub string: ValueV,
    pub number: ValueV,
    pub array: ValueV,
    pub date: ValueV,
}

impl View for ObjectPrototypes {
    type V = ProtosV;

    open spec fn view(&self) -> ProtosV {
        ProtosV {
            object: self.object@,
            function: self.function@,
            string: self.string@,
            number: self.number@,
            array: self.array@,
            date: self.date@,
        }
    }
}

impl ObjectPrototypes {
    /// Every registry entry is a handle into a heap of `n` objects.
    pub open spec fn wf(&self, n: int) -> bool {
        &&& self.object@ is Obj && valid_value(self.object@, n)
        &&& self.function@ is Obj && valid_value(self.function@, n)
        &&& self.string@ is Obj && valid_value(self.string@, n)
        &&& self.number@ is Obj && valid_value(self.number@, n)
        &&& self.array@ is Obj && valid_value(self.array@, n)
        &&& self.date@ is Obj && valid_value(self.date@, n)
    }

    /// The six registry entries, as handles counted from the first object
    /// the registry allocates.
    pub open spec fn fresh_at(self, base: int) -> bool {
        &&& self.object@ == ValueV::Obj(base)
        &&& self.function@ == ValueV::Obj(base + 1)
        &&& self.string@ == ValueV::Obj(base + 2)
        &&& self.number@ == ValueV::Obj(base + 3)
        &&& self.array@ == ValueV::Obj(base + 4)
        &&& self.date@ == ValueV::Obj(base + 5)
    }

    /// Builds a minimal registry: an object prototype with no prototype of
    /// its own, and one ordinary prototype object per other kind whose
    /// `__proto__` is the object prototype.
    pub fn new(heap: &mut Heap) -> (r: ObjectPrototypes)
        requires
            old(heap).wf(),
        ensures
            final(heap).wf(),
            r.wf(final(heap)@.len() as int),
            final(heap)@.len() == old(heap)@.len() + 6,
            forall|i: int| 0 <= i < old(heap)@.len() ==> final(heap)@[i] == old(heap)@[i],
            r.fresh_at(old(heap)@.len() as int),
            final(heap)@[old(heap)@.len() as int] == (ObjectV {
                kind: KindV::Ordinary,
                props: Map::<Seq<char>, PropertyV>::empty(),
            }),
            forall|i: int|
                old(heap)@.len() < i < final(heap)@.len() ==> final(heap)@[i] == (ObjectV {
                    kind: KindV::Ordinary,
                    props: Map::<Seq<char>, PropertyV>::empty().insert(
                        "__proto__"@,
                        PropertyV::Data {
                            val: r.object@,
                            writable: false,
                            enumerable: false,
                            configurable: false,
                        },
                    ),
                }),
            final(heap).next_fn_id == old(heap).next_fn_id,
    {
        let object_proto = Value2::Object(
            heap.allocate(ObjectInfo { kind: ObjectKind2::Ordinary, property: PropertyMap::new() }),
        );
        let function = Value2::Object(alloc_child_proto(heap, &object_proto));
        let string = Value2::Object(alloc_child_proto(heap, &object_proto));
        let number = Value2::Object(alloc_child_proto(heap, &object_proto));
        let array = Value2::Object(alloc_child_proto(heap, &object_proto));
        let date = Value2::Object(alloc_child_proto(heap, &object_proto));
        ObjectPrototypes { object: object_proto, function, string, number, array, date }
    }
}

/// Allocates an ordinary object whose `__proto__` is the given prototype.
fn alloc_child_proto(heap: &mut Heap, proto: &Value2) -> (h: usize)
    requires
        old(heap).wf(),
        valid_value(proto@, old(heap)@.len() as int),
    ensures
        final(heap).wf(),
        h == old(heap)@.len(),
        final(heap)@.len() == old(heap)@.len() + 1,
        forall|i: int| 0 <= i < old(heap)@.len() ==> final(heap)@[i] == old(heap)@[i],
        final(heap)@[h as int] == (ObjectV {
            kind: KindV::Ordinary,
            props: Map::<Seq<char>, PropertyV>::empty().insert(
                "__proto__"@,
                PropertyV::Data {
                    val: proto@,
                    writable: false,
                    enumerable: false,
                    configurable: false,
                },
            ),
        }),
        final(heap).next_fn_id == old(heap).next_fn_id,
{
    let mut pm = PropertyMap::new();
    pm.insert("__proto__".to_owned(), Property2::new_data(proto.clone(), false, false, false));
    let obj = ObjectInfo { kind: ObjectKind2::Ordinary, property: pm };
    heap.allocate(obj)
}

} // verus!
