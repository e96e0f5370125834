//! Objects: property maps, arrays, prototype chains, exotic dispatch.

use jsvalue::array::ArrayObjectInfo;
use jsvalue::heap::Heap;
use jsvalue::heap::ObjectPrototypes;
use jsvalue::num::JsNum;
use jsvalue::object::AccessorProperty;
use jsvalue::object::Property2;
use jsvalue::object::PropertyMap;
use jsvalue::resolve::PropAccess;
use jsvalue::value::Sentinel;
use jsvalue::value::Value2;

fn num(i: i64) -> Value2 {
    Value2::Number(
        if i < 0 {
            JsNum::Finite { neg: true, mag: i.unsigned_abs() }
        } else {
            JsNum::Finite { neg: false, mag: i as u64 }
        },
    )
}

fn s(text: &str) -> Value2 {
    Value2::string(text.to_string())
}

fn got(p: PropAccess) -> Value2 {
    match p {
        PropAccess::Value(v) => v,
        PropAccess::Getter(_) => panic!("expected a plain value, found a getter"),
    }
}

fn is_true(v: Value2) -> bool {
    v.into_bool()
}

fn is_undef(v: &Value2) -> bool {
    matches!(v, Value2::Other(Sentinel::Undefined))
}

#[test]
fn array_length_invariant_scenario() {
    // From an empty array, writing slot 3 grows the store to length 4 with
    // the gap reading back as undefined; shrinking to 1 drops slot 3.
    let mut a = ArrayObjectInfo::new_empty();
    let setter = a.set_element(3, num(9));
    assert!(setter.is_none());
    assert_eq!(a.elems.len(), 4);
    for i in 0..3 {
        match a.get_element(i) {
            Property2::Data(d) => assert!(is_undef(&d.val)),
            _ => panic!("expected a data slot"),
        }
    }
    match a.get_element(3) {
        Property2::Data(d) => assert!(is_true(d.val.strict_eq(&num(9)))),
        _ => panic!("expected a data slot"),
    }
    a.set_length(1);
    assert_eq!(a.elems.len(), 1);
    match a.get_element(3) {
        Property2::Data(d) => assert!(is_undef(&d.val)),
        _ => panic!("expected a data slot"),
    }
}

#[test]
fn array_scenario_via_properties() {
    // [1,2,3]: length reads 3; shrinking length to 1 makes slot 2 undefined.
    let mut heap = Heap::new();
    let protos = ObjectPrototypes::new(&mut heap);
    let arr = Value2::array_from_elems(&mut heap, &protos, vec![num(1), num(2), num(3)]);
    let len = got(arr.get_property(&heap, &protos, &s("length")));
    assert!(is_true(len.strict_eq(&num(3))));
    let r = arr.set_property(&mut heap, &s("length"), num(1));
    assert!(r.is_none());
    let after = got(arr.get_property(&heap, &protos, &num(2)));
    assert!(is_undef(&after));
    let len2 = got(arr.get_property(&heap, &protos, &s("length")));
    assert!(is_true(len2.strict_eq(&num(1))));
}

#[test]
fn index_and_string_key_agree() {
    let mut heap = Heap::new();
    let protos = ObjectPrototypes::new(&mut heap);
    let arr = Value2::array_from_elems(&mut heap, &protos, vec![num(10), num(20), num(30)]);
    let by_num = got(arr.get_property(&heap, &protos, &num(2)));
    let by_str = got(arr.get_property(&heap, &protos, &s("2")));
    assert!(is_true(by_num.strict_eq(&by_str)));
    assert!(is_true(by_num.strict_eq(&num(30))));
    // "02" does not round-trip through ToUint32, so it is an ordinary key
    // and finds nothing.
    let padded = got(arr.get_property(&heap, &protos, &s("02")));
    assert!(is_undef(&padded));
    // Writing through "1" writes the slot.
    arr.set_property(&mut heap, &s("1"), num(99));
    let one = got(arr.get_property(&heap, &protos, &num(1)));
    assert!(is_true(one.strict_eq(&num(99))));
    // The largest 32-bit value is not an array index: it becomes an
    // ordinary own property and the slots stay put.
    arr.set_property(&mut heap, &s("4294967295"), num(1));
    assert!(arr.has_own_property(&heap, "4294967295"));
    let len = got(arr.get_property(&heap, &protos, &s("length")));
    assert!(is_true(len.strict_eq(&num(3))));
}

#[test]
fn array_index_write_grows() {
    let mut heap = Heap::new();
    let protos = ObjectPrototypes::new(&mut heap);
    let arr = Value2::array_from_elems(&mut heap, &protos, Vec::new());
    arr.set_property(&mut heap, &num(3), num(9));
    let len = got(arr.get_property(&heap, &protos, &s("length")));
    assert!(is_true(len.strict_eq(&num(4))));
    let gap = got(arr.get_property(&heap, &protos, &num(1)));
    assert!(is_undef(&gap));
    // Writing length to a non-integer value is a no-op.
    arr.set_property(&mut heap, &s("length"), s("junk"));
    let len2 = got(arr.get_property(&heap, &protos, &s("length")));
    assert!(is_true(len2.strict_eq(&num(4))));
}

#[test]
fn array_renders_comma_joined() {
    let mut heap = Heap::new();
    let protos = ObjectPrototypes::new(&mut heap);
    let arr = Value2::array_from_elems(&mut heap, &protos, vec![num(1), num(2), num(3)]);
    assert_eq!(arr.to_string(&heap), "1,2,3");
    // Empty (never written) slots render as empty strings.
    let sparse = Value2::array_from_elems(&mut heap, &protos, Vec::new());
    sparse.set_property(&mut heap, &num(3), num(9));
    assert_eq!(sparse.to_string(&heap), ",,,9");
    let ordinary = Value2::object(&mut heap, &protos, PropertyMap::new());
    assert_eq!(ordinary.to_string(&heap), "[object Object]");
}

#[test]
fn array_to_number() {
    let mut heap = Heap::new();
    let protos = ObjectPrototypes::new(&mut heap);
    let empty = Value2::array_from_elems(&mut heap, &protos, Vec::new());
    assert_eq!(empty.to_number(&heap), JsNum::Finite { neg: false, mag: 0 });
    let one = Value2::array_from_elems(&mut heap, &protos, vec![num(7)]);
    assert_eq!(one.to_number(&heap), JsNum::Finite { neg: false, mag: 7 });
    let boolish = Value2::array_from_elems(&mut heap, &protos, vec![Value2::bool(true)]);
    assert_eq!(boolish.to_number(&heap), JsNum::Nan);
    let two = Value2::array_from_elems(&mut heap, &protos, vec![num(1), num(2)]);
    assert_eq!(two.to_number(&heap), JsNum::Nan);
}

#[test]
fn prototype_fallback_first_match_wins() {
    let mut heap = Heap::new();
    let protos = ObjectPrototypes::new(&mut heap);
    let mut base_props = PropertyMap::new();
    base_props.insert("k".to_string(), Property2::new_data_simple(num(1)));
    base_props.insert("only_base".to_string(), Property2::new_data_simple(num(5)));
    let base = Value2::object(&mut heap, &protos, base_props);
    let derived = Value2::object(&mut heap, &protos, PropertyMap::new());
    // Wire derived.__proto__ = base (an ordinary property write).
    derived.set_property(&mut heap, &s("__proto__"), base.clone());
    // Own property shadows the inherited one.
    derived.set_property(&mut heap, &s("k"), num(2));
    let shadowed = got(derived.get_property(&heap, &protos, &s("k")));
    assert!(is_true(shadowed.strict_eq(&num(2))));
    // An inherited property is found, but is not an own property.
    let inherited = got(derived.get_property(&heap, &protos, &s("only_base")));
    assert!(is_true(inherited.strict_eq(&num(5))));
    assert!(!derived.has_own_property(&heap, "only_base"));
    assert!(base.has_own_property(&heap, "only_base"));
    // A key absent on the whole chain reads as undefined.
    let missing = got(derived.get_property(&heap, &protos, &s("nowhere")));
    assert!(is_undef(&missing));
    // The string-key read path agrees.
    let again = derived.get_property_by_str_key(&heap, "only_base");
    assert!(is_true(again.strict_eq(&num(5))));
}

#[test]
fn writes_stay_on_the_receiver() {
    let mut heap = Heap::new();
    let protos = ObjectPrototypes::new(&mut heap);
    let mut base_props = PropertyMap::new();
    base_props.insert("shared".to_string(), Property2::new_data_simple(num(1)));
    let base = Value2::object(&mut heap, &protos, base_props);
    let derived = Value2::object(&mut heap, &protos, PropertyMap::new());
    derived.set_property(&mut heap, &s("__proto__"), base.clone());
    // Writing an inherited key creates an own property; the base keeps its
    // value.
    derived.set_property(&mut heap, &s("shared"), num(2));
    assert!(derived.has_own_property(&heap, "shared"));
    let base_val = got(base.get_property(&heap, &protos, &s("shared")));
    assert!(is_true(base_val.strict_eq(&num(1))));
    // Writing to a non-object receiver is a no-op.
    let before = heap.len();
    let r = num(1).set_property(&mut heap, &s("x"), num(2));
    assert!(r.is_none());
    assert_eq!(heap.len(), before);
}

#[test]
fn accessor_properties_hand_back_their_functions() {
    let mut heap = Heap::new();
    let protos = ObjectPrototypes::new(&mut heap);
    let mut props = PropertyMap::new();
    props.insert(
        "acc".to_string(),
        Property2::Accessor(
            AccessorProperty {
                get: s("the-getter"),
                set: s("the-setter"),
                enumerable: true,
                configurable: true,
            },
        ),
    );
    props.insert(
        "half".to_string(),
        Property2::Accessor(
            AccessorProperty {
                get: Value2::undefined(),
                set: Value2::undefined(),
                enumerable: true,
                configurable: true,
            },
        ),
    );
    let o = Value2::object(&mut heap, &protos, props);
    match o.get_property(&heap, &protos, &s("acc")) {
        PropAccess::Getter(g) => assert_eq!(g.into_str(), "the-getter"),
        PropAccess::Value(_) => panic!("expected the getter"),
    }
    // An accessor without a getter reads as undefined.
    let none = got(o.get_property(&heap, &protos, &s("half")));
    assert!(is_undef(&none));
    // A write through an accessor stores nothing and returns the setter.
    let setter = o.set_property(&mut heap, &s("acc"), num(1));
    assert_eq!(setter.expect("expected the setter").into_str(), "the-setter");
    // One without a setter swallows the write.
    let no_setter = o.set_property(&mut heap, &s("half"), num(1));
    assert!(no_setter.is_none());
}

#[test]
fn string_receiver_dispatch() {
    let mut heap = Heap::new();
    let protos = ObjectPrototypes::new(&mut heap);
    let text = s("ab");
    let first = got(text.get_property(&heap, &protos, &num(0)));
    assert_eq!(first.into_str(), "a");
    let past = got(text.get_property(&heap, &protos, &num(9)));
    assert!(is_undef(&past));
    let len = got(text.get_property(&heap, &protos, &s("length")));
    assert!(is_true(len.strict_eq(&num(2))));
    // The length is counted in UTF-16 code units: a supplementary-plane
    // character counts twice.
    let musical = s("a\u{1D11E}b");
    let len16 = got(musical.get_property(&heap, &protos, &s("length")));
    assert!(is_true(len16.strict_eq(&num(4))));
    // Other keys resolve through the string prototype's chain.
    protos.string.set_property(&mut heap, &s("upper"), num(11));
    let through = got(text.get_property(&heap, &protos, &s("upper")));
    assert!(is_true(through.strict_eq(&num(11))));
}

#[test]
fn number_receiver_reads_through_number_prototype() {
    let mut heap = Heap::new();
    let protos = ObjectPrototypes::new(&mut heap);
    protos.number.set_property(&mut heap, &s("answer"), num(42));
    let through = got(num(5).get_property(&heap, &protos, &s("answer")));
    assert!(is_true(through.strict_eq(&num(42))));
    // Booleans and nullish receivers read as undefined.
    let b = got(Value2::bool(true).get_property(&heap, &protos, &s("answer")));
    assert!(is_undef(&b));
    let n = got(Value2::null().get_property(&heap, &protos, &s("answer")));
    assert!(is_undef(&n));
}

#[test]
fn arguments_object_delegates_by_position() {
    let mut heap = Heap::new();
    let protos = ObjectPrototypes::new(&mut heap);
    let args = Value2::arguments(&mut heap, vec![num(5), s("x")]);
    let first = got(args.get_property(&heap, &protos, &num(0)));
    assert!(is_true(first.strict_eq(&num(5))));
    let second = got(args.get_property(&heap, &protos, &num(1)));
    assert_eq!(second.into_str(), "x");
    let len = got(args.get_property(&heap, &protos, &s("length")));
    assert!(is_true(len.strict_eq(&num(2))));
    let other = got(args.get_property(&heap, &protos, &s("whatever")));
    assert!(is_undef(&other));
    // Writing a position updates the binding; out of range is a no-op.
    args.set_property(&mut heap, &num(0), num(9));
    let updated = got(args.get_property(&heap, &protos, &num(0)));
    assert!(is_true(updated.strict_eq(&num(9))));
    args.set_property(&mut heap, &num(7), num(1));
    let len2 = got(args.get_property(&heap, &protos, &s("length")));
    assert!(is_true(len2.strict_eq(&num(2))));
}

#[test]
fn function_objects_carry_their_metadata() {
    let mut heap = Heap::new();
    let protos = ObjectPrototypes::new(&mut heap);
    let f = Value2::builtin_function(&mut heap, &protos, "print".to_string(), 3);
    assert!(f.is_object());
    let name = got(f.get_property(&heap, &protos, &s("name")));
    assert_eq!(name.into_str(), "print");
    let len = got(f.get_property(&heap, &protos, &s("length")));
    assert!(is_true(len.strict_eq(&num(0))));
    let info = f.as_function(&heap);
    assert_eq!(info.name.as_deref(), Some("print"));
    // Installing a constructor link.
    let proto_obj = got(f.get_property(&heap, &protos, &s("prototype")));
    proto_obj.set_constructor(&mut heap, f.clone());
    assert!(proto_obj.has_own_property(&heap, "constructor"));
}

#[test]
fn user_functions_wire_their_environment_once() {
    let mut heap = Heap::new();
    let protos = ObjectPrototypes::new(&mut heap);
    let f = Value2::function(
        &mut heap,
        &protos,
        Some("add_pair".to_string()),
        vec![
            jsvalue::heap::FunctionParameter { name: "x".to_string(), rest_param: false },
            jsvalue::heap::FunctionParameter { name: "y".to_string(), rest_param: false },
        ],
        vec!["x".to_string(), "y".to_string()],
        Vec::new(),
        Vec::new(),
        vec![1, 2, 3],
        Vec::new(),
    );
    let len = got(f.get_property(&heap, &protos, &s("length")));
    assert!(is_true(len.strict_eq(&num(2))));
    f.set_function_outer_environment(&mut heap, 7);
    // The back-reference is settable once, then fixed.
    f.set_function_outer_environment(&mut heap, 9);
    match &f.as_function(&heap).kind {
        jsvalue::heap::FunctionObjectKind::User(u) => assert_eq!(u.outer, Some(7)),
        _ => panic!("expected a user function"),
    }
}

#[test]
fn copy_object_is_shallow_and_fresh() {
    let mut heap = Heap::new();
    let protos = ObjectPrototypes::new(&mut heap);
    let arr = Value2::array_from_elems(&mut heap, &protos, vec![num(1), num(2)]);
    let copy = arr.copy_object(&mut heap);
    assert!(!is_true(copy.strict_eq(&arr)));
    // Mutating the original leaves the copy alone.
    arr.set_property(&mut heap, &num(0), num(77));
    let from_copy = got(copy.get_property(&heap, &protos, &num(0)));
    assert!(is_true(from_copy.strict_eq(&num(1))));
    // Copying a primitive touches nothing.
    let before = heap.len();
    let same = num(3).copy_object(&mut heap);
    assert!(is_true(same.strict_eq(&num(3))));
    assert_eq!(heap.len(), before);
}

#[test]
fn property_map_basics() {
    let mut heap = Heap::new();
    let protos = ObjectPrototypes::new(&mut heap);
    let mut props = PropertyMap::new();
    props.insert("a".to_string(), Property2::new_data_simple(num(1)));
    props.insert("a".to_string(), Property2::new_data_simple(num(2)));
    props.insert("b".to_string(), Property2::new_data(num(3), false, false, false));
    assert_eq!(props.len(), 2);
    assert!(props.contains("a"));
    assert!(!props.contains("c"));
    let o = Value2::object(&mut heap, &protos, props);
    let pm = o.get_object_properties(&heap).expect("an object has a map");
    // The own map now also holds the __proto__ link.
    assert_eq!(pm.len(), 3);
    assert!(num(1).get_object_properties(&heap).is_none());
    let a = got(o.get_property(&heap, &protos, &s("a")));
    assert!(is_true(a.strict_eq(&num(2))));
    // Overwriting keeps the stored flags.
    o.set_property(&mut heap, &s("b"), num(9));
    let info = o.get_object_info(&heap);
    match info.property.get("b") {
        Some(Property2::Data(d)) => {
            assert!(is_true(d.val.clone().strict_eq(&num(9))));
            assert!(!d.writable && !d.enumerable && !d.configurable);
        },
        _ => panic!("expected the data property"),
    }
}

#[test]
fn date_objects_render_rfc3339() {
    let mut heap = Heap::new();
    let protos = ObjectPrototypes::new(&mut heap);
    let epoch = Value2::date(&mut heap, &protos, 0);
    assert_eq!(epoch.to_string(&heap), "1970-01-01T00:00:00+00:00");
    let later = Value2::date(&mut heap, &protos, 947638923004);
    assert_eq!(later.to_string(&heap), "2000-01-12T01:02:03.004+00:00");
    // A date behaves as an ordinary object under property access.
    epoch.set_property(&mut heap, &s("tag"), num(1));
    let tag = got(epoch.get_property(&heap, &protos, &s("tag")));
    assert!(is_true(tag.strict_eq(&num(1))));
}
