//! The tagged value type: type tests, equality, coercions, operators.

use jsvalue::heap::Heap;
use jsvalue::heap::ObjectPrototypes;
use jsvalue::num::JsNum;
use jsvalue::value::Sentinel;
use jsvalue::value::Value2;

fn num(i: i64) -> Value2 {
    Value2::Number(
        if i < 0 {
            JsNum::Finite { neg: true, mag: i.unsigned_abs() }
        } else {
            JsNum::Finite { neg: false, mag: i as u64 }
        },
    )
}

fn s(text: &str) -> Value2 {
    Value2::string(text.to_string())
}

fn is_true(v: Value2) -> bool {
    v.into_bool()
}

fn is_undef(v: &Value2) -> bool {
    matches!(v, Value2::Other(Sentinel::Undefined))
}

#[test]
fn type_tags_are_exclusive() {
    let samples = vec![
        num(1),
        Value2::bool(true),
        s("x"),
        Value2::null(),
        Value2::undefined(),
        Value2::uninitialized(),
        Value2::empty(),
    ];
    for v in &samples {
        // Reflexive.
        assert!(v.is_same_type_as(v));
        let object_check = v.is_object();
        let number_check = matches!(v, Value2::Number(_));
        let bool_check = matches!(v, Value2::Bool(_));
        let string_check = matches!(v, Value2::String(_));
        let other_check = matches!(v, Value2::Other(_));
        let count = [object_check, number_check, bool_check, string_check, other_check]
            .iter()
            .filter(|b| **b)
            .count();
        assert_eq!(count, 1);
    }
    // Symmetric, and the four sentinels are four distinct types.
    assert!(!Value2::null().is_same_type_as(&Value2::undefined()));
    assert!(!Value2::undefined().is_same_type_as(&Value2::null()));
    assert!(num(1).is_same_type_as(&num(2)));
    assert!(!num(1).is_same_type_as(&Value2::bool(true)));
    assert!(!Value2::empty().is_same_type_as(&Value2::uninitialized()));
}

#[test]
fn strict_versus_abstract_equality() {
    // strict_equal(Null, Undefined) is false, abstract equality is true.
    assert!(!is_true(Value2::null().strict_eq(&Value2::undefined())));
    assert!(is_true(Value2::null().eq(&Value2::undefined())));
    assert!(is_true(Value2::undefined().eq(&Value2::null())));
    // NaN is never strictly equal to itself.
    let nan = Value2::Number(JsNum::Nan);
    assert!(!is_true(nan.strict_eq(&nan)));
    assert!(!is_true(nan.eq(&nan)));
    // A number and its decimal string are abstractly equal, never strictly.
    assert!(is_true(num(1).eq(&s("1"))));
    assert!(is_true(s("1").eq(&num(1))));
    assert!(!is_true(num(1).strict_eq(&s("1"))));
    // Booleans coerce through numbers.
    assert!(is_true(Value2::bool(true).eq(&num(1))));
    assert!(is_true(Value2::bool(false).eq(&s(""))));
    assert!(!is_true(Value2::bool(true).eq(&num(2))));
    // Null equals nothing else.
    assert!(!is_true(Value2::null().eq(&num(0))));
    assert!(!is_true(Value2::null().eq(&Value2::bool(false))));
    // Sentinels are strictly equal to their own kind.
    assert!(is_true(Value2::null().strict_eq(&Value2::null())));
    assert!(is_true(Value2::undefined().strict_eq(&Value2::undefined())));
    assert!(is_true(Value2::empty().strict_eq(&Value2::empty())));
    // Strings compare by content, of any length.
    assert!(is_true(s("abc").strict_eq(&s("abc"))));
    assert!(!is_true(s("abc").strict_eq(&s("abd"))));
}

#[test]
fn object_equality_is_by_handle() {
    let mut heap = Heap::new();
    let protos = ObjectPrototypes::new(&mut heap);
    let a = Value2::array_from_elems(&mut heap, &protos, vec![num(1)]);
    let b = Value2::array_from_elems(&mut heap, &protos, vec![num(1)]);
    assert!(is_true(a.clone().strict_eq(&a)));
    // Structurally equal, but different handles.
    assert!(!is_true(a.clone().strict_eq(&b)));
    // Coercing an object for abstract equality is outside the core: the
    // operator answers Undefined, and inequality propagates it.
    assert!(is_undef(&num(1).eq(&a)));
    assert!(is_undef(&num(1).ne(&a)));
}

#[test]
fn to_boolean_table() {
    assert!(!Value2::undefined().to_boolean());
    assert!(!Value2::null().to_boolean());
    assert!(!Value2::empty().to_boolean());
    assert!(Value2::bool(true).to_boolean());
    assert!(!Value2::bool(false).to_boolean());
    assert!(!num(0).to_boolean());
    assert!(!Value2::Number(JsNum::Nan).to_boolean());
    assert!(num(7).to_boolean());
    assert!(!s("").to_boolean());
    assert!(s("0").to_boolean());
    let mut heap = Heap::new();
    let protos = ObjectPrototypes::new(&mut heap);
    let o = Value2::object(&mut heap, &protos, jsvalue::object::PropertyMap::new());
    assert!(o.to_boolean());
}

#[test]
fn boolean_number_round_trip() {
    // to_boolean(to_number(Bool(true))) == true, and the false case too.
    let heap = Heap::new();
    let t = Value2::Number(Value2::bool(true).to_number(&heap));
    assert!(t.to_boolean());
    let f = Value2::Number(Value2::bool(false).to_number(&heap));
    assert!(!f.to_boolean());
}

#[test]
fn zero_renders_as_zero() {
    let heap = Heap::new();
    assert_eq!(num(0).to_string(&heap), "0");
    // Negative zero too.
    let neg_zero = Value2::Number(JsNum::Finite { neg: true, mag: 0 });
    assert_eq!(neg_zero.to_string(&heap), "0");
}

#[test]
fn operators_on_numbers() {
    assert!(is_true(num(31).add(&num(26)).strict_eq(&num(57))));
    assert!(is_true(num(5).sub(&num(8)).strict_eq(&num(-3))));
    assert!(is_true(num(6).mul(&num(7)).strict_eq(&num(42))));
    assert!(is_true(num(26).div(&num(3)).strict_eq(&num(8))));
    assert!(is_true(num(20).rem(&num(3)).strict_eq(&num(2))));
    assert!(is_true(num(3).minus().strict_eq(&num(-3))));
    assert!(is_true(num(2).lt(&num(3))));
    assert!(!is_true(num(3).lt(&num(3))));
    assert!(is_true(num(3).le(&num(3))));
    assert!(is_true(num(3).gt(&num(2))));
    assert!(is_true(num(3).ge(&num(3))));
    assert!(is_true(num(1).ne(&num(2))));
    assert!(!is_true(num(1).ne(&num(1))));
}

#[test]
fn operators_on_strings_and_mixes() {
    // String concatenation through the addition operator.
    let cat = s("foo").add(&s("bar"));
    assert!(is_true(cat.strict_eq(&s("foobar"))));
    // Every other operand mix is a deliberate simplification: Undefined.
    assert!(is_undef(&s("1").add(&num(2))));
    assert!(is_undef(&num(1).sub(&s("1"))));
    assert!(is_undef(&s("a").mul(&s("b"))));
    assert!(is_undef(&Value2::bool(true).div(&num(2))));
    assert!(is_undef(&s("x").minus()));
    assert!(is_undef(&s("1").lt(&num(2))));
    assert!(is_undef(&num(1).le(&Value2::null())));
}

#[test]
fn payload_extraction() {
    assert_eq!(num(5).into_number(), JsNum::Finite { neg: false, mag: 5 });
    assert!(Value2::bool(true).into_bool());
    assert_eq!(s("hi").into_str(), "hi");
    let mut v = num(1);
    v.set_number_if_possible(JsNum::of_u64(9));
    assert!(is_true(v.strict_eq(&num(9))));
    let mut w = s("keep");
    w.set_number_if_possible(JsNum::of_u64(9));
    assert_eq!(w.into_str(), "keep");
}

#[test]
fn empty_marker_is_internal() {
    let e = Value2::empty();
    assert!(is_undef(&e.to_undefined_if_empty()));
    assert!(!is_undef(&num(1).to_undefined_if_empty()));
}

#[test]
fn string_coercions() {
    let heap = Heap::new();
    assert_eq!(s("12").to_number(&heap), JsNum::Finite { neg: false, mag: 12 });
    assert_eq!(s("  ").to_number(&heap), JsNum::Finite { neg: false, mag: 0 });
    assert_eq!(s("1.5").to_number(&heap), JsNum::Nan);
    assert_eq!(Value2::undefined().to_number(&heap), JsNum::Nan);
    assert_eq!(Value2::null().to_number(&heap), JsNum::Nan);
    assert_eq!(num(-1).to_uint32(&heap), 4294967295);
    assert_eq!(s("abc").to_uint32(&heap), 0);
    assert_eq!(Value2::bool(true).to_string(&heap), "true");
    assert_eq!(Value2::undefined().to_string(&heap), "undefined");
    assert_eq!(Value2::null().to_string(&heap), "null");
    assert_eq!(num(-42).to_string(&heap), "-42");
    assert_eq!(s("as is").to_string(&heap), "as is");
}
