//! The numeric domain: arithmetic, comparisons, rendering, parsing.

use jsvalue::num::JsNum;
use jsvalue::num::parse_num_str;

fn fin(i: i64) -> JsNum {
    if i < 0 {
        JsNum::Finite { neg: true, mag: i.unsigned_abs() }
    } else {
        JsNum::Finite { neg: false, mag: i as u64 }
    }
}

fn parse(s: &str) -> JsNum {
    let chars: Vec<char> = s.chars().collect();
    parse_num_str(&chars)
}

#[test]
fn addition_and_subtraction() {
    assert_eq!(fin(31).add_num(fin(26)), fin(57));
    assert_eq!(fin(5).sub_num(fin(8)), fin(-3));
    assert_eq!(fin(-4).add_num(fin(4)), fin(0));
    assert_eq!(JsNum::Nan.add_num(fin(1)), JsNum::Nan);
    assert_eq!(
        (JsNum::Inf { neg: false }).add_num(JsNum::Inf { neg: true }),
        JsNum::Nan
    );
    assert_eq!(
        (JsNum::Inf { neg: true }).add_num(fin(7)),
        JsNum::Inf { neg: true }
    );
    // Magnitude overflow goes to the signed infinity.
    assert_eq!(
        JsNum::of_u64(u64::MAX).add_num(fin(1)),
        JsNum::Inf { neg: false }
    );
}

#[test]
fn signed_zero_arithmetic() {
    let nz = JsNum::Finite { neg: true, mag: 0 };
    let pz = JsNum::Finite { neg: false, mag: 0 };
    // -0 + -0 keeps the sign; mixed zeros cancel to +0.
    assert_eq!(nz.add_num(nz), nz);
    assert_eq!(nz.add_num(pz), pz);
    // 0 * -5 is -0.
    assert_eq!(pz.mul_num(fin(-5)), nz);
    // The two zeros are numerically equal.
    assert!(nz.num_eq(pz));
    assert!(!nz.lt_num(pz));
}

#[test]
fn multiplication_division_remainder() {
    assert_eq!(fin(6).mul_num(fin(-7)), fin(-42));
    assert_eq!(fin(26).div_num(fin(3)), fin(8));
    assert_eq!(fin(20).rem_num(fin(3)), fin(2));
    assert_eq!(fin(-20).rem_num(fin(3)), fin(-2));
    // Division by zero: signed infinity, and 0/0 is NaN.
    assert_eq!(fin(1).div_num(fin(0)), JsNum::Inf { neg: false });
    assert_eq!(fin(-1).div_num(fin(0)), JsNum::Inf { neg: true });
    assert_eq!(fin(0).div_num(fin(0)), JsNum::Nan);
    // Remainder by zero is NaN; an infinite divisor returns the dividend.
    assert_eq!(fin(5).rem_num(fin(0)), JsNum::Nan);
    assert_eq!(fin(5).rem_num(JsNum::Inf { neg: false }), fin(5));
    // An infinity times zero is NaN.
    assert_eq!((JsNum::Inf { neg: false }).mul_num(fin(0)), JsNum::Nan);
    // Magnitude overflow goes to infinity.
    assert_eq!(
        JsNum::of_u64(u64::MAX).mul_num(fin(2)),
        JsNum::Inf { neg: false }
    );
}

#[test]
fn comparisons() {
    assert!(fin(2).lt_num(fin(3)));
    assert!(!fin(3).lt_num(fin(3)));
    assert!(fin(3).le_num(fin(3)));
    assert!(fin(-5).lt_num(fin(-4)));
    // NaN compares false under every relation, equality included.
    assert!(!JsNum::Nan.lt_num(fin(1)));
    assert!(!fin(1).le_num(JsNum::Nan));
    assert!(!JsNum::Nan.num_eq(JsNum::Nan));
    // The infinities bound everything else.
    assert!((JsNum::Inf { neg: true }).lt_num(fin(0)));
    assert!(fin(0).lt_num(JsNum::Inf { neg: false }));
    assert!(!(JsNum::Inf { neg: false }).lt_num(JsNum::Inf { neg: false }));
    assert!((JsNum::Inf { neg: true }).lt_num(JsNum::Inf { neg: false }));
}

#[test]
fn to_uint32_wraparound() {
    assert_eq!(fin(0).to_uint32(), 0);
    assert_eq!(fin(5).to_uint32(), 5);
    assert_eq!(fin(-1).to_uint32(), 4294967295);
    assert_eq!(JsNum::of_u64(4294967296 + 7).to_uint32(), 7);
    assert_eq!(JsNum::Nan.to_uint32(), 0);
    assert_eq!((JsNum::Inf { neg: true }).to_uint32(), 0);
    assert_eq!((JsNum::Finite { neg: true, mag: 0 }).to_uint32(), 0);
}

#[test]
fn rendering() {
    assert_eq!(JsNum::of_u64(12345).render(), "12345");
    assert_eq!(fin(-7).render(), "-7");
    assert_eq!(JsNum::Nan.render(), "NaN");
    assert_eq!((JsNum::Inf { neg: false }).render(), "Infinity");
    assert_eq!((JsNum::Inf { neg: true }).render(), "-Infinity");
    assert_eq!(fin(0).render(), "0");
    // Negative zero collapses to plain 0.
    assert_eq!((JsNum::Finite { neg: true, mag: 0 }).render(), "0");
}

#[test]
fn parsing() {
    assert_eq!(parse("12345"), fin(12345));
    assert_eq!(parse("-8"), fin(-8));
    assert_eq!(parse("+7"), fin(7));
    // White space only (the empty string included) is zero.
    assert_eq!(parse(""), fin(0));
    assert_eq!(parse("   \t\n"), fin(0));
    // No trimming around a literal.
    assert_eq!(parse("  12"), JsNum::Nan);
    assert_eq!(parse("12 "), JsNum::Nan);
    // A zero fraction is accepted; anything else is NaN.
    assert_eq!(parse("3.0"), fin(3));
    assert_eq!(parse("3."), fin(3));
    assert_eq!(parse("3.5"), JsNum::Nan);
    assert_eq!(parse("abc"), JsNum::Nan);
    assert_eq!(parse("1a"), JsNum::Nan);
    assert_eq!(parse("-0"), JsNum::Finite { neg: true, mag: 0 });
    // Leading zeros parse, which is why "02" is not a canonical index.
    assert_eq!(parse("02"), fin(2));
}
