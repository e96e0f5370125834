//! The numeric domain of the value model.
//!
//! Numbers are modeled exactly as a sign/magnitude integer domain extended
//! with the special points the coercion and equality rules must distinguish:
//! `NaN`, the two infinities, and a signed zero (`Finite { neg: true, mag: 0 }`
//! is negative zero). Arithmetic whose mathematical result does not fit the
//! magnitude overflows to the correspondingly signed infinity, and division is
//! integral. Every operation is total and is specified exactly.

use vstd::prelude::*;
use vstd::string::StringExecFns;

verus! {

/// A number value: not-a-number, a signed infinity, or a signed integer.
///
/// `Finite { neg, mag }` stands for `-mag` when `neg` holds and for `mag`
/// otherwise; `neg && mag == 0` is negative zero, a value distinct in sign
/// but equal to `+0` under every numeric comparison.
#[derive(Clone, Copy, Debug, PartialEq, Eq, Structural)]
pub enum JsNum {
    Nan,
    Inf { neg: bool },
    Finite { neg: bool, mag: u64 },
}

pub const POW2_32: u64 = 4294967296;

impl JsNum {
    /// The number zero with the given sign.
    pub open spec fn spec_zero(neg: bool) -> JsNum {
        JsNum::Finite { neg, mag: 0 }
    }

    /// The integer `m` as a non-negative number.
    pub open spec fn spec_of_u64(m: u64) -> JsNum {
        JsNum::Finite { neg: false, mag: m }
    }

    /// Does this number equal zero (of either sign)?
    pub open spec fn is_zero(self) -> bool {
        self matches JsNum::Finite { mag: 0, .. }
    }

    /// The mathematical integer a finite number stands for.
    pub open spec fn as_int(self) -> int
        recommends
            self is Finite,
    {
        match self {
            JsNum::Finite { neg, mag } => if neg {
                -(mag as int)
            } else {
                mag as int
            },
            _ => 0,
        }
    }

    /// The sign bit carried by a number (`recommends` it is not `NaN`).
    pub open spec fn sign(self) -> bool {
        match self {
            JsNum::Nan => false,
            JsNum::Inf { neg } => neg,
            JsNum::Finite { neg, .. } => neg,
        }
    }

    /// A finite number of magnitude `m` (an unbounded integer) and sign
    /// `neg`, overflowing to the signed infinity when `m` does not fit.
    pub open spec fn clamp_finite(neg: bool, m: int) -> JsNum {
        if m > u64::MAX {
            JsNum::Inf { neg }
        } else {
            JsNum::Finite { neg, mag: m as u64 }
        }
    }

    /// Numeric negation: flips the sign of everything but `NaN`.
    pub open spec fn spec_neg(self) -> JsNum {
        match self {
            JsNum::Nan => JsNum::Nan,
            JsNum::Inf { neg } => JsNum::Inf { neg: !neg },
            JsNum::Finite { neg, mag } => JsNum::Finite { neg: !neg, mag },
        }
    }

    /// Numeric addition. `NaN` propagates; opposite infinities give `NaN`;
    /// an infinity absorbs any finite addend; finite addends of one sign
    /// keep it (so `-0 + -0 == -0`), and cancellation of equal magnitudes
    /// of opposite signs gives `+0`.
    pub open spec fn spec_add(self, other: JsNum) -> JsNum {
        match (self, other) {
            (JsNum::Nan, _) => JsNum::Nan,
            (_, JsNum::Nan) => JsNum::Nan,
            (JsNum::Inf { neg: n1 }, JsNum::Inf { neg: n2 }) => if n1 == n2 {
                JsNum::Inf { neg: n1 }
            } else {
                JsNum::Nan
            },
            (JsNum::Inf { neg }, JsNum::Finite { .. }) => JsNum::Inf { neg },
            (JsNum::Finite { .. }, JsNum::Inf { neg }) => JsNum::Inf { neg },
            (JsNum::Finite { neg: n1, mag: m1 }, JsNum::Finite { neg: n2, mag: m2 }) => {
                if n1 == n2 {
                    JsNum::clamp_finite(n1, m1 + m2)
                } else if m1 == m2 {
                    JsNum::Finite { neg: false, mag: 0 }
                } else if m1 > m2 {
                    JsNum::Finite { neg: n1, mag: (m1 - m2) as u64 }
                } else {
                    JsNum::Finite { neg: n2, mag: (m2 - m1) as u64 }
                }
            },
        }
    }

    /// Numeric subtraction: `a - b == a + (-b)`.
    pub open spec fn spec_sub(self, other: JsNum) -> JsNum {
        self.spec_add(other.spec_neg())
    }

    /// Numeric multiplication. `NaN` propagates; an infinity times zero is
    /// `NaN`; otherwise the magnitudes multiply and the signs combine, so
    /// zero results keep the combined sign (`0 * -5 == -0`).
    pub open spec fn spec_mul(self, other: JsNum) -> JsNum {
        match (self, other) {
            (JsNum::Nan, _) => JsNum::Nan,
            (_, JsNum::Nan) => JsNum::Nan,
            (JsNum::Inf { neg: n1 }, JsNum::Inf { neg: n2 }) => JsNum::Inf { neg: n1 != n2 },
            (JsNum::Inf { neg: n1 }, JsNum::Finite { neg: n2, mag: m2 }) => if m2 == 0 {
                JsNum::Nan
            } else {
                JsNum::Inf { neg: n1 != n2 }
            },
            (JsNum::Finite { neg: n1, mag: m1 }, JsNum::Inf { neg: n2 }) => if m1 == 0 {
                JsNum::Nan
            } else {
                JsNum::Inf { neg: n1 != n2 }
            },
            (JsNum::Finite { neg: n1, mag: m1 }, JsNum::Finite { neg: n2, mag: m2 }) => {
                JsNum::clamp_finite(n1 != n2, m1 * m2)
            },
        }
    }

    /// Numeric division, integral on magnitudes. `NaN` propagates; infinity
    /// over infinity is `NaN`; a finite number over an infinity is a signed
    /// zero; a nonzero number over zero is a signed infinity and `0 / 0` is
    /// `NaN`.
    pub open spec fn spec_div(self, other: JsNum) -> JsNum {
        match (self, other) {
            (JsNum::Nan, _) => JsNum::Nan,
            (_, JsNum::Nan) => JsNum::Nan,
            (JsNum::Inf { .. }, JsNum::Inf { .. }) => JsNum::Nan,
            (JsNum::Inf { neg: n1 }, JsNum::Finite { neg: n2, .. }) => JsNum::Inf {
                neg: n1 != n2,
            },
            (JsNum::Finite { neg: n1, .. }, JsNum::Inf { neg: n2 }) => JsNum::Finite {
                neg: n1 != n2,
                mag: 0,
            },
            (JsNum::Finite { neg: n1, mag: m1 }, JsNum::Finite { neg: n2, mag: m2 }) => {
                if m2 == 0 {
                    if m1 == 0 {
                        JsNum::Nan
                    } else {
                        JsNum::Inf { neg: n1 != n2 }
                    }
                } else {
                    JsNum::Finite { neg: n1 != n2, mag: m1 / m2 }
                }
            },
        }
    }

    /// Numeric remainder on magnitudes, signed like the dividend. `NaN`
    /// propagates; an infinite dividend or a zero divisor gives `NaN`; a
    /// finite dividend is returned unchanged over an infinite divisor.
    pub open spec fn spec_rem(self, other: JsNum) -> JsNum {
        match (self, other) {
            (JsNum::Nan, _) => JsNum::Nan,
            (_, JsNum::Nan) => JsNum::Nan,
            (JsNum::Inf { .. }, _) => JsNum::Nan,
            (JsNum::Finite { neg, mag }, JsNum::Inf { .. }) => JsNum::Finite { neg, mag },
            (JsNum::Finite { neg: n1, mag: m1 }, JsNum::Finite { neg: _, mag: m2 }) => {
                if m2 == 0 {
                    JsNum::Nan
                } else {
                    JsNum::Finite { neg: n1, mag: (m1 % m2) as u64 }
                }
            },
        }
    }

    /// Numeric equality: `NaN` equals nothing (itself included), the two
    /// zeros are equal, and everything else compares by sign and magnitude.
    pub open spec fn spec_num_eq(self, other: JsNum) -> bool {
        match (self, other) {
            (JsNum::Inf { neg: n1 }, JsNum::Inf { neg: n2 }) => n1 == n2,
            (JsNum::Finite { .. }, JsNum::Finite { .. }) => self.as_int() == other.as_int(),
            _ => false,
        }
    }

    /// Numeric strict order: false whenever `NaN` is involved; negative
    /// infinity is below everything else and positive infinity above.
    pub open spec fn spec_lt(self, other: JsNum) -> bool {
        match (self, other) {
            (JsNum::Inf { neg: true }, JsNum::Inf { neg: true }) => false,
            (JsNum::Inf { neg: true }, JsNum::Inf { neg: false }) => true,
            (JsNum::Inf { neg: true }, JsNum::Finite { .. }) => true,
            (JsNum::Inf { neg: false }, _) => false,
            (JsNum::Finite { .. }, JsNum::Inf { neg }) => !neg,
            (JsNum::Finite { .. }, JsNum::Finite { .. }) => self.as_int() < other.as_int(),
            _ => false,
        }
    }

    /// Numeric non-strict order: false whenever `NaN` is involved.
    pub open spec fn spec_le(self, other: JsNum) -> bool {
        self.spec_lt(other) || self.spec_num_eq(other)
    }

    /// The ToUint32 coercion: `NaN`, zeros and infinities go to 0, and a
    /// finite number is reduced modulo 2^32 with two's-complement-style
    /// wraparound for negative values.
    pub open spec fn spec_to_uint32(self) -> u32 {
        match self {
            JsNum::Finite { neg, mag } => {
                let m = mag as int % POW2_32 as int;
                if m == 0 {
                    0u32
                } else if neg {
                    (POW2_32 as int - m) as u32
                } else {
                    m as u32
                }
            },
            _ => 0u32,
        }
    }
}

impl JsNum {
    pub fn zero(neg: bool) -> (r: JsNum)
        ensures
            r == JsNum::spec_zero(neg),
    {
        JsNum::Finite { neg, mag: 0 }
    }

    pub fn of_u64(m: u64) -> (r: JsNum)
        ensures
            r == JsNum::spec_of_u64(m),
    {
        JsNum::Finite { neg: false, mag: m }
    }

    pub fn neg(self) -> (r: JsNum)
        ensures
            r == self.spec_neg(),
    {
        match self {
            JsNum::Nan => JsNum::Nan,
            JsNum::Inf { neg } => JsNum::Inf { neg: !neg },
            JsNum::Finite { neg, mag } => JsNum::Finite { neg: !neg, mag },
        }
    }

    pub fn add_num(self, other: JsNum) -> (r: JsNum)
        ensures
            r == self.spec_add(other),
    {
        match (self, other) {
            (JsNum::Nan, _) => JsNum::Nan,
            (_, JsNum::Nan) => JsNum::Nan,
            (JsNum::Inf { neg: n1 }, JsNum::Inf { neg: n2 }) => if n1 == n2 {
                JsNum::Inf { neg: n1 }
            } else {
                JsNum::Nan
            },
            (JsNum::Inf { neg }, JsNum::Finite { .. }) => JsNum::Inf { neg },
            (JsNum::Finite { .. }, JsNum::Inf { neg }) => JsNum::Inf { neg },
            (JsNum::Finite { neg: n1, mag: m1 }, JsNum::Finite { neg: n2, mag: m2 }) => {
                if n1 == n2 {
                    match m1.checked_add(m2) {
                        Some(m) => JsNum::Finite { neg: n1, mag: m },
                        None => JsNum::Inf { neg: n1 },
                    }
                } else if m1 == m2 {
                    JsNum::Finite { neg: false, mag: 0 }
                } else if m1 > m2 {
                    JsNum::Finite { neg: n1, mag: m1 - m2 }
                } else {
                    JsNum::Finite { neg: n2, mag: m2 - m1 }
                }
            },
        }
    }

    pub fn sub_num(self, other: JsNum) -> (r: JsNum)
        ensures
            r == self.spec_sub(other),
    {
        self.add_num(other.neg())
    }

    pub fn mul_num(self, other: JsNum) -> (r: JsNum)
        ensures
            r == self.spec_mul(other),
    {
        match (self, other) {
            (JsNum::Nan, _) => JsNum::Nan,
            (_, JsNum::Nan) => JsNum::Nan,
            (JsNum::Inf { neg: n1 }, JsNum::Inf { neg: n2 }) => JsNum::Inf { neg: n1 != n2 },
            (JsNum::Inf { neg: n1 }, JsNum::Finite { neg: n2, mag: m2 }) => if m2 == 0 {
                JsNum::Nan
            } else {
                JsNum::Inf { neg: n1 != n2 }
            },
            (JsNum::Finite { neg: n1, mag: m1 }, JsNum::Inf { neg: n2 }) => if m1 == 0 {
                JsNum::Nan
            } else {
                JsNum::Inf { neg: n1 != n2 }
            },
            (JsNum::Finite { neg: n1, mag: m1 }, JsNum::Finite { neg: n2, mag: m2 }) => {
                match m1.checked_mul(m2) {
                    Some(m) => JsNum::Finite { neg: n1 != n2, mag: m },
                    None => JsNum::Inf { neg: n1 != n2 },
                }
            },
        }
    }

    pub fn div_num(self, other: JsNum) -> (r: JsNum)
        ensures
            r == self.spec_div(other),
    {
        match (self, other) {
            (JsNum::Nan, _) => JsNum::Nan,
            (_, JsNum::Nan) => JsNum::Nan,
            (JsNum::Inf { .. }, JsNum::Inf { .. }) => JsNum::Nan,
            (JsNum::Inf { neg: n1 }, JsNum::Finite { neg: n2, .. }) => JsNum::Inf {
                neg: n1 != n2,
            },
            (JsNum::Finite { neg: n1, .. }, JsNum::Inf { neg: n2 }) => JsNum::Finite {
                neg: n1 != n2,
                mag: 0,
            },
            (JsNum::Finite { neg: n1, mag: m1 }, JsNum::Finite { neg: n2, mag: m2 }) => {
                if m2 == 0 {
                    if m1 == 0 {
                        JsNum::Nan
                    } else {
                        JsNum::Inf { neg: n1 != n2 }
                    }
                } else {
                    JsNum::Finite { neg: n1 != n2, mag: m1 / m2 }
                }
            },
        }
    }

    pub fn rem_num(self, other: JsNum) -> (r: JsNum)
        ensures
            r == self.spec_rem(other),
    {
        match (self, other) {
            (JsNum::Nan, _) => JsNum::Nan,
            (_, JsNum::Nan) => JsNum::Nan,
            (JsNum::Inf { .. }, _) => JsNum::Nan,
            (JsNum::Finite { neg, mag }, JsNum::Inf { .. }) => JsNum::Finite { neg, mag },
            (JsNum::Finite { neg: n1, mag: m1 }, JsNum::Finite { neg: _, mag: m2 }) => {
                if m2 == 0 {
                    JsNum::Nan
                } else {
                    JsNum::Finite { neg: n1, mag: m1 % m2 }
                }
            },
        }
    }

    pub fn num_eq(self, other: JsNum) -> (r: bool)
        ensures
            r == self.spec_num_eq(other),
    {
        match (self, other) {
            (JsNum::Inf { neg: n1 }, JsNum::Inf { neg: n2 }) => n1 == n2,
            (JsNum::Finite { neg: n1, mag: m1 }, JsNum::Finite { neg: n2, mag: m2 }) => {
                if m1 == 0 && m2 == 0 {
                    true
                } else {
                    n1 == n2 && m1 == m2
                }
            },
            _ => false,
        }
    }

    pub fn lt_num(self, other: JsNum) -> (r: bool)
        ensures
            r == self.spec_lt(other),
    {
        match (self, other) {
            (JsNum::Inf { neg: true }, JsNum::Inf { neg: true }) => false,
            (JsNum::Inf { neg: true }, JsNum::Inf { neg: false }) => true,
            (JsNum::Inf { neg: true }, JsNum::Finite { .. }) => true,
            (JsNum::Inf { neg: false }, _) => false,
            (JsNum::Finite { .. }, JsNum::Inf { neg }) => !neg,
            (JsNum::Finite { neg: n1, mag: m1 }, JsNum::Finite { neg: n2, mag: m2 }) => {
                if m1 == 0 && m2 == 0 {
                    false
                } else if n1 && !n2 {
                    true
                } else if !n1 && n2 {
                    false
                } else if !n1 {
                    m1 < m2
                } else {
                    m2 < m1
                }
            },
            _ => false,
        }
    }

    pub fn le_num(self, other: JsNum) -> (r: bool)
        ensures
            r == self.spec_le(other),
    {
        self.lt_num(other) || self.num_eq(other)
    }

    pub fn is_nan(self) -> (r: bool)
        ensures
            r == (self is Nan),
    {
        matches!(self, JsNum::Nan)
    }

    pub fn is_zero_num(self) -> (r: bool)
        ensures
            r == self.is_zero(),
    {
        matches!(self, JsNum::Finite { mag: 0, .. })
    }

    pub fn to_uint32(self) -> (r: u32)
        ensures
            r == self.spec_to_uint32(),
    {
        match self {
            JsNum::Finite { neg, mag } => {
                let m = mag % POW2_32;
                if m == 0 {
                    0
                } else if neg {
                    (POW2_32 - m) as u32
                } else {
                    m as u32
                }
            },
            _ => 0,
        }
    }
}

// ---------------------------------------------------------------------------
// Decimal rendering
// ---------------------------------------------------------------------------
/// The decimal digit character for `d` (`recommends d < 10`).
pub open spec fn dec_digit(d: nat) -> char {
    if d == 0 {
        '0'
    } else if d == 1 {
        '1'
    } else if d == 2 {
        '2'
    } else if d == 3 {
        '3'
    } else if d == 4 {
        '4'
    } else if d == 5 {
        '5'
    } else if d == 6 {
        '6'
    } else if d == 7 {
        '7'
    } else if d == 8 {
        '8'
    } else {
        '9'
    }
}

/// The decimal digit string of a natural number, without leading zeros
/// (except for `0` itself).
pub open spec fn dec_str(n: nat) -> Seq<char>
    decreases n,
{
    if n < 10 {
        seq![dec_digit(n)]
    } else {
        dec_str(n / 10).push(dec_digit(n % 10))
    }
}

/// How a number renders: `NaN`, signed `Infinity`, `0` for either zero,
/// else the decimal digits with a leading minus sign when negative.
pub open spec fn num_str(a: JsNum) -> Seq<char> {
    match a {
        JsNum::Nan => "NaN"@,
        JsNum::Inf { neg } => if neg {
            "-Infinity"@
        } else {
            "Infinity"@
        },
        JsNum::Finite { neg, mag } => if neg && mag != 0 {
            seq!['-'] + dec_str(mag as nat)
        } else {
            dec_str(mag as nat)
        },
    }
}

fn digit_str(d: u64) -> (s: &'static str)
    requires
        d < 10,
    ensures
        s@ == seq![dec_digit(d as nat)],
{
    proof {
        reveal_strlit("0");
        reveal_strlit("1");
        reveal_strlit("2");
        reveal_strlit("3");
        reveal_strlit("4");
        reveal_strlit("5");
        reveal_strlit("6");
        reveal_strlit("7");
        reveal_strlit("8");
        reveal_strlit("9");
    }
    let s: &'static str = if d == 0 {
        "0"
    } else if d == 1 {
        "1"
    } else if d == 2 {
        "2"
    } else if d == 3 {
        "3"
    } else if d == 4 {
        "4"
    } else if d == 5 {
        "5"
    } else if d == 6 {
        "6"
    } else if d == 7 {
        "7"
    } else if d == 8 {
        "8"
    } else {
        "9"
    };
    proof {
        assert(s@ =~= seq![dec_digit(d as nat)]);
    }
    s
}

/// Renders a natural number in decimal.
pub fn u64_to_dec(n: u64) -> (s: String)
    ensures
        s@ == dec_str(n as nat),
    decreases n,
{
    if n < 10 {
        digit_str(n).to_owned()
    } else {
        let mut s = u64_to_dec(n / 10);
        s.append(digit_str(n % 10));
        proof {
            assert(s@ =~= dec_str((n / 10) as nat).push(dec_digit((n % 10) as nat)));
        }
        s
    }
}

impl JsNum {
    /// Renders a number as `num_str` says.
    pub fn render(self) -> (s: String)
        ensures
            s@ == num_str(self),
    {
        match self {
            JsNum::Nan => "NaN".to_owned(),
            JsNum::Inf { neg } => if neg {
                "-Infinity".to_owned()
            } else {
                "Infinity".to_owned()
            },
            JsNum::Finite { neg, mag } => {
                if neg && mag != 0 {
                    let mut s = "-".to_owned();
                    let digits = u64_to_dec(mag);
                    s.append(digits.as_str());
                    proof {
                        reveal_strlit("-");
                        assert(s@ =~= seq!['-'] + dec_str(mag as nat));
                    }
                    s
                } else {
                    u64_to_dec(mag)
                }
            },
        }
    }
}

// ---------------------------------------------------------------------------
// Parsing
// ---------------------------------------------------------------------------
/// The Unicode white-space code points the numeric parser skips over.
pub open spec fn is_white_space(c: char) -> bool {
    let u = c as u32;
    (9 <= u && u <= 13) || u == 32 || u == 0x85 || u == 0xa0 || u == 0x1680 || (0x2000 <= u && u
        <= 0x200a) || u == 0x2028 || u == 0x2029 || u == 0x202f || u == 0x205f || u == 0x3000
}

pub open spec fn all_white(s: Seq<char>) -> bool {
    forall|i: int| 0 <= i < s.len() ==> is_white_space(#[trigger] s[i])
}

pub open spec fn is_digit(c: char) -> bool {
    48 <= c as u32 && c as u32 <= 57
}

pub open spec fn digit_val(c: char) -> nat {
    (c as u32 - 48) as nat
}

pub open spec fn all_digits(s: Seq<char>) -> bool {
    forall|i: int| 0 <= i < s.len() ==> is_digit(#[trigger] s[i])
}

pub open spec fn all_zeros(s: Seq<char>) -> bool {
    forall|i: int| 0 <= i < s.len() ==> #[trigger] s[i] == '0'
}

/// The value of a digit string, most significant digit first.
pub open spec fn digits_val(s: Seq<char>) -> nat
    decreases s.len(),
{
    if s.len() == 0 {
        0
    } else {
        digits_val(s.drop_last()) * 10 + digit_val(s.last())
    }
}

/// The position of the first `.` in `s` at or after `i`, if any.
pub open spec fn dot_pos(s: Seq<char>, i: int) -> Option<int>
    decreases s.len() - i,
{
    if i < 0 || i >= s.len() {
        None
    } else if s[i] == '.' {
        Some(i)
    } else {
        dot_pos(s, i + 1)
    }
}

/// Parses an unsigned numeric literal body: decimal digits, optionally
/// followed by a dot and a run of zeros. `None` means the body is malformed.
pub open spec fn parse_body(body: Seq<char>) -> Option<nat> {
    match dot_pos(body, 0) {
        Some(p) => if p > 0 && all_digits(body.subrange(0, p)) && all_zeros(
            body.subrange(p + 1, body.len() as int),
        ) {
            Some(digits_val(body.subrange(0, p)))
        } else {
            None
        },
        None => if body.len() > 0 && all_digits(body) {
            Some(digits_val(body))
        } else {
            None
        },
    }
}

/// The numeric value of a string: a white-space-only string is zero; an
/// optional sign followed by a well-formed digit body gives the signed
/// value (overflowing to infinity); anything else is `NaN`.
pub open spec fn parse_num(s: Seq<char>) -> JsNum {
    if all_white(s) {
        JsNum::Finite { neg: false, mag: 0 }
    } else {
        let neg = s[0] == '-';
        let body = if s[0] == '-' || s[0] == '+' {
            s.subrange(1, s.len() as int)
        } else {
            s
        };
        match parse_body(body) {
            Some(v) => JsNum::clamp_finite(neg, v as int),
            None => JsNum::Nan,
        }
    }
}

pub proof fn lemma_dec_str_digits(n: nat)
    ensures
        all_digits(dec_str(n)),
        dec_str(n).len() >= 1,
    decreases n,
{
    if n < 10 {
        assert(is_digit(dec_digit(n)));
    } else {
        lemma_dec_str_digits(n / 10);
        let s = dec_str(n / 10);
        let c = dec_digit(n % 10);
        assert(is_digit(c));
        assert forall|i: int| 0 <= i < s.push(c).len() implies is_digit(#[trigger] s.push(c)[i]) by {
            if i < s.len() {
                assert(s.push(c)[i] == s[i]);
            } else {
                assert(s.push(c)[i] == c);
            }
        }
    }
}

pub proof fn lemma_digits_val_dec_str(n: nat)
    ensures
        digits_val(dec_str(n)) == n,
    decreases n,
{
    if n < 10 {
        let s = dec_str(n);
        assert(s.len() == 1);
        assert(s.last() == dec_digit(n));
        assert(s.drop_last() =~= Seq::<char>::empty());
        assert(digits_val(s.drop_last()) == 0);
        assert(digits_val(s) == digits_val(s.drop_last()) * 10 + digit_val(s.last()));
        assert(digit_val(dec_digit(n)) == n);
    } else {
        lemma_digits_val_dec_str(n / 10);
        let s = dec_str(n / 10);
        let c = dec_digit(n % 10);
        assert(s.push(c).drop_last() =~= s);
        assert(s.push(c).last() == c);
        assert(digits_val(s.push(c)) == digits_val(s) * 10 + digit_val(c));
        assert(digit_val(c) == n % 10);
        vstd::arithmetic::div_mod::lemma_fundamental_div_mod(n as int, 10);
        assert(digits_val(dec_str(n)) == (n / 10) * 10 + n % 10);
    }
}

pub proof fn lemma_no_dot_in_digits(s: Seq<char>, i: int)
    requires
        all_digits(s),
        0 <= i,
    ensures
        dot_pos(s, i) is None,
    decreases s.len() - i,
{
    if i < s.len() {
        assert(is_digit(s[i]));
        assert(s[i] != '.');
        lemma_no_dot_in_digits(s, i + 1);
    }
}

/// The decimal rendering of an integer parses back to that integer.
pub proof fn lemma_parse_dec_str(m: u64)
    ensures
        parse_num(dec_str(m as nat)) == (JsNum::Finite { neg: false, mag: m }),
{
    let s = dec_str(m as nat);
    lemma_dec_str_digits(m as nat);
    lemma_digits_val_dec_str(m as nat);
    lemma_no_dot_in_digits(s, 0);
    assert(is_digit(s[0]));
    assert(!is_white_space(s[0]));
    assert(!all_white(s));
    assert(s[0] != '-' && s[0] != '+');
    assert(parse_body(s) == Some(digits_val(s)));
}

/// The canonical decimal string of a 32-bit index survives the
/// parse-then-ToUint32-then-render round trip unchanged.
pub proof fn lemma_canonical_index_round_trip(u: u32)
    ensures
        parse_num(dec_str(u as nat)) == (JsNum::Finite { neg: false, mag: u as u64 }),
        (JsNum::Finite { neg: false, mag: u as u64 }).spec_to_uint32() == u,
        num_str(JsNum::spec_of_u64(u as u64)) == dec_str(u as nat),
{
    lemma_parse_dec_str(u as u64);
    assert((u as u64) as int % POW2_32 as int == u as int);
}

fn exec_is_white(c: char) -> (r: bool)
    ensures
        r == is_white_space(c),
{
    let u = c as u32;
    (9 <= u && u <= 13) || u == 32 || u == 0x85 || u == 0xa0 || u == 0x1680 || (0x2000 <= u && u
        <= 0x200a) || u == 0x2028 || u == 0x2029 || u == 0x202f || u == 0x205f || u == 0x3000
}

fn exec_is_digit(c: char) -> (r: bool)
    ensures
        r == is_digit(c),
{
    let u = c as u32;
    48 <= u && u <= 57
}

/// Computes `digits_val` of `s[from..to]`, overflowing to `None` past `u64::MAX`.
fn digits_of_range(s: &Vec<char>, from: usize, to: usize) -> (r: Option<u64>)
    requires
        from <= to <= s@.len(),
        all_digits(s@.subrange(from as int, to as int)),
    ensures
        match r {
            Some(v) => v == digits_val(s@.subrange(from as int, to as int)),
            None => digits_val(s@.subrange(from as int, to as int)) > u64::MAX,
        },
{
    let ghost whole = s@.subrange(from as int, to as int);
    let mut acc: u64 = 0;
    let mut over: bool = false;
    let mut i: usize = from;
    while i < to
        invariant
            from <= i <= to <= s@.len(),
            all_digits(whole),
            whole == s@.subrange(from as int, to as int),
            !over ==> acc == digits_val(s@.subrange(from as int, i as int)),
            over ==> digits_val(s@.subrange(from as int, i as int)) > u64::MAX,
        decreases to - i,
    {
        let c = s[i];
        let ghost prefix = s@.subrange(from as int, i as int);
        let ghost next = s@.subrange(from as int, i + 1 as int);
        proof {
            assert(whole[i - from] == c);
            assert(is_digit(c));
            assert(next.drop_last() =~= prefix);
            assert(next.last() == c);
            assert(digits_val(next) == digits_val(prefix) * 10 + digit_val(c));
        }
        let d: u64 = (c as u32 as u64) - 48;
        proof {
            assert(d == digit_val(c));
        }
        if !over {
            match acc.checked_mul(10) {
                Some(t) => {
                    match t.checked_add(d) {
                        Some(v) => {
                            acc = v;
                        },
                        None => {
                            over = true;
                        },
                    }
                },
                None => {
                    over = true;
                },
            }
        } else {
            proof {
                assert(digits_val(prefix) * 10 >= digits_val(prefix));
                assert(digits_val(next) > u64::MAX);
            }
        }
        i = i + 1;
    }
    proof {
        assert(s@.subrange(from as int, to as int) =~= whole);
    }
    if over {
        None
    } else {
        Some(acc)
    }
}

/// Scans for the first character that is not white space.
fn find_non_white(chars: &Vec<char>) -> (r: Option<usize>)
    ensures
        match r {
            None => all_white(chars@),
            Some(i) => i < chars@.len() && !is_white_space(chars@[i as int]),
        },
{
    let n = chars.len();
    let mut i: usize = 0;
    while i < n
        invariant
            0 <= i <= n == chars@.len(),
            all_white(chars@.subrange(0, i as int)),
        decreases n - i,
    {
        if !exec_is_white(chars[i]) {
            return Some(i);
        }
        proof {
            assert forall|k: int|
                0 <= k < i + 1 implies is_white_space(
                #[trigger] chars@.subrange(0, i + 1 as int)[k],
            ) by {
                assert(chars@.subrange(0, i + 1 as int)[k] == chars@[k]);
                if k < i {
                    assert(is_white_space(chars@.subrange(0, i as int)[k]));
                }
            }
        }
        i = i + 1;
    }
    proof {
        assert(chars@.subrange(0, n as int) =~= chars@);
    }
    None
}

/// Scans for the first dot at or after `start`; relates the outcome to
/// `dot_pos` of the tail that starts there.
fn find_dot(chars: &Vec<char>, start: usize) -> (r: Option<usize>)
    requires
        start <= chars@.len(),
    ensures
        match r {
            None => dot_pos(chars@.subrange(start as int, chars@.len() as int), 0) is None,
            Some(d) => start <= d < chars@.len() && chars@[d as int] == '.' && dot_pos(
                chars@.subrange(start as int, chars@.len() as int),
                0,
            ) == Some(d - start as int),
        },
{
    let ghost body = chars@.subrange(start as int, chars@.len() as int);
    let n = chars.len();
    let mut j: usize = start;
    while j < n
        invariant
            start <= j <= n == chars@.len(),
            body == chars@.subrange(start as int, n as int),
            dot_pos(body, 0) == dot_pos(body, j - start),
        decreases n - j,
    {
        if chars[j] == '.' {
            proof {
                assert(body[j - start] == '.');
            }
            return Some(j);
        }
        proof {
            assert(body[j - start] != '.');
        }
        j = j + 1;
    }
    proof {
        assert(dot_pos(body, n - start) is None);
    }
    None
}

/// Checks that `chars[from..to]` consists of decimal digits.
fn range_all_digits(chars: &Vec<char>, from: usize, to: usize) -> (r: bool)
    requires
        from <= to <= chars@.len(),
    ensures
        r == all_digits(chars@.subrange(from as int, to as int)),
{
    let ghost whole = chars@.subrange(from as int, to as int);
    let mut k: usize = from;
    while k < to
        invariant
            from <= k <= to <= chars@.len(),
            whole == chars@.subrange(from as int, to as int),
            all_digits(chars@.subrange(from as int, k as int)),
        decreases to - k,
    {
        if !exec_is_digit(chars[k]) {
            proof {
                assert(whole[k - from] == chars@[k as int]);
            }
            return false;
        }
        proof {
            assert forall|t: int|
                0 <= t < k + 1 - from implies is_digit(
                #[trigger] chars@.subrange(from as int, k + 1 as int)[t],
            ) by {
                assert(chars@.subrange(from as int, k + 1 as int)[t] == chars@[from + t]);
                if t < k - from {
                    assert(is_digit(chars@.subrange(from as int, k as int)[t]));
                } else {
                    assert(chars@[from + t] == chars@[k as int]);
                }
            }
        }
        k = k + 1;
    }
    proof {
        assert(whole =~= chars@.subrange(from as int, to as int));
    }
    true
}

/// Checks that `chars[from..to]` is a run of `0` characters.
fn range_all_zeros(chars: &Vec<char>, from: usize, to: usize) -> (r: bool)
    requires
        from <= to <= chars@.len(),
    ensures
        r == all_zeros(chars@.subrange(from as int, to as int)),
{
    let ghost whole = chars@.subrange(from as int, to as int);
    let mut k: usize = from;
    while k < to
        invariant
            from <= k <= to <= chars@.len(),
            whole == chars@.subrange(from as int, to as int),
            all_zeros(chars@.subrange(from as int, k as int)),
        decreases to - k,
    {
        if chars[k] != '0' {
            proof {
                assert(whole[k - from] == chars@[k as int]);
            }
            return false;
        }
        proof {
            assert forall|t: int|
                0 <= t < k + 1 - from implies #[trigger] chars@.subrange(
                from as int,
                k + 1 as int,
            )[t] == '0' by {
                assert(chars@.subrange(from as int, k + 1 as int)[t] == chars@[from + t]);
                if t < k - from {
                    assert(chars@.subrange(from as int, k as int)[t] == '0');
                } else {
                    assert(chars@[from + t] == chars@[k as int]);
                }
            }
        }
        k = k + 1;
    }
    true
}

/// Parses a string as `parse_num` says.
pub fn parse_num_str(chars: &Vec<char>) -> (r: JsNum)
    ensures
        r == parse_num(chars@),
{
    let n = chars.len();
    // White-space-only (the empty string included) parses as zero.
    if find_non_white(chars).is_none() {
        return JsNum::Finite { neg: false, mag: 0 };
    }
    proof {
        assert(n >= 1);
    }
    // Optional sign.
    let c0 = chars[0];
    let neg = c0 == '-';
    let start: usize = if c0 == '-' || c0 == '+' {
        1
    } else {
        0
    };
    let ghost body = if c0 == '-' || c0 == '+' {
        chars@.subrange(1, n as int)
    } else {
        chars@
    };
    proof {
        assert(body =~= chars@.subrange(start as int, n as int));
    }
    // Split the body at the first dot, if any; the digits before it must be
    // nonempty, and any fraction must be a run of zeros.
    let dot = find_dot(chars, start);
    let int_end: usize = match dot {
        Some(d) => d,
        None => n,
    };
    let ghost int_part = body.subrange(0, int_end - start);
    proof {
        assert(int_part =~= chars@.subrange(start as int, int_end as int));
        if dot is None {
            assert(int_part =~= body);
        }
    }
    if int_end == start {
        return JsNum::Nan;
    }
    if !range_all_digits(chars, start, int_end) {
        return JsNum::Nan;
    }
    match dot {
        Some(d) => {
            proof {
                assert(body.subrange(d - start + 1, body.len() as int) =~= chars@.subrange(
                    d + 1 as int,
                    n as int,
                ));
            }
            if !range_all_zeros(chars, d + 1, n) {
                return JsNum::Nan;
            }
        },
        None => {},
    }
    proof {
        assert(parse_body(body) == Some(digits_val(int_part)));
    }
    match digits_of_range(chars, start, int_end) {
        Some(v) => JsNum::Finite { neg, mag: v },
        None => JsNum::Inf { neg },
    }
}

} // verus!
