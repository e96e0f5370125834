//! Verified helpers on strings.

use vstd::prelude::*;
use vstd::string::StrSliceExecFns;

verus! {

/// Compares two string slices by content.
pub fn str_eq(a: &str, b: &str) -> (r: bool)
    ensures
        r == (a@ == b@),
{
    let n = a.unicode_len();
    let m = b.unicode_len();
    if n != m {
        return false;
    }
    let mut i: usize = 0;
    while i < n
        invariant
            0 <= i <= n == a@.len(),
            n == m == b@.len(),
            forall|k: int| 0 <= k < i ==> a@[k] == b@[k],
        decreases n - i,
    {
        if a.get_char(i) != b.get_char(i) {
            return false;
        }
        i = i + 1;
    }
    proof {
        assert(a@ =~= b@);
    }
    true
}

/// The UTF-16 length of a character: 2 code units outside the basic
/// multilingual plane, 1 inside it.
pub open spec fn utf16_len(c: char) -> nat {
    if c as u32 >= 0x10000 {
        2
    } else {
        1
    }
}

/// The UTF-16 code-unit count of a character sequence.
pub open spec fn utf16_len_of(s: Seq<char>) -> nat
    decreases s.len(),
{
    if s.len() == 0 {
        0
    } else {
        utf16_len_of(s.drop_last()) + utf16_len(s.last())
    }
}

/// The UTF-16 code-unit count as a machine word, saturating at `u64::MAX`.
pub open spec fn utf16_sat(s: Seq<char>) -> u64 {
    if utf16_len_of(s) > u64::MAX {
        u64::MAX
    } else {
        utf16_len_of(s) as u64
    }
}

/// Counts the UTF-16 code units of a string, saturating at `u64::MAX`.
pub fn utf16_count(s: &str) -> (r: u64)
    ensures
        utf16_len_of(s@) <= u64::MAX ==> r == utf16_len_of(s@),
        utf16_len_of(s@) > u64::MAX ==> r == u64::MAX,
{
    let n = s.unicode_len();
    let mut i: usize = 0;
    let mut acc: u64 = 0;
    while i < n
        invariant
            0 <= i <= n == s@.len(),
            utf16_len_of(s@.subrange(0, i as int)) <= u64::MAX ==> acc == utf16_len_of(
                s@.subrange(0, i as int),
            ),
            utf16_len_of(s@.subrange(0, i as int)) > u64::MAX ==> acc == u64::MAX,
        decreases n - i,
    {
        let c = s.get_char(i);
        let step: u64 = if c as u32 >= 0x10000 {
            2
        } else {
            1
        };
        proof {
            assert(s@.subrange(0, i + 1 as int).drop_last() =~= s@.subrange(0, i as int));
            assert(s@.subrange(0, i + 1 as int).last() == c);
            assert(step == utf16_len(c));
        }
        match acc.checked_add(step) {
            Some(v) => {
                acc = v;
            },
            None => {
                acc = u64::MAX;
            },
        }
        i = i + 1;
    }
    proof {
        assert(s@.subrange(0, n as int) =~= s@);
    }
    acc
}

} // verus!
