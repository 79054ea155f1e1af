//! Detection of social-security-number shapes in text.
//!
//! The pattern is fixed — three ASCII digits, a dash, two digits, a dash,
//! four digits, anywhere in the text — so its behaviour is stated exactly
//! here and the scan is verified against it.  Writing a match out to a
//! bucket file is the caller's concern.

use vstd::prelude::*;
use vstd::string::StrSliceExecFns;

verus! {

/// An ASCII decimal digit.
pub open spec fn spec_is_digit(c: char) -> bool {
    0x30 <= c as u32 <= 0x39
}

/// Whether the eleven characters starting at `i` read `ddd-dd-dddd`.
pub open spec fn ssn_at(s: Seq<char>, i: int) -> bool {
    &&& 0 <= i
    &&& i + 11 <= s.len()
    &&& spec_is_digit(s[i])
    &&& spec_is_digit(s[i + 1])
    &&& spec_is_digit(s[i + 2])
    &&& s[i + 3] == '-'
    &&& spec_is_digit(s[i + 4])
    &&& spec_is_digit(s[i + 5])
    &&& s[i + 6] == '-'
    &&& spec_is_digit(s[i + 7])
    &&& spec_is_digit(s[i + 8])
    &&& spec_is_digit(s[i + 9])
    &&& spec_is_digit(s[i + 10])
}

/// Whether the text holds a social-security-number shape anywhere.
pub open spec fn contains_ssn(s: Seq<char>) -> bool {
    exists|i: int| ssn_at(s, i)
}

fn is_digit_char(c: char) -> (r: bool)
    ensures
        r == spec_is_digit(c),
{
    let u = c as u32;
    0x30 <= u && u <= 0x39
}

fn ssn_window_at(data: &str, i: usize) -> (r: bool)
    requires
        i + 11 <= data@.len(),
        data@.len() <= usize::MAX,
    ensures
        r == ssn_at(data@, i as int),
{
    is_digit_char(data.get_char(i)) && is_digit_char(data.get_char(i + 1)) && is_digit_char(
        data.get_char(i + 2),
    ) && data.get_char(i + 3) == '-' && is_digit_char(data.get_char(i + 4)) && is_digit_char(
        data.get_char(i + 5),
    ) && data.get_char(i + 6) == '-' && is_digit_char(data.get_char(i + 7)) && is_digit_char(
        data.get_char(i + 8),
    ) && is_digit_char(data.get_char(i + 9)) && is_digit_char(data.get_char(i + 10))
}

/// Decides whether the text holds a social-security-number shape.
pub fn has_ssn(data: &str) -> (r: bool)
    ensures
        r == contains_ssn(data@),
{
    let n = data.unicode_len();
    if n < 11 {
        proof {
            assert(forall|i: int| !ssn_at(data@, i));
        }
        return false;
    }
    let mut i: usize = 0;
    while i <= n - 11
        invariant
            n == data@.len(),
            11 <= n,
            i <= n,
            forall|j: int| 0 <= j < i ==> !ssn_at(data@, j),
        decreases n - i,
    {
        if ssn_window_at(data, i) {
            return true;
        }
        i = i + 1;
    }
    proof {
        assert(forall|j: int| i <= j ==> !ssn_at(data@, j));
    }
    false
}

} // verus!
