//! Character and byte level helpers shared by the protocol code.

use vstd::prelude::*;
use vstd::string::StringSliceAdditionalSpecFns;

verus! {

/// ASCII lowercase of one byte: `A..=Z` map to `a..=z`, every other byte stays.
pub open spec fn ascii_lower_byte(b: u8) -> u8 {
    if 0x41 <= b <= 0x5a {
        (b + 0x20) as u8
    } else {
        b
    }
}

/// Two byte strings match when ASCII case is ignored: same length, and equal
/// byte by byte once both are lowercased the ASCII way.
pub open spec fn ascii_case_insensitive_eq(a: Seq<u8>, b: Seq<u8>) -> bool {
    &&& a.len() == b.len()
    &&& forall|i: int| 0 <= i < a.len() ==> ascii_lower_byte(#[trigger] a[i]) == ascii_lower_byte(b[i])
}

/// Whether `a` and `b` are an ASCII case-insensitive match.
pub fn eq_ignore_ascii_case(a: &str, b: &str) -> (r: bool)
    ensures
        r == ascii_case_insensitive_eq(a.spec_bytes(), b.spec_bytes()),
{
    let x = a.as_bytes();
    let y = b.as_bytes();
    if x.len() != y.len() {
        return false;
    }
    let mut i: usize = 0;
    while i < x.len()
        invariant
            x@ == a.spec_bytes(),
            y@ == b.spec_bytes(),
            x.len() == y.len(),
            i <= x.len(),
            forall|j: int| 0 <= j < i ==> ascii_lower_byte(#[trigger] x@[j]) == ascii_lower_byte(y@[j]),
        decreases x.len() - i,
    {
        let p = x[i];
        let q = y[i];
        let lp: u8 = if 0x41 <= p && p <= 0x5a { p + 0x20 } else { p };
        let lq: u8 = if 0x41 <= q && q <= 0x5a { q + 0x20 } else { q };
        if lp != lq {
            assert(ascii_lower_byte(x@[i as int]) != ascii_lower_byte(y@[i as int]));
            return false;
        }
        i = i + 1;
    }
    true
}

/// Comparing one byte with another ignoring ASCII case: they match exactly when
/// they are equal or are the upper and lower case of the same ASCII letter.
pub proof fn law_case_insensitive_bytes(a: u8, b: u8)
    ensures
        ascii_case_insensitive_eq(seq![a], seq![b]) <==> (a == b || (0x41 <= a <= 0x5a && b == a
            + 0x20) || (0x41 <= b <= 0x5a && a == b + 0x20)),
{
    if ascii_case_insensitive_eq(seq![a], seq![b]) {
        assert(ascii_lower_byte(seq![a][0]) == ascii_lower_byte(seq![b][0]));
    }
}
} // verus!
