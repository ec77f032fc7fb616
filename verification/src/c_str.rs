//! NUL-terminated names held in fixed-size `c_char` buffers.

use vstd::prelude::*;
use crate::bytes::{cast_i8_slice, i8s_as_u8s};

verus! {

/// Index of the first NUL in `s` at or after `i`, or `s.len()` if there is none.
pub open spec fn nul_from(s: Seq<i8>, i: int) -> int
    decreases s.len() - i,
{
    if i >= s.len() {
        s.len() as int
    } else if s[i] == 0 {
        i
    } else {
        nul_from(s, i + 1)
    }
}

/// Length of the name in `s`: the index of its first NUL, or `s.len()` if
/// there is none.
pub open spec fn c_str_len(s: Seq<i8>) -> int {
    nul_from(s, 0)
}

/// The bytes of the name in `s`, without the NUL.
pub open spec fn c_str_bytes(s: Seq<i8>) -> Seq<u8> {
    i8s_as_u8s(s.take(c_str_len(s)))
}

/// `s` holds a NUL.
pub open spec fn has_nul(s: Seq<i8>) -> bool {
    exists|j: int| 0 <= j < s.len() && s[j] == 0
}

/// The first NUL at or after `i` lies within `s` and holds a zero, and no
/// zero comes before it.
pub proof fn lemma_nul_from(s: Seq<i8>, i: int)
    requires
        0 <= i <= s.len(),
    ensures
        i <= nul_from(s, i) <= s.len(),
        nul_from(s, i) < s.len() ==> s[nul_from(s, i)] == 0,
        forall|j: int| i <= j < nul_from(s, i) ==> s[j] != 0,
    decreases s.len() - i,
{
    if i < s.len() && s[i] != 0 {
        lemma_nul_from(s, i + 1);
    }
}

/// Index of the first NUL in `v`, or `v.len()` if there is none.
pub fn c_str_len_of(v: &[i8]) -> (r: usize)
    ensures
        r == c_str_len(v@),
{
    let mut i: usize = 0;
    while i < v.len() && v[i] != 0
        invariant
            i <= v@.len(),
            nul_from(v@, i as int) == c_str_len(v@),
        decreases v.len() - i,
    {
        i += 1;
    }
    i
}

/// Whether `v` holds a NUL.
pub fn has_nul_of(v: &[i8]) -> (r: bool)
    ensures
        r == has_nul(v@),
{
    let len = c_str_len_of(v);
    proof {
        lemma_nul_from(v@, 0);
        if len < v@.len() {
            assert(v@[len as int] == 0);
        }
    }
    len < v.len()
}

/// The bytes of the name in `v`, without the NUL.
pub fn c_str_to_bytes(v: &[i8]) -> (r: Vec<u8>)
    ensures
        r@ == c_str_bytes(v@),
        r@.len() == c_str_len(v@),
{
    let len = c_str_len_of(v);
    proof {
        lemma_nul_from(v@, 0);
    }
    let name = &v[0..len];
    assert(name@ =~= v@.take(len as int));
    cast_i8_slice(name)
}

} // verus!
