//! Small text helpers that work on the UTF-8 bytes of a string.
use vstd::prelude::*;
use vstd::utf8::*;

use crate::bits::{all_bits, is_bit_byte};

verus! {

/// Whether two strings hold the same characters.
pub fn str_eq(a: &str, b: &str) -> (r: bool)
    ensures
        r == (a@ == b@),
{
    broadcast use encode_utf8_decode_utf8;

    let x = a.as_bytes();
    let y = b.as_bytes();
    proof {
        assert(decode_utf8(encode_utf8(a@)) == a@);
        assert(decode_utf8(encode_utf8(b@)) == b@);
    }
    if x.len() != y.len() {
        return false;
    }
    let mut i: usize = 0;
    while i < x.len()
        invariant
            x@.len() == y@.len(),
            i <= x@.len(),
            x@ == encode_utf8(a@),
            y@ == encode_utf8(b@),
            forall|k: int| 0 <= k < i ==> x@[k] == y@[k],
        decreases x@.len() - i,
    {
        if x[i] != y[i] {
            assert(x@ != y@);
            return false;
        }
        i = i + 1;
    }
    assert(x@ =~= y@);
    true
}

/// Whether the bytes `s[start..end]` are all binary digits.
pub fn range_all_bits(s: &[u8], start: usize, end: usize) -> (r: bool)
    requires
        start <= end <= s@.len(),
    ensures
        r == all_bits(s@.subrange(start as int, end as int)),
{
    let ghost part = s@.subrange(start as int, end as int);
    let mut i: usize = start;
    while i < end
        invariant
            start <= i <= end <= s@.len(),
            part == s@.subrange(start as int, end as int),
            forall|k: int| 0 <= k < i - start ==> #[trigger] is_bit_byte(part[k]),
        decreases end - i,
    {
        if s[i] != 0x30u8 && s[i] != 0x31u8 {
            assert(!is_bit_byte(part[i - start]));
            return false;
        }
        i = i + 1;
    }
    true
}

} // verus!
