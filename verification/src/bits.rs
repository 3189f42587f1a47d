//! Binary texts: reading the ordinal written by a run of '0'/'1' bytes, and
//! writing a number as zero-padded binary text.
use vstd::prelude::*;
use vstd::utf8::*;

use crate::types::VariableValue;

verus! {

/// The byte is the ASCII digit '0' or '1'.
pub open spec fn is_bit_byte(b: u8) -> bool {
    b == 0x30u8 || b == 0x31u8
}

/// Every byte is a binary digit.
pub open spec fn all_bits(s: Seq<u8>) -> bool {
    forall|i: int| 0 <= i < s.len() ==> #[trigger] is_bit_byte(s[i])
}

/// The number written, most significant digit first, by a text of binary digits.
pub open spec fn bits_value(s: Seq<u8>) -> nat
    decreases s.len(),
{
    if s.len() == 0 {
        0
    } else {
        2 * bits_value(s.drop_last()) + (if s.last() == 0x31u8 {
            1nat
        } else {
            0nat
        })
    }
}

/// The ordinal that a text of binary digits denotes, read as `u8` in base 2
/// with 0 in place of a failure: an empty text, or a value above 255, gives 0.
pub open spec fn binary_ordinal(s: Seq<u8>) -> u8 {
    if s.len() == 0 || bits_value(s) > 255 {
        0
    } else {
        bits_value(s) as u8
    }
}

/// A prefix of a binary text never denotes more than the whole text.
pub proof fn lemma_bits_value_prefix(s: Seq<u8>, k: int)
    requires
        0 <= k <= s.len(),
    ensures
        bits_value(s.take(k)) <= bits_value(s),
    decreases s.len(),
{
    if k < s.len() {
        lemma_bits_value_prefix(s.drop_last(), k);
        assert(s.drop_last().take(k) =~= s.take(k));
    } else {
        assert(s.take(k) =~= s);
    }
}

/// Reads the bytes `s[start..end]`, all binary digits, as a `u8` ordinal.
pub fn read_binary_ordinal(s: &[u8], start: usize, end: usize) -> (r: u8)
    requires
        start <= end <= s@.len(),
        all_bits(s@.subrange(start as int, end as int)),
    ensures
        r == binary_ordinal(s@.subrange(start as int, end as int)),
{
    let ghost whole = s@.subrange(start as int, end as int);
    if start == end {
        return 0;
    }
    let mut acc: u32 = 0;
    let mut i: usize = start;
    while i < end
        invariant
            start <= i <= end <= s@.len(),
            whole == s@.subrange(start as int, end as int),
            all_bits(whole),
            acc as nat == bits_value(s@.subrange(start as int, i as int)),
            acc <= 255,
        decreases end - i,
    {
        let ghost before = s@.subrange(start as int, i as int);
        let ghost after = s@.subrange(start as int, i + 1);
        assert(after.drop_last() =~= before);
        assert(is_bit_byte(whole[i - start]));
        assert(whole[i - start] == s@[i as int]);
        let bit: u32 = if s[i] == 0x31u8 {
            1
        } else {
            0
        };
        let next: u32 = 2 * acc + bit;
        i = i + 1;
        if next > 255 {
            proof {
                assert(whole.take(i - start) =~= after);
                lemma_bits_value_prefix(whole, i - start);
            }
            return 0;
        }
        acc = next;
    }
    assert(s@.subrange(start as int, i as int) =~= whole);
    acc as u8
}

/// The number whose base-2^32 digits, least significant first, are `d`.
pub open spec fn digits_value(d: Seq<u32>) -> nat
    decreases d.len(),
{
    if d.len() == 0 {
        0
    } else {
        d[0] as nat + 0x1_0000_0000nat * digits_value(d.drop_first())
    }
}

/// The binary digits of `n`, most significant first, without leading zeros ("0" for zero).
pub open spec fn binary_digits(n: nat) -> Seq<char>
    decreases n,
{
    if n < 2 {
        seq![if n == 0 { '0' } else { '1' }]
    } else {
        binary_digits(n / 2).push(if n % 2 == 0 { '0' } else { '1' })
    }
}

/// `s` right-aligned in a field of `width` characters filled with '0'.
pub open spec fn pad_zeros(s: Seq<char>, width: nat) -> Seq<char> {
    if s.len() < width {
        Seq::new((width - s.len()) as nat, |_i: int| '0') + s
    } else {
        s
    }
}

/// `n` written in binary and left-padded with '0' to at least `width` characters.
pub open spec fn binary_text(n: nat, width: nat) -> Seq<char> {
    pad_zeros(binary_digits(n), width)
}

/// Formats with num-bigint's `Binary` impl for `BigUint` (`{:b}`): the
/// number whose base-2^32 digits (least significant first) are `digits`,
/// written in binary without leading zeros ("0" for zero).
#[verifier::external_body]
fn format_biguint_binary(digits: &[u32]) -> (text: String)
    ensures
        text@ == binary_digits(digits_value(digits@)),
{
    format!("{:b}", num_bigint::BigUint::from_slice(digits))
}

/// The number whose base-2^32 digits (least significant first) are `digits`,
/// in binary, right-aligned and filled with '0' to `width` characters, as
/// `{:0>width$b}` writes it.
pub fn biguint_binary_text(digits: &[u32], width: usize) -> (text: String)
    ensures
        text@ == binary_text(digits_value(digits@), width as nat),
{
    let digits_text = format_biguint_binary(digits);
    let len = digits_text.as_str().unicode_len();
    let pad: usize = if len < width {
        width - len
    } else {
        0
    };
    let mut text = String::new();
    let mut j: usize = 0;
    while j < pad
        invariant
            j <= pad,
            text@ =~= Seq::new(j as nat, |_k: int| '0'),
        decreases pad - j,
    {
        proof {
            reveal_strlit("0");
        }
        text.append("0");
        j = j + 1;
    }
    text.append(digits_text.as_str());
    proof {
        let n = digits_value(digits@);
        assert(len == binary_digits(n).len());
        if len >= width {
            assert(Seq::new(0nat, |_k: int| '0') + binary_digits(n) =~= binary_digits(n));
        }
    }
    text
}

/// The text of a raw value: a string as it is, a number as binary text of at least `width` digits.
pub open spec fn raw_text(value: VariableValue, width: nat) -> Seq<char> {
    match value {
        VariableValue::BigUint(d) => binary_text(digits_value(d@), width),
        VariableValue::String(s) => s@,
    }
}

/// The UTF-8 bytes of the text of a raw value.
pub open spec fn raw_bytes(value: VariableValue, width: nat) -> Seq<u8> {
    encode_utf8(raw_text(value, width))
}

/// Converts a raw value into its text: a number becomes binary text of at least `width` digits.
pub fn to_raw(value: VariableValue, width: u32) -> (raw: String)
    ensures
        raw@ == raw_text(value, width as nat),
{
    match value {
        VariableValue::String(s) => s,
        VariableValue::BigUint(d) => biguint_binary_text(d.as_slice(), width as usize),
    }
}

/// Binary digits are ASCII '0'/'1'.
proof fn lemma_binary_digits_are_bits(n: nat)
    ensures
        forall|i: int|
            0 <= i < binary_digits(n).len() ==> #[trigger] binary_digits(n)[i] == '0'
                || binary_digits(n)[i] == '1',
    decreases n,
{
    if n >= 2 {
        lemma_binary_digits_are_bits(n / 2);
        let head = binary_digits(n / 2);
        assert forall|i: int| 0 <= i < binary_digits(n).len() implies #[trigger] binary_digits(
            n,
        )[i] == '0' || binary_digits(n)[i] == '1' by {
            if i < head.len() {
                assert(binary_digits(n)[i] == head[i]);
            }
        }
    }
}

/// Binary text is made of ASCII '0'/'1' bytes, one per character, and every
/// position in it is a character boundary.
pub proof fn lemma_binary_text_bytes(n: nat, width: nat)
    ensures
        ({
            let t = binary_text(n, width);
            let b = encode_utf8(t);
            &&& b.len() == t.len()
            &&& t.len() >= width
            &&& all_bits(b)
            &&& valid_utf8(b)
            &&& forall|k: int| 0 <= k <= b.len() ==> #[trigger] is_char_boundary(b, k)
        }),
{
    broadcast use encode_utf8_valid_utf8;

    let t = binary_text(n, width);
    lemma_binary_digits_are_bits(n);
    assert forall|i: int| 0 <= i < t.len() implies #[trigger] t[i] == '0' || t[i] == '1' by {
        if binary_digits(n).len() < width {
            let pad = (width - binary_digits(n).len()) as int;
            if i >= pad {
                assert(t[i] == binary_digits(n)[i - pad]);
            }
        }
    }
    assert(is_ascii_chars(t));
    is_ascii_chars_encode_utf8(t);
    let b = encode_utf8(t);
    assert forall|i: int| 0 <= i < b.len() implies #[trigger] is_bit_byte(b[i]) by {
        assert(t[i] as u8 == b[i]);
    }
    assert forall|k: int| 0 <= k <= b.len() implies #[trigger] is_char_boundary(b, k) by {
        is_char_boundary_start_end_of_seq(b);
        if k < b.len() {
            assert(t[k] as u8 == b[k]);
            is_char_boundary_iff_not_is_continuation_byte(b, k);
        }
    }
}

/// A run of '0' bytes denotes zero.
proof fn lemma_bits_value_zeros(k: nat)
    ensures
        bits_value(Seq::new(k, |_i: int| 0x30u8)) == 0,
    decreases k,
{
    if k > 0 {
        lemma_bits_value_zeros((k - 1) as nat);
        assert(Seq::new(k, |_i: int| 0x30u8).drop_last() =~= Seq::new(
            (k - 1) as nat,
            |_i: int| 0x30u8,
        ));
    }
}

/// Leading '0' bytes do not change the number a binary text denotes.
proof fn lemma_bits_value_zero_prefix(k: nat, t: Seq<u8>)
    ensures
        bits_value(Seq::new(k, |_i: int| 0x30u8) + t) == bits_value(t),
    decreases t.len(),
{
    let z = Seq::new(k, |_i: int| 0x30u8);
    if t.len() == 0 {
        assert(z + t =~= z);
        lemma_bits_value_zeros(k);
    } else {
        lemma_bits_value_zero_prefix(k, t.drop_last());
        assert((z + t).drop_last() =~= z + t.drop_last());
        assert((z + t).last() == t.last());
    }
}

/// The bytes of an ASCII text, one per character.
spec fn ascii_bytes(t: Seq<char>) -> Seq<u8> {
    Seq::new(t.len(), |i: int| t[i] as u8)
}

/// The binary digits of `n`, read back, denote `n`.
proof fn lemma_binary_digits_read_back(n: nat)
    ensures
        bits_value(ascii_bytes(binary_digits(n))) == n,
    decreases n,
{
    assert('1' as u8 == 0x31u8);
    assert('0' as u8 == 0x30u8);
    if n >= 2 {
        lemma_binary_digits_read_back(n / 2);
        let d = binary_digits(n);
        assert(ascii_bytes(d).drop_last() =~= ascii_bytes(binary_digits(n / 2)));
        assert(ascii_bytes(d).last() == (if n % 2 == 0 { '0' } else { '1' }) as u8);
        assert(bits_value(ascii_bytes(d)) == 2 * bits_value(ascii_bytes(binary_digits(n / 2))) + (
        if ascii_bytes(d).last() == 0x31u8 {
            1nat
        } else {
            0nat
        }));
    } else {
        let d = binary_digits(n);
        assert(ascii_bytes(d).drop_last() =~= Seq::<u8>::empty());
        assert(bits_value(ascii_bytes(d).drop_last()) == 0);
        assert(ascii_bytes(d).last() == (if n == 0 { '0' } else { '1' }) as u8);
    }
}

/// Writing a number as binary text and reading that text back gives the
/// number: the text is made of binary digits, denotes `n`, and is `width`
/// characters long, or as long as `n`'s binary digits when they need more.
pub proof fn law_binary_text_reads_back(n: nat, width: nat)
    ensures
        all_bits(encode_utf8(binary_text(n, width))),
        bits_value(encode_utf8(binary_text(n, width))) == n,
        encode_utf8(binary_text(n, width)).len() == if binary_digits(n).len() < width {
            width
        } else {
            binary_digits(n).len()
        },
{
    let t = binary_text(n, width);
    let d = binary_digits(n);
    lemma_binary_text_bytes(n, width);
    lemma_binary_digits_are_bits(n);
    assert(is_ascii_chars(t)) by {
        assert forall|i: int| 0 <= i < t.len() implies '\0' <= #[trigger] t[i] <= '\u{7f}' by {
            if d.len() < width {
                let pad = (width - d.len()) as int;
                if i >= pad {
                    assert(t[i] == d[i - pad]);
                }
            }
        }
    }
    is_ascii_chars_encode_utf8(t);
    assert(encode_utf8(t) =~= ascii_bytes(t));
    lemma_binary_digits_read_back(n);
    if d.len() < width {
        let k = (width - d.len()) as nat;
        assert(ascii_bytes(t) =~= Seq::new(k, |_i: int| 0x30u8) + ascii_bytes(d));
        lemma_bits_value_zero_prefix(k, ascii_bytes(d));
    } else {
        assert(t == d);
    }
}

} // verus!
