//! How texts, numbers and their bytes correspond.

use vstd::prelude::*;
use vstd::utf8;
use crate::text;

verus! {

/// The bytes of a text are those of its parts.
pub broadcast proof fn lemma_encode_add(a: Seq<char>, b: Seq<char>)
    ensures
        #[trigger] utf8::encode_utf8(a + b) == utf8::encode_utf8(a) + utf8::encode_utf8(b),
    decreases a.len(),
{
    if a.len() == 0 {
        assert(a + b =~= b);
        assert(utf8::encode_utf8(a) + utf8::encode_utf8(b) =~= utf8::encode_utf8(b));
    } else {
        assert((a + b)[0] == a[0]);
        assert((a + b).drop_first() =~= a.drop_first() + b);
        lemma_encode_add(a.drop_first(), b);
        let first = utf8::encode_scalar(a[0] as u32);
        assert(first + (utf8::encode_utf8(a.drop_first()) + utf8::encode_utf8(b)) =~= (first
            + utf8::encode_utf8(a.drop_first())) + utf8::encode_utf8(b));
    }
}

/// Every byte of a character outside ASCII has its high bit set.
proof fn lemma_wide_bytes(c: u32)
    by (bit_vector)
    ensures
        utf8::has_width_2_encoding(c) ==> utf8::leading_byte_width_2(c) >= 0x80,
        utf8::has_width_3_encoding(c) ==> utf8::leading_byte_width_3(c) >= 0x80,
        utf8::has_width_4_encoding(c) ==> utf8::leading_byte_width_4(c) >= 0x80,
        utf8::last_continuation_byte(c) >= 0x80,
        utf8::second_last_continuation_byte(c) >= 0x80,
        utf8::third_last_continuation_byte(c) >= 0x80,
        utf8::has_width_1_encoding(c) ==> utf8::leading_byte_width_1(c) == c,
{
}

/// An ASCII character that a text does not hold is not among its bytes.
pub proof fn lemma_absent_byte(s: Seq<char>, b: u8)
    requires
        b < 128,
        forall|i: int| 0 <= i < s.len() ==> #[trigger] s[i] != b as char,
    ensures
        forall|i: int|
            0 <= i < utf8::encode_utf8(s).len() ==> #[trigger] utf8::encode_utf8(s)[i] != b,
    decreases s.len(),
{
    if s.len() > 0 {
        let rest = s.drop_first();
        assert forall|i: int| 0 <= i < rest.len() implies #[trigger] rest[i] != b as char by {
            assert(s[i + 1] != b as char);
        }
        lemma_absent_byte(rest, b);
        let c = s[0] as u32;
        lemma_wide_bytes(c);
        utf8::char_is_scalar(s[0]);
        let first = utf8::encode_scalar(c);
        assert(c != b) by {
            if c == b {
                utf8::char_u32_cast(s[0], c);
                assert(s[0] == b as char);
            }
        }
        assert(utf8::is_scalar(c));
        assert forall|i: int| 0 <= i < first.len() implies #[trigger] first[i] != b by {}
        assert forall|i: int| 0 <= i < utf8::encode_utf8(s).len() implies
            #[trigger] utf8::encode_utf8(s)[i] != b by {
            if i < first.len() {
                assert(utf8::encode_utf8(s)[i] == first[i]);
            } else {
                assert(utf8::encode_utf8(s)[i] == utf8::encode_utf8(rest)[i - first.len()]);
            }
        }
    }
}

/// A number in decimal notation is made of digits, and denotes the number.
pub proof fn lemma_decimal_bytes(n: nat)
    ensures
        ({
            let s = utf8::encode_utf8(text::decimal(n));
            &&& s.len() > 0
            &&& text::all_digits(s)
            &&& text::digits_value(s) == n
        }),
        text::decimal(n).len() > 0,
        utf8::is_ascii_chars(text::decimal(n)),
    decreases n,
{
    let last = text::digit_char(n % 10);
    let d = n % 10;
    assert(last as u32 == 48 + d);
    let one = seq![last];
    assert(utf8::is_ascii_chars(one));
    utf8::is_ascii_chars_encode_utf8(one);
    let byte = utf8::encode_utf8(one);
    assert(byte[0] == 48 + d) by {
        assert(one[0] as u8 == byte[0]);
    }
    if n < 10 {
        assert(byte.drop_last() =~= seq![]);
        assert(text::digits_value(byte.drop_last()) == 0);
        assert(text::decimal(n) =~= one);
    } else {
        lemma_decimal_bytes(n / 10);
        let before = utf8::encode_utf8(text::decimal(n / 10));
        assert(text::decimal(n) =~= text::decimal(n / 10) + one);
        lemma_encode_add(text::decimal(n / 10), one);
        let s = utf8::encode_utf8(text::decimal(n));
        assert(s =~= before.push((48 + d) as u8));
        assert(s.drop_last() =~= before);
    }
}

/// A number in decimal notation is read as the number.
pub proof fn law_decimal_is_read(n: u32)
    ensures
        text::u32_of(utf8::encode_utf8(text::decimal(n as nat))) == Some(n),
{
    lemma_decimal_bytes(n as nat);
    let s = utf8::encode_utf8(text::decimal(n as nat));
    assert(text::is_digit(s[0]));
    assert(text::without_plus(s) == s);
}

} // verus!
