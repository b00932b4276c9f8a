//! Text: UTF-8 in and out of byte strings, comparison, and decimal numbers.

pub mod laws;

use vstd::prelude::*;
use vstd::utf8;

verus! {

/// What decoding bytes that are not valid UTF-8 yields when each malformed
/// part is replaced by the replacement character.
pub uninterp spec fn utf8_with_replacements(bytes: Seq<u8>) -> Seq<char>;

/// The text that bytes stand for: their UTF-8 decoding, with malformed parts
/// replaced.
pub open spec fn lossy_text(bytes: Seq<u8>) -> Seq<char> {
    if utf8::valid_utf8(bytes) {
        utf8::decode_utf8(bytes)
    } else {
        utf8_with_replacements(bytes)
    }
}

/// Wraps `String::from_utf8_lossy`: valid UTF-8 is decoded as it stands; of
/// any other input nothing is claimed but that the text depends on the bytes
/// alone.
#[verifier::external_body]
pub(crate) fn decode_lossy(bytes: &[u8]) -> (r: String)
    ensures
        r@ == (if utf8::valid_utf8(bytes@) {
            utf8::decode_utf8(bytes@)
        } else {
            utf8_with_replacements(bytes@)
        }),
{
    String::from_utf8_lossy(bytes).into_owned()
}

/// Wraps `std::str::from_utf8`: the text when the bytes are valid UTF-8.
#[verifier::external_body]
pub(crate) fn decode_strict(bytes: &[u8]) -> (r: Option<&str>)
    ensures
        r is Some <==> utf8::valid_utf8(bytes@),
        r is Some ==> r->0@ == utf8::decode_utf8(bytes@),
{
    std::str::from_utf8(bytes).ok()
}

/// Text survives being encoded and decoded.
pub proof fn lemma_text_round_trip(s: Seq<char>)
    ensures
        utf8::valid_utf8(utf8::encode_utf8(s)),
        utf8::decode_utf8(utf8::encode_utf8(s)) == s,
        lossy_text(utf8::encode_utf8(s)) == s,
{
    vstd::utf8::encode_utf8_valid_utf8(s);
    vstd::utf8::encode_utf8_decode_utf8(s);
}

/// The UTF-8 bytes of a text.
pub fn text_bytes(s: &str) -> (r: Vec<u8>)
    ensures
        r@ == utf8::encode_utf8(s@),
{
    vstd::slice::slice_to_vec(s.as_bytes())
}

/// Whether two texts are the same.
pub fn same_text(a: &str, b: &str) -> (r: bool)
    ensures
        r == (a@ == b@),
{
    let r = crate::bytes::same_bytes(a.as_bytes(), b.as_bytes());
    proof {
        lemma_text_round_trip(a@);
        lemma_text_round_trip(b@);
    }
    r
}

/// Texts separated by commas.
pub open spec fn joined(parts: Seq<Seq<char>>) -> Seq<char>
    decreases parts.len(),
{
    if parts.len() == 0 {
        seq![]
    } else if parts.len() == 1 {
        parts[0]
    } else {
        joined(parts.drop_last()) + ","@ + parts.last()
    }
}

/// Joins texts with commas.
pub fn join(parts: &Vec<String>) -> (r: String)
    ensures
        r@ == joined(crate::models::seq_views(parts@)),
{
    let ghost all = crate::models::seq_views(parts@);
    let mut r = owned("");
    let mut i: usize = 0;
    proof {
        reveal_strlit("");
        assert(all.take(0) =~= seq![]);
        assert(r@ =~= joined(all.take(0)));
    }
    while i < parts.len()
        invariant
            i <= parts@.len(),
            all == crate::models::seq_views(parts@),
            r@ == joined(all.take(i as int)),
        decreases parts@.len() - i,
    {
        assert(all.take(i + 1).drop_last() =~= all.take(i as int));
        assert(all.take(i + 1).last() == parts@[i as int]@);
        if i > 0 {
            r.append(",");
        }
        let ghost before = r@;
        r.append(parts[i].as_str());
        assert(i == 0 ==> before =~= seq![]);
        assert(i == 0 ==> r@ =~= parts@[0]@);
        i = i + 1;
    }
    assert(all.take(i as int) =~= all);
    r
}

/// A text in double quotes.
pub open spec fn quoted(s: Seq<char>) -> Seq<char> {
    "\""@ + s + "\""@
}

/// Appends a text in double quotes.
pub fn append_quoted(out: &mut String, s: &str)
    ensures
        final(out)@ == old(out)@ + quoted(s@),
{
    let ghost before = out@;
    out.append("\"");
    out.append(s);
    out.append("\"");
    assert(out@ =~= before + quoted(s@));
}

/// A number in decimal notation, as a text of its own.
pub fn decimal_text(n: u64) -> (r: String)
    ensures
        r@ == decimal(n as nat),
{
    let mut r = owned("");
    proof {
        reveal_strlit("");
    }
    append_decimal(&mut r, n);
    assert(r@ =~= decimal(n as nat));
    r
}

/// An owned copy of a text.
pub fn owned(s: &str) -> (r: String)
    ensures
        r@ == s@,
{
    s.to_owned()
}

// ---------------------------------------------------------------------------
// Decimal numbers
// ---------------------------------------------------------------------------

/// The character of a decimal digit.
pub open spec fn digit_char(d: nat) -> char {
    (48 + d) as char
}

/// A number in decimal notation, without leading zeros.
pub open spec fn decimal(n: nat) -> Seq<char>
    decreases n,
{
    if n < 10 {
        seq![digit_char(n)]
    } else {
        decimal(n / 10).push(digit_char(n % 10))
    }
}

/// Appends the digit `d`.
fn append_digit(out: &mut String, d: u64)
    requires
        d < 10,
    ensures
        final(out)@ == old(out)@.push(digit_char(d as nat)),
{
    proof {
        reveal_strlit("0");
        reveal_strlit("1");
        reveal_strlit("2");
        reveal_strlit("3");
        reveal_strlit("4");
        reveal_strlit("5");
        reveal_strlit("6");
        reveal_strlit("7");
        reveal_strlit("8");
        reveal_strlit("9");
    }
    let text: &str = match d {
        0 => "0",
        1 => "1",
        2 => "2",
        3 => "3",
        4 => "4",
        5 => "5",
        6 => "6",
        7 => "7",
        8 => "8",
        _ => "9",
    };
    let ghost before = out@;
    assert(text@ =~= seq![digit_char(d as nat)]);
    out.append(text);
    assert(out@ =~= before.push(digit_char(d as nat)));
}

/// Appends a number in decimal notation.
pub fn append_decimal(out: &mut String, n: u64)
    ensures
        final(out)@ == old(out)@ + decimal(n as nat),
    decreases n,
{
    let ghost before = out@;
    if n < 10 {
        append_digit(out, n);
        assert(out@ =~= before + decimal(n as nat));
    } else {
        append_decimal(out, n / 10);
        append_digit(out, n % 10);
        assert(decimal(n as nat) == decimal((n / 10) as nat).push(digit_char((n % 10) as nat)));
        assert(out@ =~= before + decimal(n as nat));
    }
}

/// The character of a lower-case hexadecimal digit.
pub open spec fn hex_char(d: nat) -> char {
    if d < 10 {
        digit_char(d)
    } else {
        (87 + d) as char
    }
}

/// A 16-bit number as `0x` and four hexadecimal digits.
pub open spec fn hex16(n: u16) -> Seq<char> {
    "0x"@ + seq![
        hex_char((n / 0x1000) as nat),
        hex_char(((n / 0x100) % 0x10) as nat),
        hex_char(((n / 0x10) % 0x10) as nat),
        hex_char((n % 0x10) as nat),
    ]
}

/// An 8-bit number as `0x` and two hexadecimal digits.
pub open spec fn hex8(n: u8) -> Seq<char> {
    "0x"@ + seq![hex_char((n / 0x10) as nat), hex_char((n % 0x10) as nat)]
}

/// Appends the hexadecimal digit `d`.
fn append_hex_digit(out: &mut String, d: u16)
    requires
        d < 16,
    ensures
        final(out)@ == old(out)@.push(hex_char(d as nat)),
{
    if d < 10 {
        append_digit(out, d as u64);
        return;
    }
    proof {
        reveal_strlit("a");
        reveal_strlit("b");
        reveal_strlit("c");
        reveal_strlit("d");
        reveal_strlit("e");
        reveal_strlit("f");
    }
    let text: &str = match d {
        10 => "a",
        11 => "b",
        12 => "c",
        13 => "d",
        14 => "e",
        _ => "f",
    };
    let ghost before = out@;
    assert(text@ =~= seq![hex_char(d as nat)]);
    out.append(text);
    assert(out@ =~= before.push(hex_char(d as nat)));
}

/// Appends an 8-bit number as `0x` and two hexadecimal digits.
pub fn append_hex8(out: &mut String, n: u8)
    ensures
        final(out)@ == old(out)@ + hex8(n),
{
    let ghost before = out@;
    out.append("0x");
    append_hex_digit(out, (n / 0x10) as u16);
    append_hex_digit(out, (n % 0x10) as u16);
    assert(out@ =~= before + hex8(n));
}

/// Appends a 16-bit number as `0x` and four hexadecimal digits.
pub fn append_hex16(out: &mut String, n: u16)
    ensures
        final(out)@ == old(out)@ + hex16(n),
{
    let ghost before = out@;
    out.append("0x");
    append_hex_digit(out, n / 0x1000);
    append_hex_digit(out, (n / 0x100) % 0x10);
    append_hex_digit(out, (n / 0x10) % 0x10);
    append_hex_digit(out, n % 0x10);
    assert(out@ =~= before + hex16(n));
}

/// How many bytes stand before the first `b`.
pub open spec fn run_without(s: Seq<u8>, b: u8) -> nat
    decreases s.len(),
{
    if s.len() == 0 || s[0] == b {
        0
    } else {
        1 + run_without(s.skip(1), b)
    }
}

/// The bytes before the first `b` are among the bytes, and `b` comes next.
pub proof fn lemma_run_without(s: Seq<u8>, b: u8)
    ensures
        run_without(s, b) <= s.len(),
        run_without(s, b) < s.len() ==> s[run_without(s, b) as int] == b,
        forall|i: int| 0 <= i < run_without(s, b) ==> s[i] != b,
    decreases s.len(),
{
    if s.len() > 0 && s[0] != b {
        let rest = s.skip(1);
        lemma_run_without(rest, b);
        assert forall|i: int| 0 <= i < run_without(s, b) implies s[i] != b by {
            if i > 0 {
                assert(rest[i - 1] == s[i]);
            }
        }
    }
}

/// The first `b` is where nothing before it is one.
pub proof fn lemma_run_without_is(s: Seq<u8>, b: u8, n: int)
    requires
        0 <= n <= s.len(),
        n < s.len() ==> s[n] == b,
        forall|i: int| 0 <= i < n ==> s[i] != b,
    ensures
        run_without(s, b) == n,
    decreases n,
{
    if n > 0 {
        let rest = s.skip(1);
        assert forall|i: int| 0 <= i < n - 1 implies rest[i] != b by {
            assert(rest[i] == s[i + 1]);
        }
        lemma_run_without_is(rest, b, n - 1);
    }
}

/// Counts the bytes before the first `b`, from `from` on.
pub fn count_without(s: &[u8], from: usize, b: u8) -> (r: usize)
    requires
        from <= s@.len(),
    ensures
        r == run_without(s@.skip(from as int), b),
        from + r <= s@.len(),
{
    let ghost rest = s@.skip(from as int);
    let mut n: usize = 0;
    while n < s.len() - from && s[from + n] != b
        invariant
            from + n <= s@.len(),
            forall|i: int| 0 <= i < n ==> rest[i] != b,
        decreases s@.len() - from - n,
    {
        assert(rest[n as int] == s@[from + n]);
        n = n + 1;
    }
    proof {
        if from + n < s@.len() {
            assert(rest[n as int] == s@[from + n]);
        }
        lemma_run_without_is(rest, b, n as int);
    }
    n
}

/// Whether a byte is an ASCII decimal digit.
pub open spec fn is_digit(b: u8) -> bool {
    48 <= b <= 57
}

/// The number that a string of ASCII digits denotes.
pub open spec fn digits_value(s: Seq<u8>) -> nat
    decreases s.len(),
{
    if s.len() == 0 {
        0
    } else {
        digits_value(s.drop_last()) * 10 + (s.last() - 48) as nat
    }
}

/// Whether a byte string holds ASCII digits only.
pub open spec fn all_digits(s: Seq<u8>) -> bool {
    forall|i: int| 0 <= i < s.len() ==> is_digit(#[trigger] s[i])
}

/// A byte string without the plus sign that it may start with.
pub open spec fn without_plus(s: Seq<u8>) -> Seq<u8> {
    if s.len() > 0 && s[0] == 43 {
        s.skip(1)
    } else {
        s
    }
}

/// The 32-bit number that a byte string denotes: decimal digits, at least
/// one, after an optional plus sign, with a value that fits.
pub open spec fn u32_of(s: Seq<u8>) -> Option<u32> {
    let digits = without_plus(s);
    if digits.len() > 0 && all_digits(digits) && digits_value(digits) <= u32::MAX {
        Some(digits_value(digits) as u32)
    } else {
        None
    }
}

/// A longer digit string denotes at least as much.
proof fn lemma_digits_value_grows(s: Seq<u8>, n: int)
    requires
        0 <= n <= s.len(),
        all_digits(s),
    ensures
        digits_value(s.take(n)) <= digits_value(s),
    decreases s.len() - n,
{
    if n < s.len() {
        lemma_digits_value_grows(s, n + 1);
        assert(s.take(n + 1).drop_last() =~= s.take(n));
        assert(is_digit(s[n]));
    } else {
        assert(s.take(n) =~= s);
    }
}

/// Parses a 32-bit decimal number.
pub fn parse_u32(s: &[u8]) -> (r: Option<u32>)
    ensures
        r == u32_of(s@),
{
    let start: usize = if s.len() > 0 && s[0] == 43 {
        1
    } else {
        0
    };
    let ghost digits = without_plus(s@);
    assert(digits =~= s@.skip(start as int));
    if start == s.len() {
        return None;
    }
    let mut value: u32 = 0;
    let mut i: usize = start;
    while i < s.len()
        invariant
            start <= i <= s@.len(),
            digits == s@.skip(start as int),
            digits.len() == s@.len() - start,
            forall|j: int| 0 <= j < i - start ==> is_digit(#[trigger] digits[j]),
            value == digits_value(digits.take(i - start)),
        decreases s@.len() - i,
    {
        let b: u8 = s[i];
        let ghost k = i - start;
        assert(digits[k] == b);
        if b < 48 || b > 57 {
            assert(!is_digit(digits[k]));
            return None;
        }
        let d: u32 = (b - 48) as u32;
        assert(digits.take(k + 1).drop_last() =~= digits.take(k));
        assert(digits.take(k + 1).last() == b);
        if value > (u32::MAX - d) / 10 {
            assert(digits_value(digits.take(k + 1)) > u32::MAX);
            assert(u32_of(s@) is None) by {
                if all_digits(digits) {
                    lemma_digits_value_grows(digits, k + 1);
                }
            }
            return None;
        }
        value = value * 10 + d;
        i = i + 1;
    }
    assert(digits.take(digits.len() as int) =~= digits);
    Some(value)
}

} // verus!
