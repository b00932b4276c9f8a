//! Fixed-width integers on the wire, and copying of byte ranges.

use vstd::prelude::*;

verus! {

// ---------------------------------------------------------------------------
// What the bytes mean
// ---------------------------------------------------------------------------

/// The 16-bit big-endian integer at `i`.
pub open spec fn be16(s: Seq<u8>, i: int) -> u16 {
    (s[i] * 0x100 + s[i + 1]) as u16
}

/// The 24-bit big-endian integer at `i`.
pub open spec fn be24(s: Seq<u8>, i: int) -> u32 {
    (s[i] * 0x1_0000 + s[i + 1] * 0x100 + s[i + 2]) as u32
}

/// The 32-bit big-endian integer at `i`.
pub open spec fn be32(s: Seq<u8>, i: int) -> u32 {
    (s[i] * 0x100_0000 + s[i + 1] * 0x1_0000 + s[i + 2] * 0x100 + s[i + 3]) as u32
}

/// The 64-bit big-endian integer at `i`.
pub open spec fn be64(s: Seq<u8>, i: int) -> u64 {
    (be32(s, i) * 0x1_0000_0000 + be32(s, i + 4)) as u64
}

/// The 16-bit little-endian integer at `i`.
pub open spec fn le16(s: Seq<u8>, i: int) -> u16 {
    (s[i + 1] * 0x100 + s[i]) as u16
}

/// The 32-bit little-endian integer at `i`.
pub open spec fn le32(s: Seq<u8>, i: int) -> u32 {
    (s[i + 3] * 0x100_0000 + s[i + 2] * 0x1_0000 + s[i + 1] * 0x100 + s[i]) as u32
}

/// The 64-bit little-endian integer at `i`.
pub open spec fn le64(s: Seq<u8>, i: int) -> u64 {
    (le32(s, i + 4) * 0x1_0000_0000 + le32(s, i)) as u64
}

/// The 128-bit little-endian integer at `i`.
pub open spec fn le128(s: Seq<u8>, i: int) -> u128 {
    (le64(s, i + 8) * 0x1_0000_0000_0000_0000 + le64(s, i)) as u128
}

/// Big-endian bytes of a 16-bit integer.
pub open spec fn be16_bytes(v: u16) -> Seq<u8> {
    seq![(v / 0x100) as u8, (v % 0x100) as u8]
}

/// Big-endian bytes of the low 24 bits of an integer.
pub open spec fn be24_bytes(v: u32) -> Seq<u8> {
    seq![((v / 0x1_0000) % 0x100) as u8, ((v / 0x100) % 0x100) as u8, (v % 0x100) as u8]
}

/// Big-endian bytes of a 32-bit integer.
pub open spec fn be32_bytes(v: u32) -> Seq<u8> {
    seq![
        (v / 0x100_0000) as u8,
        ((v / 0x1_0000) % 0x100) as u8,
        ((v / 0x100) % 0x100) as u8,
        (v % 0x100) as u8,
    ]
}

/// Big-endian bytes of a 64-bit integer.
pub open spec fn be64_bytes(v: u64) -> Seq<u8> {
    be32_bytes((v / 0x1_0000_0000) as u32) + be32_bytes((v % 0x1_0000_0000) as u32)
}

/// Little-endian bytes of a 16-bit integer.
pub open spec fn le16_bytes(v: u16) -> Seq<u8> {
    seq![(v % 0x100) as u8, (v / 0x100) as u8]
}

/// Little-endian bytes of a 32-bit integer.
pub open spec fn le32_bytes(v: u32) -> Seq<u8> {
    seq![
        (v % 0x100) as u8,
        ((v / 0x100) % 0x100) as u8,
        ((v / 0x1_0000) % 0x100) as u8,
        (v / 0x100_0000) as u8,
    ]
}

/// Little-endian bytes of a 64-bit integer.
pub open spec fn le64_bytes(v: u64) -> Seq<u8> {
    le32_bytes((v % 0x1_0000_0000) as u32) + le32_bytes((v / 0x1_0000_0000) as u32)
}

/// Little-endian bytes of a 128-bit integer.
pub open spec fn le128_bytes(v: u128) -> Seq<u8> {
    le64_bytes((v % 0x1_0000_0000_0000_0000) as u64) + le64_bytes(
        (v / 0x1_0000_0000_0000_0000) as u64,
    )
}

// ---------------------------------------------------------------------------
// Reading
// ---------------------------------------------------------------------------

/// Reads a 16-bit big-endian integer at `i`.
pub fn read_be16(data: &[u8], i: usize) -> (r: u16)
    requires
        i + 2 <= data.len(),
    ensures
        r == be16(data@, i as int),
{
    (data[i] as u16) * 0x100 + data[i + 1] as u16
}

/// Reads a 24-bit big-endian integer at `i`.
pub fn read_be24(data: &[u8], i: usize) -> (r: u32)
    requires
        i + 3 <= data.len(),
    ensures
        r == be24(data@, i as int),
{
    (data[i] as u32) * 0x1_0000 + (data[i + 1] as u32) * 0x100 + data[i + 2] as u32
}

/// Reads a 32-bit big-endian integer at `i`.
pub fn read_be32(data: &[u8], i: usize) -> (r: u32)
    requires
        i + 4 <= data.len(),
    ensures
        r == be32(data@, i as int),
{
    (data[i] as u32) * 0x100_0000 + (data[i + 1] as u32) * 0x1_0000 + (data[i + 2] as u32) * 0x100
        + data[i + 3] as u32
}

/// Reads a 64-bit big-endian integer at `i`.
pub fn read_be64(data: &[u8], i: usize) -> (r: u64)
    requires
        i + 8 <= data.len(),
    ensures
        r == be64(data@, i as int),
{
    (read_be32(data, i) as u64) * 0x1_0000_0000 + read_be32(data, i + 4) as u64
}

/// Reads a 16-bit little-endian integer at `i`.
pub fn read_le16(data: &[u8], i: usize) -> (r: u16)
    requires
        i + 2 <= data.len(),
    ensures
        r == le16(data@, i as int),
{
    (data[i + 1] as u16) * 0x100 + data[i] as u16
}

/// Reads a 32-bit little-endian integer at `i`.
pub fn read_le32(data: &[u8], i: usize) -> (r: u32)
    requires
        i + 4 <= data.len(),
    ensures
        r == le32(data@, i as int),
{
    (data[i + 3] as u32) * 0x100_0000 + (data[i + 2] as u32) * 0x1_0000 + (data[i + 1] as u32)
        * 0x100 + data[i] as u32
}

/// Reads a 64-bit little-endian integer at `i`.
pub fn read_le64(data: &[u8], i: usize) -> (r: u64)
    requires
        i + 8 <= data.len(),
    ensures
        r == le64(data@, i as int),
{
    (read_le32(data, i + 4) as u64) * 0x1_0000_0000 + read_le32(data, i) as u64
}

/// Reads a 128-bit little-endian integer at `i`.
pub fn read_le128(data: &[u8], i: usize) -> (r: u128)
    requires
        i + 16 <= data.len(),
    ensures
        r == le128(data@, i as int),
{
    (read_le64(data, i + 8) as u128) * 0x1_0000_0000_0000_0000 + read_le64(data, i) as u128
}

/// The bytes of `data` from `from` up to `to`.
pub fn range(data: &[u8], from: usize, to: usize) -> (r: &[u8])
    requires
        from <= to <= data@.len(),
    ensures
        r@ == data@.subrange(from as int, to as int),
{
    vstd::slice::slice_subrange(data, from, to)
}

/// An owned copy of the bytes of `data` from `from` up to `to`.
pub fn copy_range(data: &[u8], from: usize, to: usize) -> (r: Vec<u8>)
    requires
        from <= to <= data@.len(),
    ensures
        r@ == data@.subrange(from as int, to as int),
{
    vstd::slice::slice_to_vec(vstd::slice::slice_subrange(data, from, to))
}

/// An owned copy of `data`.
pub fn copy(data: &[u8]) -> (r: Vec<u8>)
    ensures
        r@ == data@,
{
    vstd::slice::slice_to_vec(data)
}

/// Whether two byte strings are the same.
pub fn same_bytes(a: &[u8], b: &[u8]) -> (r: bool)
    ensures
        r == (a@ == b@),
{
    if a.len() != b.len() {
        return false;
    }
    let mut i: usize = 0;
    while i < a.len()
        invariant
            i <= a@.len(),
            a@.len() == b@.len(),
            forall|j: int| 0 <= j < i ==> a@[j] == b@[j],
        decreases a@.len() - i,
    {
        if a[i] != b[i] {
            return false;
        }
        i = i + 1;
    }
    assert(a@ =~= b@);
    true
}

/// Whether `value` is one of the bytes of `data`.
pub fn contains_byte(data: &[u8], value: u8) -> (r: bool)
    ensures
        r == data@.contains(value),
{
    let mut i: usize = 0;
    while i < data.len()
        invariant
            i <= data@.len(),
            forall|j: int| 0 <= j < i ==> data@[j] != value,
        decreases data@.len() - i,
    {
        if data[i] == value {
            assert(data@[i as int] == value);
            return true;
        }
        i = i + 1;
    }
    false
}

// ---------------------------------------------------------------------------
// Writing
// ---------------------------------------------------------------------------

/// Whether `needle` stands in `s` at some position.
pub open spec fn contains_run(s: Seq<u8>, needle: Seq<u8>) -> bool {
    exists|i: int|
        0 <= i && i + needle.len() <= s.len() && #[trigger] s.subrange(i, i + needle.len())
            == needle
}

/// Looks for `needle` in `data`.
pub fn find_run(data: &[u8], needle: &[u8]) -> (r: bool)
    ensures
        r == contains_run(data@, needle@),
{
    if needle.len() == 0 {
        assert(data@.subrange(0, 0int + needle@.len()) =~= needle@);
        return true;
    }
    if needle.len() > data.len() {
        return false;
    }
    let mut i: usize = 0;
    while i <= data.len() - needle.len()
        invariant
            i + needle@.len() <= data@.len() + 1,
            forall|k: int|
                0 <= k < i ==> #[trigger] data@.subrange(k, k + needle@.len()) != needle@,
        decreases data@.len() + 1 - i,
    {
        if same_bytes(range(data, i, i + needle.len()), needle) {
            assert(data@.subrange(i as int, i + needle@.len()) == needle@);
            return true;
        }
        i = i + 1;
    }
    false
}

/// Appends bytes.
pub fn push_bytes(out: &mut Vec<u8>, data: &[u8])
    ensures
        final(out)@ == old(out)@ + data@,
{
    let ghost before = out@;
    out.extend_from_slice(data);
    assert(out@ =~= before + data@);
}

/// Appends a 16-bit integer, big-endian.
pub fn push_be16(out: &mut Vec<u8>, v: u16)
    ensures
        final(out)@ == old(out)@ + be16_bytes(v),
{
    let ghost before = out@;
    out.push((v / 0x100) as u8);
    out.push((v % 0x100) as u8);
    assert(out@ =~= before + be16_bytes(v));
}

/// Appends the low 24 bits of an integer, big-endian.
pub fn push_be24(out: &mut Vec<u8>, v: u32)
    ensures
        final(out)@ == old(out)@ + be24_bytes(v),
{
    let ghost before = out@;
    out.push(((v / 0x1_0000) % 0x100) as u8);
    out.push(((v / 0x100) % 0x100) as u8);
    out.push((v % 0x100) as u8);
    assert(out@ =~= before + be24_bytes(v));
}

/// Appends a 32-bit integer, big-endian.
pub fn push_be32(out: &mut Vec<u8>, v: u32)
    ensures
        final(out)@ == old(out)@ + be32_bytes(v),
{
    let ghost before = out@;
    out.push((v / 0x100_0000) as u8);
    out.push(((v / 0x1_0000) % 0x100) as u8);
    out.push(((v / 0x100) % 0x100) as u8);
    out.push((v % 0x100) as u8);
    assert(out@ =~= before + be32_bytes(v));
}

/// Appends a 64-bit integer, big-endian.
pub fn push_be64(out: &mut Vec<u8>, v: u64)
    ensures
        final(out)@ == old(out)@ + be64_bytes(v),
{
    let ghost before = out@;
    push_be32(out, (v / 0x1_0000_0000) as u32);
    push_be32(out, (v % 0x1_0000_0000) as u32);
    assert(out@ =~= before + be64_bytes(v));
}

/// Appends a 16-bit integer, little-endian.
pub fn push_le16(out: &mut Vec<u8>, v: u16)
    ensures
        final(out)@ == old(out)@ + le16_bytes(v),
{
    let ghost before = out@;
    out.push((v % 0x100) as u8);
    out.push((v / 0x100) as u8);
    assert(out@ =~= before + le16_bytes(v));
}

/// Appends a 32-bit integer, little-endian.
pub fn push_le32(out: &mut Vec<u8>, v: u32)
    ensures
        final(out)@ == old(out)@ + le32_bytes(v),
{
    let ghost before = out@;
    out.push((v % 0x100) as u8);
    out.push(((v / 0x100) % 0x100) as u8);
    out.push(((v / 0x1_0000) % 0x100) as u8);
    out.push((v / 0x100_0000) as u8);
    assert(out@ =~= before + le32_bytes(v));
}

/// Appends a 64-bit integer, little-endian.
pub fn push_le64(out: &mut Vec<u8>, v: u64)
    ensures
        final(out)@ == old(out)@ + le64_bytes(v),
{
    let ghost before = out@;
    push_le32(out, (v % 0x1_0000_0000) as u32);
    push_le32(out, (v / 0x1_0000_0000) as u32);
    assert(out@ =~= before + le64_bytes(v));
}

/// Appends a 128-bit integer, little-endian.
pub fn push_le128(out: &mut Vec<u8>, v: u128)
    ensures
        final(out)@ == old(out)@ + le128_bytes(v),
{
    let ghost before = out@;
    push_le64(out, (v % 0x1_0000_0000_0000_0000) as u64);
    push_le64(out, (v / 0x1_0000_0000_0000_0000) as u64);
    assert(out@ =~= before + le128_bytes(v));
}

// ---------------------------------------------------------------------------
// Reading gives back what was written
// ---------------------------------------------------------------------------

/// A 16-bit integer is read back from its big-endian bytes.
pub proof fn lemma_be16_round_trip(v: u16)
    ensures
        be16_bytes(v).len() == 2,
        be16(be16_bytes(v), 0) == v,
{
}

/// The low 24 bits of an integer are read back from their big-endian bytes.
pub proof fn lemma_be24_round_trip(v: u32)
    requires
        v < 0x100_0000,
    ensures
        be24_bytes(v).len() == 3,
        be24(be24_bytes(v), 0) == v,
{
}

/// A 32-bit integer is read back from its big-endian bytes.
pub proof fn lemma_be32_round_trip(v: u32)
    ensures
        be32_bytes(v).len() == 4,
        be32(be32_bytes(v), 0) == v,
{
}

/// A 16-bit integer is read back from its little-endian bytes.
pub proof fn lemma_le16_round_trip(v: u16)
    ensures
        le16_bytes(v).len() == 2,
        le16(le16_bytes(v), 0) == v,
{
}

/// A 32-bit integer is read back from its little-endian bytes.
pub proof fn lemma_le32_round_trip(v: u32)
    ensures
        le32_bytes(v).len() == 4,
        le32(le32_bytes(v), 0) == v,
{
}

/// A 64-bit integer is read back from its little-endian bytes.
pub proof fn lemma_le64_round_trip(v: u64)
    ensures
        le64_bytes(v).len() == 8,
        le64(le64_bytes(v), 0) == v,
{
    let hi = (v / 0x1_0000_0000) as u32;
    let lo = (v % 0x1_0000_0000) as u32;
    lemma_le32_round_trip(hi);
    lemma_le32_round_trip(lo);
    let b = le64_bytes(v);
    assert(b[0] == le32_bytes(lo)[0] && b[1] == le32_bytes(lo)[1] && b[2] == le32_bytes(lo)[2]
        && b[3] == le32_bytes(lo)[3]);
    assert(b[4] == le32_bytes(hi)[0] && b[5] == le32_bytes(hi)[1] && b[6] == le32_bytes(hi)[2]
        && b[7] == le32_bytes(hi)[3]);
    assert(le32(b, 0) == lo);
    assert(le32(b, 4) == hi);
}

// ---------------------------------------------------------------------------
// Byte strings inside others
// ---------------------------------------------------------------------------

/// Whether `w` stands at `p` in `s`.
#[verifier::opaque]
pub open spec fn stands_at(s: Seq<u8>, p: int, w: Seq<u8>) -> bool {
    &&& 0 <= p
    &&& p + w.len() <= s.len()
    &&& s.subrange(p, p + w.len()) == w
}

/// A whole byte string stands at its own start.
pub proof fn lemma_stands_whole(s: Seq<u8>)
    ensures
        stands_at(s, 0, s),
{
    reveal(stands_at);
    assert(s.subrange(0, s.len() as int) =~= s);
}

/// Two byte strings in a row stand one behind the other.
pub broadcast proof fn lemma_stands_split(s: Seq<u8>, p: int, a: Seq<u8>, b: Seq<u8>)
    ensures
        #[trigger] stands_at(s, p, a + b) <==> stands_at(s, p, a) && stands_at(s, p + a.len(), b),
{
    reveal(stands_at);
    let w = a + b;
    if stands_at(s, p, w) {
        let r = s.subrange(p, p + w.len());
        assert(s.subrange(p, p + a.len()) =~= a) by {
            assert(a =~= w.subrange(0, a.len() as int));
            assert(s.subrange(p, p + a.len()) =~= r.subrange(0, a.len() as int));
        }
        assert(s.subrange(p + a.len(), p + w.len()) =~= b) by {
            assert(b =~= w.subrange(a.len() as int, w.len() as int));
            assert(s.subrange(p + a.len(), p + w.len()) =~= r.subrange(
                a.len() as int,
                w.len() as int,
            ));
        }
    }
    if stands_at(s, p, a) && stands_at(s, p + a.len(), b) {
        assert(s.subrange(p, p + w.len()) =~= s.subrange(p, p + a.len()) + s.subrange(
            p + a.len(),
            p + w.len(),
        ));
    }
}

/// The bytes of what stands at a position.
pub proof fn lemma_stands_index(s: Seq<u8>, p: int, w: Seq<u8>, i: int)
    requires
        stands_at(s, p, w),
        0 <= i < w.len(),
    ensures
        0 <= p,
        p + w.len() <= s.len(),
        s[p + i] == w[i],
{
    reveal(stands_at);
    assert(s.subrange(p, p + w.len())[i] == s[p + i]);
}

/// A byte is read back where it stands.
pub broadcast proof fn lemma_stands_byte(s: Seq<u8>, p: int, v: u8)
    requires
        #[trigger] stands_at(s, p, seq![v]),
    ensures
        s[p] == v,
        p + 1 <= s.len(),
{
    lemma_stands_index(s, p, seq![v], 0);
}

/// A 16-bit big-endian integer is read back where it stands.
pub broadcast proof fn lemma_stands_be16(s: Seq<u8>, p: int, v: u16)
    requires
        #[trigger] stands_at(s, p, be16_bytes(v)),
    ensures
        be16(s, p) == v,
        p + 2 <= s.len(),
{
    lemma_stands_index(s, p, be16_bytes(v), 0);
    lemma_stands_index(s, p, be16_bytes(v), 1);
}

/// A 24-bit big-endian integer is read back where it stands.
pub broadcast proof fn lemma_stands_be24(s: Seq<u8>, p: int, v: u32)
    requires
        #[trigger] stands_at(s, p, be24_bytes(v)),
        v < 0x100_0000,
    ensures
        be24(s, p) == v,
        p + 3 <= s.len(),
{
    lemma_stands_index(s, p, be24_bytes(v), 0);
    lemma_stands_index(s, p, be24_bytes(v), 1);
    lemma_stands_index(s, p, be24_bytes(v), 2);
}

/// A 32-bit big-endian integer is read back where it stands.
pub broadcast proof fn lemma_stands_be32(s: Seq<u8>, p: int, v: u32)
    requires
        #[trigger] stands_at(s, p, be32_bytes(v)),
    ensures
        be32(s, p) == v,
        p + 4 <= s.len(),
{
    lemma_stands_index(s, p, be32_bytes(v), 0);
    lemma_stands_index(s, p, be32_bytes(v), 1);
    lemma_stands_index(s, p, be32_bytes(v), 2);
    lemma_stands_index(s, p, be32_bytes(v), 3);
}

/// A 64-bit big-endian integer is read back where it stands.
pub broadcast proof fn lemma_stands_be64(s: Seq<u8>, p: int, v: u64)
    requires
        #[trigger] stands_at(s, p, be64_bytes(v)),
    ensures
        be64(s, p) == v,
        p + 8 <= s.len(),
{
    let hi = (v / 0x1_0000_0000) as u32;
    let lo = (v % 0x1_0000_0000) as u32;
    lemma_stands_split(s, p, be32_bytes(hi), be32_bytes(lo));
    lemma_stands_be32(s, p, hi);
    lemma_stands_be32(s, p + 4, lo);
}

/// A 32-bit little-endian integer is read back where it stands.
pub broadcast proof fn lemma_stands_le32(s: Seq<u8>, p: int, v: u32)
    requires
        #[trigger] stands_at(s, p, le32_bytes(v)),
    ensures
        le32(s, p) == v,
        p + 4 <= s.len(),
{
    lemma_stands_index(s, p, le32_bytes(v), 0);
    lemma_stands_index(s, p, le32_bytes(v), 1);
    lemma_stands_index(s, p, le32_bytes(v), 2);
    lemma_stands_index(s, p, le32_bytes(v), 3);
}

/// A 128-bit little-endian integer is read back where it stands.
pub broadcast proof fn lemma_stands_le128(s: Seq<u8>, p: int, v: u128)
    requires
        #[trigger] stands_at(s, p, le128_bytes(v)),
    ensures
        le128(s, p) == v,
        p + 16 <= s.len(),
{
    let lo = (v % 0x1_0000_0000_0000_0000) as u64;
    let hi = (v / 0x1_0000_0000_0000_0000) as u64;
    lemma_stands_split(s, p, le64_bytes(lo), le64_bytes(hi));
    lemma_stands_le64(s, p, lo);
    lemma_stands_le64(s, p + 8, hi);
}

/// A 64-bit little-endian integer is read back where it stands.
proof fn lemma_stands_le64(s: Seq<u8>, p: int, v: u64)
    requires
        stands_at(s, p, le64_bytes(v)),
    ensures
        le64(s, p) == v,
        p + 8 <= s.len(),
{
    let lo = (v % 0x1_0000_0000) as u32;
    let hi = (v / 0x1_0000_0000) as u32;
    lemma_stands_split(s, p, le32_bytes(lo), le32_bytes(hi));
    lemma_stands_le32(s, p, lo);
    lemma_stands_le32(s, p + 4, hi);
}

/// What stands somewhere ends inside the byte string, and is found there.
pub proof fn lemma_stands_range(s: Seq<u8>, p: int, w: Seq<u8>)
    requires
        stands_at(s, p, w),
    ensures
        0 <= p,
        p + w.len() <= s.len(),
        s.subrange(p, p + w.len()) == w,
{
    reveal(stands_at);
}

/// How byte strings and integers are read back where they stand.
pub broadcast group group_stands {
    lemma_stands_split,
    lemma_stands_byte,
    lemma_stands_be16,
    lemma_stands_be24,
    lemma_stands_be32,
    lemma_stands_be64,
    lemma_stands_le32,
    lemma_stands_le128,
}

} // verus!
