//! Big-endian parameters: a cursor that reads them, and writers.

use vstd::prelude::*;
use vstd::utf8;
use crate::bytes;
use crate::models;
use crate::text;

verus! {

/// The text with an 8-bit length in front that stands at `p`, and where it
/// ends. Malformed UTF-8 is replaced.
pub open spec fn text8_at(d: Seq<u8>, p: int) -> Option<(Seq<char>, int)> {
    if p + 1 <= d.len() && p + 1 + d[p] <= d.len() {
        Some((text::lossy_text(d.subrange(p + 1, p + 1 + d[p])), p + 1 + d[p]))
    } else {
        None
    }
}

/// The text with a 16-bit length in front that stands at `p`, and where it
/// ends. Malformed UTF-8 is replaced.
pub open spec fn text16_at(d: Seq<u8>, p: int) -> Option<(Seq<char>, int)> {
    if p + 2 <= d.len() && p + 2 + bytes::be16(d, p) <= d.len() {
        let end = p + 2 + bytes::be16(d, p);
        Some((text::lossy_text(d.subrange(p + 2, end)), end))
    } else {
        None
    }
}

/// The counted list of bytes at `p`, and where it ends.
pub open spec fn u8_list_at(d: Seq<u8>, p: int) -> Option<(Seq<u8>, int)> {
    if p + 1 <= d.len() && p + 1 + d[p] <= d.len() {
        Some((d.subrange(p + 1, p + 1 + d[p]), p + 1 + d[p]))
    } else {
        None
    }
}

/// The counted list of 16-bit integers at `p`, and where it ends.
pub open spec fn u16_list_at(d: Seq<u8>, p: int) -> Option<(Seq<u16>, int)> {
    if p + 1 <= d.len() && p + 1 + 2 * d[p] <= d.len() {
        Some((Seq::new(d[p] as nat, |i: int| bytes::be16(d, p + 1 + 2 * i)), p + 1 + 2 * d[p]))
    } else {
        None
    }
}

/// The counted list of 24-bit integers at `p`, and where it ends.
pub open spec fn u24_list_at(d: Seq<u8>, p: int) -> Option<(Seq<u32>, int)> {
    if p + 1 <= d.len() && p + 1 + 3 * d[p] <= d.len() {
        Some((Seq::new(d[p] as nat, |i: int| bytes::be24(d, p + 1 + 3 * i)), p + 1 + 3 * d[p]))
    } else {
        None
    }
}

/// The counted list of 32-bit integers at `p`, and where it ends.
pub open spec fn u32_list_at(d: Seq<u8>, p: int) -> Option<(Seq<u32>, int)> {
    if p + 1 <= d.len() && p + 1 + 4 * d[p] <= d.len() {
        Some((Seq::new(d[p] as nat, |i: int| bytes::be32(d, p + 1 + 4 * i)), p + 1 + 4 * d[p]))
    } else {
        None
    }
}

/// The `n` texts with 16-bit lengths from `p` on, and where they end.
pub open spec fn texts_at(d: Seq<u8>, p: int, n: nat) -> Option<(Seq<Seq<char>>, int)>
    decreases n,
{
    if n == 0 {
        Some((seq![], p))
    } else {
        match texts_at(d, p, (n - 1) as nat) {
            None => None,
            Some((before, q)) => match text16_at(d, q) {
                None => None,
                Some((t, end)) => Some((before.push(t), end)),
            },
        }
    }
}

/// A text with an 8-bit length in front; the length field holds the low bits
/// of the length.
pub open spec fn text8_bytes(s: Seq<char>) -> Seq<u8> {
    seq![utf8::encode_utf8(s).len() as u8] + utf8::encode_utf8(s)
}

/// A text with a 16-bit length in front; the length field holds the low bits
/// of the length.
pub open spec fn text16_bytes(s: Seq<char>) -> Seq<u8> {
    bytes::be16_bytes(utf8::encode_utf8(s).len() as u16) + utf8::encode_utf8(s)
}

/// Texts with 16-bit lengths, one behind the other.
pub open spec fn texts_bytes(list: Seq<Seq<char>>) -> Seq<u8>
    decreases list.len(),
{
    if list.len() == 0 {
        seq![]
    } else {
        texts_bytes(list.drop_last()) + text16_bytes(list.last())
    }
}

/// 16-bit integers, one behind the other.
pub open spec fn u16s_bytes(list: Seq<u16>) -> Seq<u8>
    decreases list.len(),
{
    if list.len() == 0 {
        seq![]
    } else {
        u16s_bytes(list.drop_last()) + bytes::be16_bytes(list.last())
    }
}

/// 24-bit integers, one behind the other.
pub open spec fn u24s_bytes(list: Seq<u32>) -> Seq<u8>
    decreases list.len(),
{
    if list.len() == 0 {
        seq![]
    } else {
        u24s_bytes(list.drop_last()) + bytes::be24_bytes(list.last())
    }
}

/// 32-bit integers, one behind the other.
pub open spec fn u32s_bytes(list: Seq<u32>) -> Seq<u8>
    decreases list.len(),
{
    if list.len() == 0 {
        seq![]
    } else {
        u32s_bytes(list.drop_last()) + bytes::be32_bytes(list.last())
    }
}

/// A list of bytes behind its count; the count field holds the low bits of
/// the count.
pub open spec fn u8_list_bytes(list: Seq<u8>) -> Seq<u8> {
    seq![list.len() as u8] + list
}

/// A list of 16-bit integers behind its count.
pub open spec fn u16_list_bytes(list: Seq<u16>) -> Seq<u8> {
    seq![list.len() as u8] + u16s_bytes(list)
}

/// A list of 32-bit integers behind its count.
pub open spec fn u32_list_bytes(list: Seq<u32>) -> Seq<u8> {
    seq![list.len() as u8] + u32s_bytes(list)
}

/// Cursor over parameters. Every accessor says when the parameters are cut
/// short.
pub(crate) struct Reader<'a> {
    pub(crate) data: &'a [u8],
    pub(crate) pos: usize,
}

impl<'a> Reader<'a> {
    pub(crate) fn new(data: &'a [u8]) -> (r: Self)
        ensures
            r.data == data,
            r.pos == 0,
    {
        Reader { data, pos: 0 }
    }

    pub(crate) fn take(&mut self, n: usize) -> (r: Option<&'a [u8]>)
        requires
            old(self).pos <= old(self).data.len(),
        ensures
            final(self).data == old(self).data,
            r is Some <==> old(self).pos + n <= old(self).data.len(),
            match r {
                Some(s) => s@ == old(self).data@.subrange(old(self).pos as int, old(self).pos + n)
                    && final(self).pos == old(self).pos + n,
                None => final(self).pos == old(self).pos,
            },
    {
        if n <= self.data.len() - self.pos {
            let slice = bytes::range(self.data, self.pos, self.pos + n);
            self.pos = self.pos + n;
            Some(slice)
        } else {
            None
        }
    }

    pub(crate) fn u8(&mut self) -> (r: Option<u8>)
        requires
            old(self).pos <= old(self).data.len(),
        ensures
            final(self).data == old(self).data,
            r is Some <==> old(self).pos + 1 <= old(self).data.len(),
            match r {
                Some(v) => v == old(self).data@[old(self).pos as int] && final(self).pos == old(
                    self,
                ).pos + 1,
                None => final(self).pos == old(self).pos,
            },
    {
        if self.pos < self.data.len() {
            let v: u8 = self.data[self.pos];
            self.pos = self.pos + 1;
            Some(v)
        } else {
            None
        }
    }

    pub(crate) fn u16(&mut self) -> (r: Option<u16>)
        requires
            old(self).pos <= old(self).data.len(),
        ensures
            final(self).data == old(self).data,
            r is Some <==> old(self).pos + 2 <= old(self).data.len(),
            match r {
                Some(v) => v == bytes::be16(old(self).data@, old(self).pos as int)
                    && final(self).pos == old(self).pos + 2,
                None => final(self).pos == old(self).pos,
            },
    {
        if self.data.len() - self.pos >= 2 {
            let v: u16 = bytes::read_be16(self.data, self.pos);
            self.pos = self.pos + 2;
            Some(v)
        } else {
            None
        }
    }

    pub(crate) fn u24(&mut self) -> (r: Option<u32>)
        requires
            old(self).pos <= old(self).data.len(),
        ensures
            final(self).data == old(self).data,
            r is Some <==> old(self).pos + 3 <= old(self).data.len(),
            match r {
                Some(v) => v == bytes::be24(old(self).data@, old(self).pos as int)
                    && final(self).pos == old(self).pos + 3,
                None => final(self).pos == old(self).pos,
            },
    {
        if self.data.len() - self.pos >= 3 {
            let v: u32 = bytes::read_be24(self.data, self.pos);
            self.pos = self.pos + 3;
            Some(v)
        } else {
            None
        }
    }

    pub(crate) fn u32(&mut self) -> (r: Option<u32>)
        requires
            old(self).pos <= old(self).data.len(),
        ensures
            final(self).data == old(self).data,
            r is Some <==> old(self).pos + 4 <= old(self).data.len(),
            match r {
                Some(v) => v == bytes::be32(old(self).data@, old(self).pos as int)
                    && final(self).pos == old(self).pos + 4,
                None => final(self).pos == old(self).pos,
            },
    {
        if self.data.len() - self.pos >= 4 {
            let v: u32 = bytes::read_be32(self.data, self.pos);
            self.pos = self.pos + 4;
            Some(v)
        } else {
            None
        }
    }

    pub(crate) fn u64(&mut self) -> (r: Option<u64>)
        requires
            old(self).pos <= old(self).data.len(),
        ensures
            final(self).data == old(self).data,
            r is Some <==> old(self).pos + 8 <= old(self).data.len(),
            match r {
                Some(v) => v == bytes::be64(old(self).data@, old(self).pos as int)
                    && final(self).pos == old(self).pos + 8,
                None => final(self).pos == old(self).pos,
            },
    {
        if self.data.len() - self.pos >= 8 {
            let v: u64 = bytes::read_be64(self.data, self.pos);
            self.pos = self.pos + 8;
            Some(v)
        } else {
            None
        }
    }

    /// Reads a text. Malformed UTF-8 is replaced: one bad name must not spoil
    /// the whole PDU.
    pub(crate) fn string8(&mut self) -> (r: Option<String>)
        requires
            old(self).pos <= old(self).data.len(),
        ensures
            final(self).data == old(self).data,
            final(self).pos <= final(self).data.len(),
            match r {
                Some(s) => text8_at(old(self).data@, old(self).pos as int) == Some(
                    (s@, final(self).pos as int),
                ),
                None => text8_at(old(self).data@, old(self).pos as int) is None,
            },
    {
        let length: usize = self.u8()? as usize;
        let part = self.take(length)?;
        Some(text::decode_lossy(part))
    }

    /// Reads a text. Malformed UTF-8 is replaced.
    pub(crate) fn string16(&mut self) -> (r: Option<String>)
        requires
            old(self).pos <= old(self).data.len(),
        ensures
            final(self).data == old(self).data,
            final(self).pos <= final(self).data.len(),
            match r {
                Some(s) => text16_at(old(self).data@, old(self).pos as int) == Some(
                    (s@, final(self).pos as int),
                ),
                None => text16_at(old(self).data@, old(self).pos as int) is None,
            },
    {
        let length: usize = self.u16()? as usize;
        let part = self.take(length)?;
        Some(text::decode_lossy(part))
    }

    pub(crate) fn rest(&mut self) -> (r: &'a [u8])
        requires
            old(self).pos <= old(self).data.len(),
        ensures
            final(self).data == old(self).data,
            final(self).pos == old(self).data.len(),
            r@ == old(self).data@.skip(old(self).pos as int),
    {
        let slice = bytes::range(self.data, self.pos, self.data.len());
        assert(slice@ =~= self.data@.skip(self.pos as int));
        self.pos = self.data.len();
        slice
    }
}

pub(crate) fn read_u8_list(reader: &mut Reader) -> (r: Option<Vec<u8>>)
    requires
        old(reader).pos <= old(reader).data.len(),
    ensures
        final(reader).data == old(reader).data,
        final(reader).pos <= final(reader).data.len(),
        match r {
            Some(list) => u8_list_at(old(reader).data@, old(reader).pos as int) == Some(
                (list@, final(reader).pos as int),
            ),
            None => u8_list_at(old(reader).data@, old(reader).pos as int) is None,
        },
{
    let count: usize = reader.u8()? as usize;
    let part = reader.take(count)?;
    Some(bytes::copy(part))
}

pub(crate) fn read_u16_list(reader: &mut Reader) -> (r: Option<Vec<u16>>)
    requires
        old(reader).pos <= old(reader).data.len(),
    ensures
        final(reader).data == old(reader).data,
        final(reader).pos <= final(reader).data.len(),
        match r {
            Some(list) => u16_list_at(old(reader).data@, old(reader).pos as int) == Some(
                (list@, final(reader).pos as int),
            ),
            None => u16_list_at(old(reader).data@, old(reader).pos as int) is None,
        },
{
    let ghost d = reader.data@;
    let ghost p = reader.pos as int;
    let count: u8 = reader.u8()?;
    let mut list: Vec<u16> = Vec::new();
    let mut i: u8 = 0;
    while i < count
        invariant
            i <= count,
            reader.data@ == d,
            reader.data == old(reader).data,
            reader.pos == p + 1 + 2 * i,
            reader.pos <= d.len(),
            list@ == Seq::new(i as nat, |j: int| bytes::be16(d, p + 1 + 2 * j)),
        decreases count - i,
    {
        let v: u16 = reader.u16()?;
        list.push(v);
        i = i + 1;
        assert(list@ =~= Seq::new(i as nat, |j: int| bytes::be16(d, p + 1 + 2 * j)));
    }
    Some(list)
}

pub(crate) fn read_u24_list(reader: &mut Reader) -> (r: Option<Vec<u32>>)
    requires
        old(reader).pos <= old(reader).data.len(),
    ensures
        final(reader).data == old(reader).data,
        final(reader).pos <= final(reader).data.len(),
        match r {
            Some(list) => u24_list_at(old(reader).data@, old(reader).pos as int) == Some(
                (list@, final(reader).pos as int),
            ),
            None => u24_list_at(old(reader).data@, old(reader).pos as int) is None,
        },
{
    let ghost d = reader.data@;
    let ghost p = reader.pos as int;
    let count: u8 = reader.u8()?;
    let mut list: Vec<u32> = Vec::new();
    let mut i: u8 = 0;
    while i < count
        invariant
            i <= count,
            reader.data@ == d,
            reader.data == old(reader).data,
            reader.pos == p + 1 + 3 * i,
            reader.pos <= d.len(),
            list@ == Seq::new(i as nat, |j: int| bytes::be24(d, p + 1 + 3 * j)),
        decreases count - i,
    {
        let v: u32 = reader.u24()?;
        list.push(v);
        i = i + 1;
        assert(list@ =~= Seq::new(i as nat, |j: int| bytes::be24(d, p + 1 + 3 * j)));
    }
    Some(list)
}

pub(crate) fn read_u32_list(reader: &mut Reader) -> (r: Option<Vec<u32>>)
    requires
        old(reader).pos <= old(reader).data.len(),
    ensures
        final(reader).data == old(reader).data,
        final(reader).pos <= final(reader).data.len(),
        match r {
            Some(list) => u32_list_at(old(reader).data@, old(reader).pos as int) == Some(
                (list@, final(reader).pos as int),
            ),
            None => u32_list_at(old(reader).data@, old(reader).pos as int) is None,
        },
{
    let ghost d = reader.data@;
    let ghost p = reader.pos as int;
    let count: u8 = reader.u8()?;
    let mut list: Vec<u32> = Vec::new();
    let mut i: u8 = 0;
    while i < count
        invariant
            i <= count,
            reader.data@ == d,
            reader.data == old(reader).data,
            reader.pos == p + 1 + 4 * i,
            reader.pos <= d.len(),
            list@ == Seq::new(i as nat, |j: int| bytes::be32(d, p + 1 + 4 * j)),
        decreases count - i,
    {
        let v: u32 = reader.u32()?;
        list.push(v);
        i = i + 1;
        assert(list@ =~= Seq::new(i as nat, |j: int| bytes::be32(d, p + 1 + 4 * j)));
    }
    Some(list)
}

/// When one of the texts cannot be read, neither can a longer list.
pub proof fn lemma_texts_at_fails(d: Seq<u8>, p: int, n: nat, more: nat)
    requires
        n <= more,
        texts_at(d, p, n) is None,
    ensures
        texts_at(d, p, more) is None,
    decreases more,
{
    if n < more {
        lemma_texts_at_fails(d, p, n, (more - 1) as nat);
    }
}

pub(crate) fn read_texts(reader: &mut Reader, count: u8) -> (r: Option<Vec<String>>)
    requires
        old(reader).pos <= old(reader).data.len(),
    ensures
        final(reader).data == old(reader).data,
        final(reader).pos <= final(reader).data.len(),
        match r {
            Some(list) => texts_at(old(reader).data@, old(reader).pos as int, count as nat) == Some(
                (models::seq_views(list@), final(reader).pos as int),
            ),
            None => texts_at(old(reader).data@, old(reader).pos as int, count as nat) is None,
        },
{
    let ghost d = reader.data@;
    let ghost p = reader.pos as int;
    let mut list: Vec<String> = Vec::new();
    let mut i: u8 = 0;
    assert(models::seq_views(list@) =~= seq![]);
    while i < count
        invariant
            i <= count,
            reader.data@ == d,
            reader.data == old(reader).data,
            reader.pos <= d.len(),
            texts_at(d, p, i as nat) == Some((models::seq_views(list@), reader.pos as int)),
        decreases count - i,
    {
        let next = reader.string16();
        match next {
            None => {
                proof {
                    lemma_texts_at_fails(d, p, (i + 1) as nat, count as nat);
                }
                return None;
            },
            Some(s) => {
                proof {
                    models::lemma_seq_views_push(list@, s);
                }
                list.push(s);
            },
        }
        i = i + 1;
    }
    Some(list)
}

pub(crate) fn put_string8(out: &mut Vec<u8>, value: &str)
    ensures
        final(out)@ == old(out)@ + text8_bytes(value@),
{
    let ghost before = out@;
    let encoded = value.as_bytes();
    out.push(encoded.len() as u8);
    bytes::push_bytes(out, encoded);
    assert(out@ =~= before + text8_bytes(value@));
}

pub(crate) fn put_string16(out: &mut Vec<u8>, value: &str)
    ensures
        final(out)@ == old(out)@ + text16_bytes(value@),
{
    let ghost before = out@;
    let encoded = value.as_bytes();
    bytes::push_be16(out, encoded.len() as u16);
    bytes::push_bytes(out, encoded);
    assert(out@ =~= before + text16_bytes(value@));
}

pub(crate) fn write_u8_list(out: &mut Vec<u8>, values: &[u8])
    ensures
        final(out)@ == old(out)@ + u8_list_bytes(values@),
{
    let ghost before = out@;
    out.push(values.len() as u8);
    bytes::push_bytes(out, values);
    assert(out@ =~= before + u8_list_bytes(values@));
}

pub(crate) fn write_u16_list(out: &mut Vec<u8>, values: &[u16])
    ensures
        final(out)@ == old(out)@ + u16_list_bytes(values@),
{
    let ghost start = out@;
    out.push(values.len() as u8);
    let ghost before = out@;
    let mut i: usize = 0;
    assert(out@ =~= before + u16s_bytes(values@.take(0)));
    while i < values.len()
        invariant
            i <= values@.len(),
            out@ == before + u16s_bytes(values@.take(i as int)),
        decreases values@.len() - i,
    {
        assert(values@.take(i + 1).drop_last() =~= values@.take(i as int));
        bytes::push_be16(out, values[i]);
        i = i + 1;
        assert(out@ =~= before + u16s_bytes(values@.take(i as int)));
    }
    assert(values@.take(i as int) =~= values@);
    assert(out@ =~= start + u16_list_bytes(values@));
}

pub(crate) fn write_u24s(out: &mut Vec<u8>, values: &[u32])
    ensures
        final(out)@ == old(out)@ + u24s_bytes(values@),
{
    let ghost before = out@;
    let mut i: usize = 0;
    assert(out@ =~= before + u24s_bytes(values@.take(0)));
    while i < values.len()
        invariant
            i <= values@.len(),
            out@ == before + u24s_bytes(values@.take(i as int)),
        decreases values@.len() - i,
    {
        assert(values@.take(i + 1).drop_last() =~= values@.take(i as int));
        bytes::push_be24(out, values[i]);
        i = i + 1;
        assert(out@ =~= before + u24s_bytes(values@.take(i as int)));
    }
    assert(values@.take(i as int) =~= values@);
}

pub(crate) fn write_u32_list(out: &mut Vec<u8>, values: &[u32])
    ensures
        final(out)@ == old(out)@ + u32_list_bytes(values@),
{
    let ghost start = out@;
    out.push(values.len() as u8);
    let ghost before = out@;
    let mut i: usize = 0;
    assert(out@ =~= before + u32s_bytes(values@.take(0)));
    while i < values.len()
        invariant
            i <= values@.len(),
            out@ == before + u32s_bytes(values@.take(i as int)),
        decreases values@.len() - i,
    {
        assert(values@.take(i + 1).drop_last() =~= values@.take(i as int));
        bytes::push_be32(out, values[i]);
        i = i + 1;
        assert(out@ =~= before + u32s_bytes(values@.take(i as int)));
    }
    assert(values@.take(i as int) =~= values@);
    assert(out@ =~= start + u32_list_bytes(values@));
}

pub(crate) fn write_texts(out: &mut Vec<u8>, values: &[String])
    ensures
        final(out)@ == old(out)@ + texts_bytes(models::seq_views(values@)),
{
    let ghost before = out@;
    let ghost all = models::seq_views(values@);
    let mut i: usize = 0;
    assert(out@ =~= before + texts_bytes(all.take(0)));
    while i < values.len()
        invariant
            i <= values@.len(),
            out@ == before + texts_bytes(all.take(i as int)),
        decreases values@.len() - i,
    {
        assert(all.take(i + 1).drop_last() =~= all.take(i as int));
        put_string16(out, values[i].as_str());
        i = i + 1;
        assert(out@ =~= before + texts_bytes(all.take(i as int)));
    }
    assert(all.take(i as int) =~= all);
}

} // verus!
