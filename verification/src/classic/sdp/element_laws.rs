//! Serialized data elements are read back.

use vstd::prelude::*;
use vstd::utf8;
use crate::bytes;
use crate::classic::sdp::element;
use crate::classic::sdp::element::{ElementModel, MAX_DATA_ELEMENT_NESTING};

verus! {

/// Whether an element has a wire form that says all of it: integers of a
/// proper width that hold their value, and contents whose length fits the
/// 32-bit length field.
pub open spec fn well_formed(e: ElementModel) -> bool
    decreases e,
{
    match e {
        ElementModel::UnsignedInteger(v, size) => element::integer_width(size as int) && v
            < element::power_256(size as nat),
        ElementModel::SignedInteger(v, size) => element::integer_width(size as int) && -(
        0x80 * element::power_256((size - 1) as nat)) <= v < 0x80 * element::power_256(
            (size - 1) as nat,
        ),
        ElementModel::TextString(s) => s.len() <= u32::MAX,
        ElementModel::Url(s) => utf8::encode_utf8(s).len() <= u32::MAX,
        ElementModel::Sequence(items) => all_well_formed(items) && element::encode_all(items).len()
            <= u32::MAX,
        ElementModel::Alternative(items) => all_well_formed(items) && element::encode_all(
            items,
        ).len() <= u32::MAX,
        _ => true,
    }
}

/// Whether every element has a wire form that says all of it.
pub open spec fn all_well_formed(items: Seq<ElementModel>) -> bool
    decreases items,
{
    forall|i: int| 0 <= i < items.len() ==> well_formed(#[trigger] items[i])
}

/// How deep sequences and alternatives nest in an element.
pub open spec fn nesting(e: ElementModel) -> nat
    decreases e,
{
    match e {
        ElementModel::Sequence(items) => 1 + nesting_all(items),
        ElementModel::Alternative(items) => 1 + nesting_all(items),
        _ => 0,
    }
}

/// How deep sequences and alternatives nest in a list of elements.
pub open spec fn nesting_all(items: Seq<ElementModel>) -> nat
    decreases items,
{
    if items.len() == 0 {
        0
    } else if nesting_all(items.drop_last()) >= nesting(items.last()) {
        nesting_all(items.drop_last())
    } else {
        nesting(items.last())
    }
}

proof fn lemma_nesting_all(items: Seq<ElementModel>, i: int)
    requires
        0 <= i < items.len(),
    ensures
        nesting(items[i]) <= nesting_all(items),
    decreases items.len(),
{
    if i < items.len() - 1 {
        lemma_nesting_all(items.drop_last(), i);
        assert(items.drop_last()[i] == items[i]);
    }
}

proof fn lemma_nesting_skip(items: Seq<ElementModel>)
    requires
        items.len() > 0,
    ensures
        nesting_all(items.skip(1)) <= nesting_all(items),
    decreases items.len(),
{
    if items.len() > 1 {
        assert(items.skip(1).drop_last() =~= items.drop_last().skip(1));
        assert(items.skip(1).last() == items.last());
        lemma_nesting_skip(items.drop_last());
    } else {
        assert(items.skip(1) =~= seq![]);
    }
}

/// The wire forms of elements start with the wire form of the first one.
proof fn lemma_encode_all_front(items: Seq<ElementModel>)
    requires
        items.len() > 0,
    ensures
        element::encode_all(items) == element::encode(items[0]) + element::encode_all(
            items.skip(1),
        ),
    decreases items.len(),
{
    if items.len() == 1 {
        assert(items.drop_last() =~= seq![]);
        assert(items.skip(1) =~= seq![]);
        assert(element::encode_all(items) =~= element::encode(items[0]) + element::encode_all(
            items.skip(1),
        ));
    } else {
        lemma_encode_all_front(items.drop_last());
        assert(items.skip(1).drop_last() =~= items.drop_last().skip(1));
        assert(items.skip(1).last() == items.last());
        assert(items.drop_last()[0] == items[0]);
        assert(element::encode_all(items) =~= element::encode(items[0]) + element::encode_all(
            items.skip(1),
        ));
    }
}

proof fn lemma_descriptor(code: u8, index: u8)
    by (bit_vector)
    requires
        code < 32,
        index < 8,
    ensures
        ((code << 3) | index) >> 3 == code,
        ((code << 3) | index) & 0x07 == index,
        (code << 3) >> 3 == code,
        (code << 3) & 0x07 == 0,
{
}

pub proof fn lemma_low_bytes(v: nat, n: nat)
    ensures
        element::low_bytes(v, n).len() == n,
        v < element::power_256(n) ==> element::unsigned_of(element::low_bytes(v, n)) == v,
    decreases n,
{
    if n > 0 {
        lemma_low_bytes(v / 0x100, (n - 1) as nat);
        let s = element::low_bytes(v, n);
        assert(s.drop_last() =~= element::low_bytes(v / 0x100, (n - 1) as nat));
    }
}

/// Only the value below the width matters to the low bytes.
proof fn lemma_low_bytes_shift(a: nat, k: nat, n: nat)
    ensures
        element::low_bytes(a + k * element::power_256(n), n) == element::low_bytes(a, n),
    decreases n,
{
    if n > 0 {
        let q = element::power_256((n - 1) as nat);
        let shifted = a + k * element::power_256(n);
        assert(k * (0x100 * q) == 0x100 * (k * q)) by (nonlinear_arith);
        assert(shifted == a + 0x100 * (k * q));
        assert(shifted / 0x100 == a / 0x100 + k * q);
        assert(shifted % 0x100 == a % 0x100);
        lemma_low_bytes_shift(a / 0x100, k, (n - 1) as nat);
    }
}

/// A signed integer is read back from the low bytes of its two's complement.
proof fn lemma_signed_low_bytes(v: i64, n: nat)
    requires
        element::integer_width(n as int),
        -(0x80 * element::power_256((n - 1) as nat)) <= v < 0x80 * element::power_256(
            (n - 1) as nat,
        ),
    ensures
        element::low_bytes(element::two_complement(v), n).len() == n,
        element::signed_of(element::low_bytes(element::two_complement(v), n)) == v,
{
    let q = element::power_256((n - 1) as nat);
    let p = element::power_256(n);
    assert(p == 0x100 * q);
    reveal_with_fuel(element::power_256, 10);
    let w: nat = if v < 0 {
        (v + p) as nat
    } else {
        v as nat
    };
    if v < 0 {
        let k: nat = if n == 1 {
            0xFF_FFFF_FFFF_FFFF
        } else if n == 2 {
            0xFFFF_FFFF_FFFF
        } else if n == 4 {
            0xFFFF_FFFF
        } else {
            0
        };
        assert(element::two_complement(v) == w + k * p) by {
            assert(n == 1 ==> p == 0x100);
            assert(n == 2 ==> p == 0x1_0000);
            assert(n == 4 ==> p == 0x1_0000_0000);
            assert(n == 8 ==> p == 0x1_0000_0000_0000_0000);
        }
        lemma_low_bytes_shift(w, k, n);
    }
    let s = element::low_bytes(w, n);
    lemma_low_bytes(w, n);
    element::lemma_unsigned_of_first(s);
    let first = s[0] as int;
    if v < 0 {
        assert(first >= 0x80) by {
            if first < 0x80 {
                assert((first + 1) * q <= 0x80 * q) by (nonlinear_arith)
                    requires
                        first + 1 <= 0x80,
                        q >= 0,
                ;
            }
        }
    } else {
        assert(first < 0x80) by {
            if first >= 0x80 {
                assert(first * q >= 0x80 * q) by (nonlinear_arith)
                    requires
                        first >= 0x80,
                        q >= 0,
                ;
            }
        }
    }
}

/// What ends a wire form stands at the end of its place in the data.
proof fn lemma_wire_tail(wire: Seq<u8>, body: Seq<u8>, data: Seq<u8>, at: int)
    requires
        0 <= at,
        at + wire.len() <= data.len(),
        body.len() <= wire.len(),
        wire.skip(wire.len() - body.len()) == body,
        forall|i: int| 0 <= i < wire.len() ==> data[at + i] == #[trigger] wire[i],
    ensures
        data.subrange(at + wire.len() - body.len(), at + wire.len()) == body,
{
    let h = wire.len() - body.len();
    assert forall|i: int| 0 <= i < body.len() implies data.subrange(
        at + h,
        at + wire.len(),
    )[i] == #[trigger] body[i] by {
        assert(wire.skip(h)[i] == wire[h + i]);
    }
    assert(data.subrange(at + h, at + wire.len()) =~= body);
}

/// A serialized element is read back wherever it stands in the data.
proof fn lemma_parse_encoded(e: ElementModel, data: Seq<u8>, at: int, depth: int)
    requires
        well_formed(e),
        0 <= depth,
        depth + nesting(e) <= MAX_DATA_ELEMENT_NESTING,
        0 <= at,
        at + element::encode(e).len() <= data.len(),
        data.subrange(at, at + element::encode(e).len()) == element::encode(e),
    ensures
        element::parse_at(data, at, depth) == Some((e, at + element::encode(e).len())),
    decreases e, 1int,
{
    let wire = element::encode(e);
    let n = wire.len() as int;
    let code: u8 = e.type_code();
    assert(wire.len() > 0);
    assert forall|i: int| 0 <= i < n implies data[at + i] == #[trigger] wire[i] by {
        assert(data.subrange(at, at + n)[i] == wire[i]);
    }
    match e {
        ElementModel::Nil => {
            lemma_descriptor(code, 0);
            assert(data[at + 0] == wire[0]);
        },
        ElementModel::Boolean(b) => {
            lemma_descriptor(code, 0);
            assert(data[at + 0] == wire[0]);
            assert(data[at + 1] == wire[1]);
        },
        ElementModel::UnsignedInteger(v, size) => {
            lemma_descriptor(code, element::size_index(size as int));
            lemma_low_bytes(v as nat, size as nat);
            assert(data[at + 0] == wire[0]);
            let body = element::low_bytes(v as nat, size as nat);
            assert(wire.skip(1) =~= body);
            lemma_wire_tail(wire, body, data, at);
        },
        ElementModel::SignedInteger(v, size) => {
            lemma_descriptor(code, element::size_index(size as int));
            lemma_signed_low_bytes(v, size as nat);
            assert(data[at + 0] == wire[0]);
            let body = element::low_bytes(element::two_complement(v), size as nat);
            assert(wire.skip(1) =~= body);
            lemma_wire_tail(wire, body, data, at);
        },
        ElementModel::Uuid(u) => {
            let len = u.wire().len() as int;
            lemma_descriptor(code, element::size_index(len));
            assert(data[at + 0] == wire[0]);
            assert(wire.skip(1) =~= u.wire());
            lemma_wire_tail(wire, u.wire(), data, at);
            element::lemma_uuid_of(u.wire(), u);
        },
        ElementModel::TextString(s) => {
            lemma_variable(code, s, wire, data, at);
        },
        ElementModel::Url(s) => {
            lemma_variable(code, utf8::encode_utf8(s), wire, data, at);
            utf8::encode_utf8_valid_utf8(s);
            utf8::encode_utf8_decode_utf8(s);
        },
        ElementModel::Sequence(items) => {
            let body = element::encode_all(items);
            lemma_variable(code, body, wire, data, at);
            lemma_parse_encoded_all(items, data, at + n - body.len(), depth);
        },
        ElementModel::Alternative(items) => {
            let body = element::encode_all(items);
            lemma_variable(code, body, wire, data, at);
            lemma_parse_encoded_all(items, data, at + n - body.len(), depth);
        },
    }
}

/// The header of a value of variable size leads to the value.
proof fn lemma_variable(code: u8, body: Seq<u8>, wire: Seq<u8>, data: Seq<u8>, at: int)
    requires
        code < 32,
        code != 0,
        body.len() <= u32::MAX,
        wire == element::variable_header(code, body.len()) + body,
        0 <= at,
        at + wire.len() <= data.len(),
        forall|i: int| 0 <= i < wire.len() ==> data[at + i] == #[trigger] wire[i],
    ensures
        data[at] >> 3 == code,
        element::value_extent(data, at) == Some(
            (at + wire.len() - body.len(), body.len() as int),
        ),
        data.subrange(at + wire.len() - body.len(), at + wire.len() as int) == body,
{
    let h = (wire.len() - body.len()) as int;
    lemma_descriptor(code, 5);
    lemma_descriptor(code, 6);
    lemma_descriptor(code, 7);
    assert(data[at + 0] == wire[0]);
    assert(data[at + 1] == wire[1]);
    if body.len() > 0xFF && body.len() <= 0xFFFF {
        bytes::lemma_be16_round_trip(body.len() as u16);
        assert(data[at + 2] == wire[2]);
    } else if body.len() > 0xFFFF {
        bytes::lemma_be32_round_trip(body.len() as u32);
        assert(data[at + 2] == wire[2]);
        assert(data[at + 3] == wire[3]);
        assert(data[at + 4] == wire[4]);
    }
    assert(wire.skip(h) =~= body);
    lemma_wire_tail(wire, body, data, at);
}

/// Serialized elements are read back one after another.
proof fn lemma_parse_encoded_all(items: Seq<ElementModel>, data: Seq<u8>, at: int, depth: int)
    requires
        all_well_formed(items),
        0 <= depth < MAX_DATA_ELEMENT_NESTING,
        depth + 1 + nesting_all(items) <= MAX_DATA_ELEMENT_NESTING,
        0 <= at,
        at + element::encode_all(items).len() <= data.len(),
        data.subrange(at, at + element::encode_all(items).len()) == element::encode_all(items),
    ensures
        element::parse_items(data, at, at + element::encode_all(items).len(), depth) == Some(items),
    decreases items, 0int,
{
    let end = at + element::encode_all(items).len();
    if items.len() == 0 {
        assert(items =~= seq![]);
    } else {
        lemma_encode_all_front(items);
        let first = items[0];
        let rest = items.skip(1);
        let n = element::encode(first).len() as int;
        assert(well_formed(items[0]));
        assert(data.subrange(at, at + n) =~= data.subrange(at, end).take(n));
        assert(element::encode_all(items).take(n) =~= element::encode(first));
        lemma_nesting_all(items, 0);
        lemma_nesting_skip(items);
        assert(decreases_to!(items => items[0]));
        lemma_parse_encoded(first, data, at, depth + 1);
        element::lemma_parse_at_advances(data, at, depth + 1);
        assert(data.subrange(at + n, end) =~= data.subrange(at, end).skip(n));
        assert(element::encode_all(items).skip(n) =~= element::encode_all(rest));
        assert(all_well_formed(rest)) by {
            assert forall|i: int| 0 <= i < rest.len() implies well_formed(#[trigger] rest[i]) by {
                assert(well_formed(items[i + 1]));
            }
        }
        lemma_parse_encoded_all(rest, data, at + n, depth);
        assert(seq![first] + rest =~= items);
    }
}

/// A serialized element is read back, whatever follows it, and takes exactly
/// its own bytes. The integers have a proper width and fit it, lengths fit
/// 32 bits, and nesting stays within the limit.
pub proof fn law_element_round_trip(e: ElementModel, suffix: Seq<u8>)
    requires
        well_formed(e),
        nesting(e) <= MAX_DATA_ELEMENT_NESTING,
    ensures
        element::element_of(element::encode(e) + suffix) == Some(
            (e, element::encode(e).len() as int),
        ),
{
    reveal(element::element_of);
    let data = element::encode(e) + suffix;
    assert(data.subrange(0, element::encode(e).len() as int) =~= element::encode(e));
    lemma_parse_encoded(e, data, 0, 0);
}

/// What has a wire form that says all of it can be serialized.
pub proof fn lemma_well_formed_encodable(e: ElementModel)
    requires
        well_formed(e),
    ensures
        e.encodable(),
    decreases e,
{
    match e {
        ElementModel::Sequence(items) => {
            assert forall|i: int| 0 <= i < items.len() implies (#[trigger] items[i]).encodable() by {
                lemma_well_formed_encodable(items[i]);
            }
        },
        ElementModel::Alternative(items) => {
            assert forall|i: int| 0 <= i < items.len() implies (#[trigger] items[i]).encodable() by {
                lemma_well_formed_encodable(items[i]);
            }
        },
        _ => {},
    }
}

} // verus!
