//! Data elements: the self-describing type, length and value encoding of SDP.

use vstd::prelude::*;
use vstd::utf8;
use crate::bytes;
use crate::models;
use crate::text;

verus! {

/// Data elements nest; deeper nesting than this is refused, so that a peer
/// cannot exhaust the stack.
pub const MAX_DATA_ELEMENT_NESTING: u32 = 32;

// ---------------------------------------------------------------------------
// UUIDs
// ---------------------------------------------------------------------------

/// A Bluetooth UUID as carried in a data element, which additionally allows a
/// 32-bit form.
#[derive(Debug, Clone, Copy, PartialEq, Eq, Hash)]
pub enum SdpUuid {
    /// 16-bit UUID.
    Uuid16(u16),
    /// 32-bit UUID.
    Uuid32(u32),
    /// 128-bit UUID, stored big-endian, as the wire carries it.
    Uuid128([u8; 16]),
}

impl SdpUuid {
    /// L2CAP protocol UUID, used in protocol descriptor lists.
    pub const BT_L2CAP_PROTOCOL_ID: u16 = 0x0100;

    /// RFCOMM protocol UUID.
    pub const BT_RFCOMM_PROTOCOL_ID: u16 = 0x0003;

    /// PublicBrowseRoot UUID.
    pub const SDP_PUBLIC_BROWSE_ROOT: u16 = 0x1002;

    /// The bytes of this UUID on the wire.
    pub open spec fn wire(self) -> Seq<u8> {
        match self {
            SdpUuid::Uuid16(v) => bytes::be16_bytes(v),
            SdpUuid::Uuid32(v) => bytes::be32_bytes(v),
            SdpUuid::Uuid128(b) => b@,
        }
    }

    /// Whether two UUIDs have the same form and value.
    pub fn same(self, other: SdpUuid) -> (r: bool)
        ensures
            r == (self == other),
    {
        match (self, other) {
            (SdpUuid::Uuid16(a), SdpUuid::Uuid16(b)) => a == b,
            (SdpUuid::Uuid32(a), SdpUuid::Uuid32(b)) => a == b,
            (SdpUuid::Uuid128(a), SdpUuid::Uuid128(b)) => {
                let r = bytes::same_bytes(a.as_slice(), b.as_slice());
                proof {
                    if a@ == b@ {
                        assert(a =~= b);
                    }
                }
                r
            },
            _ => false,
        }
    }

    fn to_wire_bytes(self) -> (r: Vec<u8>)
        ensures
            r@ == self.wire(),
    {
        let mut out: Vec<u8> = Vec::new();
        match self {
            SdpUuid::Uuid16(v) => {
                bytes::push_be16(&mut out, v);
                assert(out@ =~= self.wire());
            },
            SdpUuid::Uuid32(v) => {
                bytes::push_be32(&mut out, v);
                assert(out@ =~= self.wire());
            },
            SdpUuid::Uuid128(b) => {
                bytes::push_bytes(&mut out, b.as_slice());
                assert(out@ =~= self.wire());
            },
        }
        out
    }

    fn from_wire_bytes(data: &[u8]) -> (r: Option<Self>)
        ensures
            match r {
                Some(uuid) => uuid_of(data@) == Some(uuid),
                None => uuid_of(data@) is None,
            },
    {
        if data.len() == 2 {
            Some(SdpUuid::Uuid16(bytes::read_be16(data, 0)))
        } else if data.len() == 4 {
            Some(SdpUuid::Uuid32(bytes::read_be32(data, 0)))
        } else if data.len() == 16 {
            let b: [u8; 16] = [
                data[0],
                data[1],
                data[2],
                data[3],
                data[4],
                data[5],
                data[6],
                data[7],
                data[8],
                data[9],
                data[10],
                data[11],
                data[12],
                data[13],
                data[14],
                data[15],
            ];
            let uuid = SdpUuid::Uuid128(b);
            proof {
                assert(b@ =~= data@);
                lemma_uuid_of(data@, uuid);
            }
            Some(uuid)
        } else {
            None
        }
    }
}

impl From<crate::types::Uuid> for SdpUuid {
    fn from(uuid: crate::types::Uuid) -> (r: Self) {
        match uuid {
            crate::types::Uuid::Uuid16(v) => SdpUuid::Uuid16(v),
            crate::types::Uuid::Uuid128(b) => SdpUuid::Uuid128(b),
        }
    }
}

impl vstd::std_specs::convert::FromSpecImpl<crate::types::Uuid> for SdpUuid {
    open spec fn obeys_from_spec() -> bool {
        true
    }

    open spec fn from_spec(uuid: crate::types::Uuid) -> Self {
        match uuid {
            crate::types::Uuid::Uuid16(v) => SdpUuid::Uuid16(v),
            crate::types::Uuid::Uuid128(b) => SdpUuid::Uuid128(b),
        }
    }
}

/// The UUID that wire bytes stand for: the one whose wire form they are.
pub open spec fn uuid_of(data: Seq<u8>) -> Option<SdpUuid> {
    if data.len() == 2 {
        Some(SdpUuid::Uuid16(bytes::be16(data, 0)))
    } else if data.len() == 4 {
        Some(SdpUuid::Uuid32(bytes::be32(data, 0)))
    } else if data.len() == 16 {
        Some(choose|u: SdpUuid| #[trigger] u.wire() == data && u is Uuid128)
    } else {
        None
    }
}

/// Wire bytes stand for no other UUID than the one they are the wire form of.
pub proof fn lemma_uuid_of(data: Seq<u8>, uuid: SdpUuid)
    requires
        uuid.wire() == data,
    ensures
        uuid_of(data) == Some(uuid),
{
    match uuid {
        SdpUuid::Uuid16(v) => {
            bytes::lemma_be16_round_trip(v);
        },
        SdpUuid::Uuid32(v) => {
            bytes::lemma_be32_round_trip(v);
        },
        SdpUuid::Uuid128(b) => {
            let chosen = choose|u: SdpUuid| #[trigger] u.wire() == data && u is Uuid128;
            assert(uuid.wire() == data && uuid is Uuid128);
            assert(chosen.wire() == data && chosen is Uuid128);
            let c = chosen->Uuid128_0;
            assert forall|i: int| 0 <= i < 16 implies b[i] == c[i] by {
                assert(b@.reverse()[15 - i] == c@.reverse()[15 - i]);
            }
            assert(b =~= c);
        },
    }
}

// ---------------------------------------------------------------------------
// Data elements
// ---------------------------------------------------------------------------

/// A data element.
#[derive(Debug, PartialEq)]
pub enum DataElement {
    /// No value.
    Nil,
    /// `(value, size in bytes)`; the size is one of 1, 2, 4 and 8.
    UnsignedInteger(u64, u8),
    /// `(value, size in bytes)`; the size is one of 1, 2, 4 and 8.
    SignedInteger(i64, u8),
    /// A UUID.
    Uuid(SdpUuid),
    /// A text string, as raw bytes.
    TextString(Vec<u8>),
    /// A boolean.
    Boolean(bool),
    /// An ordered sequence of elements.
    Sequence(Vec<DataElement>),
    /// A set of alternative elements.
    Alternative(Vec<DataElement>),
    /// A URL.
    Url(String),
}

/// The model of a [`DataElement`].
#[verifier::ext_equal]
pub enum ElementModel {
    Nil,
    UnsignedInteger(u64, u8),
    SignedInteger(i64, u8),
    Uuid(SdpUuid),
    TextString(Seq<u8>),
    Boolean(bool),
    Sequence(Seq<ElementModel>),
    Alternative(Seq<ElementModel>),
    Url(Seq<char>),
}

impl DataElement {
    /// The model of this element.
    pub open spec fn model(self) -> ElementModel
        decreases self,
    {
        match self {
            DataElement::Nil => ElementModel::Nil,
            DataElement::UnsignedInteger(v, size) => ElementModel::UnsignedInteger(v, size),
            DataElement::SignedInteger(v, size) => ElementModel::SignedInteger(v, size),
            DataElement::Uuid(u) => ElementModel::Uuid(u),
            DataElement::TextString(s) => ElementModel::TextString(s@),
            DataElement::Boolean(b) => ElementModel::Boolean(b),
            DataElement::Sequence(items) => ElementModel::Sequence(
                Seq::new(
                    items@.len(),
                    |i: int|
                        if 0 <= i < items@.len() {
                            items@[i].model()
                        } else {
                            ElementModel::Nil
                        },
                ),
            ),
            DataElement::Alternative(items) => ElementModel::Alternative(
                Seq::new(
                    items@.len(),
                    |i: int|
                        if 0 <= i < items@.len() {
                            items@[i].model()
                        } else {
                            ElementModel::Nil
                        },
                ),
            ),
            DataElement::Url(s) => ElementModel::Url(s@),
        }
    }
}

impl View for DataElement {
    type V = ElementModel;

    open spec fn view(&self) -> ElementModel {
        self.model()
    }
}

/// The model of a list of elements is the list of the models.
pub proof fn lemma_element_lists(items: Vec<DataElement>)
    ensures
        DataElement::Sequence(items)@ == ElementModel::Sequence(models::seq_views(items@)),
        DataElement::Alternative(items)@ == ElementModel::Alternative(models::seq_views(items@)),
{
    assert(DataElement::Sequence(items)@->Sequence_0 =~= models::seq_views(items@));
    assert(DataElement::Alternative(items)@->Alternative_0 =~= models::seq_views(items@));
}

impl ElementModel {
    /// The elements of a sequence.
    pub open spec fn sequence(self) -> Option<Seq<ElementModel>> {
        match self {
            ElementModel::Sequence(items) => Some(items),
            _ => None,
        }
    }

    /// The UUID of a UUID element.
    pub open spec fn uuid(self) -> Option<SdpUuid> {
        match self {
            ElementModel::Uuid(u) => Some(u),
            _ => None,
        }
    }

    /// Value and size of an unsigned integer.
    pub open spec fn unsigned(self) -> Option<(u64, u8)> {
        match self {
            ElementModel::UnsignedInteger(v, size) => Some((v, size)),
            _ => None,
        }
    }

    /// The type code of this element.
    pub open spec fn type_code(self) -> u8 {
        match self {
            ElementModel::Nil => 0,
            ElementModel::UnsignedInteger(..) => 1,
            ElementModel::SignedInteger(..) => 2,
            ElementModel::Uuid(..) => 3,
            ElementModel::TextString(..) => 4,
            ElementModel::Boolean(..) => 5,
            ElementModel::Sequence(..) => 6,
            ElementModel::Alternative(..) => 7,
            ElementModel::Url(..) => 8,
        }
    }

    /// Whether every integer in this element is at most eight bytes wide, as
    /// serializing it takes.
    pub open spec fn encodable(self) -> bool
        decreases self,
    {
        match self {
            ElementModel::UnsignedInteger(_, size) => size <= 8,
            ElementModel::SignedInteger(_, size) => size <= 8,
            ElementModel::Sequence(items) => all_encodable(items),
            ElementModel::Alternative(items) => all_encodable(items),
            _ => true,
        }
    }
}

/// Whether every integer in the elements is at most eight bytes wide.
pub open spec fn all_encodable(items: Seq<ElementModel>) -> bool
    decreases items,
{
    forall|i: int| 0 <= i < items.len() ==> (#[trigger] items[i]).encodable()
}

/// The size index of a fixed-size value.
pub open spec fn size_index(size: int) -> u8 {
    if size == 2 {
        1
    } else if size == 4 {
        2
    } else if size == 8 {
        3
    } else if size == 16 {
        4
    } else {
        0
    }
}

/// The header of a value of variable size: type code, width of the length
/// field, and length.
pub open spec fn variable_header(type_code: u8, size: nat) -> Seq<u8> {
    if size <= 0xFF {
        seq![(type_code << 3) | 5, size as u8]
    } else if size <= 0xFFFF {
        seq![(type_code << 3) | 6] + bytes::be16_bytes(size as u16)
    } else {
        seq![(type_code << 3) | 7] + bytes::be32_bytes(size as u32)
    }
}

/// The low `n` bytes of an integer, big-endian.
pub open spec fn low_bytes(v: nat, n: nat) -> Seq<u8>
    decreases n,
{
    if n == 0 {
        seq![]
    } else {
        low_bytes(v / 0x100, (n - 1) as nat).push((v % 0x100) as u8)
    }
}

/// The unsigned integer that big-endian bytes denote.
pub open spec fn unsigned_of(s: Seq<u8>) -> nat
    decreases s.len(),
{
    if s.len() == 0 {
        0
    } else {
        unsigned_of(s.drop_last()) * 0x100 + s.last() as nat
    }
}

/// 256 to the power of `n`.
pub open spec fn power_256(n: nat) -> nat
    decreases n,
{
    if n == 0 {
        1
    } else {
        0x100 * power_256((n - 1) as nat)
    }
}

/// A signed 64-bit integer as the unsigned integer with the same bits.
pub open spec fn two_complement(v: i64) -> nat {
    if v < 0 {
        (v + 0x1_0000_0000_0000_0000) as nat
    } else {
        v as nat
    }
}

/// The signed integer that big-endian two's complement bytes denote.
pub open spec fn signed_of(s: Seq<u8>) -> int {
    if s.len() > 0 && s[0] >= 0x80 {
        unsigned_of(s) - power_256(s.len())
    } else {
        unsigned_of(s) as int
    }
}

/// The wire form of an element.
pub open spec fn encode(e: ElementModel) -> Seq<u8>
    decreases e,
{
    let code: u8 = e.type_code();
    match e {
        ElementModel::Nil => seq![code << 3],
        ElementModel::UnsignedInteger(v, size) => seq![(code << 3) | size_index(size as int)]
            + low_bytes(v as nat, size as nat),
        ElementModel::SignedInteger(v, size) => seq![(code << 3) | size_index(size as int)]
            + low_bytes(two_complement(v), size as nat),
        ElementModel::Uuid(u) => seq![(code << 3) | size_index(u.wire().len() as int)] + u.wire(),
        ElementModel::Boolean(b) => seq![
            code << 3,
            if b {
                1u8
            } else {
                0u8
            },
        ],
        ElementModel::TextString(s) => variable_header(code, s.len()) + s,
        ElementModel::Url(s) => variable_header(code, utf8::encode_utf8(s).len())
            + utf8::encode_utf8(s),
        ElementModel::Sequence(items) => variable_header(code, encode_all(items).len())
            + encode_all(items),
        ElementModel::Alternative(items) => variable_header(code, encode_all(items).len())
            + encode_all(items),
    }
}

/// The wire forms of elements, one after another.
pub open spec fn encode_all(items: Seq<ElementModel>) -> Seq<u8>
    decreases items,
{
    if items.len() == 0 {
        seq![]
    } else {
        encode_all(items.drop_last()) + encode(items.last())
    }
}

fn push_low_bytes(out: &mut Vec<u8>, v: u64, n: u8)
    requires
        n <= 8,
    ensures
        final(out)@ == old(out)@ + low_bytes(v as nat, n as nat),
    decreases n,
{
    let ghost before = out@;
    if n > 0 {
        push_low_bytes(out, v / 0x100, n - 1);
        out.push((v % 0x100) as u8);
    }
    assert(out@ =~= before + low_bytes(v as nat, n as nat));
}

fn push_variable_header(out: &mut Vec<u8>, type_code: u8, size: usize)
    ensures
        final(out)@ == old(out)@ + variable_header(type_code, size as nat),
{
    let ghost before = out@;
    if size <= 0xFF {
        out.push((type_code << 3) | 5);
        out.push(size as u8);
    } else if size <= 0xFFFF {
        out.push((type_code << 3) | 6);
        bytes::push_be16(out, size as u16);
    } else {
        out.push((type_code << 3) | 7);
        bytes::push_be32(out, size as u32);
    }
    assert(out@ =~= before + variable_header(type_code, size as nat));
}

fn push_variable(out: &mut Vec<u8>, type_code: u8, data: &[u8])
    ensures
        final(out)@ == old(out)@ + (variable_header(type_code, data@.len()) + data@),
{
    let ghost before = out@;
    push_variable_header(out, type_code, data.len());
    bytes::push_bytes(out, data);
    assert(out@ =~= before + (variable_header(type_code, data@.len()) + data@));
}

fn size_index_fixed(size: usize) -> (r: u8)
    ensures
        r == size_index(size as int),
{
    match size {
        2 => 1,
        4 => 2,
        8 => 3,
        16 => 4,
        _ => 0,
    }
}

/// The unsigned integer with the same bits as `v`.
fn as_two_complement(v: i64) -> (r: u64)
    ensures
        r == two_complement(v),
{
    if v >= 0 {
        v as u64
    } else {
        u64::MAX - ((-(v + 1)) as u64)
    }
}

impl DataElement {
    fn duplicate(&self) -> (r: DataElement)
        ensures
            r@ == self@,
        decreases self, 1int,
    {
        match self {
            DataElement::Nil => DataElement::Nil,
            DataElement::UnsignedInteger(v, size) => DataElement::UnsignedInteger(*v, *size),
            DataElement::SignedInteger(v, size) => DataElement::SignedInteger(*v, *size),
            DataElement::Uuid(u) => DataElement::Uuid(*u),
            DataElement::TextString(s) => DataElement::TextString(bytes::copy(s)),
            DataElement::Boolean(b) => DataElement::Boolean(*b),
            DataElement::Sequence(items) => {
                let out = Self::duplicate_all(items);
                proof {
                    lemma_element_lists(out);
                    lemma_element_lists(*items);
                }
                DataElement::Sequence(out)
            },
            DataElement::Alternative(items) => {
                let out = Self::duplicate_all(items);
                proof {
                    lemma_element_lists(out);
                    lemma_element_lists(*items);
                }
                DataElement::Alternative(out)
            },
            DataElement::Url(s) => DataElement::Url(s.clone()),
        }
    }

    fn duplicate_all(items: &Vec<DataElement>) -> (r: Vec<DataElement>)
        ensures
            models::seq_views(r@) == models::seq_views(items@),
        decreases items, 0int,
    {
        let mut out: Vec<DataElement> = Vec::new();
        let mut i: usize = 0;
        while i < items.len()
            invariant
                i <= items@.len(),
                out@.len() == i,
                forall|j: int| 0 <= j < i ==> out@[j]@ == (#[trigger] items@[j])@,
            decreases items@.len() - i,
        {
            proof {
                assert(decreases_to!(*items => items@));
                assert(decreases_to!(items@ => items@[i as int]));
            }
            out.push(items[i].duplicate());
            i = i + 1;
        }
        assert(models::seq_views(out@) =~= models::seq_views(items@));
        out
    }

    /// No value.
    pub fn nil() -> (r: Self)
        ensures
            r@ == ElementModel::Nil,
    {
        DataElement::Nil
    }

    /// An unsigned integer of `size` bytes.
    pub fn unsigned_integer(value: u64, size: u8) -> (r: Self)
        ensures
            r@ == ElementModel::UnsignedInteger(value, size),
    {
        DataElement::UnsignedInteger(value, size)
    }

    /// A 1-byte unsigned integer.
    pub fn unsigned_integer_8(value: u8) -> (r: Self)
        ensures
            r@ == ElementModel::UnsignedInteger(value as u64, 1),
    {
        Self::unsigned_integer(value as u64, 1)
    }

    /// A 2-byte unsigned integer.
    pub fn unsigned_integer_16(value: u16) -> (r: Self)
        ensures
            r@ == ElementModel::UnsignedInteger(value as u64, 2),
    {
        Self::unsigned_integer(value as u64, 2)
    }

    /// A 4-byte unsigned integer.
    pub fn unsigned_integer_32(value: u32) -> (r: Self)
        ensures
            r@ == ElementModel::UnsignedInteger(value as u64, 4),
    {
        Self::unsigned_integer(value as u64, 4)
    }

    /// An 8-byte unsigned integer.
    pub fn unsigned_integer_64(value: u64) -> (r: Self)
        ensures
            r@ == ElementModel::UnsignedInteger(value, 8),
    {
        Self::unsigned_integer(value, 8)
    }

    /// A signed integer of `size` bytes.
    pub fn signed_integer(value: i64, size: u8) -> (r: Self)
        ensures
            r@ == ElementModel::SignedInteger(value, size),
    {
        DataElement::SignedInteger(value, size)
    }

    /// A 1-byte signed integer.
    pub fn signed_integer_8(value: i8) -> (r: Self)
        ensures
            r@ == ElementModel::SignedInteger(value as i64, 1),
    {
        Self::signed_integer(value as i64, 1)
    }

    /// A 2-byte signed integer.
    pub fn signed_integer_16(value: i16) -> (r: Self)
        ensures
            r@ == ElementModel::SignedInteger(value as i64, 2),
    {
        Self::signed_integer(value as i64, 2)
    }

    /// A 4-byte signed integer.
    pub fn signed_integer_32(value: i32) -> (r: Self)
        ensures
            r@ == ElementModel::SignedInteger(value as i64, 4),
    {
        Self::signed_integer(value as i64, 4)
    }

    /// An 8-byte signed integer.
    pub fn signed_integer_64(value: i64) -> (r: Self)
        ensures
            r@ == ElementModel::SignedInteger(value, 8),
    {
        Self::signed_integer(value, 8)
    }

    /// A UUID.
    pub fn uuid(value: SdpUuid) -> (r: Self)
        ensures
            r@ == ElementModel::Uuid(value),
    {
        DataElement::Uuid(value)
    }

    /// A 16-bit UUID.
    pub fn uuid_16(value: u16) -> (r: Self)
        ensures
            r@ == ElementModel::Uuid(SdpUuid::Uuid16(value)),
    {
        DataElement::Uuid(SdpUuid::Uuid16(value))
    }

    /// A text string.
    pub fn text_string(value: Vec<u8>) -> (r: Self)
        ensures
            r@ == ElementModel::TextString(value@),
    {
        DataElement::TextString(value)
    }

    /// A boolean.
    pub fn boolean(value: bool) -> (r: Self)
        ensures
            r@ == ElementModel::Boolean(value),
    {
        DataElement::Boolean(value)
    }

    /// A sequence.
    pub fn sequence(items: Vec<DataElement>) -> (r: Self)
        ensures
            r@ == ElementModel::Sequence(models::seq_views(items@)),
    {
        proof {
            lemma_element_lists(items);
        }
        DataElement::Sequence(items)
    }

    /// A sequence of one element.
    pub fn sequence_of_1(a: DataElement) -> (r: Self)
        ensures
            r@ == ElementModel::Sequence(seq![a@]),
    {
        let mut items: Vec<DataElement> = Vec::new();
        items.push(a);
        assert(models::seq_views(items@) =~= seq![a@]);
        Self::sequence(items)
    }

    /// A sequence of two elements.
    pub fn sequence_of_2(a: DataElement, b: DataElement) -> (r: Self)
        ensures
            r@ == ElementModel::Sequence(seq![a@, b@]),
    {
        let mut items: Vec<DataElement> = Vec::new();
        items.push(a);
        items.push(b);
        assert(models::seq_views(items@) =~= seq![a@, b@]);
        Self::sequence(items)
    }

    /// A sequence of three elements.
    pub fn sequence_of_3(a: DataElement, b: DataElement, c: DataElement) -> (r: Self)
        ensures
            r@ == ElementModel::Sequence(seq![a@, b@, c@]),
    {
        let mut items: Vec<DataElement> = Vec::new();
        items.push(a);
        items.push(b);
        items.push(c);
        assert(models::seq_views(items@) =~= seq![a@, b@, c@]);
        Self::sequence(items)
    }

    /// A set of alternatives.
    pub fn alternative(items: Vec<DataElement>) -> (r: Self)
        ensures
            r@ == ElementModel::Alternative(models::seq_views(items@)),
    {
        proof {
            lemma_element_lists(items);
        }
        DataElement::Alternative(items)
    }

    /// A URL.
    pub fn url(value: &str) -> (r: Self)
        ensures
            r@ == ElementModel::Url(value@),
    {
        DataElement::Url(text::owned(value))
    }

    /// The elements of a sequence, else `None`.
    pub fn as_sequence(&self) -> (r: Option<&[DataElement]>)
        ensures
            match r {
                Some(items) => self@.sequence() == Some(models::seq_views(items@)),
                None => self@.sequence() is None,
            },
    {
        match self {
            DataElement::Sequence(items) => {
                proof {
                    lemma_element_lists(*items);
                }
                Some(items.as_slice())
            },
            _ => None,
        }
    }

    /// The UUID of a UUID element, else `None`.
    pub fn as_uuid(&self) -> (r: Option<SdpUuid>)
        ensures
            r == self@.uuid(),
    {
        match self {
            DataElement::Uuid(u) => Some(*u),
            _ => None,
        }
    }

    /// `(value, size)` of an unsigned integer, else `None`.
    pub fn as_unsigned_integer(&self) -> (r: Option<(u64, u8)>)
        ensures
            r == self@.unsigned(),
    {
        match self {
            DataElement::UnsignedInteger(v, size) => Some((*v, *size)),
            _ => None,
        }
    }

    fn type_code(&self) -> (r: u8)
        ensures
            r == self@.type_code(),
    {
        match self {
            DataElement::Nil => 0,
            DataElement::UnsignedInteger(..) => 1,
            DataElement::SignedInteger(..) => 2,
            DataElement::Uuid(..) => 3,
            DataElement::TextString(..) => 4,
            DataElement::Boolean(..) => 5,
            DataElement::Sequence(..) => 6,
            DataElement::Alternative(..) => 7,
            DataElement::Url(..) => 8,
        }
    }

    /// Serializes this element.
    pub fn to_bytes(&self) -> (r: Vec<u8>)
        requires
            self@.encodable(),
        ensures
            r@ == encode(self@),
    {
        let mut out: Vec<u8> = Vec::new();
        self.write_to(&mut out);
        assert(out@ =~= encode(self@));
        out
    }

    /// Appends the wire form of this element.
    fn write_to(&self, out: &mut Vec<u8>)
        requires
            self@.encodable(),
        ensures
            final(out)@ == old(out)@ + encode(self@),
        decreases self, 1int,
    {
        let type_code: u8 = self.type_code();
        let ghost before = out@;
        match self {
            DataElement::Nil => {
                out.push(type_code << 3);
            },
            DataElement::UnsignedInteger(v, size) => {
                out.push((type_code << 3) | size_index_fixed(*size as usize));
                push_low_bytes(out, *v, *size);
            },
            DataElement::SignedInteger(v, size) => {
                out.push((type_code << 3) | size_index_fixed(*size as usize));
                push_low_bytes(out, as_two_complement(*v), *size);
            },
            DataElement::Uuid(u) => {
                let wire = u.to_wire_bytes();
                out.push((type_code << 3) | size_index_fixed(wire.len()));
                bytes::push_bytes(out, &wire);
            },
            DataElement::Boolean(b) => {
                out.push(type_code << 3);
                out.push(
                    if *b {
                        1
                    } else {
                        0
                    },
                );
            },
            DataElement::TextString(s) => {
                push_variable(out, type_code, s);
            },
            DataElement::Url(s) => {
                push_variable(out, type_code, s.as_str().as_bytes());
            },
            DataElement::Sequence(items) => {
                proof {
                    lemma_element_lists(*items);
                    assert(*self == DataElement::Sequence(*items));
                    assert(self@ == ElementModel::Sequence(models::seq_views(items@)));
                }
                let body = Self::body_of(items);
                push_variable(out, type_code, &body);
            },
            DataElement::Alternative(items) => {
                proof {
                    lemma_element_lists(*items);
                    assert(*self == DataElement::Alternative(*items));
                    assert(self@ == ElementModel::Alternative(models::seq_views(items@)));
                }
                let body = Self::body_of(items);
                push_variable(out, type_code, &body);
            },
        }
        assert(out@ =~= before + encode(self@));
    }

    /// The wire forms of elements, one after another.
    fn body_of(items: &Vec<DataElement>) -> (r: Vec<u8>)
        requires
            all_encodable(models::seq_views(items@)),
        ensures
            r@ == encode_all(models::seq_views(items@)),
        decreases items, 0int,
    {
        let ghost all = models::seq_views(items@);
        let mut out: Vec<u8> = Vec::new();
        let mut i: usize = 0;
        assert(all.take(0) =~= seq![]);
        assert(out@ =~= encode_all(all.take(0)));
        while i < items.len()
            invariant
                i <= items@.len(),
                all == models::seq_views(items@),
                out@ == encode_all(all.take(i as int)),
            decreases items@.len() - i,
        {
            proof {
                assert(decreases_to!(*items => items@));
                assert(decreases_to!(items@ => items@[i as int]));
                assert(all[i as int].encodable());
                assert(all.take(i + 1).drop_last() =~= all.take(i as int));
                assert(all.take(i + 1).last() == items@[i as int]@);
            }
            items[i].write_to(&mut out);
            i = i + 1;
        }
        assert(all.take(i as int) =~= all);
        out
    }
}

impl Clone for DataElement {
    fn clone(&self) -> (r: Self)
        ensures
            r@ == self@,
    {
        self.duplicate()
    }
}

// ---------------------------------------------------------------------------
// Parsing
// ---------------------------------------------------------------------------

/// Where the value of the element at `at` starts and how long it is.
pub open spec fn value_extent(data: Seq<u8>, at: int) -> Option<(int, int)> {
    let type_code: u8 = data[at] >> 3;
    let index: u8 = data[at] & 0x07;
    if index == 0 {
        Some(
            (
                at + 1,
                if type_code == 0 {
                    0int
                } else {
                    1int
                },
            ),
        )
    } else if index == 1 {
        Some((at + 1, 2))
    } else if index == 2 {
        Some((at + 1, 4))
    } else if index == 3 {
        Some((at + 1, 8))
    } else if index == 4 {
        Some((at + 1, 16))
    } else if index == 5 {
        if at + 2 <= data.len() {
            Some((at + 2, data[at + 1] as int))
        } else {
            None
        }
    } else if index == 6 {
        if at + 3 <= data.len() {
            Some((at + 3, bytes::be16(data, at + 1) as int))
        } else {
            None
        }
    } else {
        if at + 5 <= data.len() {
            Some((at + 5, bytes::be32(data, at + 1) as int))
        } else {
            None
        }
    }
}

/// Whether a value of that many bytes can be an integer.
pub open spec fn integer_width(n: int) -> bool {
    n == 1 || n == 2 || n == 4 || n == 8
}

/// The element at `at`, and where the bytes after it start. Sequences and
/// alternatives may nest at most [`MAX_DATA_ELEMENT_NESTING`] deep.
pub open spec fn parse_at(data: Seq<u8>, at: int, depth: int) -> Option<(ElementModel, int)>
    decreases MAX_DATA_ELEMENT_NESTING - depth, 1int, 0int,
{
    if !(0 <= at < data.len()) {
        None
    } else {
        let type_code: u8 = data[at] >> 3;
        match value_extent(data, at) {
            None => None,
            Some((start, len)) => {
                let end = start + len;
                let value = data.subrange(start, end);
                if end > data.len() {
                    None
                } else if type_code == 0 {
                    Some((ElementModel::Nil, end))
                } else if type_code == 1 {
                    if integer_width(len) {
                        Some(
                            (
                                ElementModel::UnsignedInteger(unsigned_of(value) as u64, len as u8),
                                end,
                            ),
                        )
                    } else {
                        None
                    }
                } else if type_code == 2 {
                    if integer_width(len) {
                        Some((ElementModel::SignedInteger(signed_of(value) as i64, len as u8), end))
                    } else {
                        None
                    }
                } else if type_code == 3 {
                    match uuid_of(value) {
                        Some(u) => Some((ElementModel::Uuid(u), end)),
                        None => None,
                    }
                } else if type_code == 4 {
                    Some((ElementModel::TextString(value), end))
                } else if type_code == 5 {
                    if len == 1 {
                        Some((ElementModel::Boolean(value[0] != 0), end))
                    } else {
                        None
                    }
                } else if type_code == 6 || type_code == 7 {
                    if depth >= MAX_DATA_ELEMENT_NESTING {
                        None
                    } else {
                        match parse_items(data, start, end, depth) {
                            None => None,
                            Some(items) => if type_code == 6 {
                                Some((ElementModel::Sequence(items), end))
                            } else {
                                Some((ElementModel::Alternative(items), end))
                            },
                        }
                    }
                } else if type_code == 8 {
                    if utf8::valid_utf8(value) {
                        Some((ElementModel::Url(utf8::decode_utf8(value)), end))
                    } else {
                        None
                    }
                } else {
                    None
                }
            },
        }
    }
}

/// The elements from `at` up to exactly `end`.
pub open spec fn parse_items(data: Seq<u8>, at: int, end: int, depth: int) -> Option<
    Seq<ElementModel>,
>
    decreases MAX_DATA_ELEMENT_NESTING - depth, 0int, end - at,
{
    if depth >= MAX_DATA_ELEMENT_NESTING {
        None
    } else if at == end {
        Some(seq![])
    } else if at > end {
        None
    } else {
        match parse_at(data, at, depth + 1) {
            Some((first, next)) => if next <= at || next > end {
                None
            } else {
                match parse_items(data, next, end, depth) {
                    Some(rest) => Some(seq![first] + rest),
                    None => None,
                }
            },
            None => None,
        }
    }
}

/// What is left to parse after some elements of a list have been parsed.
pub open spec fn items_after(
    done: Seq<ElementModel>,
    rest: Option<Seq<ElementModel>>,
) -> Option<Seq<ElementModel>> {
    match rest {
        Some(items) => Some(done + items),
        None => None,
    }
}

/// An element ends behind where it starts, and inside the data.
pub proof fn lemma_parse_at_advances(data: Seq<u8>, at: int, depth: int)
    ensures
        parse_at(data, at, depth) is Some ==> at < (parse_at(data, at, depth)->0).1 <= data.len(),
{
}

/// The element that bytes start with, and how many bytes it takes.
#[verifier::opaque]
pub open spec fn element_of(data: Seq<u8>) -> Option<(ElementModel, int)> {
    parse_at(data, 0, 0)
}

fn decode_unsigned(data: &[u8]) -> (r: u64)
    requires
        data@.len() <= 8,
    ensures
        r == unsigned_of(data@),
        unsigned_of(data@) < power_256(data@.len()),
{
    let mut value: u64 = 0;
    let mut i: usize = 0;
    proof {
        reveal_with_fuel(power_256, 10);
    }
    while i < data.len()
        invariant
            i <= data@.len() <= 8,
            value == unsigned_of(data@.take(i as int)),
            value < power_256(i as nat),
        decreases data@.len() - i,
    {
        assert(data@.take(i + 1).drop_last() =~= data@.take(i as int));
        assert(value < 0x100_0000_0000_0000) by {
            lemma_power_256_grows(i as nat, 7);
            reveal_with_fuel(power_256, 10);
        }
        value = value * 0x100 + data[i] as u64;
        i = i + 1;
    }
    assert(data@.take(i as int) =~= data@);
    value
}

/// Powers grow with the exponent.
proof fn lemma_power_256_grows(a: nat, b: nat)
    requires
        a <= b,
    ensures
        power_256(a) <= power_256(b),
    decreases b,
{
    if a < b {
        lemma_power_256_grows(a, (b - 1) as nat);
    }
}

/// The leading byte tells how large an integer is.
pub proof fn lemma_unsigned_of_first(s: Seq<u8>)
    requires
        s.len() > 0,
    ensures
        unsigned_of(s) < power_256(s.len()),
        unsigned_of(s) >= s[0] * power_256((s.len() - 1) as nat),
        unsigned_of(s) < (s[0] + 1) * power_256((s.len() - 1) as nat),
    decreases s.len(),
{
    let p = power_256((s.len() - 1) as nat);
    if s.len() == 1 {
        reveal_with_fuel(unsigned_of, 2);
        assert(unsigned_of(s) == s[0]);
        assert(p == 1);
    } else {
        lemma_unsigned_of_first(s.drop_last());
        assert(s.drop_last()[0] == s[0]);
        let q = power_256((s.len() - 2) as nat);
        let first = s[0] as int;
        assert(p == 0x100 * q);
        assert(first * (0x100 * q) == (first * q) * 0x100) by (nonlinear_arith);
        assert((first + 1) * (0x100 * q) == ((first + 1) * q) * 0x100) by (nonlinear_arith);
    }
    let first = s[0] as int;
    assert((first + 1) * p <= 0x100 * p) by (nonlinear_arith)
        requires
            first + 1 <= 0x100,
            p >= 0,
    ;
}

fn decode_signed(data: &[u8]) -> (r: i64)
    requires
        integer_width(data@.len() as int),
    ensures
        r == signed_of(data@),
{
    let value: u64 = decode_unsigned(data);
    proof {
        lemma_unsigned_of_first(data@);
        reveal_with_fuel(power_256, 10);
    }
    if data[0] < 0x80 {
        assert(data@[0] * power_256((data@.len() - 1) as nat) <= 0x7F * power_256(
            (data@.len() - 1) as nat,
        )) by (nonlinear_arith)
            requires
                data@[0] <= 0x7F,
        ;
        assert((data@[0] + 1) * power_256((data@.len() - 1) as nat) <= 0x80 * power_256(
            (data@.len() - 1) as nat,
        )) by (nonlinear_arith)
            requires
                data@[0] + 1 <= 0x80,
        ;
        value as i64
    } else {
        assert(data@[0] * power_256((data@.len() - 1) as nat) >= 0x80 * power_256(
            (data@.len() - 1) as nat,
        )) by (nonlinear_arith)
            requires
                data@[0] >= 0x80,
        ;
        if data.len() == 1 {
            value as i64 - 0x100
        } else if data.len() == 2 {
            value as i64 - 0x1_0000
        } else if data.len() == 4 {
            value as i64 - 0x1_0000_0000
        } else {
            -((u64::MAX - value) as i64) - 1
        }
    }
}

/// Where the value of the element at `at` starts and how long it is.
fn parse_extent(data: &[u8], at: usize) -> (r: Option<(usize, usize)>)
    requires
        at < data@.len(),
    ensures
        match r {
            Some((start, len)) => value_extent(data@, at as int) == Some((start as int, len as int))
                && at < start <= data@.len(),
            None => match value_extent(data@, at as int) {
                Some((start, len)) => start > data@.len(),
                None => true,
            },
        },
{
    let byte0: u8 = data[at];
    let type_code: u8 = byte0 >> 3;
    let index: u8 = byte0 & 0x07;
    match index {
        0 => {
            let len: usize = if type_code == 0 {
                0
            } else {
                1
            };
            Some((at + 1, len))
        },
        1 => Some((at + 1, 2)),
        2 => Some((at + 1, 4)),
        3 => Some((at + 1, 8)),
        4 => Some((at + 1, 16)),
        5 => {
            if data.len() - at < 2 {
                None
            } else {
                Some((at + 2, data[at + 1] as usize))
            }
        },
        6 => {
            if data.len() - at < 3 {
                None
            } else {
                Some((at + 3, bytes::read_be16(data, at + 1) as usize))
            }
        },
        _ => {
            if data.len() - at < 5 {
                None
            } else {
                Some((at + 5, bytes::read_be32(data, at + 1) as usize))
            }
        },
    }
}

fn parse_element(data: &[u8], at: usize, depth: u32) -> (r: Option<(DataElement, usize)>)
    requires
        depth <= MAX_DATA_ELEMENT_NESTING,
    ensures
        match r {
            Some((element, end)) => parse_at(data@, at as int, depth as int) == Some(
                (element@, end as int),
            ),
            None => parse_at(data@, at as int, depth as int) is None,
        },
    decreases MAX_DATA_ELEMENT_NESTING - depth,
{
    if at >= data.len() {
        return None;
    }
    let type_code: u8 = data[at] >> 3;
    let (start, len) = match parse_extent(data, at) {
        Some(extent) => extent,
        None => {
            return None;
        },
    };
    if data.len() - start < len {
        return None;
    }
    let end: usize = start + len;
    let value = bytes::range(data, start, end);
    match type_code {
        0 => Some((DataElement::Nil, end)),
        1 => {
            if len == 1 || len == 2 || len == 4 || len == 8 {
                Some((DataElement::UnsignedInteger(decode_unsigned(value), len as u8), end))
            } else {
                None
            }
        },
        2 => {
            if len == 1 || len == 2 || len == 4 || len == 8 {
                Some((DataElement::SignedInteger(decode_signed(value), len as u8), end))
            } else {
                None
            }
        },
        3 => {
            match SdpUuid::from_wire_bytes(value) {
                Some(uuid) => Some((DataElement::Uuid(uuid), end)),
                None => None,
            }
        },
        4 => Some((DataElement::TextString(bytes::copy(value)), end)),
        5 => {
            if len == 1 {
                Some((DataElement::Boolean(value[0] != 0), end))
            } else {
                None
            }
        },
        6 | 7 => {
            if depth >= MAX_DATA_ELEMENT_NESTING {
                return None;
            }
            let ghost whole = parse_items(data@, start as int, end as int, depth as int);
            let mut items: Vec<DataElement> = Vec::new();
            let mut cursor: usize = start;
            proof {
                assert(models::seq_views(items@) =~= seq![]);
                if whole is Some {
                    assert(seq![] + whole->0 =~= whole->0);
                }
            }
            while cursor < end
                invariant
                    start <= cursor <= data@.len(),
                    end <= data@.len(),
                    depth < MAX_DATA_ELEMENT_NESTING,
                    items_after(
                        models::seq_views(items@),
                        parse_items(data@, cursor as int, end as int, depth as int),
                    ) == whole,
                decreases data@.len() - cursor,
            {
                let ghost before = models::seq_views(items@);
                proof {
                    lemma_parse_at_advances(data@, cursor as int, depth + 1);
                }
                match parse_element(data, cursor, depth + 1) {
                    Some((item, next)) => {
                        proof {
                            models::lemma_seq_views_push(items@, item);
                            let rest = parse_items(data@, next as int, end as int, depth as int);
                            if rest is Some {
                                assert(before + (seq![item@] + rest->0) =~= before.push(item@)
                                    + rest->0);
                            }
                        }
                        items.push(item);
                        cursor = next;
                    },
                    None => {
                        return None;
                    },
                }
            }
            if cursor != end {
                return None;
            }
            proof {
                assert(models::seq_views(items@) + seq![] =~= models::seq_views(items@));
                lemma_element_lists(items);
            }
            if type_code == 6 {
                Some((DataElement::Sequence(items), end))
            } else {
                Some((DataElement::Alternative(items), end))
            }
        },
        8 => {
            match text::decode_strict(value) {
                Some(url) => Some((DataElement::Url(text::owned(url)), end)),
                None => None,
            }
        },
        _ => None,
    }
}

impl DataElement {
    /// Parses one element from the start of `data`, returning it along with
    /// the number of bytes consumed.
    pub fn parse(data: &[u8]) -> (r: Option<(DataElement, usize)>)
        ensures
            match r {
                Some((element, end)) => element_of(data@) == Some((element@, end as int)) && end
                    <= data@.len(),
                None => element_of(data@) is None,
            },
    {
        proof {
            reveal(element_of);
            lemma_parse_at_advances(data@, 0, 0);
        }
        parse_element(data, 0, 0)
    }

    /// Parses an element from the start of `data`, ignoring any bytes after it.
    pub fn from_bytes(data: &[u8]) -> (r: Option<DataElement>)
        ensures
            match r {
                Some(element) => element_of(data@) is Some && (element_of(data@)->0).0 == element@,
                None => element_of(data@) is None,
            },
    {
        match Self::parse(data) {
            Some((element, _)) => Some(element),
            None => None,
        }
    }
}

} // verus!
