//! What the bytes of frames mean.

use vstd::prelude::*;
use crate::classic::avc;
use crate::classic::avc::{
    CommandFrameModel,
    CommandType,
    FrameModel,
    PassThroughModel,
    ResponseCode,
    ResponseFrameModel,
    VendorDependentModel,
};

verus! {

proof fn lemma_nibbles(b: u8)
    by (bit_vector)
    requires
        b < 16,
    ensures
        b >> 4 == 0u8,
        b & 0x0F == b,
{
}

proof fn lemma_subunit(kind: u8, id: u8)
    by (bit_vector)
    requires
        kind < 32,
        id < 8,
    ensures
        ((kind << 3) | id) >> 3 == kind,
        ((kind << 3) | id) & 0x07 == id,
{
}

/// The codes of the command types and of the responses.
pub proof fn law_codes()
    ensures
        CommandType::Control.code() == 0x0,
        CommandType::Status.code() == 0x1,
        CommandType::SpecificInquiry.code() == 0x2,
        CommandType::Notify.code() == 0x3,
        CommandType::GeneralInquiry.code() == 0x4,
        ResponseCode::NotImplemented.code() == 0x8,
        ResponseCode::Accepted.code() == 0x9,
        ResponseCode::Rejected.code() == 0xA,
        ResponseCode::InTransition.code() == 0xB,
        ResponseCode::ImplementedOrStable.code() == 0xC,
        ResponseCode::Changed.code() == 0xD,
        ResponseCode::Interim.code() == 0xF,
{
}

/// A frame is read from its bytes: command type or response code, subunit,
/// opcode and operands.
pub proof fn law_frame_bytes(
    ctype: CommandType,
    code: ResponseCode,
    kind: u8,
    id: u8,
    opcode: u8,
    operands: Seq<u8>,
)
    requires
        kind < 32,
        kind != 0x1E,
        id <= 4 || id == 7,
    ensures
        avc::frame_of(seq![ctype.code(), (kind << 3) | id, opcode] + operands) == Some(
            FrameModel::Command(
                (CommandFrameModel {
                    ctype,
                    subunit_type: kind,
                    subunit_id: id as u16,
                    opcode,
                    operands,
                }),
            ),
        ),
        avc::frame_of(seq![code.code(), (kind << 3) | id, opcode] + operands) == Some(
            FrameModel::Response(
                (ResponseFrameModel {
                    response: code,
                    subunit_type: kind,
                    subunit_id: id as u16,
                    opcode,
                    operands,
                }),
            ),
        ),
{
    lemma_nibbles(ctype.code());
    lemma_nibbles(code.code());
    lemma_subunit(kind, id);
    let a = seq![ctype.code(), (kind << 3) | id, opcode] + operands;
    let b = seq![code.code(), (kind << 3) | id, opcode] + operands;
    assert(a.skip(3) =~= operands);
    assert(b.skip(3) =~= operands);
}

/// Subunit IDs above four stand in a byte of their own, or in two: five is
/// added to the first, and 254 more to the second.
pub proof fn law_extended_subunits(
    ctype: CommandType,
    kind: u8,
    more: u8,
    opcode: u8,
    operands: Seq<u8>,
)
    requires
        kind < 32,
        kind != 0x1E,
    ensures
        0 < more < 0xFF ==> avc::frame_of(
            seq![ctype.code(), (kind << 3) | 5, more, opcode] + operands,
        ) == Some(
            FrameModel::Command(
                (CommandFrameModel {
                    ctype,
                    subunit_type: kind,
                    subunit_id: (5 + more) as u16,
                    opcode,
                    operands,
                }),
            ),
        ),
        avc::frame_of(seq![ctype.code(), (kind << 3) | 5, 0xFFu8, more, opcode] + operands)
            == Some(
            FrameModel::Command(
                (CommandFrameModel {
                    ctype,
                    subunit_type: kind,
                    subunit_id: (259 + more) as u16,
                    opcode,
                    operands,
                }),
            ),
        ),
        avc::frame_of(seq![ctype.code(), (kind << 3) | 5, 0x00u8, opcode] + operands) is None,
        avc::frame_of(seq![ctype.code(), (kind << 3) | 6, opcode] + operands) is None,
{
    lemma_nibbles(ctype.code());
    lemma_subunit(kind, 5);
    lemma_subunit(kind, 6);
    let a = seq![ctype.code(), (kind << 3) | 5, more, opcode] + operands;
    let b = seq![ctype.code(), (kind << 3) | 5, 0xFFu8, more, opcode] + operands;
    assert(a.skip(4) =~= operands);
    assert(b.skip(5) =~= operands);
}

/// Extended subunit types, codes that do not exist, and bytes that end before
/// the opcode are no frame.
pub proof fn law_no_frames(data: Seq<u8>, code: u8, id: u8, rest: Seq<u8>)
    requires
        id < 8,
    ensures
        avc::frame_of(seq![code, (0x1Eu8 << 3) | id] + rest) is None,
        5 <= code < 8 || code == 0xE || code >= 16 ==> avc::frame_of(seq![code] + rest) is None,
        data.len() < 3 ==> avc::frame_of(data) is None,
{
    lemma_subunit(0x1E, id);
    if code < 16 {
        lemma_nibbles(code);
    } else {
        lemma_high_nibble(code);
    }
    if data.len() > 0 && data.len() < 3 && data[0] < 16 {
        lemma_nibbles(data[0]);
    }
}

proof fn lemma_high_nibble(b: u8)
    by (bit_vector)
    requires
        b >= 16,
    ensures
        b >> 4 != 0u8,
{
}

proof fn lemma_key(id: u8)
    by (bit_vector)
    requires
        id < 0x80,
    ensures
        id & 0x80 == 0u8,
        id & 0x7F == id,
        (id | 0x80) & 0x80 != 0u8,
        (id | 0x80) & 0x7F == id,
{
}

/// A key is read from its operands: the top bit says that it was released, the
/// other bits which key it is, and data follows behind its length.
pub proof fn law_key_operands(id: u8, data: Seq<u8>, rest: Seq<u8>)
    requires
        id < 0x80,
        data.len() < 256,
    ensures
        avc::pass_through_of(seq![id, data.len() as u8] + data + rest) == Some(
            (PassThroughModel { pressed: true, operation_id: id, operation_data: data }),
        ),
        avc::pass_through_of(seq![id | 0x80, data.len() as u8] + data + rest) == Some(
            (PassThroughModel { pressed: false, operation_id: id, operation_data: data }),
        ),
{
    lemma_key(id);
    let a = seq![id, data.len() as u8] + data + rest;
    let b = seq![id | 0x80, data.len() as u8] + data + rest;
    assert(a.subrange(2, 2 + data.len() as int) =~= data);
    assert(b.subrange(2, 2 + data.len() as int) =~= data);
}

/// Vendor-dependent operands start with the company in three bytes, the highest
/// first.
pub proof fn law_vendor_operands(a: u8, b: u8, c: u8, data: Seq<u8>)
    ensures
        avc::vendor_of(seq![a, b, c] + data) == Some(
            (VendorDependentModel { company_id: (a * 65536 + b * 256 + c) as u32, data }),
        ),
{
    assert((seq![a, b, c] + data).skip(3) =~= data);
}

} // verus!
