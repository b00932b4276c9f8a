//! AV/C (Audio/Video Control) frames: the commands and responses that remote
//! control carries inside transport messages.
//!
//! A frame starts with the command type or response code in the low nibble of
//! its first byte (the high nibble is zero). The second byte packs the subunit
//! type (5 bits) and the subunit ID (3 bits, with an escape to extension bytes
//! for IDs above 4). The opcode and its operands follow. The operands of two
//! opcodes have a structured form here: VENDOR DEPENDENT
//! ([`VendorDependent`]) and PASS THROUGH ([`PassThrough`]).

pub mod frame_laws;
pub mod opcode;
pub mod operation_id;
pub mod subunit_type;

use vstd::prelude::*;
use crate::bytes;
use crate::models;

verus! {

/// The company ID of the Bluetooth SIG, carried in remote-control frames.
pub const BLUETOOTH_SIG_COMPANY_ID: u32 = 0x00_1958;

/// Command types.
#[derive(Debug, Clone, Copy, PartialEq, Eq, Structural)]
pub enum CommandType {
    Control,
    Status,
    SpecificInquiry,
    Notify,
    GeneralInquiry,
}

/// The command type that a code stands for.
pub open spec fn command_type_of(value: u8) -> Option<CommandType> {
    match value {
        0x00 => Some(CommandType::Control),
        0x01 => Some(CommandType::Status),
        0x02 => Some(CommandType::SpecificInquiry),
        0x03 => Some(CommandType::Notify),
        0x04 => Some(CommandType::GeneralInquiry),
        _ => None,
    }
}

impl CommandType {
    /// The code of this command type.
    pub open spec fn code(self) -> u8 {
        match self {
            CommandType::Control => 0x00,
            CommandType::Status => 0x01,
            CommandType::SpecificInquiry => 0x02,
            CommandType::Notify => 0x03,
            CommandType::GeneralInquiry => 0x04,
        }
    }

    /// Decodes a command type.
    pub fn from_u8(value: u8) -> (r: Option<Self>)
        ensures
            r == command_type_of(value),
    {
        match value {
            0x00 => Some(CommandType::Control),
            0x01 => Some(CommandType::Status),
            0x02 => Some(CommandType::SpecificInquiry),
            0x03 => Some(CommandType::Notify),
            0x04 => Some(CommandType::GeneralInquiry),
            _ => None,
        }
    }

    /// Encodes a command type.
    pub fn as_u8(self) -> (r: u8)
        ensures
            r == self.code(),
    {
        match self {
            CommandType::Control => 0x00,
            CommandType::Status => 0x01,
            CommandType::SpecificInquiry => 0x02,
            CommandType::Notify => 0x03,
            CommandType::GeneralInquiry => 0x04,
        }
    }
}

/// Response codes.
#[derive(Debug, Clone, Copy, PartialEq, Eq, Structural)]
pub enum ResponseCode {
    NotImplemented,
    Accepted,
    Rejected,
    InTransition,
    ImplementedOrStable,
    Changed,
    Interim,
}

/// The response code that a value stands for.
pub open spec fn response_code_of(value: u8) -> Option<ResponseCode> {
    match value {
        0x08 => Some(ResponseCode::NotImplemented),
        0x09 => Some(ResponseCode::Accepted),
        0x0A => Some(ResponseCode::Rejected),
        0x0B => Some(ResponseCode::InTransition),
        0x0C => Some(ResponseCode::ImplementedOrStable),
        0x0D => Some(ResponseCode::Changed),
        0x0F => Some(ResponseCode::Interim),
        _ => None,
    }
}

impl ResponseCode {
    /// The value of this response code.
    pub open spec fn code(self) -> u8 {
        match self {
            ResponseCode::NotImplemented => 0x08,
            ResponseCode::Accepted => 0x09,
            ResponseCode::Rejected => 0x0A,
            ResponseCode::InTransition => 0x0B,
            ResponseCode::ImplementedOrStable => 0x0C,
            ResponseCode::Changed => 0x0D,
            ResponseCode::Interim => 0x0F,
        }
    }

    /// Decodes a response code.
    pub fn from_u8(value: u8) -> (r: Option<Self>)
        ensures
            r == response_code_of(value),
    {
        match value {
            0x08 => Some(ResponseCode::NotImplemented),
            0x09 => Some(ResponseCode::Accepted),
            0x0A => Some(ResponseCode::Rejected),
            0x0B => Some(ResponseCode::InTransition),
            0x0C => Some(ResponseCode::ImplementedOrStable),
            0x0D => Some(ResponseCode::Changed),
            0x0F => Some(ResponseCode::Interim),
            _ => None,
        }
    }

    /// Encodes a response code.
    pub fn as_u8(self) -> (r: u8)
        ensures
            r == self.code(),
    {
        match self {
            ResponseCode::NotImplemented => 0x08,
            ResponseCode::Accepted => 0x09,
            ResponseCode::Rejected => 0x0A,
            ResponseCode::InTransition => 0x0B,
            ResponseCode::ImplementedOrStable => 0x0C,
            ResponseCode::Changed => 0x0D,
            ResponseCode::Interim => 0x0F,
        }
    }
}

// ---------------------------------------------------------------------------
// Frames
// ---------------------------------------------------------------------------

/// An AV/C command frame. `subunit_id` is 16 bits wide because the 3-bit wire
/// field escapes to extension bytes for IDs 5 and above, reaching up to 514.
#[derive(Debug, Clone, PartialEq, Eq)]
pub struct CommandFrame {
    pub ctype: CommandType,
    pub subunit_type: u8,
    pub subunit_id: u16,
    pub opcode: u8,
    pub operands: Vec<u8>,
}

/// An AV/C response frame; see [`CommandFrame`] for field notes.
#[derive(Debug, Clone, PartialEq, Eq)]
pub struct ResponseFrame {
    pub response: ResponseCode,
    pub subunit_type: u8,
    pub subunit_id: u16,
    pub opcode: u8,
    pub operands: Vec<u8>,
}

/// A parsed AV/C frame: a low nibble of the first byte below 8 is a command
/// type, 8 and above is a response code.
#[derive(Debug, Clone, PartialEq, Eq)]
pub enum Frame {
    Command(CommandFrame),
    Response(ResponseFrame),
}

/// The model of a [`CommandFrame`].
#[verifier::ext_equal]
pub struct CommandFrameModel {
    pub ctype: CommandType,
    pub subunit_type: u8,
    pub subunit_id: u16,
    pub opcode: u8,
    pub operands: Seq<u8>,
}

/// The model of a [`ResponseFrame`].
#[verifier::ext_equal]
pub struct ResponseFrameModel {
    pub response: ResponseCode,
    pub subunit_type: u8,
    pub subunit_id: u16,
    pub opcode: u8,
    pub operands: Seq<u8>,
}

/// The model of a [`Frame`].
#[verifier::ext_equal]
pub enum FrameModel {
    Command(CommandFrameModel),
    Response(ResponseFrameModel),
}

impl View for CommandFrame {
    type V = CommandFrameModel;

    open spec fn view(&self) -> CommandFrameModel {
        CommandFrameModel {
            ctype: self.ctype,
            subunit_type: self.subunit_type,
            subunit_id: self.subunit_id,
            opcode: self.opcode,
            operands: self.operands@,
        }
    }
}

impl View for ResponseFrame {
    type V = ResponseFrameModel;

    open spec fn view(&self) -> ResponseFrameModel {
        ResponseFrameModel {
            response: self.response,
            subunit_type: self.subunit_type,
            subunit_id: self.subunit_id,
            opcode: self.opcode,
            operands: self.operands@,
        }
    }
}

impl View for Frame {
    type V = FrameModel;

    open spec fn view(&self) -> FrameModel {
        match self {
            Frame::Command(frame) => FrameModel::Command(frame@),
            Frame::Response(frame) => FrameModel::Response(frame@),
        }
    }
}

/// The subunit that a frame addresses: `(subunit type, subunit ID, offset of
/// the opcode)`. ID 5 escapes to an extension byte, and extension 0xFF to a
/// second one; ID 6, extension 0 and the extended subunit types are reserved.
pub open spec fn subunit_of(data: Seq<u8>) -> Option<(u8, u16, usize)> {
    if data.len() < 2 {
        None
    } else {
        let kind: u8 = data[1] >> 3;
        let id: u8 = data[1] & 0x07;
        if kind == subunit_type::EXTENDED {
            None
        } else if id <= 4 || id == 7 {
            Some((kind, id as u16, 2))
        } else if id == 5 && data.len() >= 3 && data[2] == 0xFF && data.len() >= 4 {
            Some((kind, (5 + 254 + data[3]) as u16, 4))
        } else if id == 5 && data.len() >= 3 && data[2] != 0xFF && data[2] != 0x00 {
            Some((kind, (5 + data[2]) as u16, 3))
        } else {
            None
        }
    }
}

/// The frame that bytes encode.
pub open spec fn frame_of(data: Seq<u8>) -> Option<FrameModel> {
    if data.len() == 0 || data[0] >> 4 != 0 {
        None
    } else {
        match subunit_of(data) {
            None => None,
            Some((subunit_type, subunit_id, at)) => if data.len() <= at {
                None
            } else {
                let code: u8 = data[0] & 0x0F;
                let opcode = data[at as int];
                let operands = data.skip(at + 1);
                if code < 8 {
                    match command_type_of(code) {
                        None => None,
                        Some(ctype) => Some(
                            FrameModel::Command(
                                CommandFrameModel {
                                    ctype,
                                    subunit_type,
                                    subunit_id,
                                    opcode,
                                    operands,
                                },
                            ),
                        ),
                    }
                } else {
                    match response_code_of(code) {
                        None => None,
                        Some(response) => Some(
                            FrameModel::Response(
                                ResponseFrameModel {
                                    response,
                                    subunit_type,
                                    subunit_id,
                                    opcode,
                                    operands,
                                },
                            ),
                        ),
                    }
                }
            },
        }
    }
}

/// Parses the subunit byte and any extension bytes.
fn parse_subunit(data: &[u8]) -> (r: Option<(u8, u16, usize)>)
    ensures
        r == subunit_of(data@),
{
    if data.len() < 2 {
        return None;
    }
    let kind: u8 = data[1] >> 3;
    if kind == subunit_type::EXTENDED {
        return None;
    }
    let id: u8 = data[1] & 0x07;
    if id <= 4 || id == 7 {
        return Some((kind, id as u16, 2));
    }
    if id != 5 || data.len() < 3 {
        return None;
    }
    let extension: u8 = data[2];
    if extension == 0x00 {
        None
    } else if extension == 0xFF {
        if data.len() < 4 {
            None
        } else {
            Some((kind, 5 + 254 + data[3] as u16, 4))
        }
    } else {
        Some((kind, 5 + extension as u16, 3))
    }
}

impl Frame {
    /// Parses one AV/C frame; `None` on any malformed or reserved encoding.
    pub fn parse(data: &[u8]) -> (r: Option<Frame>)
        ensures
            models::opt_view(r) == frame_of(data@),
    {
        if data.len() == 0 {
            return None;
        }
        let first: u8 = data[0];
        if first >> 4 != 0 {
            return None;
        }
        let (subunit_type, subunit_id, at) = parse_subunit(data)?;
        if data.len() <= at {
            return None;
        }
        let opcode: u8 = data[at];
        let operands = bytes::copy_range(data, at + 1, data.len());
        assert(operands@ =~= data@.skip(at + 1));
        let code: u8 = first & 0x0F;
        if code < 8 {
            let ctype = CommandType::from_u8(code)?;
            Some(Frame::Command(CommandFrame { ctype, subunit_type, subunit_id, opcode, operands }))
        } else {
            let response = ResponseCode::from_u8(code)?;
            Some(
                Frame::Response(
                    ResponseFrame { response, subunit_type, subunit_id, opcode, operands },
                ),
            )
        }
    }
}

/// The wire form of a frame. Only basic subunit IDs (0 to 7) are emitted.
pub open spec fn frame_bytes(
    code: u8,
    subunit_type: u8,
    subunit_id: u16,
    opcode: u8,
    operands: Seq<u8>,
) -> Seq<u8> {
    seq![code, (subunit_type << 3) | (subunit_id as u8 & 0x07), opcode] + operands
}

fn frame_to_bytes(
    code: u8,
    subunit_type: u8,
    subunit_id: u16,
    opcode: u8,
    operands: &[u8],
) -> (r: Vec<u8>)
    ensures
        r@ == frame_bytes(code, subunit_type, subunit_id, opcode, operands@),
{
    let mut out: Vec<u8> = vec![code, (subunit_type << 3) | (subunit_id as u8 & 0x07), opcode];
    bytes::push_bytes(&mut out, operands);
    assert(out@ =~= frame_bytes(code, subunit_type, subunit_id, opcode, operands@));
    out
}

impl CommandFrameModel {
    /// The wire form of this frame.
    pub open spec fn bytes(self) -> Seq<u8> {
        frame_bytes(
            self.ctype.code(),
            self.subunit_type,
            self.subunit_id,
            self.opcode,
            self.operands,
        )
    }
}

impl ResponseFrameModel {
    /// The wire form of this frame.
    pub open spec fn bytes(self) -> Seq<u8> {
        frame_bytes(
            self.response.code(),
            self.subunit_type,
            self.subunit_id,
            self.opcode,
            self.operands,
        )
    }
}

impl CommandFrame {
    /// Serializes this frame.
    pub fn to_bytes(&self) -> (r: Vec<u8>)
        ensures
            r@ == self@.bytes(),
    {
        frame_to_bytes(
            self.ctype.as_u8(),
            self.subunit_type,
            self.subunit_id,
            self.opcode,
            &self.operands,
        )
    }

    /// Builds a VENDOR DEPENDENT command frame.
    pub fn vendor_dependent(
        ctype: CommandType,
        subunit_type: u8,
        subunit_id: u16,
        company_id: u32,
        data: Vec<u8>,
    ) -> (r: Self)
        ensures
            r@ == (CommandFrameModel {
                ctype,
                subunit_type,
                subunit_id,
                opcode: opcode::VENDOR_DEPENDENT,
                operands: vendor_operands(company_id, data@),
            }),
    {
        let operands = VendorDependent { company_id, data }.to_operands();
        CommandFrame {
            ctype,
            subunit_type,
            subunit_id,
            opcode: opcode::VENDOR_DEPENDENT,
            operands,
        }
    }

    /// Builds a PASS THROUGH command frame.
    pub fn pass_through(
        ctype: CommandType,
        subunit_type: u8,
        subunit_id: u16,
        pass_through: &PassThrough,
    ) -> (r: Self)
        ensures
            r@ == (CommandFrameModel {
                ctype,
                subunit_type,
                subunit_id,
                opcode: opcode::PASS_THROUGH,
                operands: pass_through@.operands(),
            }),
    {
        CommandFrame {
            ctype,
            subunit_type,
            subunit_id,
            opcode: opcode::PASS_THROUGH,
            operands: pass_through.to_operands(),
        }
    }

    /// The operands in structured form when this is a VENDOR DEPENDENT frame.
    pub fn as_vendor_dependent(&self) -> (r: Option<VendorDependent>)
        ensures
            models::opt_view(r) == (if self.opcode == opcode::VENDOR_DEPENDENT {
                vendor_of(self.operands@)
            } else {
                None
            }),
    {
        if self.opcode == opcode::VENDOR_DEPENDENT {
            VendorDependent::parse(&self.operands)
        } else {
            None
        }
    }

    /// The operands in structured form when this is a PASS THROUGH frame.
    pub fn as_pass_through(&self) -> (r: Option<PassThrough>)
        ensures
            models::opt_view(r) == (if self.opcode == opcode::PASS_THROUGH {
                pass_through_of(self.operands@)
            } else {
                None
            }),
    {
        if self.opcode == opcode::PASS_THROUGH {
            PassThrough::parse(&self.operands)
        } else {
            None
        }
    }
}

impl ResponseFrame {
    /// Serializes this frame.
    pub fn to_bytes(&self) -> (r: Vec<u8>)
        ensures
            r@ == self@.bytes(),
    {
        frame_to_bytes(
            self.response.as_u8(),
            self.subunit_type,
            self.subunit_id,
            self.opcode,
            &self.operands,
        )
    }

    /// Builds a VENDOR DEPENDENT response frame.
    pub fn vendor_dependent(
        response: ResponseCode,
        subunit_type: u8,
        subunit_id: u16,
        company_id: u32,
        data: Vec<u8>,
    ) -> (r: Self)
        ensures
            r@ == (ResponseFrameModel {
                response,
                subunit_type,
                subunit_id,
                opcode: opcode::VENDOR_DEPENDENT,
                operands: vendor_operands(company_id, data@),
            }),
    {
        let operands = VendorDependent { company_id, data }.to_operands();
        ResponseFrame {
            response,
            subunit_type,
            subunit_id,
            opcode: opcode::VENDOR_DEPENDENT,
            operands,
        }
    }

    /// Builds a PASS THROUGH response frame.
    pub fn pass_through(
        response: ResponseCode,
        subunit_type: u8,
        subunit_id: u16,
        pass_through: &PassThrough,
    ) -> (r: Self)
        ensures
            r@ == (ResponseFrameModel {
                response,
                subunit_type,
                subunit_id,
                opcode: opcode::PASS_THROUGH,
                operands: pass_through@.operands(),
            }),
    {
        ResponseFrame {
            response,
            subunit_type,
            subunit_id,
            opcode: opcode::PASS_THROUGH,
            operands: pass_through.to_operands(),
        }
    }

    /// The operands in structured form when this is a VENDOR DEPENDENT frame.
    pub fn as_vendor_dependent(&self) -> (r: Option<VendorDependent>)
        ensures
            models::opt_view(r) == (if self.opcode == opcode::VENDOR_DEPENDENT {
                vendor_of(self.operands@)
            } else {
                None
            }),
    {
        if self.opcode == opcode::VENDOR_DEPENDENT {
            VendorDependent::parse(&self.operands)
        } else {
            None
        }
    }

    /// The operands in structured form when this is a PASS THROUGH frame.
    pub fn as_pass_through(&self) -> (r: Option<PassThrough>)
        ensures
            models::opt_view(r) == (if self.opcode == opcode::PASS_THROUGH {
                pass_through_of(self.operands@)
            } else {
                None
            }),
    {
        if self.opcode == opcode::PASS_THROUGH {
            PassThrough::parse(&self.operands)
        } else {
            None
        }
    }
}

// ---------------------------------------------------------------------------
// Structured operands
// ---------------------------------------------------------------------------

/// VENDOR DEPENDENT operands: a 24-bit big-endian company ID followed by
/// vendor data.
#[derive(Debug, Clone, PartialEq, Eq)]
pub struct VendorDependent {
    pub company_id: u32,
    pub data: Vec<u8>,
}

/// The model of a [`VendorDependent`].
#[verifier::ext_equal]
pub struct VendorDependentModel {
    pub company_id: u32,
    pub data: Seq<u8>,
}

impl View for VendorDependent {
    type V = VendorDependentModel;

    open spec fn view(&self) -> VendorDependentModel {
        VendorDependentModel { company_id: self.company_id, data: self.data@ }
    }
}

/// The vendor-dependent operands that bytes encode.
pub open spec fn vendor_of(operands: Seq<u8>) -> Option<VendorDependentModel> {
    if operands.len() < 3 {
        None
    } else {
        Some(VendorDependentModel { company_id: bytes::be24(operands, 0), data: operands.skip(3) })
    }
}

/// The wire form of vendor-dependent operands.
pub open spec fn vendor_operands(company_id: u32, data: Seq<u8>) -> Seq<u8> {
    bytes::be24_bytes(company_id) + data
}

impl VendorDependent {
    /// Parses vendor-dependent operands.
    pub fn parse(operands: &[u8]) -> (r: Option<Self>)
        ensures
            models::opt_view(r) == vendor_of(operands@),
    {
        if operands.len() < 3 {
            return None;
        }
        let data = bytes::copy_range(operands, 3, operands.len());
        assert(data@ =~= operands@.skip(3));
        Some(VendorDependent { company_id: bytes::read_be24(operands, 0), data })
    }

    /// Serializes vendor-dependent operands; the company ID is cut to 24 bits.
    pub fn to_operands(&self) -> (r: Vec<u8>)
        ensures
            r@ == vendor_operands(self.company_id, self.data@),
    {
        let mut out: Vec<u8> = Vec::new();
        bytes::push_be24(&mut out, self.company_id);
        bytes::push_bytes(&mut out, &self.data);
        assert(out@ =~= vendor_operands(self.company_id, self.data@));
        out
    }
}

/// PASS THROUGH operands: the state flag (bit 7 of the first operand, clear
/// for pressed and set for released), a 7-bit operation ID, and a
/// length-prefixed operation data field.
#[derive(Debug, Clone, PartialEq, Eq)]
pub struct PassThrough {
    pub pressed: bool,
    pub operation_id: u8,
    pub operation_data: Vec<u8>,
}

/// The model of a [`PassThrough`].
#[verifier::ext_equal]
pub struct PassThroughModel {
    pub pressed: bool,
    pub operation_id: u8,
    pub operation_data: Seq<u8>,
}

impl View for PassThrough {
    type V = PassThroughModel;

    open spec fn view(&self) -> PassThroughModel {
        PassThroughModel {
            pressed: self.pressed,
            operation_id: self.operation_id,
            operation_data: self.operation_data@,
        }
    }
}

/// The pass-through operands that bytes encode.
pub open spec fn pass_through_of(operands: Seq<u8>) -> Option<PassThroughModel> {
    if operands.len() < 2 || operands.len() < 2 + operands[1] {
        None
    } else {
        Some(
            PassThroughModel {
                pressed: operands[0] & 0x80 == 0,
                operation_id: operands[0] & 0x7F,
                operation_data: operands.subrange(2, 2 + operands[1]),
            },
        )
    }
}

impl PassThroughModel {
    /// The wire form of these operands; the length field holds the low 8 bits
    /// of the length of the operation data.
    pub open spec fn operands(self) -> Seq<u8> {
        let state: u8 = if self.pressed {
            0x00
        } else {
            0x80
        };
        seq![state | (self.operation_id & 0x7F), self.operation_data.len() as u8]
            + self.operation_data
    }
}

impl PassThrough {
    /// Parses pass-through operands.
    pub fn parse(operands: &[u8]) -> (r: Option<Self>)
        ensures
            models::opt_view(r) == pass_through_of(operands@),
    {
        if operands.len() < 2 {
            return None;
        }
        let first: u8 = operands[0];
        let length: usize = operands[1] as usize;
        if operands.len() - 2 < length {
            return None;
        }
        Some(
            PassThrough {
                pressed: first & 0x80 == 0,
                operation_id: first & 0x7F,
                operation_data: bytes::copy_range(operands, 2, 2 + length),
            },
        )
    }

    /// Serializes pass-through operands.
    pub fn to_operands(&self) -> (r: Vec<u8>)
        ensures
            r@ == self@.operands(),
    {
        let state: u8 = if self.pressed {
            0x00
        } else {
            0x80
        };
        let mut out: Vec<u8> = vec![
            state | (self.operation_id & 0x7F),
            self.operation_data.len() as u8,
        ];
        bytes::push_bytes(&mut out, &self.operation_data);
        assert(out@ =~= self@.operands());
        out
    }
}

// ---------------------------------------------------------------------------
// Laws
// ---------------------------------------------------------------------------

/// Decoding the code of a command type gives the command type back, and only
/// that code decodes to it.
pub proof fn law_command_type_codes(t: CommandType, value: u8)
    ensures
        command_type_of(t.code()) == Some(t),
        command_type_of(value) == Some(t) <==> value == t.code(),
{
}

/// Decoding the value of a response code gives the response code back, and
/// only that value decodes to it.
pub proof fn law_response_code_codes(c: ResponseCode, value: u8)
    ensures
        response_code_of(c.code()) == Some(c),
        response_code_of(value) == Some(c) <==> value == c.code(),
{
}

/// The subunit IDs that fit the basic wire form.
pub open spec fn basic_subunit(subunit_type: u8, subunit_id: u16) -> bool {
    &&& subunit_type < 32
    &&& subunit_type != subunit_type::EXTENDED
    &&& subunit_id <= 4 || subunit_id == 7
}

proof fn lemma_subunit_byte(kind: u8, id: u8)
    by (bit_vector)
    requires
        kind < 32,
        id <= 7,
    ensures
        ((kind << 3) | (id & 0x07)) >> 3 == kind,
        ((kind << 3) | (id & 0x07)) & 0x07 == id,
{
}

proof fn lemma_code_nibble(code: u8)
    by (bit_vector)
    requires
        code < 16,
    ensures
        code >> 4 == 0,
        code & 0x0F == code,
{
}

/// A command frame that addresses a basic subunit is read back from its bytes.
pub proof fn law_command_frame_round_trip(f: CommandFrameModel)
    requires
        basic_subunit(f.subunit_type, f.subunit_id),
    ensures
        frame_of(f.bytes()) == Some(FrameModel::Command(f)),
{
    lemma_subunit_byte(f.subunit_type, f.subunit_id as u8);
    lemma_code_nibble(f.ctype.code());
    assert(f.bytes().skip(3) =~= f.operands);
}

/// A response frame that addresses a basic subunit is read back from its bytes.
pub proof fn law_response_frame_round_trip(f: ResponseFrameModel)
    requires
        basic_subunit(f.subunit_type, f.subunit_id),
    ensures
        frame_of(f.bytes()) == Some(FrameModel::Response(f)),
{
    lemma_subunit_byte(f.subunit_type, f.subunit_id as u8);
    lemma_code_nibble(f.response.code());
    assert(f.bytes().skip(3) =~= f.operands);
}

/// Vendor-dependent operands with a 24-bit company ID are read back from their
/// bytes.
pub proof fn law_vendor_dependent_round_trip(company_id: u32, data: Seq<u8>)
    requires
        company_id < 0x100_0000,
    ensures
        vendor_of(vendor_operands(company_id, data)) == Some(
            VendorDependentModel { company_id, data },
        ),
{
    bytes::lemma_be24_round_trip(company_id);
    assert(vendor_operands(company_id, data).skip(3) =~= data);
}

proof fn lemma_pass_through_byte(id: u8)
    by (bit_vector)
    requires
        id < 0x80,
    ensures
        (0x00u8 | (id & 0x7F)) & 0x80 == 0,
        (0x00u8 | (id & 0x7F)) & 0x7F == id,
        (0x80u8 | (id & 0x7F)) & 0x80 != 0,
        (0x80u8 | (id & 0x7F)) & 0x7F == id,
{
}

/// Pass-through operands with a 7-bit operation ID and at most 255 bytes of
/// data are read back from their bytes.
pub proof fn law_pass_through_round_trip(p: PassThroughModel)
    requires
        p.operation_id < 0x80,
        p.operation_data.len() <= 255,
    ensures
        pass_through_of(p.operands()) == Some(p),
{
    lemma_pass_through_byte(p.operation_id);
    assert(p.operands().subrange(2, 2 + p.operation_data.len() as int) =~= p.operation_data);
}

} // verus!
