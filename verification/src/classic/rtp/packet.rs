//! Media packets and their header.

use vstd::prelude::*;
use crate::bytes;
use crate::layout;
use crate::text;

verus! {

/// The version of RTP.
pub const RTP_VERSION: u8 = 2;

/// The dynamic payload type that sources conventionally use for SBC. A sink
/// must not rely on it.
pub const DEFAULT_PAYLOAD_TYPE: u8 = 96;

/// The fixed part of an RTP header. A list of `csrc_count` 32-bit identifiers
/// may follow it before the payload.
#[derive(Debug, Clone, Copy, PartialEq, Eq, Structural)]
pub struct RtpHeader {
    /// Bits 7-6 version, bit 5 padding, bit 4 extension, bits 3-0 CSRC count.
    pub flags: u8,
    /// Bit 7 marker, bits 6-0 payload type.
    pub marker_and_payload_type: u8,
    /// Increments by one per packet, and wraps.
    pub sequence_number: u16,
    /// Sampling instant of the first octet, in codec sample units.
    pub timestamp: u32,
    /// Synchronization source: identifies the stream.
    pub ssrc: u32,
}

/// The header that the first twelve bytes hold.
pub open spec fn header_of(data: Seq<u8>) -> RtpHeader {
    RtpHeader {
        flags: data[0],
        marker_and_payload_type: data[1],
        sequence_number: bytes::be16(data, 2),
        timestamp: bytes::be32(data, 4),
        ssrc: bytes::be32(data, 8),
    }
}

impl RtpHeader {
    /// The length of the header on the wire, without CSRC identifiers.
    pub const LEN: usize = 12;

    /// The wire form of this header.
    pub open spec fn wire(self) -> Seq<u8> {
        seq![self.flags, self.marker_and_payload_type] + bytes::be16_bytes(self.sequence_number)
            + bytes::be32_bytes(self.timestamp) + bytes::be32_bytes(self.ssrc)
    }

    /// A header without padding, extension and CSRC identifiers.
    pub fn new(sequence_number: u16, timestamp: u32, ssrc: u32, payload_type: u8) -> (r: Self)
        ensures
            r == (RtpHeader {
                flags: 0x80,
                marker_and_payload_type: payload_type % 0x80,
                sequence_number,
                timestamp,
                ssrc,
            }),
    {
        RtpHeader {
            flags: RTP_VERSION * 0x40,
            marker_and_payload_type: payload_type % 0x80,
            sequence_number,
            timestamp,
            ssrc,
        }
    }

    /// The RTP version; nothing but [`RTP_VERSION`] can be read.
    pub fn version(&self) -> (r: u8)
        ensures
            r == self.flags / 0x40,
    {
        self.flags / 0x40
    }

    /// Whether the payload ends in padding octets.
    pub fn padding(&self) -> (r: bool)
        ensures
            r == ((self.flags / 0x20) % 2 == 1),
    {
        (self.flags / 0x20) % 2 == 1
    }

    /// Whether a header extension follows the CSRC list.
    pub fn extension(&self) -> (r: bool)
        ensures
            r == ((self.flags / 0x10) % 2 == 1),
    {
        (self.flags / 0x10) % 2 == 1
    }

    /// How many 32-bit CSRC identifiers follow the fixed header.
    pub fn csrc_count(&self) -> (r: usize)
        ensures
            r == self.flags % 0x10,
    {
        (self.flags % 0x10) as usize
    }

    /// The marker bit.
    pub fn marker(&self) -> (r: bool)
        ensures
            r == (self.marker_and_payload_type >= 0x80),
    {
        self.marker_and_payload_type >= 0x80
    }

    /// The payload type (see [`DEFAULT_PAYLOAD_TYPE`]).
    pub fn payload_type(&self) -> (r: u8)
        ensures
            r == self.marker_and_payload_type % 0x80,
    {
        self.marker_and_payload_type % 0x80
    }

    /// Appends the wire form of this header.
    fn write_to(&self, out: &mut Vec<u8>)
        ensures
            final(out)@ == old(out)@ + self.wire(),
    {
        let ghost before = out@;
        out.push(self.flags);
        out.push(self.marker_and_payload_type);
        let sequence_number = layout::u16_field(self.sequence_number);
        bytes::push_bytes(out, &sequence_number);
        let timestamp = layout::u32_field(self.timestamp);
        bytes::push_bytes(out, &timestamp);
        let ssrc = layout::u32_field(self.ssrc);
        bytes::push_bytes(out, &ssrc);
        assert(out@ =~= before + self.wire());
    }

    /// Reads the header from its twelve bytes.
    fn from_prefix(prefix: &[u8; 12]) -> (r: Self)
        ensures
            r == header_of(prefix@),
    {
        RtpHeader {
            flags: prefix[0],
            marker_and_payload_type: prefix[1],
            sequence_number: layout::u16_from([prefix[2], prefix[3]]),
            timestamp: layout::u32_from([prefix[4], prefix[5], prefix[6], prefix[7]]),
            ssrc: layout::u32_from([prefix[8], prefix[9], prefix[10], prefix[11]]),
        }
    }
}

/// One media packet: its header fields and the codec payload, as it travels.
#[derive(Debug, Clone, PartialEq, Eq)]
pub struct MediaPacket {
    /// Sequence number, for the detection of loss and reordering.
    pub sequence_number: u16,
    /// Media timestamp in codec sample units.
    pub timestamp: u32,
    /// Synchronization source identifier.
    pub ssrc: u32,
    /// Payload type.
    pub payload_type: u8,
    /// Marker bit.
    pub marker: bool,
    /// The codec payload, opaque here.
    pub payload: Vec<u8>,
}

/// The model of a [`MediaPacket`].
#[verifier::ext_equal]
pub struct MediaPacketModel {
    pub sequence_number: u16,
    pub timestamp: u32,
    pub ssrc: u32,
    pub payload_type: u8,
    pub marker: bool,
    pub payload: Seq<u8>,
}

impl View for MediaPacket {
    type V = MediaPacketModel;

    open spec fn view(&self) -> MediaPacketModel {
        MediaPacketModel {
            sequence_number: self.sequence_number,
            timestamp: self.timestamp,
            ssrc: self.ssrc,
            payload_type: self.payload_type,
            marker: self.marker,
            payload: self.payload@,
        }
    }
}

/// Why a media packet could not be read.
#[derive(Debug, Clone, Copy, PartialEq, Eq, Structural)]
pub enum MediaPacketError {
    /// Shorter than a fixed header, or cut inside the CSRC list.
    Truncated,
    /// The version field is not 2.
    UnsupportedVersion(u8),
    /// The declared padding length is zero or exceeds the payload.
    BadPadding,
}

impl MediaPacketError {
    /// The text of [`Self::to_text`].
    pub open spec fn text(self) -> Seq<char> {
        match self {
            MediaPacketError::Truncated => "media packet is truncated"@,
            MediaPacketError::UnsupportedVersion(v) => "unsupported RTP version "@ + text::decimal(
                v as nat,
            ),
            MediaPacketError::BadPadding => "media packet declares invalid padding"@,
        }
    }

    /// What went wrong, in words.
    pub fn to_text(&self) -> (r: String)
        ensures
            r@ == self.text(),
    {
        match self {
            MediaPacketError::Truncated => text::owned("media packet is truncated"),
            MediaPacketError::UnsupportedVersion(v) => {
                let mut message = text::owned("unsupported RTP version ");
                text::append_decimal(&mut message, *v as u64);
                message
            },
            MediaPacketError::BadPadding => text::owned("media packet declares invalid padding"),
        }
    }
}

/// The payload without the padding that its last octet counts, that octet
/// included.
pub open spec fn unpadded(payload: Seq<u8>) -> Result<Seq<u8>, MediaPacketError> {
    if payload.len() == 0 || payload.last() == 0 || payload.last() > payload.len() {
        Err(MediaPacketError::BadPadding)
    } else {
        Ok(payload.take(payload.len() - payload.last()))
    }
}

/// The packet that bytes hold: the payload follows the CSRC list, and ends
/// before the padding where the header declares some.
pub open spec fn packet_of(data: Seq<u8>) -> Result<MediaPacketModel, MediaPacketError> {
    let header = header_of(data);
    let start = 12 + 4 * (header.flags % 0x10);
    if data.len() < 12 {
        Err(MediaPacketError::Truncated)
    } else if header.flags / 0x40 != RTP_VERSION {
        Err(MediaPacketError::UnsupportedVersion(header.flags / 0x40))
    } else if data.len() < start {
        Err(MediaPacketError::Truncated)
    } else {
        let payload = if (header.flags / 0x20) % 2 == 1 {
            unpadded(data.skip(start))
        } else {
            Ok(data.skip(start))
        };
        match payload {
            Ok(payload) => Ok(
                MediaPacketModel {
                    sequence_number: header.sequence_number,
                    timestamp: header.timestamp,
                    ssrc: header.ssrc,
                    payload_type: header.marker_and_payload_type % 0x80,
                    marker: header.marker_and_payload_type >= 0x80,
                    payload,
                },
            ),
            Err(why) => Err(why),
        }
    }
}

impl MediaPacketModel {
    /// The header of this packet.
    pub open spec fn header(self) -> RtpHeader {
        RtpHeader {
            flags: 0x80,
            marker_and_payload_type: (self.payload_type % 0x80 + if self.marker {
                0x80int
            } else {
                0
            }) as u8,
            sequence_number: self.sequence_number,
            timestamp: self.timestamp,
            ssrc: self.ssrc,
        }
    }

    /// The wire form of this packet.
    pub open spec fn wire(self) -> Seq<u8> {
        self.header().wire() + self.payload
    }
}

impl MediaPacket {
    /// Serializes the packet: fixed header and payload, no CSRC identifiers.
    pub fn to_bytes(&self) -> (r: Vec<u8>)
        ensures
            r@ == self@.wire(),
    {
        let mut header = RtpHeader::new(
            self.sequence_number,
            self.timestamp,
            self.ssrc,
            self.payload_type,
        );
        if self.marker {
            header.marker_and_payload_type = header.marker_and_payload_type + 0x80;
        }
        let mut out: Vec<u8> = Vec::new();
        header.write_to(&mut out);
        bytes::push_bytes(&mut out, &self.payload);
        assert(out@ =~= self@.wire());
        out
    }

    /// Parses a media packet. A truncated packet, another version or bad
    /// padding is an error: a sink that accepts malformed media plays noise.
    pub fn parse(data: &[u8]) -> (r: Result<Self, MediaPacketError>)
        ensures
            match r {
                Ok(packet) => packet_of(data@) == Ok::<MediaPacketModel, MediaPacketError>(
                    packet@,
                ),
                Err(why) => packet_of(data@) == Err::<MediaPacketModel, MediaPacketError>(why),
            },
    {
        let (prefix, rest) = match layout::prefix_12(data) {
            Some(parts) => parts,
            None => {
                return Err(MediaPacketError::Truncated);
            },
        };
        let header = RtpHeader::from_prefix(prefix);
        assert(header == header_of(data@));
        if header.version() != RTP_VERSION {
            return Err(MediaPacketError::UnsupportedVersion(header.version()));
        }
        // The CSRC list sits between the fixed header and the payload.
        let csrc_bytes: usize = header.csrc_count() * 4;
        if rest.len() < csrc_bytes {
            return Err(MediaPacketError::Truncated);
        }
        let whole = bytes::range(rest, csrc_bytes, rest.len());
        assert(whole@ =~= data@.skip(12 + csrc_bytes));
        let end: usize = if header.padding() {
            if whole.len() == 0 {
                return Err(MediaPacketError::BadPadding);
            }
            let pad: usize = whole[whole.len() - 1] as usize;
            if pad == 0 || pad > whole.len() {
                return Err(MediaPacketError::BadPadding);
            }
            whole.len() - pad
        } else {
            whole.len()
        };
        let payload = bytes::copy_range(whole, 0, end);
        assert(payload@ =~= whole@.take(end as int));
        assert(!((header.flags / 0x20) % 2 == 1) ==> payload@ =~= whole@);
        Ok(
            MediaPacket {
                sequence_number: header.sequence_number,
                timestamp: header.timestamp,
                ssrc: header.ssrc,
                payload_type: header.payload_type(),
                marker: header.marker(),
                payload,
            },
        )
    }
}

// ---------------------------------------------------------------------------
// Laws
// ---------------------------------------------------------------------------

/// A header is read back from its bytes, whatever follows.
pub proof fn law_header_round_trip(h: RtpHeader, rest: Seq<u8>)
    ensures
        header_of(h.wire() + rest) == h,
        h.wire().len() == RtpHeader::LEN,
{
    bytes::lemma_be16_round_trip(h.sequence_number);
    bytes::lemma_be32_round_trip(h.timestamp);
    bytes::lemma_be32_round_trip(h.ssrc);
}

/// A packet with a payload type of 7 bits is read back from its bytes.
pub proof fn law_packet_round_trip(p: MediaPacketModel)
    requires
        p.payload_type < 0x80,
    ensures
        packet_of(p.wire()) == Ok::<MediaPacketModel, MediaPacketError>(p),
{
    law_header_round_trip(p.header(), p.payload);
    assert(p.wire().skip(12) =~= p.payload);
}

} // verus!
