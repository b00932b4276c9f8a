//! Commands on the multiplexer control channel.

use vstd::prelude::*;
use crate::bytes;

verus! {

/// The command in the information of a control frame: its type, whether it is
/// a command (and not a response), and where its value starts and ends. The
/// low bit of the length field says whether it has one or two bytes.
pub open spec fn mcc_of(data: Seq<u8>) -> Option<(u8, bool, int, int)> {
    if data.len() < 2 {
        None
    } else {
        let kind: u8 = data[0] >> 2;
        let command = (data[0] >> 1) & 1 != 0;
        if data[1] & 1 != 0 {
            let length = data[1] / 2;
            if data.len() < 2 + length {
                None
            } else {
                Some((kind, command, 2, 2 + length))
            }
        } else if data.len() < 3 {
            None
        } else {
            let length = data[1] / 2 + data[2] * 0x80;
            if data.len() < 3 + length {
                None
            } else {
                Some((kind, command, 3, 3 + length))
            }
        }
    }
}

/// Parses a command: its type, whether it is a command, and its value.
pub fn parse_mcc(data: &[u8]) -> (r: Option<(u8, bool, &[u8])>)
    ensures
        match r {
            Some((kind, command, value)) => match mcc_of(data@) {
                Some((k, c, from, to)) => k == kind && c == command && 0 <= from <= to
                    <= data@.len() && value@ == data@.subrange(from, to),
                None => false,
            },
            None => mcc_of(data@) is None,
        },
{
    if data.len() < 2 {
        return None;
    }
    let kind: u8 = data[0] >> 2;
    let command = (data[0] >> 1) & 1 != 0;
    if data[1] & 1 != 0 {
        let length: usize = (data[1] / 2) as usize;
        if data.len() - 2 < length {
            None
        } else {
            Some((kind, command, bytes::range(data, 2, 2 + length)))
        }
    } else if data.len() < 3 {
        None
    } else {
        let length: usize = (data[1] / 2) as usize + (data[2] as usize) * 0x80;
        if data.len() - 3 < length {
            None
        } else {
            Some((kind, command, bytes::range(data, 3, 3 + length)))
        }
    }
}

/// The wire form of a command with a value of at most 127 bytes.
pub open spec fn mcc_bytes(kind: u8, command: bool, value: Seq<u8>) -> Seq<u8> {
    let flag: u8 = if command {
        1
    } else {
        0
    };
    seq![(kind << 2) | (flag << 1) | 1, ((value.len() as u8 & 0x7F) << 1) | 1] + value
}

/// Builds a command. The length field has one byte: the values used here are
/// short.
pub fn make_mcc(kind: u8, command: bool, value: &[u8]) -> (r: Vec<u8>)
    ensures
        r@ == mcc_bytes(kind, command, value@),
{
    let flag: u8 = if command {
        1
    } else {
        0
    };
    let mut out: Vec<u8> = vec![
        (kind << 2) | (flag << 1) | 1,
        ((value.len() as u8 & 0x7F) << 1) | 1,
    ];
    bytes::push_bytes(&mut out, value);
    assert(out@ =~= mcc_bytes(kind, command, value@));
    out
}

/// Parameter negotiation: settles a DLC's maximum frame size and number of
/// initial credits before it opens.
#[derive(Debug, Clone, Copy, PartialEq, Eq, Structural)]
pub struct MccPn {
    /// DLCI that this negotiation is about.
    pub dlci: u8,
    /// Convergence layer (see `pn_cl`).
    pub cl: u8,
    /// Priority.
    pub priority: u8,
    /// Acknowledgement timer (not used).
    pub ack_timer: u8,
    /// Maximum frame size.
    pub max_frame_size: u16,
    /// Maximum retransmissions (none for UIH).
    pub max_retransmissions: u8,
    /// Initial credits; only the low 3 bits go on the wire.
    pub initial_credits: u8,
}

/// The negotiation that a value holds.
pub open spec fn pn_of(data: Seq<u8>) -> Option<MccPn> {
    if data.len() < 8 {
        None
    } else {
        Some(
            MccPn {
                dlci: data[0],
                cl: data[1],
                priority: data[2],
                ack_timer: data[3],
                max_frame_size: bytes::le16(data, 4),
                max_retransmissions: data[6],
                initial_credits: data[7] % 8,
            },
        )
    }
}

impl MccPn {
    /// The wire form of this negotiation.
    pub open spec fn wire(self) -> Seq<u8> {
        seq![self.dlci, self.cl, self.priority, self.ack_timer] + bytes::le16_bytes(
            self.max_frame_size,
        ) + seq![self.max_retransmissions, self.initial_credits % 8]
    }

    /// Encodes the 8-byte value.
    pub fn to_bytes(self) -> (r: [u8; 8])
        ensures
            r@ == self.wire(),
    {
        let r: [u8; 8] = [
            self.dlci,
            self.cl,
            self.priority,
            self.ack_timer,
            (self.max_frame_size % 0x100) as u8,
            (self.max_frame_size / 0x100) as u8,
            self.max_retransmissions,
            self.initial_credits % 8,
        ];
        assert(r@ =~= self.wire());
        r
    }

    /// Decodes the 8-byte value.
    pub fn parse(data: &[u8]) -> (r: Option<Self>)
        ensures
            r == pn_of(data@),
    {
        if data.len() < 8 {
            return None;
        }
        Some(
            MccPn {
                dlci: data[0],
                cl: data[1],
                priority: data[2],
                ack_timer: data[3],
                max_frame_size: bytes::read_le16(data, 4),
                max_retransmissions: data[6],
                initial_credits: data[7] % 8,
            },
        )
    }
}

/// Modem status: the signal state of a DLC.
#[derive(Debug, Clone, Copy, PartialEq, Eq, Structural)]
pub struct MccMsc {
    /// DLCI that this status is about.
    pub dlci: u8,
    /// Flow control.
    pub fc: bool,
    /// Ready to communicate.
    pub rtc: bool,
    /// Ready to receive.
    pub rtr: bool,
    /// Incoming call.
    pub ic: bool,
    /// Data valid.
    pub dv: bool,
}

/// The modem status that a value holds.
pub open spec fn msc_of(data: Seq<u8>) -> Option<MccMsc> {
    if data.len() < 2 {
        None
    } else {
        Some(
            MccMsc {
                dlci: data[0] >> 2,
                fc: (data[1] >> 1) & 1 != 0,
                rtc: (data[1] >> 2) & 1 != 0,
                rtr: (data[1] >> 3) & 1 != 0,
                ic: (data[1] >> 6) & 1 != 0,
                dv: (data[1] >> 7) & 1 != 0,
            },
        )
    }
}

/// A flag as a bit.
pub open spec fn bit(flag: bool) -> u8 {
    if flag {
        1
    } else {
        0
    }
}

fn flag_bit(flag: bool) -> (r: u8)
    ensures
        r == bit(flag),
{
    if flag {
        1
    } else {
        0
    }
}

/// The modem status with all signals asserted.
pub open spec fn ready(dlci: u8) -> MccMsc {
    MccMsc { dlci, fc: false, rtc: true, rtr: true, ic: false, dv: true }
}

impl MccMsc {
    /// The wire form of this status.
    pub open spec fn wire(self) -> Seq<u8> {
        seq![
            (self.dlci << 2) | 3,
            1 | (bit(self.fc) << 1) | (bit(self.rtc) << 2) | (bit(self.rtr) << 3) | (bit(self.ic)
                << 6) | (bit(self.dv) << 7),
        ]
    }

    /// Encodes the 2-byte value.
    pub fn to_bytes(self) -> (r: [u8; 2])
        ensures
            r@ == self.wire(),
    {
        let r: [u8; 2] = [
            (self.dlci << 2) | 3,
            1 | (flag_bit(self.fc) << 1) | (flag_bit(self.rtc) << 2) | (flag_bit(self.rtr) << 3) | (
            flag_bit(self.ic) << 6) | (flag_bit(self.dv) << 7),
        ];
        assert(r@ =~= self.wire());
        r
    }

    /// Decodes the 2-byte value.
    pub fn parse(data: &[u8]) -> (r: Option<Self>)
        ensures
            r == msc_of(data@),
    {
        if data.len() < 2 {
            return None;
        }
        Some(
            MccMsc {
                dlci: data[0] >> 2,
                fc: (data[1] >> 1) & 1 != 0,
                rtc: (data[1] >> 2) & 1 != 0,
                rtr: (data[1] >> 3) & 1 != 0,
                ic: (data[1] >> 6) & 1 != 0,
                dv: (data[1] >> 7) & 1 != 0,
            },
        )
    }

    /// The status with all signals asserted.
    pub fn default_response(dlci: u8) -> (r: Self)
        ensures
            r == ready(dlci),
    {
        MccMsc { dlci, fc: false, rtc: true, rtr: true, ic: false, dv: true }
    }
}

// ---------------------------------------------------------------------------
// Laws
// ---------------------------------------------------------------------------

proof fn lemma_mcc_bits(kind: u8, flag: u8, length: u8)
    by (bit_vector)
    requires
        kind < 64,
        flag <= 1,
        length < 128,
    ensures
        ((kind << 2) | (flag << 1) | 1) >> 2 == kind,
        (((kind << 2) | (flag << 1) | 1) >> 1) & 1 == flag,
        (((length & 0x7F) << 1) | 1) & 1 != 0,
        (((length & 0x7F) << 1) | 1) / 2 == length,
{
}

/// A command with a 6-bit type and at most 127 bytes of value is read back
/// from its bytes.
pub proof fn law_mcc_round_trip(kind: u8, command: bool, value: Seq<u8>)
    requires
        kind < 64,
        value.len() < 128,
    ensures
        mcc_of(mcc_bytes(kind, command, value)) == Some(
            (kind, command, 2int, 2 + value.len() as int),
        ),
        mcc_bytes(kind, command, value).subrange(2, 2 + value.len() as int) == value,
{
    let flag: u8 = bit(command);
    lemma_mcc_bits(kind, flag, value.len() as u8);
    assert(mcc_bytes(kind, command, value).subrange(2, 2 + value.len() as int) =~= value);
}

/// A parameter negotiation with at most 7 credits is read back from its bytes.
pub proof fn law_pn_round_trip(pn: MccPn)
    requires
        pn.initial_credits < 8,
    ensures
        pn_of(pn.wire()) == Some(pn),
{
    bytes::lemma_le16_round_trip(pn.max_frame_size);
}

proof fn lemma_msc_bits(dlci: u8, fc: u8, rtc: u8, rtr: u8, ic: u8, dv: u8)
    by (bit_vector)
    requires
        dlci < 64,
        fc <= 1,
        rtc <= 1,
        rtr <= 1,
        ic <= 1,
        dv <= 1,
    ensures
        ((dlci << 2) | 3) >> 2 == dlci,
        ((1 | (fc << 1) | (rtc << 2) | (rtr << 3) | (ic << 6) | (dv << 7)) >> 1) & 1 == fc,
        ((1 | (fc << 1) | (rtc << 2) | (rtr << 3) | (ic << 6) | (dv << 7)) >> 2) & 1 == rtc,
        ((1 | (fc << 1) | (rtc << 2) | (rtr << 3) | (ic << 6) | (dv << 7)) >> 3) & 1 == rtr,
        ((1 | (fc << 1) | (rtc << 2) | (rtr << 3) | (ic << 6) | (dv << 7)) >> 6) & 1 == ic,
        ((1 | (fc << 1) | (rtc << 2) | (rtr << 3) | (ic << 6) | (dv << 7)) >> 7) & 1 == dv,
{
}

/// A modem status for a 6-bit DLCI is read back from its bytes.
pub proof fn law_msc_round_trip(msc: MccMsc)
    requires
        msc.dlci < 64,
    ensures
        msc_of(msc.wire()) == Some(msc),
{
    lemma_msc_bits(
        msc.dlci,
        bit(msc.fc),
        bit(msc.rtc),
        bit(msc.rtr),
        bit(msc.ic),
        bit(msc.dv),
    );
}

} // verus!
