//! Frames and their check sequence.

use vstd::prelude::*;
use crate::bytes;
use crate::classic::rfcomm::frame_type;
use crate::layout;
use crate::models;

verus! {

// ---------------------------------------------------------------------------
// Frame check sequence
// ---------------------------------------------------------------------------

/// One step of the division by the polynomial x^8 + x^2 + x + 1, with the bits
/// reflected.
pub open spec fn fcs_bit(x: u8) -> u8 {
    if x & 1 != 0 {
        (x >> 1) ^ 0xE0
    } else {
        x >> 1
    }
}

/// `n` steps of the division.
pub open spec fn fcs_bits(x: u8, n: nat) -> u8
    decreases n,
{
    if n == 0 {
        x
    } else {
        fcs_bit(fcs_bits(x, (n - 1) as nat))
    }
}

/// The remainder after bytes; it starts with all bits set.
pub open spec fn fcs_remainder(data: Seq<u8>) -> u8
    decreases data.len(),
{
    if data.len() == 0 {
        0xFF
    } else {
        fcs_bits(fcs_remainder(data.drop_last()) ^ data.last(), 8)
    }
}

/// The frame check sequence of bytes: the remainder, inverted.
pub open spec fn fcs_of(data: Seq<u8>) -> u8 {
    (0xFF - fcs_remainder(data)) as u8
}

/// Computes the frame check sequence of bytes.
pub fn compute_fcs(buffer: &[u8]) -> (r: u8)
    ensures
        r == fcs_of(buffer@),
{
    let mut result: u8 = 0xFF;
    let mut i: usize = 0;
    while i < buffer.len()
        invariant
            i <= buffer@.len(),
            result == fcs_remainder(buffer@.take(i as int)),
        decreases buffer@.len() - i,
    {
        assert(buffer@.take(i + 1).drop_last() =~= buffer@.take(i as int));
        let start: u8 = result ^ buffer[i];
        let mut x: u8 = start;
        let mut n: u8 = 0;
        while n < 8
            invariant
                n <= 8,
                x == fcs_bits(start, n as nat),
            decreases 8 - n,
        {
            x = if x & 1 != 0 {
                (x >> 1) ^ 0xE0
            } else {
                x >> 1
            };
            n = n + 1;
        }
        result = x;
        i = i + 1;
    }
    assert(buffer@.take(i as int) =~= buffer@);
    0xFF - result
}

// ---------------------------------------------------------------------------
// Frame
// ---------------------------------------------------------------------------

/// One frame. `with_credits` says that a UIH frame carries a leading credit
/// octet: that octet counts in `information` but not in the length field.
#[derive(Debug, Clone, PartialEq, Eq)]
pub struct RfcommFrame {
    /// Frame type (see `frame_type`), without the P/F bit.
    pub frame_type: u8,
    /// Command/response bit.
    pub c_r: u8,
    /// Data link connection identifier.
    pub dlci: u8,
    /// Poll/Final bit.
    pub p_f: u8,
    /// Information, with the leading credit octet where there is one.
    pub information: Vec<u8>,
    /// Whether the information starts with a credit octet.
    pub with_credits: bool,
}

/// The model of a [`RfcommFrame`].
#[verifier::ext_equal]
pub struct FrameModel {
    pub frame_type: u8,
    pub c_r: u8,
    pub dlci: u8,
    pub p_f: u8,
    pub information: Seq<u8>,
    pub with_credits: bool,
}

impl View for RfcommFrame {
    type V = FrameModel;

    open spec fn view(&self) -> FrameModel {
        FrameModel {
            frame_type: self.frame_type,
            c_r: self.c_r,
            dlci: self.dlci,
            p_f: self.p_f,
            information: self.information@,
            with_credits: self.with_credits,
        }
    }
}

/// A frame without information and with the P/F bit set.
pub open spec fn bare(frame_type: u8, c_r: u8, dlci: u8) -> FrameModel {
    FrameModel { frame_type, c_r, dlci, p_f: 1, information: seq![], with_credits: false }
}

/// A UIH frame; P/F marks a leading credit octet.
pub open spec fn uih(c_r: u8, dlci: u8, information: Seq<u8>, p_f: u8) -> FrameModel {
    FrameModel {
        frame_type: frame_type::UIH,
        c_r,
        dlci,
        p_f,
        information,
        with_credits: p_f == 1,
    }
}

impl FrameModel {
    /// The address octet.
    pub open spec fn address(self) -> u8 {
        (self.dlci << 2) | (self.c_r << 1) | 1
    }

    /// The control octet.
    pub open spec fn control(self) -> u8 {
        self.frame_type | (self.p_f << 4)
    }

    /// The value of the length field.
    pub open spec fn length(self) -> int {
        if self.with_credits && self.information.len() > 0 {
            self.information.len() - 1
        } else {
            self.information.len() as int
        }
    }

    /// The length field: one octet up to 127, two above.
    pub open spec fn length_field(self) -> Seq<u8> {
        let n = self.length();
        if n > 0x7F {
            seq![((n % 0x80) * 2) as u8, ((n / 0x80) % 0x100) as u8]
        } else {
            seq![(n * 2 + 1) as u8]
        }
    }

    /// The frame check sequence: over address and control, and for all frames
    /// but UIH over the length field too.
    pub open spec fn fcs(self) -> u8 {
        if self.frame_type == frame_type::UIH {
            fcs_of(seq![self.address(), self.control()])
        } else {
            fcs_of(seq![self.address(), self.control()] + self.length_field())
        }
    }

    /// The wire form of this frame.
    pub open spec fn bytes(self) -> Seq<u8> {
        seq![self.address(), self.control()] + self.length_field() + self.information + seq![
            self.fcs(),
        ]
    }
}

/// The frame with the fields that an address and a control octet hold.
pub open spec fn frame_with(address: u8, control: u8, information: Seq<u8>) -> FrameModel {
    FrameModel {
        frame_type: control & 0xEF,
        c_r: (address >> 1) & 1,
        dlci: (address >> 2) & 0x3F,
        p_f: (control >> 4) & 1,
        information,
        with_credits: false,
    }
}

/// Where the information starts: behind header and length field, whose low bit
/// says how long the field is.
pub open spec fn information_start(data: Seq<u8>) -> int {
    if data[2] & 1 != 0 {
        3
    } else {
        4
    }
}

/// What the length field says.
pub open spec fn declared_length(data: Seq<u8>) -> int {
    if data[2] & 1 != 0 {
        (data[2] / 2) as int
    } else {
        data[2] / 2 + data[3] * 0x80
    }
}

impl FrameModel {
    /// Whether the information starts with a credit octet, which the length
    /// field does not count.
    pub open spec fn grants_credits(self) -> bool {
        self.frame_type == frame_type::UIH && self.p_f == 1
    }
}

/// The frame that bytes encode. The information is what stands between the
/// length field and the check sequence, which has to match. It is no shorter
/// than the length field says.
pub open spec fn frame_of(data: Seq<u8>) -> Option<FrameModel> {
    if data.len() < 3 || data.len() < information_start(data) + 1 {
        None
    } else {
        let frame = frame_with(
            data[0],
            data[1],
            data.subrange(information_start(data), data.len() - 1),
        );
        let owed = if frame.grants_credits() {
            declared_length(data) + 1
        } else {
            declared_length(data)
        };
        if frame.information.len() >= owed && frame.fcs() == data.last() {
            Some(frame)
        } else {
            None
        }
    }
}

impl RfcommFrame {
    fn new(
        frame_type: u8,
        c_r: u8,
        dlci: u8,
        p_f: u8,
        information: Vec<u8>,
        with_credits: bool,
    ) -> (r: Self)
        ensures
            r@ == (FrameModel {
                frame_type,
                c_r,
                dlci,
                p_f,
                information: information@,
                with_credits,
            }),
    {
        RfcommFrame { frame_type, c_r, dlci, p_f, information, with_credits }
    }

    fn without_information(frame_type: u8, c_r: u8, dlci: u8) -> (r: Self)
        ensures
            r@ == bare(frame_type, c_r, dlci),
    {
        let r = Self::new(frame_type, c_r, dlci, 1, Vec::new(), false);
        assert(r@ =~= bare(frame_type, c_r, dlci));
        r
    }

    /// Builds a SABM frame.
    pub fn sabm(c_r: u8, dlci: u8) -> (r: Self)
        ensures
            r@ == bare(frame_type::SABM, c_r, dlci),
    {
        Self::without_information(frame_type::SABM, c_r, dlci)
    }

    /// Builds a UA (unnumbered acknowledgement) frame.
    pub fn ua(c_r: u8, dlci: u8) -> (r: Self)
        ensures
            r@ == bare(frame_type::UA, c_r, dlci),
    {
        Self::without_information(frame_type::UA, c_r, dlci)
    }

    /// Builds a DM (disconnected mode) frame.
    pub fn dm(c_r: u8, dlci: u8) -> (r: Self)
        ensures
            r@ == bare(frame_type::DM, c_r, dlci),
    {
        Self::without_information(frame_type::DM, c_r, dlci)
    }

    /// Builds a DISC frame.
    pub fn disc(c_r: u8, dlci: u8) -> (r: Self)
        ensures
            r@ == bare(frame_type::DISC, c_r, dlci),
    {
        Self::without_information(frame_type::DISC, c_r, dlci)
    }

    /// Builds a UIH frame; `p_f = 1` marks a leading credit octet.
    pub fn uih(c_r: u8, dlci: u8, information: Vec<u8>, p_f: u8) -> (r: Self)
        ensures
            r@ == uih(c_r, dlci, information@, p_f),
    {
        Self::new(frame_type::UIH, c_r, dlci, p_f, information, p_f == 1)
    }

    fn address_byte(&self) -> (r: u8)
        ensures
            r == self@.address(),
    {
        (self.dlci << 2) | (self.c_r << 1) | 1
    }

    fn control_byte(&self) -> (r: u8)
        ensures
            r == self@.control(),
    {
        self.frame_type | (self.p_f << 4)
    }

    fn length_bytes(&self) -> (r: Vec<u8>)
        ensures
            r@ == self@.length_field(),
    {
        let len: usize = if self.with_credits && self.information.len() > 0 {
            self.information.len() - 1
        } else {
            self.information.len()
        };
        let r: Vec<u8> = if len > 0x7F {
            vec![((len % 0x80) * 2) as u8, ((len / 0x80) % 0x100) as u8]
        } else {
            vec![(len * 2 + 1) as u8]
        };
        assert(r@ =~= self@.length_field());
        r
    }

    fn fcs(&self) -> (r: u8)
        ensures
            r == self@.fcs(),
    {
        let mut checked: Vec<u8> = vec![self.address_byte(), self.control_byte()];
        assert(checked@ =~= seq![self@.address(), self@.control()]);
        if self.frame_type != frame_type::UIH {
            let length = self.length_bytes();
            bytes::push_bytes(&mut checked, &length);
        }
        compute_fcs(&checked)
    }

    /// Serializes the whole frame: header, length, information and check
    /// sequence.
    pub fn to_bytes(&self) -> (r: Vec<u8>)
        ensures
            r@ == self@.bytes(),
    {
        let mut out: Vec<u8> = vec![self.address_byte(), self.control_byte()];
        let length = self.length_bytes();
        bytes::push_bytes(&mut out, &length);
        bytes::push_bytes(&mut out, &self.information);
        out.push(self.fcs());
        assert(out@ =~= self@.bytes());
        out
    }

    /// Parses a whole frame. Returns `None` when it is cut short or when the
    /// check sequence does not match.
    pub fn parse(data: &[u8]) -> (r: Option<Self>)
        ensures
            models::opt_view(r) == frame_of(data@),
    {
        let (header, rest) = match layout::prefix_2(data) {
            None => {
                return None;
            },
            Some(parts) => parts,
        };
        assert(header@[0] == data@[0] && header@[1] == data@[1]);
        if rest.len() == 0 {
            return None;
        }
        assert(rest@[0] == data@[2]);
        let start: usize = if rest[0] & 1 != 0 {
            1
        } else {
            2
        };
        if rest.len() < start + 1 {
            return None;
        }
        let declared: usize = if start == 1 {
            (rest[0] / 2) as usize
        } else {
            assert(rest@[1] == data@[3]);
            (rest[0] / 2) as usize + rest[1] as usize * 0x80
        };
        assert(declared == declared_length(data@));
        let address: u8 = header[0];
        let control: u8 = header[1];
        let information = bytes::copy_range(rest, start, rest.len() - 1);
        assert(information@ =~= data@.subrange(start + 2, data@.len() - 1));
        let check: u8 = rest[rest.len() - 1];
        assert(check == data@.last());
        let frame = Self::new(
            control & 0xEF,
            (address >> 1) & 1,
            (address >> 2) & 0x3F,
            (control >> 4) & 1,
            information,
            false,
        );
        let owed: usize = if frame.frame_type == frame_type::UIH && frame.p_f == 1 {
            declared + 1
        } else {
            declared
        };
        if frame.information.len() < owed || frame.fcs() != check {
            return None;
        }
        Some(frame)
    }
}

// ---------------------------------------------------------------------------
// Laws
// ---------------------------------------------------------------------------

/// Whether the fields of a frame fit their bits, and the frame carries a credit
/// octet exactly where it says so: the type leaves out the P/F bit, and of all
/// frames UIH frames with that bit carry credits.
pub open spec fn fits(f: FrameModel) -> bool {
    &&& f.frame_type & 0xEF == f.frame_type
    &&& f.c_r <= 1
    &&& f.dlci < 64
    &&& f.p_f <= 1
    &&& f.with_credits == f.grants_credits()
    &&& f.with_credits ==> f.information.len() > 0
}

proof fn lemma_header_bits(frame_type: u8, c_r: u8, dlci: u8, p_f: u8)
    by (bit_vector)
    requires
        frame_type & 0xEF == frame_type,
        c_r <= 1,
        dlci < 64,
        p_f <= 1,
    ensures
        (frame_type | (p_f << 4)) & 0xEF == frame_type,
        ((frame_type | (p_f << 4)) >> 4) & 1 == p_f,
        (((dlci << 2) | (c_r << 1) | 1) >> 1) & 1 == c_r,
        (((dlci << 2) | (c_r << 1) | 1) >> 2) & 0x3F == dlci,
{
}

proof fn lemma_length_bit(n: u8)
    by (bit_vector)
    ensures
        n & 1 == n % 2,
{
}

/// What is left of a frame between its header and its check sequence, and what
/// its length field says.
proof fn lemma_frame_parts(f: FrameModel, check: u8)
    ensures
        ({
            let data = seq![f.address(), f.control()] + f.length_field() + f.information + seq![
                check,
            ];
            let start = information_start(data);
            &&& start == 2 + f.length_field().len()
            &&& data.len() == start + f.information.len() + 1
            &&& data[0] == f.address()
            &&& data[1] == f.control()
            &&& data.subrange(start, data.len() - 1) == f.information
            &&& data.last() == check
            &&& declared_length(data) <= f.length()
            &&& f.length() <= 0x7FFF ==> declared_length(data) == f.length()
        }),
{
    let data = seq![f.address(), f.control()] + f.length_field() + f.information + seq![check];
    assert(data[2] == f.length_field()[0]);
    lemma_length_bit(data[2]);
    let start = 2 + f.length_field().len() as int;
    if f.length() > 0x7F {
        assert(data[3] == f.length_field()[1]);
    }
    assert(data.subrange(start, data.len() - 1) =~= f.information);
}

/// A frame whose fields fit their bits is read back from its bytes; a credit
/// octet is then part of the information.
pub proof fn law_frame_round_trip(f: FrameModel)
    requires
        fits(f),
    ensures
        frame_of(f.bytes()) == Some(FrameModel { with_credits: false, ..f }),
{
    lemma_frame_parts(f, f.fcs());
    lemma_header_bits(f.frame_type, f.c_r, f.dlci, f.p_f);
    let parsed = FrameModel { with_credits: false, ..f };
    assert(frame_with(f.address(), f.control(), f.information) == parsed);
    assert(parsed.fcs() == f.fcs());
}

/// A frame with another check sequence than its own is rejected.
pub proof fn law_corrupt_check_is_rejected(f: FrameModel, check: u8)
    requires
        fits(f),
        check != f.fcs(),
    ensures
        frame_of(
            seq![f.address(), f.control()] + f.length_field() + f.information + seq![check],
        ) is None,
{
    lemma_frame_parts(f, check);
    lemma_header_bits(f.frame_type, f.c_r, f.dlci, f.p_f);
    let parsed = FrameModel { with_credits: false, ..f };
    assert(frame_with(f.address(), f.control(), f.information) == parsed);
    assert(parsed.fcs() == f.fcs());
}

/// A frame that is cut short, wherever that is, is rejected. The length field
/// counts to 32767.
pub proof fn law_truncated_frame_is_rejected(f: FrameModel, kept: int)
    requires
        fits(f),
        f.length() <= 0x7FFF,
        0 <= kept < f.bytes().len(),
    ensures
        frame_of(f.bytes().take(kept)) is None,
{
    lemma_frame_parts(f, f.fcs());
    lemma_header_bits(f.frame_type, f.c_r, f.dlci, f.p_f);
    let whole = f.bytes();
    let data = whole.take(kept);
    if kept >= 3 {
        assert(data[2] == whole[2]);
        if kept >= information_start(data) + 1 {
            if kept > 3 {
                assert(data[3] == whole[3]);
            }
            assert(declared_length(data) == f.length());
        }
    }
}

} // verus!
