use vstd::prelude::*;

verus! {

use crate::frame_flags::{frame_flags_dec, u32_be_enc, FrameFlags, FrameFlagsParseError};
use crate::frame_type::{frame_type_code, frame_type_dec, FrameType, FrameTypeParseError};
use crate::varint::{varint_dec_u64, varint_enc, Varint};

/// The fixed part of every SPOP frame: its type byte, the 32-bit big-endian
/// flags word, and the varint stream and frame identifiers.
#[derive(Clone, Copy, Debug)]
pub struct FrameHeader {
    pub frame_type: FrameType,
    pub flags: FrameFlags,
    pub stream_id: Varint,
    pub frame_id: Varint,
}

/// The mathematical shape of a frame header.
pub struct FrameHeaderV {
    pub frame_type: FrameType,
    pub flags: u32,
    pub stream_id: u64,
    pub frame_id: u64,
}

impl View for FrameHeader {
    type V = FrameHeaderV;

    open spec fn view(&self) -> FrameHeaderV {
        FrameHeaderV {
            frame_type: self.frame_type,
            flags: self.flags@,
            stream_id: self.stream_id@,
            frame_id: self.frame_id@,
        }
    }
}

/// The wire encoding of a frame header.
pub open spec fn frame_header_enc(h: FrameHeaderV) -> Seq<u8> {
    seq![frame_type_code(h.frame_type)] + u32_be_enc(h.flags) + varint_enc(h.stream_id as nat)
        + varint_enc(h.frame_id as nat)
}

/// The reason a frame header fails to decode.
#[derive(Clone, Copy, PartialEq, Eq, Structural, Debug)]
pub enum FrameHeaderParseError {
    InvalidType(FrameTypeParseError),
    InvalidFlags(FrameFlagsParseError),
    InvalidStreamID,
    InvalidFrameID,
}

/// Decodes the frame header at the front of `s`.
pub open spec fn frame_header_dec(s: Seq<u8>) -> Result<(FrameHeaderV, int), FrameHeaderParseError> {
    match frame_type_dec(s) {
        Err(e) => Err(FrameHeaderParseError::InvalidType(e)),
        Ok((t, n1)) => match frame_flags_dec(s.skip(n1)) {
            Err(e) => Err(FrameHeaderParseError::InvalidFlags(e)),
            Ok((f, n2)) => match varint_dec_u64(s.skip(n1 + n2)) {
                None => Err(FrameHeaderParseError::InvalidStreamID),
                Some((sid, n3)) => match varint_dec_u64(s.skip(n1 + n2 + n3)) {
                    None => Err(FrameHeaderParseError::InvalidFrameID),
                    Some((fid, n4)) => Ok(
                        (
                            FrameHeaderV {
                                frame_type: t,
                                flags: f,
                                stream_id: sid,
                                frame_id: fid,
                            },
                            n1 + n2 + n3 + n4,
                        ),
                    ),
                },
            },
        },
    }
}

impl FrameHeader {
    /// Decodes the frame header that starts at `pos`, returning it and the
    /// position just past it.
    pub fn decode(bytes: &[u8], pos: usize) -> (r: Result<
        (FrameHeader, usize),
        FrameHeaderParseError,
    >)
        requires
            pos <= bytes@.len(),
        ensures
            match r {
                Ok((h, end)) => {
                    &&& frame_header_dec(bytes@.skip(pos as int)) == Ok::<_, FrameHeaderParseError>(
                        (h@, end - pos),
                    )
                    &&& pos < end <= bytes@.len()
                },
                Err(e) => frame_header_dec(bytes@.skip(pos as int)) == Err::<(FrameHeaderV, int), _>(
                    e,
                ),
            },
    {
        let ghost s = bytes@.skip(pos as int);
        let (frame_type, p1) = match FrameType::decode(bytes, pos) {
            Ok(v) => v,
            Err(e) => {
                return Err(FrameHeaderParseError::InvalidType(e));
            },
        };
        assert(s.skip(p1 - pos) =~= bytes@.skip(p1 as int));
        let (flags, p2) = match FrameFlags::decode(bytes, p1) {
            Ok(v) => v,
            Err(e) => {
                return Err(FrameHeaderParseError::InvalidFlags(e));
            },
        };
        assert(s.skip(p2 - pos) =~= bytes@.skip(p2 as int));
        let (stream_id, p3) = match Varint::decode(bytes, p2) {
            Ok(v) => v,
            Err(_) => {
                return Err(FrameHeaderParseError::InvalidStreamID);
            },
        };
        assert(s.skip(p3 - pos) =~= bytes@.skip(p3 as int));
        let (frame_id, p4) = match Varint::decode(bytes, p3) {
            Ok(v) => v,
            Err(_) => {
                return Err(FrameHeaderParseError::InvalidFrameID);
            },
        };
        Ok((FrameHeader { frame_type, flags, stream_id, frame_id }, p4))
    }

    /// Appends the header's wire encoding to `buf`.
    pub fn write_to(&self, buf: &mut Vec<u8>)
        ensures
            final(buf)@ == old(buf)@ + frame_header_enc(self@),
    {
        self.frame_type.write_to(buf);
        self.flags.write_to(buf);
        self.stream_id.write_to(buf);
        self.frame_id.write_to(buf);
        assert(buf@ =~= old(buf)@ + frame_header_enc(self@));
    }
}

/// Encode/decode round trip for frame headers, on any byte stream that starts
/// with the encoding, provided the flags word is one the decoder accepts
/// (ABORT only together with FIN).
#[verifier::rlimit(100)]
pub proof fn lemma_frame_header_round_trip(h: FrameHeaderV, rest: Seq<u8>)
    requires
        crate::frame_flags::flags_is_abort(h.flags) ==> crate::frame_flags::flags_is_fin(h.flags),
    ensures
        frame_header_dec(frame_header_enc(h) + rest) == Ok::<_, FrameHeaderParseError>(
            (h, frame_header_enc(h).len() as int),
        ),
{
    let whole = frame_header_enc(h) + rest;
    let fe = u32_be_enc(h.flags);
    let se = varint_enc(h.stream_id as nat);
    let ie = varint_enc(h.frame_id as nat);
    assert(whole[0] == frame_type_code(h.frame_type));
    assert(frame_type_dec(whole) == Ok::<_, FrameTypeParseError>((h.frame_type, 1int))) by {
        match h.frame_type {
            FrameType::UNSET => {},
            FrameType::HAPROXY_HELLO => {},
            FrameType::HAPROXY_DISCONNECT => {},
            FrameType::NOTIFY => {},
            FrameType::AGENT_HELLO => {},
            FrameType::AGENT_DISCONNECT => {},
            FrameType::ACK => {},
        }
    }
    assert(whole.skip(1) =~= fe + (se + (ie + rest)));
    crate::frame_flags::lemma_u32_be_round_trip(h.flags, se + (ie + rest));
    assert(whole.skip(5) =~= se + (ie + rest));
    crate::varint::lemma_varint_round_trip(h.stream_id, ie + rest);
    assert(whole.skip(5 + se.len() as int) =~= ie + rest);
    crate::varint::lemma_varint_round_trip(h.frame_id, rest);
}

} // verus!
