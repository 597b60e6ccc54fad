use vstd::prelude::*;

verus! {

use crate::frame_codec::{length_prefixed_dec, length_prefixed_enc};
use crate::frame_flags::{flags_is_abort, flags_is_fin, FrameFlags, FrameFlagsParseError};
use crate::frame_header::{frame_header_dec, frame_header_enc, FrameHeader, FrameHeaderV};
use crate::frame_payload::{payload_dec, payload_enc, payload_type_of, payload_type_of_payload,
    payload_wf, FramePayload, FramePayloadParseError, FramePayloadV};
use crate::frame_type::{FrameType, FrameTypeParseError};
use crate::varint::Varint;

/// One whole SPOP frame: its header fields and its decoded payload.
#[derive(Clone, Debug)]
pub struct FrameStorage {
    pub frame_type: FrameType,
    pub flags: FrameFlags,
    pub stream_id: Varint,
    pub frame_id: Varint,
    pub payload: FramePayload,
}

/// The mathematical shape of a whole frame.
pub struct FrameStorageV {
    pub frame_type: FrameType,
    pub flags: u32,
    pub stream_id: u64,
    pub frame_id: u64,
    pub payload: FramePayloadV,
}

impl View for FrameStorage {
    type V = FrameStorageV;

    open spec fn view(&self) -> FrameStorageV {
        FrameStorageV {
            frame_type: self.frame_type,
            flags: self.flags@,
            stream_id: self.stream_id@,
            frame_id: self.frame_id@,
            payload: self.payload@,
        }
    }
}

/// The header part of a whole frame.
pub open spec fn frame_storage_header(f: FrameStorageV) -> FrameHeaderV {
    FrameHeaderV {
        frame_type: f.frame_type,
        flags: f.flags,
        stream_id: f.stream_id,
        frame_id: f.frame_id,
    }
}

/// Structural soundness of a whole frame: its payload is sound, belongs to
/// the frame type's sub-grammar, and its flags are expressible (ABORT only
/// with FIN).
pub open spec fn frame_storage_wf(f: FrameStorageV) -> bool {
    &&& payload_wf(f.payload)
    &&& payload_type_of(f.frame_type) == Some(payload_type_of_payload(f.payload))
    &&& (flags_is_abort(f.flags) ==> flags_is_fin(f.flags))
}

/// The wire encoding of a whole frame: its header, then its payload.
pub open spec fn frame_storage_enc(f: FrameStorageV) -> Seq<u8> {
    frame_header_enc(frame_storage_header(f)) + payload_enc(f.payload)
}

/// The reason a whole frame fails to decode.
#[derive(Clone, Copy, PartialEq, Eq, Structural, Debug)]
pub enum FrameStorageParseError {
    InvalidType(FrameTypeParseError),
    InvalidFlags(FrameFlagsParseError),
    InvalidStreamID,
    InvalidFrameID,
    InvalidPayload(FramePayloadParseError),
    /// The frame type reserves no payload sub-grammar (UNSET).
    UnsetFrameType,
}

/// Decodes a whole frame from the entire buffer: header, then the payload
/// sub-grammar the type selects, consuming everything.
pub open spec fn frame_storage_dec(s: Seq<u8>) -> Result<FrameStorageV, FrameStorageParseError> {
    match frame_header_dec(s) {
        Err(e) => Err(
            match e {
                crate::frame_header::FrameHeaderParseError::InvalidType(t) => FrameStorageParseError::InvalidType(
                    t,
                ),
                crate::frame_header::FrameHeaderParseError::InvalidFlags(f) => FrameStorageParseError::InvalidFlags(
                    f,
                ),
                crate::frame_header::FrameHeaderParseError::InvalidStreamID => FrameStorageParseError::InvalidStreamID,
                crate::frame_header::FrameHeaderParseError::InvalidFrameID => FrameStorageParseError::InvalidFrameID,
            },
        ),
        Ok((h, n)) => match payload_type_of(h.frame_type) {
            None => Err(FrameStorageParseError::UnsetFrameType),
            Some(pt) => match payload_dec(s.skip(n), pt) {
                Err(e) => Err(FrameStorageParseError::InvalidPayload(e)),
                Ok(p) => Ok(
                    FrameStorageV {
                        frame_type: h.frame_type,
                        flags: h.flags,
                        stream_id: h.stream_id,
                        frame_id: h.frame_id,
                        payload: p,
                    },
                ),
            },
        },
    }
}

impl FrameStorage {
    /// Decodes a whole frame from the entire buffer.
    #[verifier::rlimit(100)]
    #[verifier::spinoff_prover]
    pub fn decode(bytes: &[u8]) -> (r: Result<FrameStorage, FrameStorageParseError>)
        ensures
            match r {
                Ok(f) => {
                    &&& frame_storage_dec(bytes@) == Ok::<_, FrameStorageParseError>(f@)
                    &&& payload_wf(f@.payload)
                    &&& payload_type_of(f@.frame_type) == Some(
                        payload_type_of_payload(f@.payload),
                    )
                },
                Err(e) => frame_storage_dec(bytes@) == Err::<FrameStorageV, _>(e),
            },
    {
        assert(bytes@.skip(0) =~= bytes@);
        let (header, p) = match FrameHeader::decode(bytes, 0) {
            Ok(v) => v,
            Err(e) => {
                return Err(
                    match e {
                        crate::frame_header::FrameHeaderParseError::InvalidType(t) => FrameStorageParseError::InvalidType(
                            t,
                        ),
                        crate::frame_header::FrameHeaderParseError::InvalidFlags(f) => FrameStorageParseError::InvalidFlags(
                            f,
                        ),
                        crate::frame_header::FrameHeaderParseError::InvalidStreamID => FrameStorageParseError::InvalidStreamID,
                        crate::frame_header::FrameHeaderParseError::InvalidFrameID => FrameStorageParseError::InvalidFrameID,
                    },
                );
            },
        };
        let payload_type = match crate::frame_payload::payload_type_of_exec(header.frame_type) {
            Some(pt) => pt,
            None => {
                return Err(FrameStorageParseError::UnsetFrameType);
            },
        };
        let payload = match FramePayload::decode(bytes, p, payload_type) {
            Ok(v) => v,
            Err(e) => {
                return Err(FrameStorageParseError::InvalidPayload(e));
            },
        };
        Ok(
            FrameStorage {
                frame_type: header.frame_type,
                flags: header.flags,
                stream_id: header.stream_id,
                frame_id: header.frame_id,
                payload,
            },
        )
    }

    /// Appends the frame's wire encoding (header then payload) to `buf`.
    pub fn write_to(&self, buf: &mut Vec<u8>)
        ensures
            final(buf)@ == old(buf)@ + frame_storage_enc(self@),
    {
        let header = FrameHeader {
            frame_type: self.frame_type,
            flags: self.flags,
            stream_id: self.stream_id,
            frame_id: self.frame_id,
        };
        header.write_to(buf);
        self.payload.write_to(buf);
        assert(buf@ =~= old(buf)@ + frame_storage_enc(self@));
    }

    /// The frame's wire bytes.
    pub fn to_bytes(&self) -> (r: Vec<u8>)
        ensures
            r@ == frame_storage_enc(self@),
    {
        let mut buf: Vec<u8> = Vec::new();
        self.write_to(&mut buf);
        assert(buf@ =~= frame_storage_enc(self@));
        buf
    }
}

/// Encode/decode round trip for whole frames, through the outer length
/// prefix: stripping the 32-bit length from a prefixed well-formed frame and
/// decoding the frame bytes yields the frame back.
pub proof fn lemma_frame_round_trip(f: FrameStorageV)
    requires
        frame_storage_wf(f),
        frame_storage_enc(f).len() <= u32::MAX,
    ensures
        length_prefixed_dec(length_prefixed_enc(frame_storage_enc(f))) matches Some((frame, _))
            && frame_storage_dec(frame) == Ok::<_, FrameStorageParseError>(f),
{
    let enc = frame_storage_enc(f);
    crate::frame_codec::lemma_length_prefixed_round_trip(enc, Seq::<u8>::empty());
    assert(length_prefixed_enc(enc) + Seq::<u8>::empty() =~= length_prefixed_enc(enc));
    lemma_frame_storage_round_trip(f);
}

/// Encode/decode round trip for the frame bytes alone.
pub proof fn lemma_frame_storage_round_trip(f: FrameStorageV)
    requires
        frame_storage_wf(f),
    ensures
        frame_storage_dec(frame_storage_enc(f)) == Ok::<_, FrameStorageParseError>(f),
{
    let he = frame_header_enc(frame_storage_header(f));
    let pe = payload_enc(f.payload);
    let whole = frame_storage_enc(f);
    crate::frame_header::lemma_frame_header_round_trip(frame_storage_header(f), pe);
    assert(whole.skip(he.len() as int) =~= pe);
    crate::frame_payload::lemma_payload_round_trip(f.payload);
}

} // verus!
