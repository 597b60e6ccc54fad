use vstd::prelude::*;

verus! {

use crate::frame_flags::u32_be_enc;

/// The outer length framing of the byte stream: every SPOP frame is preceded
/// by a 32-bit big-endian length that counts exactly the frame's bytes.
pub struct FrameCodec;

/// The wire form of one length-delimited frame: the length, then the bytes.
pub open spec fn length_prefixed_enc(frame: Seq<u8>) -> Seq<u8> {
    u32_be_enc(frame.len() as u32) + frame
}

/// Extracts the first whole frame from the front of `s`: its bytes and how
/// many bytes of `s` it occupied with its prefix.  `None` while the length or
/// the frame itself has not fully arrived.
pub open spec fn length_prefixed_dec(s: Seq<u8>) -> Option<(Seq<u8>, int)> {
    if s.len() < 4 {
        None
    } else {
        let len = (s[0] * 0x1000000 + s[1] * 0x10000 + s[2] * 0x100 + s[3]) as u32;
        if s.len() - 4 >= len {
            Some((s.subrange(4, 4 + len as int), 4 + len as int))
        } else {
            None
        }
    }
}

impl FrameCodec {
    /// Appends `frame` to `dst` behind its 32-bit big-endian length.
    pub fn encode(src: &Vec<u8>, dst: &mut Vec<u8>)
        requires
            src@.len() <= u32::MAX,
        ensures
            final(dst)@ == old(dst)@ + length_prefixed_enc(src@),
    {
        crate::frame_flags::write_u32_be(src.len() as u32, dst);
        let mut tail = vstd::slice::slice_to_vec(src.as_slice());
        dst.append(&mut tail);
        assert(dst@ =~= old(dst)@ + length_prefixed_enc(src@));
    }

    /// Takes the first whole frame out of the front of `src`, if one has
    /// fully arrived, returning its bytes and the position just past it.
    pub fn decode(src: &[u8]) -> (r: Option<(Vec<u8>, usize)>)
        ensures
            match r {
                Some((frame, end)) => {
                    &&& length_prefixed_dec(src@) == Some::<(Seq<u8>, int)>((frame@, end as int))
                    &&& 4 <= end <= src@.len()
                },
                None => length_prefixed_dec(src@) is None,
            },
    {
        if src.len() < 4 {
            return None;
        }
        let len = (src[0] as u32) * 0x1000000 + (src[1] as u32) * 0x10000 + (src[2] as u32) * 0x100
            + (src[3] as u32);
        if ((src.len() - 4) as u64) < (len as u64) {
            return None;
        }
        let len = len as usize;
        let frame = vstd::slice::slice_to_vec(vstd::slice::slice_subrange(src, 4, 4 + len));
        Some((frame, 4 + len))
    }
}

/// Prefixing a frame with its length and stripping the prefix again yields
/// the frame, on any byte stream that starts this way.
pub proof fn lemma_length_prefixed_round_trip(frame: Seq<u8>, rest: Seq<u8>)
    requires
        frame.len() <= u32::MAX,
    ensures
        length_prefixed_dec(length_prefixed_enc(frame) + rest) == Some::<(Seq<u8>, int)>(
            (frame, 4 + frame.len() as int),
        ),
{
    let whole = length_prefixed_enc(frame) + rest;
    crate::frame_flags::lemma_u32_be_round_trip(frame.len() as u32, frame + rest);
    assert(whole =~= u32_be_enc(frame.len() as u32) + (frame + rest));
    assert(whole.subrange(4, 4 + frame.len() as int) =~= frame);
}

} // verus!
