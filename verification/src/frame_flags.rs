use vstd::prelude::*;

verus! {

use vstd::arithmetic::div_mod::{lemma_div_denominator, lemma_fundamental_div_mod};

/// The 32-bit big-endian flags word of a frame header.  Bit 0 is FIN (this
/// frame is the last fragment) and bit 1 is ABORT (discard the fragmented
/// frame); ABORT may only be set together with FIN.
#[derive(Clone, Copy, PartialEq, Eq, Structural, Debug)]
pub struct FrameFlags(pub u32);

impl View for FrameFlags {
    type V = u32;

    open spec fn view(&self) -> u32 {
        self.0
    }
}

/// Whether bit 0 (FIN) is set in a flags word.
pub open spec fn flags_is_fin(f: u32) -> bool {
    f % 2 == 1
}

/// Whether bit 1 (ABORT) is set in a flags word.
pub open spec fn flags_is_abort(f: u32) -> bool {
    (f / 2) % 2 == 1
}

/// The four big-endian bytes of a 32-bit word.
pub open spec fn u32_be_enc(v: u32) -> Seq<u8> {
    seq![
        (v / 0x1000000) as u8,
        ((v / 0x10000) % 0x100) as u8,
        ((v / 0x100) % 0x100) as u8,
        (v % 0x100) as u8,
    ]
}

/// Decodes the 32-bit big-endian word at the front of `s`.
pub open spec fn u32_be_dec(s: Seq<u8>) -> Option<(u32, int)> {
    if s.len() < 4 {
        None
    } else {
        Some(
            (
                (s[0] * 0x1000000 + s[1] * 0x10000 + s[2] * 0x100 + s[3]) as u32,
                4,
            ),
        )
    }
}

/// Splitting a 32-bit word into big-endian bytes and reassembling them gives
/// the word back.
pub proof fn lemma_u32_be_round_trip(v: u32, rest: Seq<u8>)
    ensures
        u32_be_dec(u32_be_enc(v) + rest) == Some::<(u32, int)>((v, 4)),
{
    let s = u32_be_enc(v) + rest;
    assert(s[0] == (v / 0x1000000) as u8);
    assert(s[1] == ((v / 0x10000) % 0x100) as u8);
    assert(s[2] == ((v / 0x100) % 0x100) as u8);
    assert(s[3] == (v % 0x100) as u8);
    lemma_fundamental_div_mod(v as int, 0x100);
    lemma_fundamental_div_mod(v as int / 0x100, 0x100);
    lemma_fundamental_div_mod(v as int / 0x10000, 0x100);
    lemma_div_denominator(v as int, 0x100, 0x100);
    lemma_div_denominator(v as int, 0x10000, 0x100);
    lemma_div_denominator(v as int / 0x100, 0x100, 0x100);
    assert(v == (v as int / 0x1000000) * 0x1000000 + ((v as int / 0x10000) % 0x100) * 0x10000 + ((
    v as int / 0x100) % 0x100) * 0x100 + (v as int % 0x100));
}

/// The reason a flags word fails to decode.
#[derive(Clone, Copy, PartialEq, Eq, Structural, Debug)]
pub enum FrameFlagsParseError {
    InsufficientBytes,
    /// ABORT was set without FIN, which the protocol forbids.
    FINNotSet,
}

/// Decodes the flags word at the front of `s`, rejecting ABORT without FIN.
pub open spec fn frame_flags_dec(s: Seq<u8>) -> Result<(u32, int), FrameFlagsParseError> {
    match u32_be_dec(s) {
        None => Err(FrameFlagsParseError::InsufficientBytes),
        Some((f, n)) => if flags_is_abort(f) && !flags_is_fin(f) {
            Err(FrameFlagsParseError::FINNotSet)
        } else {
            Ok((f, n))
        },
    }
}

impl FrameFlags {
    /// Whether this frame is the last (or only) fragment.
    pub fn is_fin(&self) -> (r: bool)
        ensures
            r == flags_is_fin(self@),
    {
        self.0 % 2 == 1
    }

    /// Whether the engine asks to discard the fragmented frame.
    pub fn is_abort(&self) -> (r: bool)
        ensures
            r == flags_is_abort(self@),
    {
        (self.0 / 2) % 2 == 1
    }

    /// A flags word with exactly the given FIN and ABORT bits.
    pub fn new(is_fin: bool, is_abort: bool) -> (r: Self)
        ensures
            flags_is_fin(r@) == is_fin,
            flags_is_abort(r@) == is_abort,
            r@ == (if is_fin {
                1u32
            } else {
                0u32
            }) + (if is_abort {
                2u32
            } else {
                0u32
            }),
    {
        let mut val: u32 = 0;
        if is_fin {
            val = val + 1;
        }
        if is_abort {
            val = val + 2;
        }
        Self(val)
    }

    /// The raw 32-bit value.
    pub fn val(&self) -> (r: u32)
        ensures
            r == self@,
    {
        self.0
    }

    /// Decodes the flags word that starts at `pos`.
    pub fn decode(bytes: &[u8], pos: usize) -> (r: Result<(FrameFlags, usize), FrameFlagsParseError>)
        requires
            pos <= bytes@.len(),
        ensures
            match r {
                Ok((f, end)) => {
                    &&& frame_flags_dec(bytes@.skip(pos as int)) == Ok::<_, FrameFlagsParseError>(
                        (f@, end - pos),
                    )
                    &&& pos < end <= bytes@.len()
                },
                Err(e) => frame_flags_dec(bytes@.skip(pos as int)) == Err::<(u32, int), _>(e),
            },
    {
        if bytes.len() - pos < 4 {
            return Err(FrameFlagsParseError::InsufficientBytes);
        }
        let b0 = bytes[pos] as u32;
        let b1 = bytes[pos + 1] as u32;
        let b2 = bytes[pos + 2] as u32;
        let b3 = bytes[pos + 3] as u32;
        let f = b0 * 0x1000000 + b1 * 0x10000 + b2 * 0x100 + b3;
        let flags = FrameFlags(f);
        assert(bytes@.skip(pos as int)[0] == bytes@[pos as int]);
        if flags.is_abort() && !flags.is_fin() {
            return Err(FrameFlagsParseError::FINNotSet);
        }
        Ok((flags, pos + 4))
    }

    /// Appends the four big-endian bytes of the flags word to `buf`.
    pub fn write_to(&self, buf: &mut Vec<u8>)
        ensures
            final(buf)@ == old(buf)@ + u32_be_enc(self@),
    {
        write_u32_be(self.0, buf);
    }
}

/// Appends the four big-endian bytes of a 32-bit word to `buf`.
pub fn write_u32_be(v: u32, buf: &mut Vec<u8>)
    ensures
        final(buf)@ == old(buf)@ + u32_be_enc(v),
{
    buf.push((v / 0x1000000) as u8);
    buf.push(((v / 0x10000) % 0x100) as u8);
    buf.push(((v / 0x100) % 0x100) as u8);
    buf.push((v % 0x100) as u8);
    assert(buf@ =~= old(buf)@ + u32_be_enc(v));
}

} // verus!
