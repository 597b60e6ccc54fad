use vstd::prelude::*;

verus! {

use crate::varint::{varint_dec_u64, varint_enc, Varint};

/// A length-prefixed byte blob: a varint length `N` followed by `N` arbitrary
/// bytes.
#[derive(Clone, PartialEq, Debug)]
pub struct VarintBinary(pub Vec<u8>);

impl View for VarintBinary {
    type V = Seq<u8>;

    open spec fn view(&self) -> Seq<u8> {
        self.0@
    }
}

/// The wire encoding of a blob: the varint of its length, then its bytes.
pub open spec fn varint_binary_enc(b: Seq<u8>) -> Seq<u8> {
    varint_enc(b.len()) + b
}

/// Decodes the blob at the front of `s`: its bytes and the number of bytes of
/// `s` consumed.  `None` when `s` ends inside the length or inside the
/// announced `N` bytes.
pub open spec fn varint_binary_dec(s: Seq<u8>) -> Option<(Seq<u8>, int)> {
    match varint_dec_u64(s) {
        None => None,
        Some((len, n)) => if s.len() - n >= len {
            Some((s.subrange(n, n + len), n + len))
        } else {
            None
        },
    }
}

/// The reason a blob fails to decode.
#[derive(Clone, Copy, PartialEq, Eq, Structural, Debug)]
pub enum VarintBinaryParseError {
    InsufficientBytes,
}

impl VarintBinary {
    pub fn new(val: &Vec<u8>) -> (r: Self)
        ensures
            r@ == val@,
    {
        Self(val.clone())
    }

    /// The blob's bytes.
    pub fn val(&self) -> (r: &[u8])
        ensures
            r@ == self@,
    {
        self.0.as_slice()
    }

    /// Decodes the blob that starts at `pos`, returning it and the position
    /// just past it.
    pub fn decode(bytes: &[u8], pos: usize) -> (r: Result<
        (VarintBinary, usize),
        VarintBinaryParseError,
    >)
        requires
            pos <= bytes@.len(),
        ensures
            match r {
                Ok((b, end)) => {
                    &&& varint_binary_dec(bytes@.skip(pos as int)) == Some::<(Seq<u8>, int)>(
                        (b@, end - pos),
                    )
                    &&& pos < end <= bytes@.len()
                },
                Err(e) => {
                    &&& varint_binary_dec(bytes@.skip(pos as int)) is None
                    &&& e == VarintBinaryParseError::InsufficientBytes
                },
            },
    {
        let ghost s = bytes@.skip(pos as int);
        let (len_varint, p) = match Varint::decode(bytes, pos) {
            Ok(v) => v,
            Err(_) => {
                return Err(VarintBinaryParseError::InsufficientBytes);
            },
        };
        let len = len_varint.u64_val();
        if ((bytes.len() - p) as u64) < len {
            return Err(VarintBinaryParseError::InsufficientBytes);
        }
        let len = len as usize;
        let part = vstd::slice::slice_subrange(bytes, p, p + len);
        let v = vstd::slice::slice_to_vec(part);
        assert(v@ =~= s.subrange(p - pos, p - pos + len));
        Ok((VarintBinary(v), p + len))
    }

    /// Appends the blob's wire encoding to `buf`.
    pub fn write_to(&self, buf: &mut Vec<u8>)
        ensures
            final(buf)@ == old(buf)@ + varint_binary_enc(self@),
    {
        let len = Varint(self.0.len() as u64);
        len.write_to(buf);
        let mut tail = vstd::slice::slice_to_vec(self.0.as_slice());
        buf.append(&mut tail);
        assert(buf@ =~= old(buf)@ + varint_binary_enc(self@));
    }
}

/// A decoded blob occupies at least one byte of the input, at most all of it,
/// and holds no more bytes than were consumed.
pub proof fn lemma_varint_binary_dec_bounds(s: Seq<u8>)
    ensures
        varint_binary_dec(s) matches Some((b, n)) ==> 1 <= n <= s.len() && b.len() < n,
{
    if varint_binary_dec(s) is Some {
        crate::varint::lemma_varint_dec_bounds(s);
    }
}

/// Encode/decode round trip for blobs, on any byte stream that starts with
/// the encoding.
pub proof fn lemma_varint_binary_round_trip(b: Seq<u8>, rest: Seq<u8>)
    requires
        b.len() <= u64::MAX,
    ensures
        varint_binary_dec(varint_binary_enc(b) + rest) == Some::<(Seq<u8>, int)>(
            (b, varint_binary_enc(b).len() as int),
        ),
{
    let lv: u64 = b.len() as u64;
    crate::varint::lemma_varint_round_trip(lv, b + rest);
    let whole = varint_binary_enc(b) + rest;
    assert(whole =~= varint_enc(b.len()) + (b + rest));
    let n = varint_enc(b.len()).len() as int;
    assert(varint_dec_u64(whole) == Some::<(u64, int)>((lv, n)));
    assert(whole.subrange(n, n + lv as int) =~= b);
}

} // verus!
