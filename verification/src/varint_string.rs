use vstd::prelude::*;

verus! {

use vstd::utf8::{decode_utf8, encode_utf8, encode_utf8_decode_utf8, encode_utf8_valid_utf8,
    valid_utf8};

use crate::varint::{varint_dec_u64, varint_enc, Varint};

/// A length-prefixed UTF-8 string: a varint length `N` followed by `N` bytes
/// that must form valid UTF-8.  The empty string encodes as the single byte
/// `0x00`.
#[derive(Clone, Debug)]
pub struct VarintString(pub String);

impl View for VarintString {
    type V = Seq<char>;

    open spec fn view(&self) -> Seq<char> {
        self.0@
    }
}

impl PartialEq for VarintString {
    fn eq(&self, other: &Self) -> (r: bool) {
        self.0 == other.0
    }
}

impl vstd::std_specs::cmp::PartialEqSpecImpl for VarintString {
    open spec fn obeys_eq_spec() -> bool {
        true
    }

    open spec fn eq_spec(&self, other: &Self) -> bool {
        self@ == other@
    }
}

impl Eq for VarintString {

}

/// The wire encoding of a string: the varint of its UTF-8 byte length, then
/// those bytes.
pub open spec fn varint_string_enc(s: Seq<char>) -> Seq<u8> {
    varint_enc(encode_utf8(s).len()) + encode_utf8(s)
}

/// The reason a string fails to decode.
#[derive(Clone, Copy, PartialEq, Eq, Structural, Debug)]
pub enum VarintStringParseError {
    InsufficientBytes,
    Invalid,
}

/// Decodes the string at the front of `s`: its characters and the number of
/// bytes consumed.  Fails with `InsufficientBytes` when `s` ends inside the
/// length or the announced `N` bytes, and with `Invalid` when those bytes are
/// not valid UTF-8.
pub open spec fn varint_string_dec(s: Seq<u8>) -> Result<
    (Seq<char>, int),
    VarintStringParseError,
> {
    match varint_dec_u64(s) {
        None => Err(VarintStringParseError::InsufficientBytes),
        Some((len, n)) => if s.len() - n < len {
            Err(VarintStringParseError::InsufficientBytes)
        } else {
            let payload = s.subrange(n, n + len);
            if valid_utf8(payload) {
                Ok((decode_utf8(payload), n + len))
            } else {
                Err(VarintStringParseError::Invalid)
            }
        },
    }
}

/// Relies on `String::from_utf8` of std: it returns `Ok` exactly when the
/// bytes are valid UTF-8, and the returned string is their decoding, i.e. its
/// UTF-8 encoding is the input bytes.
#[verifier::external_body]
fn bytes_to_string(v: Vec<u8>) -> (r: Option<String>)
    ensures
        r is Some <==> valid_utf8(v@),
        r matches Some(s) ==> encode_utf8(s@) == v@,
{
    match String::from_utf8(v) {
        Ok(s) => Some(s),
        Err(_) => None,
    }
}

impl VarintString {
    pub fn new(val: &str) -> (r: Self)
        ensures
            r@ == val@,
    {
        Self(val.to_owned())
    }

    /// The string's characters.
    pub fn val(&self) -> (r: &str)
        ensures
            r@ == self@,
    {
        self.0.as_str()
    }

    /// Decodes the string that starts at `pos`, returning it and the position
    /// just past it.
    pub fn decode(bytes: &[u8], pos: usize) -> (r: Result<
        (VarintString, usize),
        VarintStringParseError,
    >)
        requires
            pos <= bytes@.len(),
        ensures
            match r {
                Ok((v, end)) => {
                    &&& varint_string_dec(bytes@.skip(pos as int)) == Ok::<_, VarintStringParseError>(
                        (v@, end - pos),
                    )
                    &&& pos < end <= bytes@.len()
                },
                Err(e) => varint_string_dec(bytes@.skip(pos as int)) == Err::<(Seq<char>, int), _>(
                    e,
                ),
            },
    {
        let ghost s = bytes@.skip(pos as int);
        let (len_varint, p) = match Varint::decode(bytes, pos) {
            Ok(v) => v,
            Err(_) => {
                return Err(VarintStringParseError::InsufficientBytes);
            },
        };
        let len = len_varint.u64_val();
        if ((bytes.len() - p) as u64) < len {
            return Err(VarintStringParseError::InsufficientBytes);
        }
        let len = len as usize;
        let part = vstd::slice::slice_subrange(bytes, p, p + len);
        let v = vstd::slice::slice_to_vec(part);
        assert(v@ =~= s.subrange(p - pos, p - pos + len));
        match bytes_to_string(v) {
            Some(string) => {
                proof {
                    encode_utf8_decode_utf8(string@);
                }
                Ok((VarintString(string), p + len))
            },
            None => Err(VarintStringParseError::Invalid),
        }
    }

    /// Appends the string's wire encoding to `buf`.
    pub fn write_to(&self, buf: &mut Vec<u8>)
        ensures
            final(buf)@ == old(buf)@ + varint_string_enc(self@),
    {
        let bs = self.0.as_str().as_bytes();
        let len = Varint(bs.len() as u64);
        len.write_to(buf);
        let mut tail = vstd::slice::slice_to_vec(bs);
        buf.append(&mut tail);
        assert(buf@ =~= old(buf)@ + varint_string_enc(self@));
    }
}

/// A decoded string occupies at least one byte of the input and at most all
/// of it.
pub proof fn lemma_varint_string_dec_bounds(s: Seq<u8>)
    ensures
        varint_string_dec(s) matches Ok((c, n)) ==> 1 <= n <= s.len(),
{
    if varint_string_dec(s) is Ok {
        crate::varint::lemma_varint_dec_bounds(s);
    }
}

/// Whether two byte slices hold the same bytes.
pub fn slice_u8_eq(a: &[u8], b: &[u8]) -> (r: bool)
    ensures
        r == (a@ == b@),
{
    if a.len() != b.len() {
        return false;
    }
    let n = a.len();
    let mut i: usize = 0;
    while i < n
        invariant
            0 <= i <= n,
            n == a@.len() == b@.len(),
            forall|j: int| 0 <= j < i ==> a@[j] == b@[j],
        decreases n - i,
    {
        if a[i] != b[i] {
            return false;
        }
        i = i + 1;
    }
    proof {
        assert(a@ =~= b@);
    }
    true
}

/// Whether two strings hold the same characters.
pub fn str_eq(a: &str, b: &str) -> (r: bool)
    ensures
        r == (a@ == b@),
{
    let r = slice_u8_eq(a.as_bytes(), b.as_bytes());
    proof {
        if encode_utf8(a@) == encode_utf8(b@) {
            encode_utf8_decode_utf8(a@);
            encode_utf8_decode_utf8(b@);
        }
    }
    r
}

/// Encode/decode round trip for strings: decoding any byte stream that starts
/// with the encoding of `s` yields exactly `s`, and the length prefix equals
/// the string's byte length.
pub proof fn lemma_varint_string_round_trip(s: Seq<char>, rest: Seq<u8>)
    requires
        encode_utf8(s).len() <= u64::MAX,
    ensures
        varint_string_dec(varint_string_enc(s) + rest) == Ok::<_, VarintStringParseError>(
            (s, varint_string_enc(s).len() as int),
        ),
        varint_dec_u64(varint_string_enc(s) + rest) matches Some((len, _)) && len == encode_utf8(
            s,
        ).len(),
{
    let eb = encode_utf8(s);
    let lv: u64 = eb.len() as u64;
    crate::varint::lemma_varint_round_trip(lv, eb + rest);
    let whole = varint_string_enc(s) + rest;
    assert(whole =~= varint_enc(eb.len()) + (eb + rest));
    let n = varint_enc(eb.len()).len() as int;
    assert(varint_dec_u64(whole) == Some::<(u64, int)>((lv, n)));
    assert(whole.subrange(n, n + lv as int) =~= eb);
    encode_utf8_valid_utf8(s);
    encode_utf8_decode_utf8(s);
}

} // verus!
