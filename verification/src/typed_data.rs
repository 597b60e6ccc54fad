use vstd::prelude::*;

verus! {

use crate::varint::{varint_dec_u64, varint_enc, Varint};
use crate::varint_binary::{varint_binary_dec, varint_binary_enc, VarintBinary};
use crate::varint_string::{varint_string_dec, varint_string_enc, VarintString,
    VarintStringParseError};

/// A typed SPOP value: a tag byte whose low nibble selects the shape
/// (0..=9), followed by the shape's payload.  For BOOL the value sits in the
/// high bit of the tag byte itself; integers carry a varint, IPv4/IPv6 carry
/// 4/16 raw octets, STRING and BINARY carry length-prefixed bytes.
#[derive(Clone, PartialEq, Debug)]
#[allow(non_camel_case_types)]
pub enum TypedData {
    NULL,
    BOOL(bool),
    INT32(i32),
    UINT32(u32),
    INT64(i64),
    UINT64(u64),
    IPV4([u8; 4]),
    IPV6([u8; 16]),
    STRING(VarintString),
    BINARY(VarintBinary),
}

/// The mathematical shape of a typed value: what `TypedData` carries, with
/// strings as character sequences and octets as byte sequences.
#[allow(non_camel_case_types)]
pub enum TypedDataV {
    NULL,
    BOOL(bool),
    INT32(i32),
    UINT32(u32),
    INT64(i64),
    UINT64(u64),
    IPV4(Seq<u8>),
    IPV6(Seq<u8>),
    STRING(Seq<char>),
    BINARY(Seq<u8>),
}

impl View for TypedData {
    type V = TypedDataV;

    open spec fn view(&self) -> TypedDataV {
        match self {
            TypedData::NULL => TypedDataV::NULL,
            TypedData::BOOL(b) => TypedDataV::BOOL(*b),
            TypedData::INT32(v) => TypedDataV::INT32(*v),
            TypedData::UINT32(v) => TypedDataV::UINT32(*v),
            TypedData::INT64(v) => TypedDataV::INT64(*v),
            TypedData::UINT64(v) => TypedDataV::UINT64(*v),
            TypedData::IPV4(o) => TypedDataV::IPV4(o@),
            TypedData::IPV6(o) => TypedDataV::IPV6(o@),
            TypedData::STRING(s) => TypedDataV::STRING(s@),
            TypedData::BINARY(b) => TypedDataV::BINARY(b@),
        }
    }
}

/// Structural soundness of a typed value: the octet shapes have their fixed
/// lengths and the variable-length shapes fit a varint length.
pub open spec fn typed_data_wf(d: TypedDataV) -> bool {
    match d {
        TypedDataV::IPV4(o) => o.len() == 4,
        TypedDataV::IPV6(o) => o.len() == 16,
        TypedDataV::STRING(s) => vstd::utf8::encode_utf8(s).len() <= u64::MAX,
        TypedDataV::BINARY(b) => b.len() <= u64::MAX,
        _ => true,
    }
}

/// The wire encoding of a typed value: its tag byte, then its payload.
pub open spec fn typed_data_enc(d: TypedDataV) -> Seq<u8> {
    match d {
        TypedDataV::NULL => seq![0u8],
        TypedDataV::BOOL(b) => seq![if b {
            0x81u8
        } else {
            0x01u8
        }],
        TypedDataV::INT32(v) => seq![2u8] + varint_enc((v as u32) as nat),
        TypedDataV::UINT32(v) => seq![3u8] + varint_enc(v as nat),
        TypedDataV::INT64(v) => seq![4u8] + varint_enc((v as u64) as nat),
        TypedDataV::UINT64(v) => seq![5u8] + varint_enc(v as nat),
        TypedDataV::IPV4(o) => seq![6u8] + o,
        TypedDataV::IPV6(o) => seq![7u8] + o,
        TypedDataV::STRING(s) => seq![8u8] + varint_string_enc(s),
        TypedDataV::BINARY(b) => seq![9u8] + varint_binary_enc(b),
    }
}

/// The reason a typed value fails to decode.
#[derive(Clone, Copy, PartialEq, Eq, Structural, Debug)]
pub enum TypedDataParseError {
    InsufficientBytes,
    /// The tag's low nibble names no known shape.
    InvalidType,
    /// The payload does not fit the shape, e.g. a 32-bit integer whose varint
    /// exceeds 32 bits, or a string that is not UTF-8.
    Invalid,
}

/// How string errors surface from a typed value.
pub open spec fn string_err_to_typed(e: VarintStringParseError) -> TypedDataParseError {
    match e {
        VarintStringParseError::InsufficientBytes => TypedDataParseError::InsufficientBytes,
        VarintStringParseError::Invalid => TypedDataParseError::Invalid,
    }
}

/// Decodes the typed value at the front of `s`.  The tag's low nibble selects
/// the shape; its remaining bits are ignored except that BOOL reads its value
/// from the high bit.
pub open spec fn typed_data_dec(s: Seq<u8>) -> Result<(TypedDataV, int), TypedDataParseError> {
    if s.len() == 0 {
        Err(TypedDataParseError::InsufficientBytes)
    } else {
        let tag = s[0];
        let ty = tag % 16;
        let rest = s.skip(1);
        if ty == 0 {
            Ok((TypedDataV::NULL, 1))
        } else if ty == 1 {
            Ok((TypedDataV::BOOL(tag >= 128), 1))
        } else if ty == 2 {
            match varint_dec_u64(rest) {
                None => Err(TypedDataParseError::InsufficientBytes),
                Some((v, n)) => if v <= u32::MAX {
                    Ok((TypedDataV::INT32((v as u32) as i32), 1 + n))
                } else {
                    Err(TypedDataParseError::Invalid)
                },
            }
        } else if ty == 3 {
            match varint_dec_u64(rest) {
                None => Err(TypedDataParseError::InsufficientBytes),
                Some((v, n)) => if v <= u32::MAX {
                    Ok((TypedDataV::UINT32(v as u32), 1 + n))
                } else {
                    Err(TypedDataParseError::Invalid)
                },
            }
        } else if ty == 4 {
            match varint_dec_u64(rest) {
                None => Err(TypedDataParseError::InsufficientBytes),
                Some((v, n)) => Ok((TypedDataV::INT64(v as i64), 1 + n)),
            }
        } else if ty == 5 {
            match varint_dec_u64(rest) {
                None => Err(TypedDataParseError::InsufficientBytes),
                Some((v, n)) => Ok((TypedDataV::UINT64(v), 1 + n)),
            }
        } else if ty == 6 {
            if rest.len() < 4 {
                Err(TypedDataParseError::InsufficientBytes)
            } else {
                Ok((TypedDataV::IPV4(rest.take(4)), 5))
            }
        } else if ty == 7 {
            if rest.len() < 16 {
                Err(TypedDataParseError::InsufficientBytes)
            } else {
                Ok((TypedDataV::IPV6(rest.take(16)), 17))
            }
        } else if ty == 8 {
            match varint_string_dec(rest) {
                Err(e) => Err(string_err_to_typed(e)),
                Ok((str, n)) => Ok((TypedDataV::STRING(str), 1 + n)),
            }
        } else if ty == 9 {
            match varint_binary_dec(rest) {
                None => Err(TypedDataParseError::InsufficientBytes),
                Some((b, n)) => Ok((TypedDataV::BINARY(b), 1 + n)),
            }
        } else {
            Err(TypedDataParseError::InvalidType)
        }
    }
}

impl TypedData {
    pub fn get_null(&self) -> (r: Option<()>)
        ensures
            r is Some <==> self is NULL,
    {
        match self {
            Self::NULL => Some(()),
            _ => None,
        }
    }

    pub fn get_bool(&self) -> (r: Option<&bool>)
        ensures
            match *self {
                TypedData::BOOL(b) => r matches Some(x) && *x == b,
                _ => r is None,
            },
    {
        match self {
            Self::BOOL(v) => Some(v),
            _ => None,
        }
    }

    pub fn get_i32(&self) -> (r: Option<&i32>)
        ensures
            match *self {
                TypedData::INT32(v) => r matches Some(x) && *x == v,
                _ => r is None,
            },
    {
        match self {
            Self::INT32(v) => Some(v),
            _ => None,
        }
    }

    pub fn get_u32(&self) -> (r: Option<&u32>)
        ensures
            match *self {
                TypedData::UINT32(v) => r matches Some(x) && *x == v,
                _ => r is None,
            },
    {
        match self {
            Self::UINT32(v) => Some(v),
            _ => None,
        }
    }

    pub fn get_i64(&self) -> (r: Option<&i64>)
        ensures
            match *self {
                TypedData::INT64(v) => r matches Some(x) && *x == v,
                _ => r is None,
            },
    {
        match self {
            Self::INT64(v) => Some(v),
            _ => None,
        }
    }

    pub fn get_u64(&self) -> (r: Option<&u64>)
        ensures
            match *self {
                TypedData::UINT64(v) => r matches Some(x) && *x == v,
                _ => r is None,
            },
    {
        match self {
            Self::UINT64(v) => Some(v),
            _ => None,
        }
    }

    pub fn get_ipv4(&self) -> (r: Option<&[u8; 4]>)
        ensures
            match *self {
                TypedData::IPV4(o) => r matches Some(x) && *x == o,
                _ => r is None,
            },
    {
        match self {
            Self::IPV4(v) => Some(v),
            _ => None,
        }
    }

    pub fn get_ipv6(&self) -> (r: Option<&[u8; 16]>)
        ensures
            match *self {
                TypedData::IPV6(o) => r matches Some(x) && *x == o,
                _ => r is None,
            },
    {
        match self {
            Self::IPV6(v) => Some(v),
            _ => None,
        }
    }

    pub fn get_string(&self) -> (r: Option<&VarintString>)
        ensures
            match *self {
                TypedData::STRING(s) => r matches Some(x) && *x == s,
                _ => r is None,
            },
    {
        match self {
            Self::STRING(v) => Some(v),
            _ => None,
        }
    }

    pub fn get_binary(&self) -> (r: Option<&VarintBinary>)
        ensures
            match *self {
                TypedData::BINARY(b) => r matches Some(x) && *x == b,
                _ => r is None,
            },
    {
        match self {
            Self::BINARY(v) => Some(v),
            _ => None,
        }
    }
}

impl TypedData {
    /// Decodes the typed value that starts at `pos`, returning it and the
    /// position just past it.
    #[verifier::rlimit(50)]
    pub fn decode(bytes: &[u8], pos: usize) -> (r: Result<(TypedData, usize), TypedDataParseError>)
        requires
            pos <= bytes@.len(),
        ensures
            match r {
                Ok((d, end)) => {
                    &&& typed_data_dec(bytes@.skip(pos as int)) == Ok::<_, TypedDataParseError>(
                        (d@, end - pos),
                    )
                    &&& pos < end <= bytes@.len()
                    &&& typed_data_wf(d@)
                },
                Err(e) => typed_data_dec(bytes@.skip(pos as int)) == Err::<(TypedDataV, int), _>(e),
            },
    {
        let ghost s = bytes@.skip(pos as int);
        if pos >= bytes.len() {
            return Err(TypedDataParseError::InsufficientBytes);
        }
        let tag = bytes[pos];
        let ty = tag % 16;
        let p = pos + 1;
        assert(s[0] == tag);
        assert(s.skip(1) =~= bytes@.skip(p as int));
        if ty == 0 {
            Ok((TypedData::NULL, p))
        } else if ty == 1 {
            Ok((TypedData::BOOL(tag >= 128), p))
        } else if ty == 2 {
            let (v, end) = match Varint::decode(bytes, p) {
                Ok(v) => v,
                Err(_) => {
                    return Err(TypedDataParseError::InsufficientBytes);
                },
            };
            match v.i32_val() {
                Some(val) => Ok((TypedData::INT32(val), end)),
                None => Err(TypedDataParseError::Invalid),
            }
        } else if ty == 3 {
            let (v, end) = match Varint::decode(bytes, p) {
                Ok(v) => v,
                Err(_) => {
                    return Err(TypedDataParseError::InsufficientBytes);
                },
            };
            match v.u32_val() {
                Some(val) => Ok((TypedData::UINT32(val), end)),
                None => Err(TypedDataParseError::Invalid),
            }
        } else if ty == 4 {
            let (v, end) = match Varint::decode(bytes, p) {
                Ok(v) => v,
                Err(_) => {
                    return Err(TypedDataParseError::InsufficientBytes);
                },
            };
            Ok((TypedData::INT64(v.i64_val()), end))
        } else if ty == 5 {
            let (v, end) = match Varint::decode(bytes, p) {
                Ok(v) => v,
                Err(_) => {
                    return Err(TypedDataParseError::InsufficientBytes);
                },
            };
            Ok((TypedData::UINT64(v.u64_val()), end))
        } else if ty == 6 {
            if bytes.len() - p < 4 {
                return Err(TypedDataParseError::InsufficientBytes);
            }
            let o: [u8; 4] = [bytes[p], bytes[p + 1], bytes[p + 2], bytes[p + 3]];
            assert(o@ =~= bytes@.skip(p as int).take(4));
            Ok((TypedData::IPV4(o), p + 4))
        } else if ty == 7 {
            if bytes.len() - p < 16 {
                return Err(TypedDataParseError::InsufficientBytes);
            }
            let o: [u8; 16] = [
                bytes[p],
                bytes[p + 1],
                bytes[p + 2],
                bytes[p + 3],
                bytes[p + 4],
                bytes[p + 5],
                bytes[p + 6],
                bytes[p + 7],
                bytes[p + 8],
                bytes[p + 9],
                bytes[p + 10],
                bytes[p + 11],
                bytes[p + 12],
                bytes[p + 13],
                bytes[p + 14],
                bytes[p + 15],
            ];
            assert(o@ =~= bytes@.skip(p as int).take(16));
            Ok((TypedData::IPV6(o), p + 16))
        } else if ty == 8 {
            match VarintString::decode(bytes, p) {
                Ok((v, end)) => {
                    proof {
                        lemma_decoded_string_wf(bytes@.skip(p as int), v@, end - p);
                    }
                    Ok((TypedData::STRING(v), end))
                },
                Err(e) => Err(match e {
                    VarintStringParseError::InsufficientBytes => TypedDataParseError::InsufficientBytes,
                    VarintStringParseError::Invalid => TypedDataParseError::Invalid,
                }),
            }
        } else if ty == 9 {
            match VarintBinary::decode(bytes, p) {
                Ok((v, end)) => {
                    proof {
                        crate::varint_binary::lemma_varint_binary_dec_bounds(
                            bytes@.skip(p as int),
                        );
                    }
                    Ok((TypedData::BINARY(v), end))
                },
                Err(_) => Err(TypedDataParseError::InsufficientBytes),
            }
        } else {
            Err(TypedDataParseError::InvalidType)
        }
    }

    /// Appends the typed value's wire encoding to `buf`.
    pub fn write_to(&self, buf: &mut Vec<u8>)
        ensures
            final(buf)@ == old(buf)@ + typed_data_enc(self@),
    {
        match self {
            TypedData::NULL => {
                buf.push(0u8);
            },
            TypedData::BOOL(val) => {
                buf.push(if *val {
                    0x81u8
                } else {
                    0x01u8
                });
            },
            TypedData::INT32(val) => {
                buf.push(2u8);
                Varint((*val as u32) as u64).write_to(buf);
            },
            TypedData::UINT32(val) => {
                buf.push(3u8);
                Varint(*val as u64).write_to(buf);
            },
            TypedData::INT64(val) => {
                buf.push(4u8);
                Varint(*val as u64).write_to(buf);
            },
            TypedData::UINT64(val) => {
                buf.push(5u8);
                Varint(*val).write_to(buf);
            },
            TypedData::IPV4(o) => {
                buf.push(6u8);
                let mut tail = vstd::slice::slice_to_vec(o.as_slice());
                buf.append(&mut tail);
            },
            TypedData::IPV6(o) => {
                buf.push(7u8);
                let mut tail = vstd::slice::slice_to_vec(o.as_slice());
                buf.append(&mut tail);
            },
            TypedData::STRING(s) => {
                buf.push(8u8);
                s.write_to(buf);
            },
            TypedData::BINARY(b) => {
                buf.push(9u8);
                b.write_to(buf);
            },
        }
        assert(buf@ =~= old(buf)@ + typed_data_enc(self@));
    }
}

/// A decoded typed value occupies at least one byte of the input and at most
/// all of it.
pub proof fn lemma_typed_data_dec_bounds(s: Seq<u8>)
    ensures
        typed_data_dec(s) matches Ok((d, n)) ==> 1 <= n <= s.len(),
{
    if typed_data_dec(s) is Ok {
        let rest = s.skip(1);
        crate::varint::lemma_varint_dec_bounds(rest);
        crate::varint_string::lemma_varint_string_dec_bounds(rest);
        crate::varint_binary::lemma_varint_binary_dec_bounds(rest);
    }
}

/// A string accepted by the string decoder always satisfies the typed-value
/// well-formedness bound: its encoding fits in the bytes it was read from.
pub proof fn lemma_decoded_string_wf(s: Seq<u8>, chars: Seq<char>, n: int)
    requires
        varint_string_dec(s) == Ok::<_, VarintStringParseError>((chars, n)),
    ensures
        vstd::utf8::encode_utf8(chars).len() <= u64::MAX,
{
    assert(varint_dec_u64(s) is Some);
    crate::varint::lemma_varint_dec_bounds(s);
    let (len, k) = varint_dec_u64(s).unwrap();
    assert(1 <= k <= s.len());
    assert(s.len() - k >= len);
    let payload = s.subrange(k, k + len as int);
    assert(vstd::utf8::valid_utf8(payload));
    assert(chars == vstd::utf8::decode_utf8(payload));
    vstd::utf8::decode_utf8_encode_utf8(payload);
    assert(vstd::utf8::encode_utf8(chars).len() == payload.len());
}

proof fn lemma_typed_rt_null(rest: Seq<u8>, whole: Seq<u8>)
    requires
        whole == typed_data_enc(TypedDataV::NULL) + rest,
    ensures
        typed_data_dec(whole) == Ok::<_, TypedDataParseError>((TypedDataV::NULL, 1int)),
{
    assert(whole[0] == 0u8);
}

proof fn lemma_typed_rt_bool(b: bool, rest: Seq<u8>, whole: Seq<u8>)
    requires
        whole == typed_data_enc(TypedDataV::BOOL(b)) + rest,
    ensures
        typed_data_dec(whole) == Ok::<_, TypedDataParseError>((TypedDataV::BOOL(b), 1int)),
{
    assert(whole[0] == if b {
        0x81u8
    } else {
        0x01u8
    });
}

proof fn lemma_typed_rt_int32(v: i32, rest: Seq<u8>, whole: Seq<u8>)
    requires
        whole == typed_data_enc(TypedDataV::INT32(v)) + rest,
    ensures
        typed_data_dec(whole) == Ok::<_, TypedDataParseError>(
            (TypedDataV::INT32(v), typed_data_enc(TypedDataV::INT32(v)).len() as int),
        ),
{
    assert(whole[0] == 2u8);
    let u: u64 = (v as u32) as u64;
    crate::varint::lemma_varint_round_trip(u, rest);
    assert(whole.skip(1) =~= varint_enc(u as nat) + rest);
    assert(((v as u32) as u64) as u32 == v as u32) by (bit_vector);
    assert(((v as u32) as u64) <= u32::MAX) by (bit_vector);
    assert((v as u32) as i32 == v) by (bit_vector);
}

proof fn lemma_typed_rt_uint32(v: u32, rest: Seq<u8>, whole: Seq<u8>)
    requires
        whole == typed_data_enc(TypedDataV::UINT32(v)) + rest,
    ensures
        typed_data_dec(whole) == Ok::<_, TypedDataParseError>(
            (TypedDataV::UINT32(v), typed_data_enc(TypedDataV::UINT32(v)).len() as int),
        ),
{
    assert(whole[0] == 3u8);
    crate::varint::lemma_varint_round_trip(v as u64, rest);
    assert(whole.skip(1) =~= varint_enc(v as nat) + rest);
    assert((v as u64) as u32 == v) by (bit_vector);
    assert((v as u64) <= u32::MAX) by (bit_vector);
}

proof fn lemma_typed_rt_int64(v: i64, rest: Seq<u8>, whole: Seq<u8>)
    requires
        whole == typed_data_enc(TypedDataV::INT64(v)) + rest,
    ensures
        typed_data_dec(whole) == Ok::<_, TypedDataParseError>(
            (TypedDataV::INT64(v), typed_data_enc(TypedDataV::INT64(v)).len() as int),
        ),
{
    assert(whole[0] == 4u8);
    let u: u64 = v as u64;
    crate::varint::lemma_varint_round_trip(u, rest);
    assert(whole.skip(1) =~= varint_enc(u as nat) + rest);
    assert((v as u64) as i64 == v) by (bit_vector);
}

proof fn lemma_typed_rt_uint64(v: u64, rest: Seq<u8>, whole: Seq<u8>)
    requires
        whole == typed_data_enc(TypedDataV::UINT64(v)) + rest,
    ensures
        typed_data_dec(whole) == Ok::<_, TypedDataParseError>(
            (TypedDataV::UINT64(v), typed_data_enc(TypedDataV::UINT64(v)).len() as int),
        ),
{
    assert(whole[0] == 5u8);
    crate::varint::lemma_varint_round_trip(v, rest);
    assert(whole.skip(1) =~= varint_enc(v as nat) + rest);
}

proof fn lemma_typed_rt_ipv4(o: Seq<u8>, rest: Seq<u8>, whole: Seq<u8>)
    requires
        o.len() == 4,
        whole == typed_data_enc(TypedDataV::IPV4(o)) + rest,
    ensures
        typed_data_dec(whole) == Ok::<_, TypedDataParseError>((TypedDataV::IPV4(o), 5int)),
{
    assert(whole[0] == 6u8);
    assert(whole.skip(1).take(4) =~= o);
}

proof fn lemma_typed_rt_ipv6(o: Seq<u8>, rest: Seq<u8>, whole: Seq<u8>)
    requires
        o.len() == 16,
        whole == typed_data_enc(TypedDataV::IPV6(o)) + rest,
    ensures
        typed_data_dec(whole) == Ok::<_, TypedDataParseError>((TypedDataV::IPV6(o), 17int)),
{
    assert(whole[0] == 7u8);
    assert(whole.skip(1).take(16) =~= o);
}

proof fn lemma_typed_rt_string(str: Seq<char>, rest: Seq<u8>, whole: Seq<u8>)
    requires
        vstd::utf8::encode_utf8(str).len() <= u64::MAX,
        whole == typed_data_enc(TypedDataV::STRING(str)) + rest,
    ensures
        typed_data_dec(whole) == Ok::<_, TypedDataParseError>(
            (TypedDataV::STRING(str), typed_data_enc(TypedDataV::STRING(str)).len() as int),
        ),
{
    assert(whole[0] == 8u8);
    crate::varint_string::lemma_varint_string_round_trip(str, rest);
    assert(whole.skip(1) =~= varint_string_enc(str) + rest);
}

proof fn lemma_typed_rt_binary(b: Seq<u8>, rest: Seq<u8>, whole: Seq<u8>)
    requires
        b.len() <= u64::MAX,
        whole == typed_data_enc(TypedDataV::BINARY(b)) + rest,
    ensures
        typed_data_dec(whole) == Ok::<_, TypedDataParseError>(
            (TypedDataV::BINARY(b), typed_data_enc(TypedDataV::BINARY(b)).len() as int),
        ),
{
    assert(whole[0] == 9u8);
    crate::varint_binary::lemma_varint_binary_round_trip(b, rest);
    assert(whole.skip(1) =~= varint_binary_enc(b) + rest);
}

/// Encode/decode round trip for typed values: decoding any byte stream that
/// starts with the encoding of a well-formed value yields exactly that value.
pub proof fn lemma_typed_data_round_trip(d: TypedDataV, rest: Seq<u8>)
    requires
        typed_data_wf(d),
    ensures
        typed_data_dec(typed_data_enc(d) + rest) == Ok::<_, TypedDataParseError>(
            (d, typed_data_enc(d).len() as int),
        ),
{
    let whole = typed_data_enc(d) + rest;
    match d {
        TypedDataV::NULL => lemma_typed_rt_null(rest, whole),
        TypedDataV::BOOL(b) => lemma_typed_rt_bool(b, rest, whole),
        TypedDataV::INT32(v) => lemma_typed_rt_int32(v, rest, whole),
        TypedDataV::UINT32(v) => lemma_typed_rt_uint32(v, rest, whole),
        TypedDataV::INT64(v) => lemma_typed_rt_int64(v, rest, whole),
        TypedDataV::UINT64(v) => lemma_typed_rt_uint64(v, rest, whole),
        TypedDataV::IPV4(o) => lemma_typed_rt_ipv4(o, rest, whole),
        TypedDataV::IPV6(o) => lemma_typed_rt_ipv6(o, rest, whole),
        TypedDataV::STRING(str) => lemma_typed_rt_string(str, rest, whole),
        TypedDataV::BINARY(b) => lemma_typed_rt_binary(b, rest, whole),
    }
}

} // verus!
