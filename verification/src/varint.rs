use vstd::prelude::*;

verus! {

use vstd::arithmetic::div_mod::{
    lemma_add_mod_noop,
    lemma_fundamental_div_mod,
    lemma_mod_twice,
    lemma_mul_mod_noop_general,
};

/// An SPOP variable-width unsigned integer, holding any `u64` value.
///
/// Wire form: a leading byte `b0`; if `b0 < 240` the value is `b0` itself.
/// Otherwise continuation bytes `b1, b2, ...` follow while each byte read is
/// at least 128 (the terminating byte is below 128), and the value is
/// `b0 + b1*2^4 + b2*2^11 + ... = b0 + sum_i bi*2^(4 + 7*(i-1))`.
#[derive(Clone, Copy, Debug)]
pub struct Varint(pub u64);

impl View for Varint {
    type V = u64;

    open spec fn view(&self) -> u64 {
        self.0
    }
}

impl From<u32> for Varint {
    fn from(v: u32) -> (r: Self) {
        Varint(v as u64)
    }
}

impl vstd::std_specs::convert::FromSpecImpl<u32> for Varint {
    open spec fn obeys_from_spec() -> bool {
        true
    }

    open spec fn from_spec(v: u32) -> Self {
        Varint(v as u64)
    }
}

impl From<u64> for Varint {
    fn from(v: u64) -> (r: Self) {
        Varint(v)
    }
}

impl vstd::std_specs::convert::FromSpecImpl<u64> for Varint {
    open spec fn obeys_from_spec() -> bool {
        true
    }

    open spec fn from_spec(v: u64) -> Self {
        Varint(v)
    }
}

impl Varint {
    /// The full value.
    pub fn u64_val(&self) -> (r: u64)
        ensures
            r == self@,
    {
        self.0
    }

    /// The value reinterpreted as a signed 64-bit integer (two's complement).
    pub fn i64_val(&self) -> (r: i64)
        ensures
            r == self@ as i64,
    {
        self.0 as i64
    }

    /// The value as a `u32`, if it fits.
    pub fn u32_val(&self) -> (r: Option<u32>)
        ensures
            self@ <= u32::MAX ==> r == Some(self@ as u32),
            self@ > u32::MAX ==> r is None,
    {
        if self.0 <= u32::MAX as u64 {
            Some(self.0 as u32)
        } else {
            None
        }
    }

    /// The low 32 bits reinterpreted as a signed integer, if the value fits
    /// in 32 bits.
    pub fn i32_val(&self) -> (r: Option<i32>)
        ensures
            self@ <= u32::MAX ==> r == Some((self@ as u32) as i32),
            self@ > u32::MAX ==> r is None,
    {
        match self.u32_val() {
            Some(v) => Some(v as i32),
            None => None,
        }
    }
}

/// The canonical encoding of the continuation part: the 7-bit scheme in which
/// every byte but the last carries `r % 128` with the high bit set, and the
/// remainder shrinks to `(r - 128) / 128`.
pub open spec fn varint_tail_enc(r: nat) -> Seq<u8>
    decreases r,
{
    if r < 128 {
        seq![r as u8]
    } else {
        seq![(r % 128 + 128) as u8] + varint_tail_enc(((r - 128) / 128) as nat)
    }
}

/// The canonical (shortest) wire encoding of a varint value.
pub open spec fn varint_enc(v: nat) -> Seq<u8> {
    if v < 240 {
        seq![v as u8]
    } else {
        seq![(240 + v % 16) as u8] + varint_tail_enc(((v - 240) / 16) as nat)
    }
}

/// Decodes the continuation part at the front of `s`: the mathematical value
/// `b0 + b1*2^7 + b2*2^14 + ...` of the bytes up to and including the first
/// byte below 128, together with how many bytes that is.  `None` when the
/// sequence ends before a terminating byte.
pub open spec fn varint_tail_dec(s: Seq<u8>) -> Option<(nat, int)>
    decreases s.len(),
{
    if s.len() == 0 {
        None
    } else if s[0] < 128 {
        Some((s[0] as nat, 1))
    } else {
        match varint_tail_dec(s.skip(1)) {
            None => None,
            Some((t, n)) => Some(((s[0] + 128 * t) as nat, n + 1)),
        }
    }
}

/// Decodes the minimal complete varint at the front of `s`: its mathematical
/// value (which exceeds `u64::MAX` only on non-canonical input) and the
/// number of bytes it occupies.  `None` when `s` ends inside the varint.
pub open spec fn varint_dec(s: Seq<u8>) -> Option<(nat, int)> {
    if s.len() == 0 {
        None
    } else if s[0] < 240 {
        Some((s[0] as nat, 1))
    } else {
        match varint_tail_dec(s.skip(1)) {
            None => None,
            Some((t, n)) => Some(((s[0] + 16 * t) as nat, n + 1)),
        }
    }
}

proof fn lemma_varint_tail_round_trip(r: nat, rest: Seq<u8>)
    ensures
        varint_tail_dec(varint_tail_enc(r) + rest) == Some::<(nat, int)>(
            (r, varint_tail_enc(r).len() as int),
        ),
    decreases r,
{
    if r < 128 {
        assert((varint_tail_enc(r) + rest)[0] == r as u8);
        assert((varint_tail_enc(r) + rest).skip(1) =~= rest);
    } else {
        let b: u8 = (r % 128 + 128) as u8;
        let q: nat = ((r - 128) / 128) as nat;
        lemma_varint_tail_round_trip(q, rest);
        assert(varint_tail_enc(r) == seq![b] + varint_tail_enc(q));
        assert((varint_tail_enc(r) + rest).skip(1) =~= varint_tail_enc(q) + rest);
        assert((varint_tail_enc(r) + rest)[0] == b);
        lemma_fundamental_div_mod((r - 128) as int, 128);
        assert(r == 128 + 128 * q + (r - 128) % 128);
        assert((r - 128) % 128 == (r - 128 - 128 * q));
        assert(r % 128 == (r - 128) % 128) by {
            lemma_fundamental_div_mod(r as int, 128);
            vstd::arithmetic::div_mod::lemma_mod_sub_multiples_vanish(r as int, 128);
        }
        assert(b + 128 * q == r);
    }
}

/// Encode/decode round trip: decoding any byte stream that starts with the
/// canonical encoding of `v` yields exactly `v`, consuming exactly the
/// encoding.
pub proof fn lemma_varint_round_trip(v: u64, rest: Seq<u8>)
    ensures
        varint_dec(varint_enc(v as nat) + rest) == Some::<(nat, int)>(
            (v as nat, varint_enc(v as nat).len() as int),
        ),
{
    let vn = v as nat;
    if vn < 240 {
        assert((varint_enc(vn) + rest)[0] == v as u8);
        assert((varint_enc(vn) + rest).skip(1) =~= rest);
    } else {
        let b: u8 = (240 + vn % 16) as u8;
        let q: nat = ((vn - 240) / 16) as nat;
        lemma_varint_tail_round_trip(q, rest);
        assert(varint_enc(vn) == seq![b] + varint_tail_enc(q));
        assert((varint_enc(vn) + rest).skip(1) =~= varint_tail_enc(q) + rest);
        assert((varint_enc(vn) + rest)[0] == b);
        lemma_fundamental_div_mod((vn - 240) as int, 16);
        assert(vn % 16 == (vn - 240) % 16) by {
            lemma_fundamental_div_mod(vn as int, 16);
            vstd::arithmetic::div_mod::lemma_mod_sub_multiples_vanish(vn as int, 16);
        }
        assert(b + 16 * q == vn);
    }
}

proof fn lemma_varint_tail_dec_bounds(s: Seq<u8>)
    ensures
        varint_tail_dec(s) matches Some((t, n)) ==> 1 <= n <= s.len(),
    decreases s.len(),
{
    if s.len() == 0 {
    } else if s[0] < 128 {
    } else {
        lemma_varint_tail_dec_bounds(s.skip(1));
    }
}

/// A decoded varint occupies at least one byte and at most the whole input.
pub proof fn lemma_varint_dec_bounds(s: Seq<u8>)
    ensures
        varint_dec(s) matches Some((v, n)) ==> 1 <= n <= s.len(),
        varint_dec_u64(s) matches Some((v, n)) ==> 1 <= n <= s.len(),
{
    if s.len() != 0 && s[0] >= 240 {
        lemma_varint_tail_dec_bounds(s.skip(1));
    }
}

/// The reason a varint fails to decode.
#[derive(Clone, Copy, PartialEq, Eq, Structural, Debug)]
pub enum VarintParseError {
    InsufficientBytes,
}

impl Varint {
    /// Appends the canonical encoding of the value to `buf`.
    pub fn write_to(&self, buf: &mut Vec<u8>)
        ensures
            final(buf)@ == old(buf)@ + varint_enc(self@ as nat),
    {
        let v = self.0;
        if v < 240 {
            buf.push(v as u8);
            assert(buf@ =~= old(buf)@ + varint_enc(v as nat));
        } else {
            buf.push((240 + (v % 16)) as u8);
            let mut r: u64 = (v - 240) / 16;
            assert(buf@ + varint_tail_enc(r as nat) =~= old(buf)@ + varint_enc(v as nat));
            loop
                invariant_except_break
                    buf@ + varint_tail_enc(r as nat) == old(buf)@ + varint_enc(v as nat),
                ensures
                    buf@ == old(buf)@ + varint_enc(v as nat),
                decreases r,
            {
                if r < 128 {
                    buf.push(r as u8);
                    assert(buf@ =~= old(buf)@ + varint_enc(v as nat));
                    break;
                }
                let ghost prev = buf@;
                let ghost rprev = r as nat;
                buf.push((r % 128 + 128) as u8);
                r = (r - 128) / 128;
                assert(varint_tail_enc(rprev) == seq![(rprev % 128 + 128) as u8]
                    + varint_tail_enc(r as nat));
                assert(buf@ + varint_tail_enc(r as nat) =~= prev + varint_tail_enc(rprev));
            }
        }
    }
}

/// On a sequence whose first `k` bytes are all continuation bytes (>= 128),
/// the tail decoding splits into the value of those `k` bytes plus
/// `128^k` times the decoding of the rest.
proof fn lemma_tail_dec_split(s: Seq<u8>, k: int, acc: nat, p: nat)
    requires
        0 <= k <= s.len(),
        forall|j: int| 0 <= j < k ==> s[j] >= 128,
        acc == partial_tail_val(s.take(k)),
        p == pow128(k as nat),
    ensures
        varint_tail_dec(s) == match varint_tail_dec(s.skip(k)) {
            None => None::<(nat, int)>,
            Some((t, n)) => Some(((acc + p * t) as nat, k + n)),
        },
    decreases k,
{
    if k == 0 {
        assert(s.skip(0) =~= s);
        assert(s.take(0) =~= Seq::<u8>::empty());
        if varint_tail_dec(s) is Some {
            let (t, n) = varint_tail_dec(s).unwrap();
            assert(1 * t == t) by (nonlinear_arith);
        }
    } else {
        assert(s.len() >= 1);
        assert(s[0] >= 128);
        let s1 = s.skip(1);
        let acc1: nat = partial_tail_val(s1.take(k - 1));
        let p1: nat = pow128((k - 1) as nat);
        assert(s1.take(k - 1) =~= s.take(k).skip(1));
        lemma_tail_dec_split(s1, k - 1, acc1, p1);
        assert(s1.skip(k - 1) =~= s.skip(k));
        assert(partial_tail_val(s.take(k)) == s.take(k)[0] + 128 * acc1);
        assert(pow128(k as nat) == 128 * p1);
        match varint_tail_dec(s.skip(k)) {
            None => {
                assert(varint_tail_dec(s1) is None);
            },
            Some((t, n)) => {
                assert(varint_tail_dec(s1) == Some::<(nat, int)>(
                    ((acc1 + p1 * t) as nat, k - 1 + n),
                ));
                assert(varint_tail_dec(s) == Some::<(nat, int)>(
                    ((s[0] + 128 * (acc1 + p1 * t)) as nat, k + n),
                ));
                assert(s[0] + 128 * (acc1 + p1 * t) == (s[0] + 128 * acc1) + (128 * p1) * t)
                    by (nonlinear_arith);
                assert(s.take(k)[0] == s[0]);
            },
        }
    }
}

/// The mathematical decoding reduced to the width of the accumulator: the
/// value of `varint_dec` modulo `2^64`, which equals the value itself on
/// every canonical encoding.  Higher layers of the grammar read varints
/// through this function.
pub open spec fn varint_dec_u64(s: Seq<u8>) -> Option<(u64, int)> {
    match varint_dec(s) {
        None => None,
        Some((v, n)) => Some(((v % 0x1_0000_0000_0000_0000) as u64, n)),
    }
}

impl Varint {
    /// Decodes the varint that starts at `pos`, returning it and the position
    /// just past it.  Fails exactly when `bytes` ends inside the varint.
    pub fn decode(bytes: &[u8], pos: usize) -> (r: Result<(Varint, usize), VarintParseError>)
        requires
            pos <= bytes@.len(),
        ensures
            match r {
                Ok((v, end)) => {
                    &&& varint_dec_u64(bytes@.skip(pos as int)) == Some::<(u64, int)>(
                        (v@, end - pos),
                    )
                    &&& pos < end <= bytes@.len()
                },
                Err(e) => {
                    &&& varint_dec_u64(bytes@.skip(pos as int)) is None
                    &&& e == VarintParseError::InsufficientBytes
                },
            },
    {
        let ghost m: int = 0x1_0000_0000_0000_0000;
        let ghost s = bytes@.skip(pos as int);
        if pos >= bytes.len() {
            return Err(VarintParseError::InsufficientBytes);
        }
        let b0 = bytes[pos];
        let mut i: usize = pos + 1;
        let mut val: u64 = b0 as u64;
        assert(s[0] == b0);
        if b0 < 240 {
            return Ok((Varint(val), i));
        }
        let ghost t = s.skip(1);
        let mut mult: u64 = 16;
        assert(t =~= bytes@.skip(pos + 1));
        assert(val as int == ((b0 + 16 * partial_tail_val(t.take(0))) as int) % m) by {
            assert(t.take(0) =~= Seq::<u8>::empty());
        }
        assert(mult as int == ((16 * pow128(0)) as int) % m);
        loop
            invariant
                pos + 1 <= i <= bytes@.len(),
                s == bytes@.skip(pos as int),
                t == s.skip(1),
                t == bytes@.skip(pos + 1),
                s.len() >= 1,
                s[0] == b0,
                240 <= b0,
                0 <= i - pos - 1 <= t.len(),
                forall|j: int| 0 <= j < i - pos - 1 ==> t[j] >= 128,
                val as int == ((b0 + 16 * partial_tail_val(t.take(i - pos - 1))) as int) % m,
                mult as int == ((16 * pow128((i - pos - 1) as nat)) as int) % m,
                m == 0x1_0000_0000_0000_0000,
            decreases bytes@.len() - i,
        {
            let ghost k: int = i - pos - 1;
            let ghost acc: nat = partial_tail_val(t.take(k));
            let ghost p: nat = pow128(k as nat);
            if i >= bytes.len() {
                proof {
                    lemma_tail_dec_split(t, k, acc, p);
                    assert(t.skip(k) =~= Seq::<u8>::empty());
                }
                return Err(VarintParseError::InsufficientBytes);
            }
            let b = bytes[i];
            i = i + 1;
            assert(t[k] == b);
            let ghost oldval = val as int;
            let ghost oldmult = mult as int;
            val = val.wrapping_add((b as u64).wrapping_mul(mult));
            mult = mult.wrapping_mul(128);
            proof {
                lemma_mod_mul_in(b as int, oldmult, 16 * p as int, m);
                lemma_mod_add_in(oldval, (b0 + 16 * acc) as int, (b * (16 * p as int)), m);
                assert(b0 + 16 * acc + b * (16 * p as int) == b0 + 16 * (acc + p * b))
                    by (nonlinear_arith);
                lemma_mod_mul_in(128, oldmult, 16 * p as int, m);
                assert(128 * (16 * p as int) == 16 * (128 * p as int)) by (nonlinear_arith);
                assert(pow128((k + 1) as nat) == 128 * p);
                lemma_ptv_step(t, k);
                assert(partial_tail_val(t.take(k + 1)) == acc + p * b);
            }
            if b < 128 {
                proof {
                    lemma_tail_dec_split(t, k, acc, p);
                    assert(t.skip(k)[0] == b);
                    assert(varint_tail_dec(t.skip(k)) == Some::<(nat, int)>((b as nat, 1)));
                    assert(varint_dec(s) == Some::<(nat, int)>(
                        ((b0 + 16 * ((acc + p * b) as nat)) as nat, k + 2),
                    ));
                }
                return Ok((Varint(val), i));
            }
        }
    }
}

/// Multiplying both sides of a congruence: if `x == y % m` then
/// `(z * x) % m == (z * y) % m`.
proof fn lemma_mod_mul_in(z: int, x: int, y: int, m: int)
    requires
        m > 0,
        x == y % m,
    ensures
        (z * x) % m == (z * y) % m,
{
    lemma_mul_mod_noop_general(z, y, m);
    lemma_mul_mod_noop_general(z, x, m);
    lemma_mod_twice(y, m);
}

/// Adding under a congruence: if `x == y % m` then
/// `(x + c) % m == (y + c) % m`.
proof fn lemma_mod_add_in(x: int, y: int, c: int, m: int)
    requires
        m > 0,
        x == y % m,
    ensures
        (x + c) % m == (y + c) % m,
{
    lemma_add_mod_noop(y, c, m);
    lemma_add_mod_noop(x, c, m);
    lemma_mod_twice(y, m);
}

/// Extending a partial continuation run by one byte adds that byte scaled by
/// `128^k`.
proof fn lemma_ptv_step(s: Seq<u8>, k: int)
    requires
        0 <= k < s.len(),
    ensures
        partial_tail_val(s.take(k + 1)) == partial_tail_val(s.take(k)) + pow128(k as nat) * s[k],
    decreases k,
{
    if k == 0 {
        assert(s.take(0) =~= Seq::<u8>::empty());
        assert(s.take(1) =~= seq![s[0]]);
        assert(s.take(1).skip(1) =~= Seq::<u8>::empty());
        assert(partial_tail_val(s.take(1)) == s.take(1)[0] + 128 * partial_tail_val(
            s.take(1).skip(1),
        ));
        assert(partial_tail_val(s.take(1)) == s[0]);
        assert(pow128(0) == 1);
        assert(1 * (s[0] as nat) == s[0] as nat) by (nonlinear_arith);
        assert(pow128(0) * s[0] == s[0]);
    } else {
        lemma_ptv_step(s.skip(1), k - 1);
        let a: nat = partial_tail_val(s.skip(1).take(k - 1));
        let b: nat = pow128((k - 1) as nat);
        assert(s.skip(1)[k - 1] == s[k]);
        assert(partial_tail_val(s.skip(1).take(k)) == a + b * s[k]);
        assert(partial_tail_val(s.take(k + 1)) == s.take(k + 1)[0] + 128 * partial_tail_val(
            s.take(k + 1).skip(1),
        ));
        assert(s.take(k + 1).skip(1) =~= s.skip(1).take(k));
        assert(s.take(k + 1)[0] == s[0]);
        assert(partial_tail_val(s.take(k + 1)) == s[0] + 128 * (a + b * s[k]));
        assert(partial_tail_val(s.take(k)) == s.take(k)[0] + 128 * partial_tail_val(
            s.take(k).skip(1),
        ));
        assert(s.take(k).skip(1) =~= s.skip(1).take(k - 1));
        assert(s.take(k)[0] == s[0]);
        assert(partial_tail_val(s.take(k)) == s[0] + 128 * a);
        let c: nat = b * (s[k] as nat);
        assert(128 * (a + c) == 128 * a + 128 * c) by (nonlinear_arith);
        assert((128 * b) * (s[k] as nat) == 128 * (b * (s[k] as nat))) by (nonlinear_arith);
        assert(pow128(k as nat) == 128 * b);
        assert(pow128(k as nat) * s[k] == 128 * c);
        assert(partial_tail_val(s.take(k + 1)) == s[0] + 128 * a + 128 * c);
    }
}

/// The value carried by a (possibly unterminated) run of continuation bytes:
/// `b0 + b1*2^7 + b2*2^14 + ...` over all of `s`.
pub open spec fn partial_tail_val(s: Seq<u8>) -> nat
    decreases s.len(),
{
    if s.len() == 0 {
        0
    } else {
        (s[0] + 128 * partial_tail_val(s.skip(1))) as nat
    }
}

pub open spec fn pow128(k: nat) -> nat
    decreases k,
{
    if k == 0 {
        1
    } else {
        128 * pow128((k - 1) as nat)
    }
}

} // verus!
